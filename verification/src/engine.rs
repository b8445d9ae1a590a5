//! The rule engine: a pure function from a port-name snapshot and a rule set
//! to an ordered list of commands.
//!
//! For each rule, in declaration order, one command is emitted for every
//! `(from, to)` pair of snapshot ports whose names match the rule's source
//! and dest patterns — the full cross product, in snapshot order, `from`
//! varying slowest.  Connect rules are evaluated before disconnect rules.
//! Nothing is deduplicated and self-pairs are not filtered.

use vstd::prelude::*;

use crate::pattern::{regex_match, Pattern};
use crate::rules::{rule_views, Action, Command, CommandView, Rule, RuleSet, RuleSetView, RuleView};

verus! {

broadcast use vstd::seq_lib::group_seq_lib_default;

/// The port names of a snapshot, as character sequences, in the order the
/// audio server reported them.
pub open spec fn port_views(snapshot: Seq<String>) -> Seq<Seq<char>> {
    snapshot.map_values(|p: String| p@)
}

/// The mathematical values of a list of commands, in order.
pub open spec fn cmd_views(commands: Seq<Command>) -> Seq<CommandView> {
    commands.map_values(|c: Command| c@)
}

/// The snapshot ports whose names match `pattern`, in snapshot order.
pub open spec fn matching_ports(snapshot: Seq<Seq<char>>, pattern: Seq<char>) -> Seq<Seq<char>>
    decreases snapshot.len(),
{
    if snapshot.len() == 0 {
        Seq::<Seq<char>>::empty()
    } else {
        let rest = matching_ports(snapshot.drop_last(), pattern);
        if regex_match(pattern, snapshot.last()) {
            rest.push(snapshot.last())
        } else {
            rest
        }
    }
}

/// The commands one matched source port `from` contributes: one per snapshot
/// port matching `dest`, in snapshot order.
pub open spec fn commands_for_source(
    action: Action,
    from: Seq<char>,
    snapshot: Seq<Seq<char>>,
    dest: Seq<char>,
) -> Seq<CommandView>
    decreases snapshot.len(),
{
    if snapshot.len() == 0 {
        Seq::<CommandView>::empty()
    } else {
        let rest = commands_for_source(action, from, snapshot.drop_last(), dest);
        if regex_match(dest, snapshot.last()) {
            rest.push(CommandView { action, from, to: snapshot.last() })
        } else {
            rest
        }
    }
}

/// The commands of one rule restricted to source ports among the first `k`
/// snapshot entries; dest ports always range over the whole snapshot.
pub open spec fn commands_for_rule_prefix(
    action: Action,
    rule: RuleView,
    snapshot: Seq<Seq<char>>,
    k: int,
) -> Seq<CommandView>
    decreases k,
{
    if k <= 0 {
        Seq::<CommandView>::empty()
    } else {
        commands_for_rule_prefix(action, rule, snapshot, k - 1) + (if regex_match(
            rule.source,
            snapshot[k - 1],
        ) {
            commands_for_source(action, snapshot[k - 1], snapshot, rule.dest)
        } else {
            Seq::<CommandView>::empty()
        })
    }
}

/// All commands of one rule: the cross product of its matching source ports
/// and matching dest ports, in snapshot order, source varying slowest.
pub open spec fn commands_for_rule(
    action: Action,
    rule: RuleView,
    snapshot: Seq<Seq<char>>,
) -> Seq<CommandView> {
    commands_for_rule_prefix(action, rule, snapshot, snapshot.len() as int)
}

/// The commands of a rule sequence, rule by rule in declaration order.
pub open spec fn commands_for_rules(
    action: Action,
    rules: Seq<RuleView>,
    snapshot: Seq<Seq<char>>,
) -> Seq<CommandView>
    decreases rules.len(),
{
    if rules.len() == 0 {
        Seq::<CommandView>::empty()
    } else {
        commands_for_rules(action, rules.drop_last(), snapshot) + commands_for_rule(
            action,
            rules.last(),
            snapshot,
        )
    }
}

/// What [`evaluate`] returns: every connect rule's commands, then every
/// disconnect rule's commands.
pub open spec fn evaluate_spec(snapshot: Seq<Seq<char>>, rules: RuleSetView) -> Seq<CommandView> {
    commands_for_rules(Action::Connect, rules.connect, snapshot) + commands_for_rules(
        Action::Disconnect,
        rules.disconnect,
        snapshot,
    )
}

/// Appends to `out` the commands that the source port `from` contributes for
/// dest pattern `dest`.
fn push_commands_for_source(
    out: &mut Vec<Command>,
    action: Action,
    from: &String,
    snapshot: &Vec<String>,
    dest: &Pattern,
)
    ensures
        cmd_views(final(out)@) == cmd_views(old(out)@) + commands_for_source(
            action,
            from@,
            port_views(snapshot@),
            dest@,
        ),
{
    let ghost snap = port_views(snapshot@);
    let ghost base = cmd_views(out@);
    let mut j: usize = 0;
    proof {
        assert(snap.take(0) =~= Seq::<Seq<char>>::empty());
        assert(base + commands_for_source(action, from@, snap.take(0), dest@) =~= base);
    }
    while j < snapshot.len()
        invariant
            j <= snapshot.len(),
            snap == port_views(snapshot@),
            snap.len() == snapshot.len(),
            cmd_views(out@) == base + commands_for_source(action, from@, snap.take(j as int), dest@),
        decreases snapshot.len() - j,
    {
        let to = &snapshot[j];
        proof {
            assert(snap[j as int] == to@);
            assert(snap.take(j + 1).drop_last() =~= snap.take(j as int));
            assert(snap.take(j + 1).last() == snap[j as int]);
        }
        if dest.is_match(to.as_str()) {
            let ghost prev = out@;
            out.push(Command { action, from: from.clone(), to: to.clone() });
            proof {
                prev.lemma_push_map_commute(|c: Command| c@, out@.last());
                assert(prev.push(out@.last()) == out@);
                assert(out@.last()@ == (CommandView { action, from: from@, to: to@ }));
                assert(cmd_views(out@) =~= base + commands_for_source(
                    action,
                    from@,
                    snap.take(j + 1),
                    dest@,
                ));
            }
        } else {
            proof {
                assert(commands_for_source(action, from@, snap.take(j + 1), dest@)
                    == commands_for_source(action, from@, snap.take(j as int), dest@));
            }
        }
        j += 1;
    }
    proof {
        assert(snap.take(snapshot@.len() as int) =~= snap);
    }
}

/// Appends to `out` every command of one rule: the cross product over the
/// snapshot of its source and dest matches.
fn push_commands_for_rule(out: &mut Vec<Command>, action: Action, rule: &Rule, snapshot: &Vec<String>)
    ensures
        cmd_views(final(out)@) == cmd_views(old(out)@) + commands_for_rule(
            action,
            rule@,
            port_views(snapshot@),
        ),
{
    let ghost snap = port_views(snapshot@);
    let ghost base = cmd_views(out@);
    let mut i: usize = 0;
    proof {
        assert(base + commands_for_rule_prefix(action, rule@, snap, 0) =~= base);
    }
    while i < snapshot.len()
        invariant
            i <= snapshot.len(),
            snap == port_views(snapshot@),
            snap.len() == snapshot.len(),
            cmd_views(out@) == base + commands_for_rule_prefix(action, rule@, snap, i as int),
        decreases snapshot.len() - i,
    {
        let from = &snapshot[i];
        proof {
            assert(snap[i as int] == from@);
        }
        if rule.source_pattern.is_match(from.as_str()) {
            push_commands_for_source(out, action, from, snapshot, &rule.dest_pattern);
            proof {
                assert(cmd_views(out@) =~= base + commands_for_rule_prefix(
                    action,
                    rule@,
                    snap,
                    i + 1,
                ));
            }
        } else {
            proof {
                assert(base + commands_for_rule_prefix(action, rule@, snap, i + 1) =~= base
                    + commands_for_rule_prefix(action, rule@, snap, i as int));
            }
        }
        i += 1;
    }
}

/// Appends to `out` the commands of every rule in `rules`, in declaration
/// order.
fn push_commands_for_rules(
    out: &mut Vec<Command>,
    action: Action,
    rules: &Vec<Rule>,
    snapshot: &Vec<String>,
)
    ensures
        cmd_views(final(out)@) == cmd_views(old(out)@) + commands_for_rules(
            action,
            rule_views(rules@),
            port_views(snapshot@),
        ),
{
    let ghost snap = port_views(snapshot@);
    let ghost rv = rule_views(rules@);
    let ghost base = cmd_views(out@);
    let mut r: usize = 0;
    proof {
        assert(rv.take(0) =~= Seq::<RuleView>::empty());
        assert(base + commands_for_rules(action, rv.take(0), snap) =~= base);
    }
    while r < rules.len()
        invariant
            r <= rules.len(),
            snap == port_views(snapshot@),
            rv == rule_views(rules@),
            rv.len() == rules.len(),
            cmd_views(out@) == base + commands_for_rules(action, rv.take(r as int), snap),
        decreases rules.len() - r,
    {
        let rule = &rules[r];
        proof {
            assert(rv[r as int] == rule@);
            assert(rv.take(r + 1).drop_last() =~= rv.take(r as int));
            assert(rv.take(r + 1).last() == rv[r as int]);
        }
        push_commands_for_rule(out, action, rule, snapshot);
        proof {
            assert(cmd_views(out@) =~= base + commands_for_rules(action, rv.take(r + 1), snap));
        }
        r += 1;
    }
    proof {
        assert(rv.take(rules@.len() as int) =~= rv);
    }
}

/// The rule engine.  Pure: the result is exactly [`evaluate_spec`] of the
/// snapshot's port names and the rule set — deterministic, ordered, the full
/// cross product per rule, connect rules first.
pub fn evaluate(snapshot: &Vec<String>, rules: &RuleSet) -> (r: Vec<Command>)
    ensures
        cmd_views(r@) == evaluate_spec(port_views(snapshot@), rules@),
{
    let mut out: Vec<Command> = Vec::new();
    proof {
        assert(cmd_views(out@) =~= Seq::<CommandView>::empty());
    }
    push_commands_for_rules(&mut out, Action::Connect, &rules.connect, snapshot);
    push_commands_for_rules(&mut out, Action::Disconnect, &rules.disconnect, snapshot);
    proof {
        assert(cmd_views(out@) =~= evaluate_spec(port_views(snapshot@), rules@));
    }
    out
}

/// Evaluation is deterministic: any two command lists obtained from the same
/// snapshot and the same rule set are the same list, element for element.
pub proof fn lemma_evaluate_deterministic(
    snapshot: Seq<Seq<char>>,
    rules: RuleSetView,
    first: Seq<CommandView>,
    second: Seq<CommandView>,
)
    requires
        first == evaluate_spec(snapshot, rules),
        second == evaluate_spec(snapshot, rules),
    ensures
        first == second,
{
}

/// One source port contributes exactly one command per matching dest port.
proof fn lemma_commands_for_source_len(
    action: Action,
    from: Seq<char>,
    snapshot: Seq<Seq<char>>,
    dest: Seq<char>,
)
    ensures
        commands_for_source(action, from, snapshot, dest).len() == matching_ports(
            snapshot,
            dest,
        ).len(),
    decreases snapshot.len(),
{
    if snapshot.len() > 0 {
        lemma_commands_for_source_len(action, from, snapshot.drop_last(), dest);
    }
}

/// Restricting the sources to the first `k` snapshot entries gives one block
/// of commands per matching source among them, each block one command per
/// matching dest port in the whole snapshot.
proof fn lemma_commands_for_rule_prefix_len(
    action: Action,
    rule: RuleView,
    snapshot: Seq<Seq<char>>,
    k: int,
)
    requires
        0 <= k <= snapshot.len(),
    ensures
        commands_for_rule_prefix(action, rule, snapshot, k).len() == matching_ports(
            snapshot.take(k),
            rule.source,
        ).len() * matching_ports(snapshot, rule.dest).len(),
    decreases k,
{
    let n = matching_ports(snapshot, rule.dest).len();
    if k == 0 {
        assert(snapshot.take(0) =~= Seq::<Seq<char>>::empty());
    } else {
        lemma_commands_for_rule_prefix_len(action, rule, snapshot, k - 1);
        assert(snapshot.take(k).drop_last() =~= snapshot.take(k - 1));
        assert(snapshot.take(k).last() == snapshot[k - 1]);
        let m = matching_ports(snapshot.take(k - 1), rule.source).len();
        if regex_match(rule.source, snapshot[k - 1]) {
            lemma_commands_for_source_len(action, snapshot[k - 1], snapshot, rule.dest);
            assert(matching_ports(snapshot.take(k), rule.source).len() == m + 1);
            assert((m + 1) * n == m * n + n) by (nonlinear_arith);
        } else {
            assert(matching_ports(snapshot.take(k), rule.source).len() == m);
        }
    }
}

/// Cross-product law: a rule whose source pattern matches `m` snapshot ports
/// and whose dest pattern matches `n` of them produces exactly `m * n`
/// commands — duplicates and self-pairs included.
pub proof fn lemma_cross_product_count(action: Action, rule: RuleView, snapshot: Seq<Seq<char>>)
    ensures
        commands_for_rule(action, rule, snapshot).len() == matching_ports(
            snapshot,
            rule.source,
        ).len() * matching_ports(snapshot, rule.dest).len(),
{
    lemma_commands_for_rule_prefix_len(action, rule, snapshot, snapshot.len() as int);
    assert(snapshot.take(snapshot.len() as int) =~= snapshot);
}

/// Whether every command in `commands` names two ports of `snapshot`:
/// nothing is invented, every name was observed.
pub open spec fn commands_name_snapshot_ports(
    snapshot: Seq<Seq<char>>,
    commands: Seq<CommandView>,
) -> bool {
    forall|i: int|
        0 <= i < commands.len() ==> snapshot.contains((#[trigger] commands[i]).from)
            && snapshot.contains(commands[i].to)
}

/// Every command one source port contributes carries the given action and
/// source name, and a dest name taken from the snapshot that matches `dest`.
proof fn lemma_source_commands_ports(
    action: Action,
    from: Seq<char>,
    snapshot: Seq<Seq<char>>,
    dest: Seq<char>,
)
    ensures
        forall|i: int|
            0 <= i < commands_for_source(action, from, snapshot, dest).len() ==> {
                let c = #[trigger] commands_for_source(action, from, snapshot, dest)[i];
                c.action == action && c.from == from && snapshot.contains(c.to) && regex_match(
                    dest,
                    c.to,
                )
            },
    decreases snapshot.len(),
{
    broadcast use vstd::seq_lib::group_seq_properties;

    if snapshot.len() > 0 {
        lemma_source_commands_ports(action, from, snapshot.drop_last(), dest);
        assert(snapshot.drop_last() =~= snapshot.take(snapshot.len() - 1));
        assert(snapshot.contains(snapshot.last()));
    }
}

/// Every command of the prefix-restricted rule evaluation names a matching
/// source port and a matching dest port, both of the snapshot.
proof fn lemma_rule_prefix_commands_ports(
    action: Action,
    rule: RuleView,
    snapshot: Seq<Seq<char>>,
    k: int,
)
    requires
        0 <= k <= snapshot.len(),
    ensures
        forall|i: int|
            0 <= i < commands_for_rule_prefix(action, rule, snapshot, k).len() ==> {
                let c = #[trigger] commands_for_rule_prefix(action, rule, snapshot, k)[i];
                c.action == action && snapshot.contains(c.from) && regex_match(rule.source, c.from)
                    && snapshot.contains(c.to) && regex_match(rule.dest, c.to)
            },
    decreases k,
{
    if k > 0 {
        lemma_rule_prefix_commands_ports(action, rule, snapshot, k - 1);
        if regex_match(rule.source, snapshot[k - 1]) {
            lemma_source_commands_ports(action, snapshot[k - 1], snapshot, rule.dest);
            assert(snapshot.contains(snapshot[k - 1]));
        }
    }
}

/// Every command of one rule carries the rule's action and pairs a snapshot
/// port matching the rule's source pattern with a snapshot port matching its
/// dest pattern.
pub proof fn lemma_rule_commands_matched(action: Action, rule: RuleView, snapshot: Seq<Seq<char>>)
    ensures
        forall|i: int|
            0 <= i < commands_for_rule(action, rule, snapshot).len() ==> {
                let c = #[trigger] commands_for_rule(action, rule, snapshot)[i];
                c.action == action && snapshot.contains(c.from) && regex_match(rule.source, c.from)
                    && snapshot.contains(c.to) && regex_match(rule.dest, c.to)
            },
{
    lemma_rule_prefix_commands_ports(action, rule, snapshot, snapshot.len() as int);
}

/// Lifts [`lemma_rule_commands_matched`] over a whole rule sequence.
proof fn lemma_rules_commands_ports(action: Action, rules: Seq<RuleView>, snapshot: Seq<Seq<char>>)
    ensures
        commands_name_snapshot_ports(snapshot, commands_for_rules(action, rules, snapshot)),
    decreases rules.len(),
{
    if rules.len() > 0 {
        lemma_rules_commands_ports(action, rules.drop_last(), snapshot);
        lemma_rule_commands_matched(action, rules.last(), snapshot);
    }
}

/// Port names are never invented: every command that evaluation produces
/// names two ports that stand in the snapshot it was computed from.
pub proof fn lemma_evaluate_names_snapshot_ports(snapshot: Seq<Seq<char>>, rules: RuleSetView)
    ensures
        commands_name_snapshot_ports(snapshot, evaluate_spec(snapshot, rules)),
{
    lemma_rules_commands_ports(Action::Connect, rules.connect, snapshot);
    lemma_rules_commands_ports(Action::Disconnect, rules.disconnect, snapshot);
}

/// A rule whose source pattern matches no port in the snapshot produces no
/// command at all.
pub proof fn lemma_unmatched_source_no_commands(
    action: Action,
    rule: RuleView,
    snapshot: Seq<Seq<char>>,
)
    requires
        matching_ports(snapshot, rule.source).len() == 0,
    ensures
        commands_for_rule(action, rule, snapshot) == Seq::<CommandView>::empty(),
{
    lemma_cross_product_count(action, rule, snapshot);
    assert(commands_for_rule(action, rule, snapshot) =~= Seq::<CommandView>::empty());
}

} // verus!
