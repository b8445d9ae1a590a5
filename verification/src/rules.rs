//! Rules, rule sets, and the commands that evaluating them produces.

use vstd::prelude::*;

use crate::pattern::{regex_valid, Pattern};

verus! {

/// What a command or a rule asks for: making a connection or removing one.
#[derive(Clone, Copy, PartialEq, Eq, Debug)]
pub enum Action {
    Connect,
    Disconnect,
}

/// An instruction for the dispatcher: connect or disconnect the port named
/// `from` and the port named `to`.
#[derive(Clone, PartialEq, Eq, Debug)]
pub struct Command {
    pub action: Action,
    pub from: String,
    pub to: String,
}

/// The mathematical value of a [`Command`]: its action and the two port
/// names as character sequences.
#[verifier::ext_equal]
pub struct CommandView {
    pub action: Action,
    pub from: Seq<char>,
    pub to: Seq<char>,
}

impl View for Command {
    type V = CommandView;

    open spec fn view(&self) -> CommandView {
        CommandView { action: self.action, from: self.from@, to: self.to@ }
    }
}

/// One wiring rule: when a port name matches `source_pattern` and another
/// matches `dest_pattern`, the pair is to be acted on.
#[derive(Debug)]
pub struct Rule {
    pub source_pattern: Pattern,
    pub dest_pattern: Pattern,
}

/// The mathematical value of a [`Rule`]: the source texts of its two
/// patterns.
#[verifier::ext_equal]
pub struct RuleView {
    pub source: Seq<char>,
    pub dest: Seq<char>,
}

impl View for Rule {
    type V = RuleView;

    open spec fn view(&self) -> RuleView {
        RuleView { source: self.source_pattern@, dest: self.dest_pattern@ }
    }
}

/// The mathematical values of a sequence of rules, in order.
pub open spec fn rule_views(rules: Seq<Rule>) -> Seq<RuleView> {
    rules.map_values(|r: Rule| r@)
}

/// An ordered collection of wiring rules: one sequence evaluated with
/// [`Action::Connect`], one with [`Action::Disconnect`].  Read-only after
/// construction.
#[derive(Debug)]
pub struct RuleSet {
    pub connect: Vec<Rule>,
    pub disconnect: Vec<Rule>,
}

/// The mathematical value of a [`RuleSet`].
#[verifier::ext_equal]
pub struct RuleSetView {
    pub connect: Seq<RuleView>,
    pub disconnect: Seq<RuleView>,
}

impl View for RuleSet {
    type V = RuleSetView;

    open spec fn view(&self) -> RuleSetView {
        RuleSetView { connect: rule_views(self.connect@), disconnect: rule_views(self.disconnect@) }
    }
}

/// The configuration named a pattern text that does not compile as a regular
/// expression; `pattern` is that text.
#[derive(Clone, PartialEq, Eq, Debug)]
pub struct PatternError {
    pub pattern: String,
}

/// The pattern texts of a sequence of `(source, dest)` pairs, as character
/// sequences.
pub open spec fn pair_views(pairs: Seq<(String, String)>) -> Seq<(Seq<char>, Seq<char>)> {
    pairs.map_values(|p: (String, String)| (p.0@, p.1@))
}

/// The rules that a sequence of `(source, dest)` pattern-text pairs
/// describes, in order.
pub open spec fn rules_of_pairs(pairs: Seq<(Seq<char>, Seq<char>)>) -> Seq<RuleView> {
    pairs.map_values(|p: (Seq<char>, Seq<char>)| (RuleView { source: p.0, dest: p.1 }))
}

/// The first pattern text in `pairs` that is not a valid regular expression,
/// scanning each pair source first, then dest; `None` when every text is
/// valid.
pub open spec fn first_bad_pattern(pairs: Seq<(Seq<char>, Seq<char>)>) -> Option<Seq<char>>
    decreases pairs.len(),
{
    if pairs.len() == 0 {
        None::<Seq<char>>
    } else if !regex_valid(pairs.first().0) {
        Some(pairs.first().0)
    } else if !regex_valid(pairs.first().1) {
        Some(pairs.first().1)
    } else {
        first_bad_pattern(pairs.drop_first())
    }
}

/// The first invalid pattern text of a whole configuration: the connect
/// pairs are scanned before the disconnect pairs.
pub open spec fn first_bad_in_config(
    connect: Seq<(Seq<char>, Seq<char>)>,
    disconnect: Seq<(Seq<char>, Seq<char>)>,
) -> Option<Seq<char>> {
    if first_bad_pattern(connect) is Some {
        first_bad_pattern(connect)
    } else {
        first_bad_pattern(disconnect)
    }
}

/// Compiles a list of `(source, dest)` pattern-text pairs into rules, in
/// order.  Fails on the first text that is not a valid regular expression
/// and reports that text.
pub fn compile_rules(pairs: &Vec<(String, String)>) -> (r: Result<Vec<Rule>, PatternError>)
    ensures
        r is Ok <==> first_bad_pattern(pair_views(pairs@)) is None,
        r matches Ok(rules) ==> rule_views(rules@) == rules_of_pairs(pair_views(pairs@)),
        r matches Err(e) ==> (Some(e.pattern@) == first_bad_pattern(pair_views(pairs@))),
{
    let ghost pv = pair_views(pairs@);
    let mut rules: Vec<Rule> = Vec::new();
    let mut i: usize = 0;
    proof {
        assert(pv.skip(0) =~= pv);
        assert(rule_views(rules@) =~= rules_of_pairs(pv.take(0)));
    }
    while i < pairs.len()
        invariant
            i <= pairs.len(),
            pv == pair_views(pairs@),
            pv.len() == pairs.len(),
            first_bad_pattern(pv) == first_bad_pattern(pv.skip(i as int)),
            rule_views(rules@) == rules_of_pairs(pv.take(i as int)),
        decreases pairs.len() - i,
    {
        let source_text = &pairs[i].0;
        let dest_text = &pairs[i].1;
        proof {
            assert(pv.skip(i as int).first() == pv[i as int]);
            assert(pv[i as int] == (source_text@, dest_text@));
        }
        let source_pattern = match Pattern::compile(source_text.as_str()) {
            Some(p) => p,
            None => {
                return Err(PatternError { pattern: source_text.clone() });
            },
        };
        let dest_pattern = match Pattern::compile(dest_text.as_str()) {
            Some(p) => p,
            None => {
                return Err(PatternError { pattern: dest_text.clone() });
            },
        };
        rules.push(Rule { source_pattern, dest_pattern });
        proof {
            assert(pv.skip(i as int).drop_first() =~= pv.skip(i + 1));
            assert(rule_views(rules@) =~= rules_of_pairs(pv.take(i + 1))) by {
                pairs@.lemma_map_take_succ(|p: (String, String)| (p.0@, p.1@), i as int);
                pv.lemma_map_take_succ(
                    |p: (Seq<char>, Seq<char>)| (RuleView { source: p.0, dest: p.1 }),
                    i as int,
                );
                rules@.drop_last().lemma_push_map_commute(|r: Rule| r@, rules@.last());
                assert(rules@.drop_last().push(rules@.last()) =~= rules@);
            }
        }
        i += 1;
    }
    proof {
        assert(pv.skip(pairs@.len() as int) =~= Seq::<(Seq<char>, Seq<char>)>::empty());
        assert(pv.take(pairs@.len() as int) =~= pv);
    }
    Ok(rules)
}

impl RuleSet {
    /// An empty rule set: no connect rules, no disconnect rules.
    pub fn new() -> (r: RuleSet)
        ensures
            r@.connect == Seq::<RuleView>::empty(),
            r@.disconnect == Seq::<RuleView>::empty(),
    {
        let r = RuleSet { connect: Vec::new(), disconnect: Vec::new() };
        proof {
            assert(rule_views(r.connect@) =~= Seq::<RuleView>::empty());
            assert(rule_views(r.disconnect@) =~= Seq::<RuleView>::empty());
        }
        r
    }

    /// Builds a rule set from pattern-text pairs, connect pairs and
    /// disconnect pairs, each kept in the given order.  Fails on the first
    /// invalid pattern text — connect pairs scanned first — and reports that
    /// text.
    pub fn from_pairs(
        connect: &Vec<(String, String)>,
        disconnect: &Vec<(String, String)>,
    ) -> (r: Result<RuleSet, PatternError>)
        ensures
            r is Ok <==> first_bad_in_config(pair_views(connect@), pair_views(disconnect@)) is None,
            r matches Ok(rs) ==> rs@.connect == rules_of_pairs(pair_views(connect@))
                && rs@.disconnect == rules_of_pairs(pair_views(disconnect@)),
            r matches Err(e) ==> (Some(e.pattern@) == first_bad_in_config(
                pair_views(connect@),
                pair_views(disconnect@),
            )),
    {
        let connect_rules = match compile_rules(connect) {
            Ok(rules) => rules,
            Err(e) => {
                return Err(e);
            },
        };
        let disconnect_rules = match compile_rules(disconnect) {
            Ok(rules) => rules,
            Err(e) => {
                return Err(e);
            },
        };
        Ok(RuleSet { connect: connect_rules, disconnect: disconnect_rules })
    }
}

} // verus!
