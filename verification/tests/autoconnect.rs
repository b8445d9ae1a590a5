use jack_autoconnect::engine::evaluate;
use jack_autoconnect::listener::{enqueue_commands, on_port_registration};
use jack_autoconnect::pattern::Pattern;
use jack_autoconnect::queue::CommandQueue;
use jack_autoconnect::rules::{Action, Command, Rule, RuleSet};

fn pat(text: &str) -> Pattern {
    Pattern::compile(text).expect("pattern should compile")
}

fn rule(source: &str, dest: &str) -> Rule {
    Rule { source_pattern: pat(source), dest_pattern: pat(dest) }
}

fn snapshot(names: &[&str]) -> Vec<String> {
    names.iter().map(|n| n.to_string()).collect()
}

fn connect(from: &str, to: &str) -> Command {
    Command { action: Action::Connect, from: from.to_string(), to: to.to_string() }
}

fn disconnect(from: &str, to: &str) -> Command {
    Command { action: Action::Disconnect, from: from.to_string(), to: to.to_string() }
}

#[test]
fn single_rule_single_match() {
    let rules = RuleSet { connect: vec![rule("^app:out$", "^mixer:in$")], disconnect: vec![] };
    let snap = snapshot(&["app:out", "mixer:in", "other:x"]);
    let commands = evaluate(&snap, &rules);
    assert_eq!(commands, vec![connect("app:out", "mixer:in")]);
}

#[test]
fn cross_product_in_snapshot_order() {
    let rules = RuleSet { connect: vec![rule("^a:.*$", "^b:.*$")], disconnect: vec![] };
    let snap = snapshot(&["a:1", "a:2", "b:1"]);
    let commands = evaluate(&snap, &rules);
    assert_eq!(commands, vec![connect("a:1", "b:1"), connect("a:2", "b:1")]);
}

#[test]
fn cross_product_full_count() {
    let rules = RuleSet { connect: vec![rule("^a:.*$", "^b:.*$")], disconnect: vec![] };
    let snap = snapshot(&["a:1", "a:2", "b:1", "b:2"]);
    let commands = evaluate(&snap, &rules);
    assert_eq!(commands.len(), 4);
    assert_eq!(
        commands,
        vec![
            connect("a:1", "b:1"),
            connect("a:1", "b:2"),
            connect("a:2", "b:1"),
            connect("a:2", "b:2"),
        ]
    );
}

#[test]
fn unmatched_source_produces_nothing() {
    let rules = RuleSet { connect: vec![rule("^missing:.*$", "^b:.*$")], disconnect: vec![] };
    let snap = snapshot(&["a:1", "b:1", "b:2"]);
    let commands = evaluate(&snap, &rules);
    assert!(commands.is_empty());
}

#[test]
fn unmatched_dest_produces_nothing() {
    let rules = RuleSet { connect: vec![rule("^a:.*$", "^missing:.*$")], disconnect: vec![] };
    let snap = snapshot(&["a:1", "b:1"]);
    let commands = evaluate(&snap, &rules);
    assert!(commands.is_empty());
}

#[test]
fn empty_snapshot_produces_nothing() {
    let rules = RuleSet { connect: vec![rule("^.*$", "^.*$")], disconnect: vec![rule("^.*$", "^.*$")] };
    let commands = evaluate(&Vec::new(), &rules);
    assert!(commands.is_empty());
}

#[test]
fn empty_rule_set_produces_nothing() {
    let rules = RuleSet::new();
    let snap = snapshot(&["a:1", "b:1"]);
    let commands = evaluate(&snap, &rules);
    assert!(commands.is_empty());
}

#[test]
fn evaluate_is_deterministic() {
    let rules = RuleSet {
        connect: vec![rule("^a:.*$", "^b:.*$"), rule("^system:.*$", "^a:.*$")],
        disconnect: vec![rule("^a:.*$", "^c:.*$")],
    };
    let snap = snapshot(&["a:1", "a:2", "b:1", "c:1", "system:capture_1"]);
    let first = evaluate(&snap, &rules);
    let second = evaluate(&snap, &rules);
    assert_eq!(first, second);
}

#[test]
fn connect_rules_come_before_disconnect_rules() {
    let rules = RuleSet {
        connect: vec![rule("^a:1$", "^b:1$")],
        disconnect: vec![rule("^a:1$", "^c:1$")],
    };
    let snap = snapshot(&["c:1", "a:1", "b:1"]);
    let commands = evaluate(&snap, &rules);
    assert_eq!(commands, vec![connect("a:1", "b:1"), disconnect("a:1", "c:1")]);
}

#[test]
fn rules_evaluated_in_declaration_order() {
    let rules = RuleSet {
        connect: vec![rule("^a:2$", "^b:1$"), rule("^a:1$", "^b:1$")],
        disconnect: vec![],
    };
    let snap = snapshot(&["a:1", "a:2", "b:1"]);
    let commands = evaluate(&snap, &rules);
    assert_eq!(commands, vec![connect("a:2", "b:1"), connect("a:1", "b:1")]);
}

#[test]
fn self_match_is_not_filtered() {
    let rules = RuleSet { connect: vec![rule("^x:p$", "^x:p$")], disconnect: vec![] };
    let snap = snapshot(&["x:p"]);
    let commands = evaluate(&snap, &rules);
    assert_eq!(commands, vec![connect("x:p", "x:p")]);
}

#[test]
fn duplicate_commands_are_not_deduplicated() {
    let rules = RuleSet {
        connect: vec![rule("^a:1$", "^b:1$"), rule("^a:1$", "^b:1$")],
        disconnect: vec![],
    };
    let snap = snapshot(&["a:1", "b:1"]);
    let commands = evaluate(&snap, &rules);
    assert_eq!(commands, vec![connect("a:1", "b:1"), connect("a:1", "b:1")]);
}

#[test]
fn deregistration_enqueues_nothing() {
    let rules = RuleSet { connect: vec![rule("^.*$", "^.*$")], disconnect: vec![rule("^.*$", "^.*$")] };
    let snap = snapshot(&["a:1", "b:1"]);
    let mut queue = CommandQueue::new();
    on_port_registration(&mut queue, false, &snap, &rules);
    assert!(queue.is_empty());
    assert_eq!(queue.receive(), None);
}

#[test]
fn registration_enqueues_the_evaluated_commands() {
    let rules = RuleSet { connect: vec![rule("^a:.*$", "^b:.*$")], disconnect: vec![] };
    let snap = snapshot(&["a:1", "a:2", "b:1"]);
    let mut queue = CommandQueue::new();
    on_port_registration(&mut queue, true, &snap, &rules);
    assert_eq!(queue.len(), 2);
    assert_eq!(queue.receive(), Some(connect("a:1", "b:1")));
    assert_eq!(queue.receive(), Some(connect("a:2", "b:1")));
    assert_eq!(queue.receive(), None);
}

#[test]
fn queue_is_fifo() {
    let mut queue = CommandQueue::new();
    queue.send(connect("a:1", "b:1"));
    queue.send(disconnect("a:2", "b:2"));
    queue.send(connect("a:3", "b:3"));
    assert_eq!(queue.len(), 3);
    assert_eq!(queue.receive(), Some(connect("a:1", "b:1")));
    assert_eq!(queue.receive(), Some(disconnect("a:2", "b:2")));
    assert_eq!(queue.receive(), Some(connect("a:3", "b:3")));
    assert_eq!(queue.receive(), None);
    assert!(queue.is_empty());
}

#[test]
fn enqueue_appends_after_existing_commands() {
    let rules = RuleSet { connect: vec![rule("^a:1$", "^b:1$")], disconnect: vec![] };
    let snap = snapshot(&["a:1", "b:1"]);
    let mut queue = CommandQueue::new();
    queue.send(disconnect("old:1", "old:2"));
    enqueue_commands(&mut queue, &snap, &rules);
    assert_eq!(queue.receive(), Some(disconnect("old:1", "old:2")));
    assert_eq!(queue.receive(), Some(connect("a:1", "b:1")));
    assert_eq!(queue.receive(), None);
}

#[test]
fn pattern_compile_rejects_invalid_text() {
    assert!(Pattern::compile("(").is_none());
    assert!(Pattern::compile("^a:[$").is_none());
}

#[test]
fn pattern_compile_keeps_source_text() {
    let p = pat("^a:.*$");
    assert_eq!(p.source(), "^a:.*$");
}

#[test]
fn pattern_match_distinguishes_ports() {
    let p = pat("^a:.*$");
    assert!(p.is_match("a:1"));
    assert!(p.is_match("a:anything"));
    assert!(!p.is_match("b:1"));
    assert!(!p.is_match("xa:1"));
}

#[test]
fn from_pairs_builds_a_working_rule_set() {
    let connect_pairs = vec![("^a:.*$".to_string(), "^b:.*$".to_string())];
    let disconnect_pairs = vec![("^a:.*$".to_string(), "^c:.*$".to_string())];
    let rules = RuleSet::from_pairs(&connect_pairs, &disconnect_pairs).expect("valid patterns");
    let snap = snapshot(&["a:1", "b:1", "c:1"]);
    let commands = evaluate(&snap, &rules);
    assert_eq!(commands, vec![connect("a:1", "b:1"), disconnect("a:1", "c:1")]);
}

#[test]
fn from_pairs_rejects_an_invalid_pattern() {
    let connect_pairs = vec![("(".to_string(), "^b:.*$".to_string())];
    let err = RuleSet::from_pairs(&connect_pairs, &Vec::new()).unwrap_err();
    assert_eq!(err.pattern, "(");
}

#[test]
fn from_pairs_reports_the_first_invalid_pattern() {
    let connect_pairs = vec![
        ("^ok:.*$".to_string(), "^also_ok$".to_string()),
        ("^fine$".to_string(), "[bad".to_string()),
    ];
    let disconnect_pairs = vec![("(worse".to_string(), "^x$".to_string())];
    let err = RuleSet::from_pairs(&connect_pairs, &disconnect_pairs).unwrap_err();
    assert_eq!(err.pattern, "[bad");
}

#[test]
fn from_pairs_reaches_disconnect_pairs() {
    let connect_pairs = vec![("^ok$".to_string(), "^ok$".to_string())];
    let disconnect_pairs = vec![("^x$".to_string(), "(".to_string())];
    let err = RuleSet::from_pairs(&connect_pairs, &disconnect_pairs).unwrap_err();
    assert_eq!(err.pattern, "(");
}
