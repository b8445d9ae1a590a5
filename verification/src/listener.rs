//! The notification side: what a port topology event adds to the command
//! queue.
//!
//! The handler runs in a context owned by the audio server that must not
//! block: it only reads the snapshot, evaluates the rules, and enqueues.
//! Retrieving the snapshot is the caller's affair; everything decided here
//! is pure.

use vstd::prelude::*;

use crate::engine::{cmd_views, evaluate, evaluate_spec, port_views};
use crate::queue::CommandQueue;
use crate::rules::{Command, RuleSet};

verus! {

broadcast use vstd::seq_lib::group_seq_lib_default;

/// Evaluates the rules against the snapshot and enqueues every resulting
/// command, in the order the engine produced them, after whatever the queue
/// already holds.
pub fn enqueue_commands(queue: &mut CommandQueue, snapshot: &Vec<String>, rules: &RuleSet)
    ensures
        final(queue)@ == old(queue)@ + evaluate_spec(port_views(snapshot@), rules@),
{
    let mut commands: Vec<Command> = evaluate(snapshot, rules);
    let ghost produced = evaluate_spec(port_views(snapshot@), rules@);
    while commands.len() > 0
        invariant
            queue@ + cmd_views(commands@) == old(queue)@ + produced,
        decreases commands.len(),
    {
        let ghost prev = commands@;
        let command = commands.remove(0);
        queue.send(command);
        proof {
            assert(cmd_views(commands@) =~= cmd_views(prev).drop_first());
            assert(cmd_views(prev) =~= seq![cmd_views(prev)[0]] + cmd_views(prev).drop_first());
            assert(queue@ + cmd_views(commands@) =~= old(queue)@ + produced);
        }
    }
    proof {
        assert(cmd_views(commands@) =~= Seq::<crate::rules::CommandView>::empty());
        assert(queue@ + cmd_views(commands@) =~= queue@);
    }
}

/// The whole reaction to one port topology event.
///
/// A deregistration event enqueues nothing at all, whatever the rule set
/// holds.  A registration event enqueues exactly the engine's commands for
/// the given snapshot, in order.
pub fn on_port_registration(
    queue: &mut CommandQueue,
    is_registered: bool,
    snapshot: &Vec<String>,
    rules: &RuleSet,
)
    ensures
        is_registered ==> final(queue)@ == old(queue)@ + evaluate_spec(
            port_views(snapshot@),
            rules@,
        ),
        !is_registered ==> final(queue)@ == old(queue)@,
{
    if !is_registered {
        return;
    }
    enqueue_commands(queue, snapshot, rules);
}

} // verus!
