//! The FIFO command queue between the notification context and the
//! dispatcher.
//!
//! Producers push with [`CommandQueue::send`], which never blocks; the
//! dispatcher drains with [`CommandQueue::receive`].  Commands come out in
//! exactly the order they went in: nothing is reordered or dropped.  The
//! blocking hand-off between threads is the caller's affair; this type holds
//! the ordered contents.

use vstd::prelude::*;

use crate::engine::cmd_views;
use crate::rules::{Command, CommandView};

verus! {

broadcast use vstd::seq_lib::group_seq_lib_default;

/// An ordered queue of commands.  Its view is the sequence of queued
/// command values, front first.
pub struct CommandQueue {
    items: Vec<Command>,
}

impl View for CommandQueue {
    type V = Seq<CommandView>;

    closed spec fn view(&self) -> Seq<CommandView> {
        cmd_views(self.items@)
    }
}

impl CommandQueue {
    /// An empty queue.
    pub fn new() -> (q: CommandQueue)
        ensures
            q@ == Seq::<CommandView>::empty(),
    {
        let q = CommandQueue { items: Vec::new() };
        proof {
            assert(q@ =~= Seq::<CommandView>::empty());
        }
        q
    }

    /// How many commands are queued.
    pub fn len(&self) -> (n: usize)
        ensures
            n == self@.len(),
    {
        self.items.len()
    }

    /// Whether the queue holds no command.
    pub fn is_empty(&self) -> (r: bool)
        ensures
            r == (self@.len() == 0),
    {
        self.items.len() == 0
    }

    /// Enqueues one command at the back.  Never blocks, never fails, and
    /// leaves everything already queued in place.
    pub fn send(&mut self, command: Command)
        ensures
            final(self)@ == old(self)@.push(command@),
    {
        let ghost prev = self.items@;
        self.items.push(command);
        proof {
            prev.lemma_push_map_commute(|c: Command| c@, self.items@.last());
            assert(prev.push(self.items@.last()) == self.items@);
        }
    }

    /// Dequeues the front command, or returns `None` on an empty queue.
    /// The command returned is the oldest one queued; the rest keep their
    /// order.
    pub fn receive(&mut self) -> (r: Option<Command>)
        ensures
            old(self)@.len() == 0 ==> r is None && final(self)@ == old(self)@,
            old(self)@.len() > 0 ==> (r matches Some(c) && c@ == old(self)@[0] && final(self)@
                == old(self)@.drop_first()),
    {
        if self.items.len() == 0 {
            None
        } else {
            let ghost prev = self.items@;
            let command = self.items.remove(0);
            proof {
                assert(cmd_views(self.items@) =~= cmd_views(prev).drop_first());
            }
            Some(command)
        }
    }
}

} // verus!
