//! Automatic wiring of ports in an audio server's port graph.
//!
//! A [`rules::RuleSet`] pairs regular-expression patterns over port names with
//! a connect or disconnect intent.  The engine in [`engine`] turns the current
//! list of port names plus a rule set into an ordered list of
//! [`rules::Command`]s, which travel through the FIFO [`queue::CommandQueue`]
//! from the notification context to the dispatcher that mutates the graph.

pub mod engine;
pub mod listener;
pub mod pattern;
pub mod queue;
pub mod rules;
