//! Event-driven supervision of one child process, with all operating-system
//! work left to the caller.
//!
//! The crate holds the decisions: how raw pipe bytes become records, when a
//! reader stops, when the terminal event may be released, and how an event
//! stream is reduced to an exit status or to collected output. The caller
//! performs the reads, the wait and the sends, and reports what happened.

pub mod command;
pub mod error;
pub mod event;
pub mod guard;
pub mod reader;
pub mod splitter;
pub mod status;
pub mod supervisor;
pub mod trace;
