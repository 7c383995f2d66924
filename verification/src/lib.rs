//! Lifecycle supervision for a single long-lived sidecar process.
//!
//! The crate holds the decisions of a supervisor: how an exit is classified,
//! how long to back off before a restart, when a crash loop is declared, how
//! output bytes become log lines, and the state machine that ties these
//! together. It performs no I/O itself. The surrounding application spawns the
//! process, reads its pipes and clocks, and reports what happened as events;
//! the supervisor answers each event with the next state and one action.

pub mod drain;
pub mod launcher;
pub mod monitor;
pub mod policy;
pub mod supervisor;
pub mod theorems;
