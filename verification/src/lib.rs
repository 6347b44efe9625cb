//! Supervisor for a sidecar worker process.
//!
//! The worker announces a dynamically chosen port and an authentication
//! token by writing free-form log lines to its standard output.  This
//! library parses those lines, accumulates the two marker values, moves
//! the supervisor state to ready exactly once when both are known, and
//! answers queries for the discovered configuration.  All process and
//! channel handling lives outside the library; it hands events in as
//! plain values and performs the notifications handed back.

pub mod parse;
pub mod supervisor;
pub mod laws;
