//! Finds which dependencies of a project can be sponsored.
//!
//! The crate holds the decisions of the lookup: which repository a package
//! points at, which repositories are asked about and in what order, how a
//! throttled request is retried, how many requests may be outstanding, and
//! which answers end up in the report. Network traffic, timers and terminal
//! output are left to the caller, who is told what to do next and reports back
//! what happened.

pub mod aggregator;
pub mod client;
pub mod collector;
pub mod pipeline;
pub mod report;
pub mod resolver;
pub mod scheduler;
pub mod text;
pub mod token;
