//! A bounded-concurrency TCP port reachability scanner, as a verified core.
//!
//! The library holds every decision of a scan: which requests are valid,
//! when a probe may start, how outcomes become results, and in which order
//! the results are reported. Sockets, timers and the terminal belong to the
//! program around it, which performs the actions this library asks for and
//! hands back what happened.

pub mod catalog;
pub mod cli;
pub mod engine;
pub mod error;
pub mod gate;
pub mod order;
pub mod probe;
pub mod report;
pub mod request;
pub mod runtime;
pub mod stealth;
pub mod text;
