//! Periodic health sweeps over a fixed set of HTTP health endpoints.
//!
//! The library holds the decisions: how a probe outcome is classified, how a
//! sweep turns probe events into metric observations, and when the scheduler
//! may start a sweep. The caller performs the network calls, the metric
//! recording and the waiting, and feeds the results back in.
pub mod status;
pub mod classify;
pub mod check;
pub mod sweep;
pub mod schedule;
pub mod config;
