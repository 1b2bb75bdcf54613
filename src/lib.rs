//! Core of a TCP echo load generator: per-connection worker state machine,
//! counters, latency samples and their percentile / average statistics.
pub mod counters;
pub mod echo;
pub mod latency;
pub mod report;
pub mod worker;
