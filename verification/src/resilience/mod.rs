//! Keeping the tail latency of healthy traffic intact when the service is under stress.
//!
//! `breaker` answers a broken token: stop paying full price to discover that. `ratelimit`
//! answers a greedy caller: stop them from spending everyone's capacity. Both reject quickly
//! rather than accept slowly.

pub mod breaker;
pub mod ratelimit;
