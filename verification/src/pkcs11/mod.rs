//! The PKCS#11 access layer: what to ask the token, what its answers mean, and how the jobs of
//! the worker pool come to their results.

pub mod errors;
pub mod job;
pub mod metrics;
pub mod session;
pub mod token;
pub mod worker;
pub mod pool;
pub mod provision;
