//! Who is calling, and what they are allowed to do.
//!
//! The identity of a caller comes from the client certificate. What is checked here is the
//! identity, the key label and the operation, against the policy.

pub mod authorizer;
pub mod document;
pub mod identity;
pub mod policy;
