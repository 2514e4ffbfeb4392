//! The gRPC surface.
//!
//! Two backends serve the same API: `service` has one session, and `pooled` a pool of workers.
//! `request` is what both ask of a request before it goes any further.

pub mod request;
pub mod pooled;
pub mod service;
