//! A stateless cryptographic proxy in front of a PKCS#11 token: the decisions it takes, as
//! verified code.

pub mod authz;
pub mod cache;
pub mod crypto;
pub mod grpc;
pub mod pkcs11;
pub mod primitives;
pub mod resilience;
pub mod settings;
pub mod status;
pub mod telemetry;
pub mod text;
pub mod token_check;
pub mod wire;
