//! Control-plane core of a hardware test lab: resource properties and the
//! registry, provider bootstraps, and the credential middleware for the
//! RPC transport.

pub mod authenticator;
pub mod error;
pub mod headers;
pub mod pdudaemon;
pub mod properties;
pub mod registry;
pub mod text;
pub mod vserial;
