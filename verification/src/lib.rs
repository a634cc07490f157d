//! A secret-release broker core: an attestation-gated authorization pipeline
//! together with a backend dispatch layer.
//!
//! A caller presents structured attestation claims and asks a named backend
//! for a resource. The broker evaluates the claims against registered
//! reference values and the currently installed policies, and releases the
//! resource only when the resource-access policy allows it. Every failure on
//! the way to an allow collapses into one uniform unauthorized error.

pub mod broker;
pub mod claims;
pub mod engine;
pub mod laws;
pub mod manager;
pub mod plugin;
pub mod policy;
pub mod refvalues;
pub mod request;
