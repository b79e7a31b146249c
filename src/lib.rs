//! Connection resolution for a catalog of local virtual machines: protocol
//! classification, liveness decisions, connection-profile resolution and the
//! ordered viewer fallback cascade.

pub mod cascade;
pub mod config;
pub mod lifecycle;
pub mod liveness;
pub mod navigation;
pub mod profile;
pub mod protocol;
pub mod text;

