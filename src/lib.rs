//! Capability-based authorization between DNAs: the tag codec, the grant
//! issuer, the local capability store and the resolver that establishes auth
//! on first use.
pub mod types;
pub mod tag;
pub mod issuer;
pub mod store;
pub mod resolver;
