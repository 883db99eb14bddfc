//! A credential vault whose identity and secrets derive entirely from a
//! user-held seed phrase: deterministic key derivation, per-field
//! authenticated encryption, deterministic credential identifiers, an
//! offline cache reconciled against a remote authoritative store, and the
//! port router of a long-running host process.

pub mod asymmetric;
pub mod cache;
pub mod encoding;
pub mod errors;
pub mod messages;
pub mod model;
pub mod router;
pub mod session;
pub mod store;
pub mod symmetric;
pub mod vault;
