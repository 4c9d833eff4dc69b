//! Key custody and address derivation for a multi-pool shielded wallet.
//!
//! The crate models a wallet's key authority (spending keys, view-only keys,
//! or no keys at all), derives an unbounded, index-stable sequence of
//! multi-receiver addresses from that authority, and persists the whole state
//! through a versioned byte encoding that migrates two older schema
//! generations into the current one.

pub mod address;
pub mod bytes;
pub mod capability;
pub mod chain;
pub mod crypto;
pub mod errors;
pub mod keystore;
pub mod laws;
pub mod persist;
pub mod scope;
pub mod select;
