use vstd::prelude::*;

verus! {

/// Failures of key management, address derivation and persistence.
///
/// Every operation in this crate reports failure through this type; nothing
/// here panics or terminates the process.
#[derive(Debug, Clone, Copy, PartialEq, Eq, Structural)]
pub enum KeyError {
    /// Spending material was requested from an authority that has none.
    NoSpendCapability,
    /// Viewing material was requested from an authority that has none.
    NoViewCapability,
    /// A selected receiver's viewing key is absent from a view-only authority.
    InsufficientCapability,
    /// The account index is outside the permitted hardened range.
    InvalidAccountIndex,
    /// An underlying cryptographic key derivation failed.
    KeyDerivationError,
    /// Encoded key material could not be decoded.
    KeyDecodingError,
    /// A decoded key's network tag differs from the wallet's network.
    NetworkMismatch,
    /// The input is a legacy single-pool viewing key, not a unified encoding.
    InvalidFormat,
    /// The diversifier index space was exhausted during address search.
    DiversifierOverflow,
    /// Transparent child-key derivation failed or the index was out of range.
    TransparentDerivationError,
    /// The requested address would contain no shielded receiver.
    NoShieldedReceiver,
    /// Another writer currently holds the ledger append guard.
    ConcurrentAppendCollision,
    /// The outer version byte of a stored capability is unknown.
    UnsupportedSchemaVersion,
    /// Stored bytes are malformed or truncated.
    CorruptEncoding,
}

} // verus!
