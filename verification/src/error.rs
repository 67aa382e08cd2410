//! Classified errors: every failing operation returns one of these values,
//! so the handshake driver can map it to the right protocol-level reaction.

use vstd::prelude::*;

verus! {

/// Secure randomness could not be obtained while generating an ephemeral
/// key. Deliberately carries no detail of the root cause.
#[derive(Clone, Copy, Debug, PartialEq, Eq, Structural)]
pub struct GetRandomFailed;

/// Failure of a group lookup followed by an exchange start.
#[derive(Clone, Copy, Debug, PartialEq, Eq, Structural)]
pub enum KeyExchangeError {
    /// The requested identifier is absent from the candidate list.
    /// Recoverable: the handshake may try another group.
    UnsupportedGroup,
    /// The lookup succeeded but key generation failed for want of secure
    /// randomness. Fatal for the current connection attempt.
    KeyExchangeFailed(GetRandomFailed),
}

/// Classification of a protocol violation by the remote peer: fatal and
/// non-retryable, distinct from local or environmental failures.
#[derive(Clone, Copy, Debug, PartialEq, Eq, Structural)]
pub enum PeerMisbehaved {
    /// The peer's public key share is malformed or fails the agreement.
    InvalidKeyShare,
}

} // verus!
