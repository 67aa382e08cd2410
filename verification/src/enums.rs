//! Protocol-level algorithm identifiers, consumed as opaque, comparable
//! values; their wire encoding is not defined here.

use vstd::prelude::*;

verus! {

/// Identifier of a named key-exchange group.
#[allow(non_camel_case_types)]
#[derive(Clone, Copy, Debug, PartialEq, Eq, Structural)]
pub enum NamedGroup {
    X25519,
    secp256r1,
    secp384r1,
    secp521r1,
    X448,
}

/// Identifier of a hash algorithm, shared by digest and HMAC computations.
#[derive(Clone, Copy, Debug, PartialEq, Eq, Structural)]
pub enum HashAlgorithm {
    SHA256,
    SHA384,
    SHA512,
}

/// Output length in bytes of each supported hash algorithm; an HMAC tag has
/// the same length as the underlying digest.
pub open spec fn output_len_spec(alg: HashAlgorithm) -> usize {
    match alg {
        HashAlgorithm::SHA256 => 32,
        HashAlgorithm::SHA384 => 48,
        HashAlgorithm::SHA512 => 64,
    }
}

} // verus!
