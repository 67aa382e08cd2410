//! Ephemeral key exchange: a fixed registry of supported groups, and the
//! lifecycle of one exchange — start, expose the public key, complete
//! against the peer's key share. The private key is generated fresh per
//! exchange, used at most once, and destroyed by completion.

use vstd::prelude::*;

use crate::enums::NamedGroup;
use crate::error::{GetRandomFailed, KeyExchangeError, PeerMisbehaved};

verus! {

#[verifier::external_type_specification]
#[verifier::external_body]
pub struct ExAgreementAlgorithm(ring::agreement::Algorithm);

#[verifier::external_type_specification]
#[verifier::external_body]
pub struct ExEphemeralPrivateKey(ring::agreement::EphemeralPrivateKey);

/// A key-exchange group this library is willing to negotiate: a protocol
/// identifier bound to the backend agreement algorithm for its curve.
#[derive(Clone, Copy, Debug)]
pub struct SupportedKxGroup {
    /// The protocol-level name of the group.
    pub name: NamedGroup,
    /// The backend handle that performs agreement over this group's curve.
    agreement_algorithm: &'static ring::agreement::Algorithm,
}

impl SupportedKxGroup {
    /// The protocol-level name of the group.
    pub closed spec fn spec_name(&self) -> NamedGroup {
        self.name
    }

    /// The protocol-level name of the group.
    pub fn group_name(&self) -> (r: NamedGroup)
        ensures
            r == self.spec_name(),
    {
        self.name
    }
}

/// Relies on ring::agreement::X25519: the agreement algorithm for
/// curve25519.
#[verifier::external_body]
fn x25519_agreement() -> &'static ring::agreement::Algorithm {
    &ring::agreement::X25519
}

/// Relies on ring::agreement::ECDH_P256: the agreement algorithm for
/// secp256r1.
#[verifier::external_body]
fn p256_agreement() -> &'static ring::agreement::Algorithm {
    &ring::agreement::ECDH_P256
}

/// Relies on ring::agreement::ECDH_P384: the agreement algorithm for
/// secp384r1.
#[verifier::external_body]
fn p384_agreement() -> &'static ring::agreement::Algorithm {
    &ring::agreement::ECDH_P384
}

/// Ephemeral ECDH on curve25519.
pub fn x25519() -> (g: SupportedKxGroup)
    ensures
        g.spec_name() == NamedGroup::X25519,
{
    SupportedKxGroup { name: NamedGroup::X25519, agreement_algorithm: x25519_agreement() }
}

/// Ephemeral ECDH on secp256r1 (NIST P-256).
pub fn secp256r1() -> (g: SupportedKxGroup)
    ensures
        g.spec_name() == NamedGroup::secp256r1,
{
    SupportedKxGroup { name: NamedGroup::secp256r1, agreement_algorithm: p256_agreement() }
}

/// Ephemeral ECDH on secp384r1 (NIST P-384).
pub fn secp384r1() -> (g: SupportedKxGroup)
    ensures
        g.spec_name() == NamedGroup::secp384r1,
{
    SupportedKxGroup { name: NamedGroup::secp384r1, agreement_algorithm: p384_agreement() }
}

/// The identifiers of every group in the registry, in descending preference
/// order. The registry is fixed: one entry per identifier, never mutated.
pub open spec fn registry_names() -> Seq<NamedGroup> {
    seq![NamedGroup::X25519, NamedGroup::secp256r1, NamedGroup::secp384r1]
}

/// Every key-exchange group this library supports, in descending preference
/// order.
pub fn all_kx_groups() -> (r: Vec<SupportedKxGroup>)
    ensures
        r@.map_values(|g: SupportedKxGroup| g.spec_name()) == registry_names(),
        r@.len() == registry_names().len(),
        forall|i: int| 0 <= i < r@.len() ==> r@[i].spec_name() == registry_names()[i],
{
    let mut v: Vec<SupportedKxGroup> = Vec::new();
    v.push(x25519());
    v.push(secp256r1());
    v.push(secp384r1());
    proof {
        assert(v@.map_values(|g: SupportedKxGroup| g.spec_name()) =~= registry_names());
    }
    v
}

/// The registry holds exactly one entry per identifier: no identifier
/// appears twice.
pub proof fn lemma_registry_unique()
    ensures
        forall|i: int, j: int|
            0 <= i < j < registry_names().len() ==> registry_names()[i] != registry_names()[j],
{
}

/// The first candidate carrying the given identifier, if any: the candidate
/// list's order is authoritative, not the registry's.
pub open spec fn first_match(candidates: Seq<SupportedKxGroup>, name: NamedGroup) -> Option<
    SupportedKxGroup,
>
    decreases candidates.len(),
{
    if candidates.len() == 0 {
        None
    } else if candidates[0].spec_name() == name {
        Some(candidates[0])
    } else {
        first_match(candidates.drop_first(), name)
    }
}

/// `first_match` answers `Some` exactly when some candidate carries the
/// identifier, and whatever it finds carries the identifier and sits in the
/// list.
pub proof fn lemma_first_match_characterises(candidates: Seq<SupportedKxGroup>, name: NamedGroup)
    ensures
        (first_match(candidates, name) is Some) <==> (exists|i: int|
            0 <= i < candidates.len() && candidates[i].spec_name() == name),
        first_match(candidates, name) matches Some(g) ==> g.spec_name() == name && candidates.contains(g),
    decreases candidates.len(),
{
    if candidates.len() > 0 {
        lemma_first_match_characterises(candidates.drop_first(), name);
        if candidates[0].spec_name() != name {
            if exists|i: int| 0 <= i < candidates.len() && candidates[i].spec_name() == name {
                let i = choose|i: int| 0 <= i < candidates.len() && candidates[i].spec_name() == name;
                assert(candidates.drop_first()[i - 1].spec_name() == name);
            }
            match first_match(candidates, name) {
                Some(g) => {
                    assert(candidates.drop_first().contains(g));
                    let j = choose|j: int|
                        0 <= j < candidates.drop_first().len() && candidates.drop_first()[j] == g;
                    assert(candidates[j + 1] == g);
                },
                None => {},
            }
        }
    }
}

/// Skipping a prefix with no match leaves `first_match` unchanged.
proof fn lemma_first_match_after_skip(candidates: Seq<SupportedKxGroup>, name: NamedGroup, i: int)
    requires
        0 <= i <= candidates.len(),
        forall|j: int| 0 <= j < i ==> candidates[j].spec_name() != name,
    ensures
        first_match(candidates, name) == first_match(candidates.skip(i), name),
    decreases i,
{
    if i > 0 {
        lemma_first_match_after_skip(candidates.drop_first(), name, i - 1);
        assert(candidates.drop_first().skip(i - 1) =~= candidates.skip(i));
    } else {
        assert(candidates.skip(0) =~= candidates);
    }
}

/// Every identifier in the registry is found by matching over the full
/// registry: choosing a registered identifier with the full registry as the
/// candidate list never answers `UnsupportedGroup`; it can fail only for
/// want of randomness, and any exchange it starts is bound to a group
/// carrying that identifier.
pub proof fn lemma_registry_covers(groups: Seq<SupportedKxGroup>, name: NamedGroup)
    requires
        groups.map_values(|g: SupportedKxGroup| g.spec_name()) == registry_names(),
        registry_names().contains(name),
    ensures
        first_match(groups, name) matches Some(g) && g.spec_name() == name,
{
    let names = groups.map_values(|g: SupportedKxGroup| g.spec_name());
    let i = choose|i: int| 0 <= i < names.len() && names[i] == name;
    assert(groups[i].spec_name() == name);
    lemma_first_match_characterises(groups, name);
}

/// An in-progress key exchange: the chosen group, an ephemeral private key
/// owned by the backend, and the matching public key. Completing it consumes
/// the value, so the private key is used at most once and an exchange cannot
/// be reused.
pub struct KeyExchange {
    group: SupportedKxGroup,
    priv_key: ring::agreement::EphemeralPrivateKey,
    pub_key: Vec<u8>,
}

/// Relies on ring::agreement::EphemeralPrivateKey::generate: a fresh private
/// key for the algorithm, from the system's secure random source. Nothing is
/// promised of the value; failure reveals only that randomness was
/// unavailable.
#[verifier::external_body]
fn generate_ephemeral_key(alg: &'static ring::agreement::Algorithm) -> Result<
    ring::agreement::EphemeralPrivateKey,
    GetRandomFailed,
> {
    let rng = ring::rand::SystemRandom::new();
    match ring::agreement::EphemeralPrivateKey::generate(alg, &rng) {
        Ok(k) => Ok(k),
        Err(_) => Err(GetRandomFailed),
    }
}

/// Relies on ring::agreement::EphemeralPrivateKey::compute_public_key: the
/// public key matching the private key, as raw bytes in the algorithm's
/// standard encoding. Nothing is promised of the value.
#[verifier::external_body]
fn compute_public_key(priv_key: &ring::agreement::EphemeralPrivateKey) -> Result<
    Vec<u8>,
    GetRandomFailed,
> {
    match priv_key.compute_public_key() {
        Ok(k) => Ok(k.as_ref().to_vec()),
        Err(_) => Err(GetRandomFailed),
    }
}

/// Relies on ring::agreement::agree_ephemeral: checks that the peer's bytes
/// are a well-formed, valid public key for the algorithm, computes the
/// shared secret with the consumed private key, and fails otherwise. The
/// secret stays inside this module; nothing is promised of its value.
#[verifier::external_body]
fn agree_ephemeral_secret(
    priv_key: ring::agreement::EphemeralPrivateKey,
    alg: &'static ring::agreement::Algorithm,
    peer: &[u8],
) -> Result<Vec<u8>, ()> {
    let peer_key = ring::agreement::UnparsedPublicKey::new(alg, peer);
    match ring::agreement::agree_ephemeral(priv_key, &peer_key, |secret: &[u8]| secret.to_vec()) {
        Ok(v) => Ok(v),
        Err(_) => Err(()),
    }
}

impl KeyExchange {
    /// The group this exchange is bound to.
    pub closed spec fn group_spec(&self) -> SupportedKxGroup {
        self.group
    }

    /// The raw public key to be sent to the peer.
    pub closed spec fn pub_key_spec(&self) -> Seq<u8> {
        self.pub_key@
    }

    /// Looks the identifier up in the caller's candidate list and starts an
    /// ephemeral exchange on the first group carrying it. Fails with
    /// `UnsupportedGroup` exactly when no candidate carries the identifier —
    /// candidates excluded by the caller stay excluded, whatever the full
    /// registry holds.
    pub fn choose_group(name: NamedGroup, supported: &[SupportedKxGroup]) -> (r: Result<
        KeyExchange,
        KeyExchangeError,
    >)
        ensures
            (r matches Err(e) && e == KeyExchangeError::UnsupportedGroup) <==> (forall|i: int|
                0 <= i < supported@.len() ==> supported@[i].spec_name() != name),
            r matches Ok(kx) ==> first_match(supported@, name) == Some(kx.group_spec())
                && kx.group_spec().spec_name() == name,
            r matches Err(KeyExchangeError::KeyExchangeFailed(_)) ==> (exists|i: int|
                0 <= i < supported@.len() && supported@[i].spec_name() == name),
    {
        let ghost s = supported@;
        let n = supported.len();
        let mut i: usize = 0;
        while i < n
            invariant
                n == s.len(),
                s == supported@,
                0 <= i <= n,
                forall|j: int| 0 <= j < i ==> s[j].spec_name() != name,
            decreases n - i,
        {
            if supported[i].name == name {
                proof {
                    lemma_first_match_after_skip(s, name, i as int);
                    assert(s.skip(i as int)[0] == s[i as int]);
                    assert(exists|j: int|
                        0 <= j < supported@.len() && supported@[j].spec_name() == name) by {
                        assert(0 <= (i as int) && (i as int) < supported@.len()
                            && supported@[i as int].spec_name() == name);
                    }
                }
                return match Self::start(&supported[i]) {
                    Ok(kx) => Ok(kx),
                    Err(e) => Err(KeyExchangeError::KeyExchangeFailed(e)),
                };
            }
            i += 1;
        }
        Err(KeyExchangeError::UnsupportedGroup)
    }

    /// Generates a fresh ephemeral private key for the group and derives the
    /// matching public key. On failure the caller learns only that secure
    /// randomness was unavailable, never which step failed.
    pub fn start(group: &SupportedKxGroup) -> (r: Result<KeyExchange, GetRandomFailed>)
        ensures
            r matches Ok(kx) ==> kx.group_spec() == *group,
    {
        let priv_key = match generate_ephemeral_key(group.agreement_algorithm) {
            Ok(k) => k,
            Err(e) => {
                return Err(e);
            },
        };
        let pub_key = match compute_public_key(&priv_key) {
            Ok(k) => k,
            Err(e) => {
                return Err(e);
            },
        };
        Ok(KeyExchange { group: *group, priv_key, pub_key })
    }

    /// The identifier of the group being used.
    pub fn group(&self) -> (r: NamedGroup)
        ensures
            r == self.group_spec().spec_name(),
    {
        self.group.name
    }

    /// The raw public key bytes to send to the peer.
    pub fn pub_key(&self) -> (r: &[u8])
        ensures
            r@ == self.pub_key_spec(),
    {
        self.pub_key.as_slice()
    }

    /// Completes the exchange against the peer's public key bytes, consuming
    /// the exchange and its private key whatever the outcome. The shared
    /// secret is never returned: it is handed only to the caller's finalizer
    /// `f`, and the result of `f` is returned. A malformed or invalid peer
    /// key, a failed agreement, and a failed finalizer are all classified as
    /// `InvalidKeyShare`: fatal peer misbehavior, never a transient error.
    pub fn complete<T, F: FnOnce(&[u8]) -> Result<T, ()>>(self, peer: &[u8], f: F) -> (r: Result<
        T,
        PeerMisbehaved,
    >)
        requires
            forall|secret: &[u8]| #[trigger] call_requires(f, (secret,)),
        ensures
            r matches Err(e) ==> e == PeerMisbehaved::InvalidKeyShare,
            r matches Ok(t) ==> exists|secret: &[u8]| call_ensures(f, (secret,), Ok::<T, ()>(t)),
    {
        let KeyExchange { group, priv_key, pub_key: _ } = self;
        let secret = match agree_ephemeral_secret(priv_key, group.agreement_algorithm, peer) {
            Ok(v) => v,
            Err(()) => {
                return Err(PeerMisbehaved::InvalidKeyShare);
            },
        };
        let sl = secret.as_slice();
        let out = f(sl);
        let r: Result<T, PeerMisbehaved> = match out {
            Ok(t) => Ok(t),
            Err(()) => Err(PeerMisbehaved::InvalidKeyShare),
        };
        proof {
            if r is Ok {
                let t = r->Ok_0;
                assert(out == Ok::<T, ()>(t));
                assert(call_ensures(f, (sl,), Ok::<T, ()>(t)));
                assert(exists|s2: &[u8]| call_ensures(f, (s2,), Ok::<T, ()>(t)));
            }
        }
        r
    }
}

} // verus!
