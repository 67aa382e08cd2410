//! Keyed message authentication: a key bound to an HMAC algorithm produces
//! one-shot or incremental tag computations with identical semantics.

use vstd::prelude::*;

use crate::enums::{output_len_spec, HashAlgorithm};

verus! {

#[verifier::external_type_specification]
#[verifier::external_body]
pub struct ExHmacAlgorithm(ring::hmac::Algorithm);

#[verifier::external_type_specification]
#[verifier::external_body]
pub struct ExHmacKey(ring::hmac::Key);

#[verifier::external_type_specification]
#[verifier::external_body]
pub struct ExHmacContext(ring::hmac::Context);

/// The authentication tag the backend computes with `alg` over `data`,
/// keyed by `key`: a function of those three alone. Relied on as the
/// meaning of both ring::hmac::sign and ring::hmac::Context::sign, which
/// the backend documents as the single-step and multi-step forms of the
/// same computation.
pub uninterp spec fn hmac_of(alg: HashAlgorithm, key: Seq<u8>, data: Seq<u8>) -> Seq<u8>;

/// Longest input the backend accepts in one keyed computation: beyond it
/// the backend refuses the input, so it is kept out by `requires`. Slightly
/// under the digest limit, leaving room for the key block the backend
/// prepends.
pub const MAX_HMAC_INPUT: u64 = 0x1fff_ffff_ffff_fe00;

/// Maximum supported HMAC tag size: supports up to SHA-512.
pub const HMAC_MAX_TAG: usize = 64;

/// An HMAC tag, stored as a value: a fixed-capacity buffer and the length
/// actually used. Immutable once constructed; only the used range is the
/// algorithm's output.
pub struct Tag {
    buf: [u8; 64],
    used: usize,
}

impl View for Tag {
    type V = Seq<u8>;

    closed spec fn view(&self) -> Seq<u8> {
        self.buf@.subrange(0, self.used as int)
    }
}

impl Tag {
    #[verifier::type_invariant]
    closed spec fn inv(&self) -> bool {
        self.used <= 64
    }

    /// Copies `bytes` into a fresh tag; `bytes` must fit the largest
    /// supported algorithm's output.
    pub fn new(bytes: &[u8]) -> (r: Tag)
        requires
            bytes@.len() <= HMAC_MAX_TAG,
        ensures
            r@ == bytes@,
    {
        let mut buf = [0u8; 64];
        let n = bytes.len();
        let mut i: usize = 0;
        while i < n
            invariant
                n == bytes@.len(),
                n <= 64,
                0 <= i <= n,
                forall|j: int| 0 <= j < i ==> buf@[j] == bytes@[j],
            decreases n - i,
        {
            buf[i] = bytes[i];
            i += 1;
        }
        let r = Tag { buf, used: n };
        proof {
            assert(r@ =~= bytes@);
        }
        r
    }

    /// The tag's bytes: exactly the used range, no padding.
    pub fn as_ref(&self) -> (r: &[u8])
        ensures
            r@ == self@,
    {
        proof {
            use_type_invariant(self);
        }
        vstd::slice::slice_subrange(self.buf.as_slice(), 0, self.used)
    }
}

/// Relies on ring::hmac::HMAC_SHA256: the backend's HMAC-SHA-256 algorithm.
#[verifier::external_body]
fn hmac_sha256_backend() -> &'static ring::hmac::Algorithm {
    &ring::hmac::HMAC_SHA256
}

/// Relies on ring::hmac::HMAC_SHA384: the backend's HMAC-SHA-384 algorithm.
#[verifier::external_body]
fn hmac_sha384_backend() -> &'static ring::hmac::Algorithm {
    &ring::hmac::HMAC_SHA384
}

/// Relies on ring::hmac::HMAC_SHA512: the backend's HMAC-SHA-512 algorithm.
#[verifier::external_body]
fn hmac_sha512_backend() -> &'static ring::hmac::Algorithm {
    &ring::hmac::HMAC_SHA512
}

/// Relies on ring::hmac::Key::new: binds the algorithm to the key material,
/// which is copied into the backend key. The backend refuses over-long key
/// material, kept out by `requires`.
#[verifier::external_body]
fn backend_key_new(alg: &'static ring::hmac::Algorithm, key: &[u8]) -> ring::hmac::Key
    requires
        key@.len() <= crate::hash::MAX_HASH_INPUT,
{
    ring::hmac::Key::new(*alg, key)
}

/// Relies on ring::hmac::Context::with_key: a fresh incremental context for
/// the key that has absorbed nothing.
#[verifier::external_body]
fn backend_context_with_key(key: &ring::hmac::Key) -> ring::hmac::Context {
    ring::hmac::Context::with_key(key)
}

/// An HMAC capability: describes one keyed-MAC algorithm and opens key
/// objects for it.
pub struct Hmac {
    alg: HashAlgorithm,
    backend: &'static ring::hmac::Algorithm,
}

impl Hmac {
    /// The hash algorithm underlying this keyed-MAC algorithm.
    pub closed spec fn alg_spec(&self) -> HashAlgorithm {
        self.alg
    }

    /// HMAC with SHA-256.
    pub fn sha256() -> (h: Hmac)
        ensures
            h.alg_spec() == HashAlgorithm::SHA256,
    {
        Hmac { alg: HashAlgorithm::SHA256, backend: hmac_sha256_backend() }
    }

    /// HMAC with SHA-384.
    pub fn sha384() -> (h: Hmac)
        ensures
            h.alg_spec() == HashAlgorithm::SHA384,
    {
        Hmac { alg: HashAlgorithm::SHA384, backend: hmac_sha384_backend() }
    }

    /// HMAC with SHA-512.
    pub fn sha512() -> (h: Hmac)
        ensures
            h.alg_spec() == HashAlgorithm::SHA512,
    {
        Hmac { alg: HashAlgorithm::SHA512, backend: hmac_sha512_backend() }
    }

    /// Binds this algorithm to the given secret key. The key material is
    /// copied into the returned key object.
    pub fn open_key(&self, key: &[u8]) -> (r: HmacKey)
        requires
            key@.len() <= crate::hash::MAX_HASH_INPUT,
        ensures
            r.alg_spec() == self.alg_spec(),
            r.key_spec() == key@,
    {
        HmacKey { alg: self.alg, inner: backend_key_new(self.backend, key), key_bytes: Ghost(key@) }
    }

    /// The output length of the underlying hash, which is also the length
    /// of every tag this algorithm produces.
    pub fn hash_output_len(&self) -> (r: usize)
        ensures
            r == output_len_spec(self.alg_spec()),
    {
        match self.alg {
            HashAlgorithm::SHA256 => 32,
            HashAlgorithm::SHA384 => 48,
            HashAlgorithm::SHA512 => 64,
        }
    }
}

/// An HMAC key: the algorithm bound to secret key material, held by the
/// backend. Tracks, in ghost state, the key material it was opened with.
pub struct HmacKey {
    alg: HashAlgorithm,
    inner: ring::hmac::Key,
    key_bytes: Ghost<Seq<u8>>,
}

impl HmacKey {
    /// The hash algorithm underlying this key's MAC computations.
    pub closed spec fn alg_spec(&self) -> HashAlgorithm {
        self.alg
    }

    /// The key material this key was opened with.
    pub closed spec fn key_spec(&self) -> Seq<u8> {
        self.key_bytes@
    }

    /// Relies on ring::hmac::sign: the tag over `data` keyed by this key,
    /// of the algorithm's documented output length. The backend refuses
    /// over-long input, kept out by `requires`.
    #[verifier::external_body]
    fn sign_raw(&self, data: &[u8]) -> (r: Vec<u8>)
        requires
            data@.len() <= MAX_HMAC_INPUT,
        ensures
            r@ == hmac_of(self.alg_spec(), self.key_spec(), data@),
            r@.len() == output_len_spec(self.alg_spec()),
    {
        ring::hmac::sign(&self.inner, data).as_ref().to_vec()
    }

    /// Calculates the tag over `data` in a single call.
    pub fn one_shot(&self, data: &[u8]) -> (r: Tag)
        requires
            data@.len() <= MAX_HMAC_INPUT,
        ensures
            r@ == hmac_of(self.alg_spec(), self.key_spec(), data@),
            r@.len() == output_len_spec(self.alg_spec()),
    {
        let v = self.sign_raw(data);
        proof {
            assert(output_len_spec(self.alg_spec()) <= HMAC_MAX_TAG);
        }
        Tag::new(v.as_slice())
    }

    /// Starts a new incremental computation with empty accumulated state.
    pub fn start(&self) -> (r: Incremental)
        ensures
            r.alg_spec() == self.alg_spec(),
            r.key_spec() == self.key_spec(),
            r.bytes() == Seq::<u8>::empty(),
    {
        Incremental {
            alg: self.alg,
            inner: backend_context_with_key(&self.inner),
            key_bytes: Ghost(self.key_bytes@),
            bytes: Ghost(Seq::empty()),
        }
    }

    /// The length of every tag produced by a computation using this key.
    pub fn tag_len(&self) -> (r: usize)
        ensures
            r == output_len_spec(self.alg_spec()),
    {
        match self.alg {
            HashAlgorithm::SHA256 => 32,
            HashAlgorithm::SHA384 => 48,
            HashAlgorithm::SHA512 => 64,
        }
    }
}

/// An incremental HMAC computation: owns the backend's accumulated state.
/// Tracks, in ghost state, the key it was opened with and the input added
/// so far.
pub struct Incremental {
    alg: HashAlgorithm,
    inner: ring::hmac::Context,
    key_bytes: Ghost<Seq<u8>>,
    bytes: Ghost<Seq<u8>>,
}

impl Incremental {
    /// The hash algorithm underlying this computation.
    pub closed spec fn alg_spec(&self) -> HashAlgorithm {
        self.alg
    }

    /// The key material of the key this computation was started from.
    pub closed spec fn key_spec(&self) -> Seq<u8> {
        self.key_bytes@
    }

    /// The input added so far.
    pub closed spec fn bytes(&self) -> Seq<u8> {
        self.bytes@
    }

    /// Adds `data` to the computation, returning it for chaining.
    /// Relies on ring::hmac::Context::update: appends the data to the
    /// accumulated input, whatever the chunking.
    #[verifier::external_body]
    pub fn update(self, data: &[u8]) -> (r: Incremental)
        ensures
            r.alg_spec() == self.alg_spec(),
            r.key_spec() == self.key_spec(),
            r.bytes() == self.bytes() + data@,
    {
        let mut s = self;
        s.inner.update(data);
        s
    }

    /// Relies on ring::hmac::Context::sign: the tag over exactly the added
    /// input, keyed by the key the computation was started from, of the
    /// algorithm's documented output length. The backend refuses over-long
    /// input, kept out by `requires`.
    #[verifier::external_body]
    fn finish_raw(self) -> (r: Vec<u8>)
        requires
            self.bytes().len() <= MAX_HMAC_INPUT,
        ensures
            r@ == hmac_of(self.alg_spec(), self.key_spec(), self.bytes()),
            r@.len() == output_len_spec(self.alg_spec()),
    {
        self.inner.sign().as_ref().to_vec()
    }

    /// Finishes the computation, returning the tag over all added input.
    /// Consumes the computation, which cannot be updated again.
    pub fn finish(self) -> (r: Tag)
        requires
            self.bytes().len() <= MAX_HMAC_INPUT,
        ensures
            r@ == hmac_of(self.alg_spec(), self.key_spec(), self.bytes()),
            r@.len() == output_len_spec(self.alg_spec()),
    {
        let ghost a = self.alg_spec();
        let v = self.finish_raw();
        proof {
            assert(output_len_spec(a) <= HMAC_MAX_TAG);
        }
        Tag::new(v.as_slice())
    }
}

/// One-shot and incremental agreement: a fresh incremental computation fed
/// `data` in one update accumulates exactly `data`, so its tag equals the
/// one-shot tag over `data`.
pub proof fn lemma_one_shot_matches_incremental(alg: HashAlgorithm, key: Seq<u8>, data: Seq<u8>)
    ensures
        hmac_of(alg, key, Seq::<u8>::empty() + data) == hmac_of(alg, key, data),
{
    assert(Seq::<u8>::empty() + data =~= data);
}

} // verus!
