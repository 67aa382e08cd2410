//! Message hashing: a hash capability produces streaming, forkable digest
//! contexts. The digest is a function of the accumulated input alone, so
//! the result is independent of how the input is split across updates.

use vstd::prelude::*;

use crate::enums::{output_len_spec, HashAlgorithm};

verus! {

#[verifier::external_type_specification]
#[verifier::external_body]
pub struct ExDigestAlgorithm(ring::digest::Algorithm);

#[verifier::external_type_specification]
#[verifier::external_body]
pub struct ExDigestContext(ring::digest::Context);

/// The digest the backend computes over `data` with `alg`: a function of
/// the algorithm and the accumulated input alone. Relied on as the meaning
/// of ring::digest::Context::finish.
pub uninterp spec fn digest_of(alg: HashAlgorithm, data: Seq<u8>) -> Seq<u8>;

/// Longest input the backend accepts in one digest computation: beyond it
/// the backend refuses the input, so it is kept out by `requires`.
pub const MAX_HASH_INPUT: u64 = 0x1fff_ffff_ffff_ffff;

/// Maximum supported hash output size: supports up to SHA-512.
pub const HASH_MAX_OUTPUT: usize = 64;

/// A hash result, stored as a value: a fixed-capacity buffer and the length
/// actually used. Immutable once constructed; only the used range is the
/// algorithm's output.
pub struct Output {
    buf: [u8; 64],
    used: usize,
}

impl View for Output {
    type V = Seq<u8>;

    closed spec fn view(&self) -> Seq<u8> {
        self.buf@.subrange(0, self.used as int)
    }
}

impl Output {
    #[verifier::type_invariant]
    closed spec fn inv(&self) -> bool {
        self.used <= 64
    }

    /// Copies `bytes` into a fresh output value; `bytes` must fit the
    /// largest supported algorithm's output.
    pub fn new(bytes: &[u8]) -> (r: Output)
        requires
            bytes@.len() <= HASH_MAX_OUTPUT,
        ensures
            r@ == bytes@,
    {
        let mut buf = [0u8; 64];
        let n = bytes.len();
        let mut i: usize = 0;
        while i < n
            invariant
                n == bytes@.len(),
                n <= 64,
                0 <= i <= n,
                forall|j: int| 0 <= j < i ==> buf@[j] == bytes@[j],
            decreases n - i,
        {
            buf[i] = bytes[i];
            i += 1;
        }
        let r = Output { buf, used: n };
        proof {
            assert(r@ =~= bytes@);
        }
        r
    }

    /// The output's bytes: exactly the used range, no padding.
    pub fn as_ref(&self) -> (r: &[u8])
        ensures
            r@ == self@,
    {
        proof {
            use_type_invariant(self);
        }
        vstd::slice::slice_subrange(self.buf.as_slice(), 0, self.used)
    }
}

/// Relies on ring::digest::SHA256: the backend's SHA-256 algorithm.
#[verifier::external_body]
fn sha256_backend() -> &'static ring::digest::Algorithm {
    &ring::digest::SHA256
}

/// Relies on ring::digest::SHA384: the backend's SHA-384 algorithm.
#[verifier::external_body]
fn sha384_backend() -> &'static ring::digest::Algorithm {
    &ring::digest::SHA384
}

/// Relies on ring::digest::Context::new: a fresh backend context that has
/// absorbed nothing.
#[verifier::external_body]
fn backend_context_new(alg: &'static ring::digest::Algorithm) -> ring::digest::Context {
    ring::digest::Context::new(alg)
}

/// Relies on ring::digest::Context's Clone: the copy holds the same
/// algorithm and the same accumulated state as the original.
#[verifier::external_body]
fn backend_context_clone(inner: &ring::digest::Context) -> ring::digest::Context {
    inner.clone()
}

/// A hash capability: describes one hash algorithm and opens streaming
/// contexts for it.
pub struct Hash {
    alg: HashAlgorithm,
    backend: &'static ring::digest::Algorithm,
}

impl Hash {
    /// The algorithm this capability computes.
    pub closed spec fn alg_spec(&self) -> HashAlgorithm {
        self.alg
    }

    /// SHA-256 hashing.
    pub fn sha256() -> (h: Hash)
        ensures
            h.alg_spec() == HashAlgorithm::SHA256,
    {
        Hash { alg: HashAlgorithm::SHA256, backend: sha256_backend() }
    }

    /// SHA-384 hashing.
    pub fn sha384() -> (h: Hash)
        ensures
            h.alg_spec() == HashAlgorithm::SHA384,
    {
        Hash { alg: HashAlgorithm::SHA384, backend: sha384_backend() }
    }

    /// The enumerated identifier of this hash algorithm.
    pub fn algorithm(&self) -> (r: HashAlgorithm)
        ensures
            r == self.alg_spec(),
    {
        self.alg
    }

    /// Begins a streaming computation with empty accumulated state.
    pub fn start(&self) -> (c: HashContext)
        ensures
            c.alg_spec() == self.alg_spec(),
            c.bytes() == Seq::<u8>::empty(),
    {
        HashContext {
            alg: self.alg,
            inner: backend_context_new(self.backend),
            bytes: Ghost(Seq::empty()),
        }
    }
}

/// A streaming hash computation: owns the backend's accumulated state.
/// Tracks, in ghost state, the input absorbed so far.
pub struct HashContext {
    alg: HashAlgorithm,
    inner: ring::digest::Context,
    bytes: Ghost<Seq<u8>>,
}

impl HashContext {
    /// The algorithm this context computes.
    pub closed spec fn alg_spec(&self) -> HashAlgorithm {
        self.alg
    }

    /// The input absorbed so far.
    pub closed spec fn bytes(&self) -> Seq<u8> {
        self.bytes@
    }

    /// Absorbs `data` into the accumulated state.
    /// Relies on ring::digest::Context::update: appends the data to the
    /// absorbed input, whatever the chunking.
    #[verifier::external_body]
    pub fn update(&mut self, data: &[u8])
        ensures
            final(self).alg_spec() == old(self).alg_spec(),
            final(self).bytes() == old(self).bytes() + data@,
    {
        self.inner.update(data);
    }

    /// An independent context with identical accumulated state, letting two
    /// diverging computations share a common prefix.
    pub fn fork(&self) -> (c: HashContext)
        ensures
            c.alg_spec() == self.alg_spec(),
            c.bytes() == self.bytes(),
    {
        HashContext {
            alg: self.alg,
            inner: backend_context_clone(&self.inner),
            bytes: Ghost(self.bytes@),
        }
    }

    /// Relies on ring::digest::Context::finish: the digest over exactly the
    /// absorbed input, of the algorithm's documented output length. The
    /// backend refuses input beyond its limit, kept out by `requires`.
    #[verifier::external_body]
    fn finish_raw(self) -> (r: Vec<u8>)
        requires
            self.bytes().len() <= MAX_HASH_INPUT,
        ensures
            r@ == digest_of(self.alg_spec(), self.bytes()),
            r@.len() == output_len_spec(self.alg_spec()),
    {
        self.inner.finish().as_ref().to_vec()
    }

    /// Ends the computation: the digest over all absorbed input. Consumes
    /// the context, which cannot be updated again.
    pub fn finish(self) -> (r: Output)
        requires
            self.bytes().len() <= MAX_HASH_INPUT,
        ensures
            r@ == digest_of(self.alg_spec(), self.bytes()),
            r@.len() == output_len_spec(self.alg_spec()),
    {
        let ghost a = self.alg_spec();
        let v = self.finish_raw();
        proof {
            assert(output_len_spec(a) <= HASH_MAX_OUTPUT);
        }
        Output::new(v.as_slice())
    }
}

/// Chunking independence: a context that absorbs `a` then `b` holds the
/// same accumulated input as one that absorbs `a + b` in a single update,
/// so the two digests are equal.
pub proof fn lemma_update_chunking(alg: HashAlgorithm, prefix: Seq<u8>, a: Seq<u8>, b: Seq<u8>)
    ensures
        digest_of(alg, (prefix + a) + b) == digest_of(alg, prefix + (a + b)),
{
    assert((prefix + a) + b =~= prefix + (a + b));
}

/// Forking shares the accumulated prefix: after the original and the fork
/// diverge with different suffixes, each one's digest equals what a fresh
/// computation over its own full input yields.
pub proof fn lemma_fork_diverge(alg: HashAlgorithm, prefix: Seq<u8>, x: Seq<u8>, y: Seq<u8>)
    ensures
        digest_of(alg, (Seq::<u8>::empty() + prefix) + x) == digest_of(
            alg,
            Seq::<u8>::empty() + (prefix + x),
        ),
        digest_of(alg, (Seq::<u8>::empty() + prefix) + y) == digest_of(
            alg,
            Seq::<u8>::empty() + (prefix + y),
        ),
{
    lemma_update_chunking(alg, Seq::<u8>::empty(), prefix, x);
    lemma_update_chunking(alg, Seq::<u8>::empty(), prefix, y);
    assert(Seq::<u8>::empty() + (prefix + x) =~= Seq::<u8>::empty() + prefix + x);
    assert(Seq::<u8>::empty() + (prefix + y) =~= Seq::<u8>::empty() + prefix + y);
}

} // verus!
