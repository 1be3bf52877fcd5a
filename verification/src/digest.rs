//! Streaming SHA-512 digest computation.
//!
//! A file's content is reduced to a fixed 64-byte digest; equal byte
//! sequences always give equal digests, so the digest serves as a content
//! fingerprint. The hash itself comes from the `sha2` crate; everything
//! proved about it goes through the uninterpreted function [`sha512_of`].

use vstd::prelude::*;

verus! {

/// The SHA-512 hasher type of the `sha2` crate, opaque to the verifier.
#[verifier::external_type_specification]
#[verifier::external_body]
pub struct ExSha512(sha2::Sha512);

/// The SHA-512 digest of a byte sequence: 64 bytes, a function of the
/// input bytes alone.
pub uninterp spec fn sha512_of(data: Seq<u8>) -> Seq<u8>;

/// The bytes a hasher has been fed so far.
pub uninterp spec fn fed(h: sha2::Sha512) -> Seq<u8>;

/// Relies on `sha2::Sha512::new` (`Digest::new`): a fresh hasher has been
/// fed no bytes yet.
#[verifier::external_body]
fn sha512_new() -> (h: sha2::Sha512)
    ensures
        fed(h) == Seq::<u8>::empty(),
{
    <sha2::Sha512 as sha2::Digest>::new()
}

/// Relies on `Digest::update`: appends the given bytes to the hasher's
/// input stream.
#[verifier::external_body]
fn sha512_update(h: &mut sha2::Sha512, data: &[u8])
    ensures
        fed(*final(h)) == fed(*old(h)) + data@,
{
    <sha2::Sha512 as sha2::Digest>::update(h, data)
}

/// Relies on `Digest::finalize`: the digest is a function of the fed bytes
/// alone, and SHA-512 output is exactly 64 bytes.
#[verifier::external_body]
fn sha512_finalize(h: sha2::Sha512) -> (d: Vec<u8>)
    ensures
        d@ == sha512_of(fed(h)),
        d@.len() == 64,
{
    <sha2::Sha512 as sha2::Digest>::finalize(h).to_vec()
}

/// Incremental digest of a byte stream. Arbitrarily large inputs are
/// handled by feeding them chunk by chunk; the final digest depends only
/// on the concatenation of all chunks.
pub struct Digester {
    state: sha2::Sha512,
}

impl Digester {
    /// The concatenation of all chunks fed so far.
    pub closed spec fn bytes_fed(self) -> Seq<u8> {
        fed(self.state)
    }

    /// A fresh digester that has seen no bytes.
    pub fn new() -> (r: Digester)
        ensures
            r.bytes_fed() == Seq::<u8>::empty(),
    {
        Digester { state: sha512_new() }
    }

    /// Feed one chunk of the stream.
    pub fn update(&mut self, chunk: &[u8])
        ensures
            final(self).bytes_fed() == old(self).bytes_fed() + chunk@,
    {
        sha512_update(&mut self.state, chunk)
    }

    /// Close the stream and return the 64-byte digest of everything fed.
    pub fn finish(self) -> (d: Vec<u8>)
        ensures
            d@ == sha512_of(self.bytes_fed()),
            d@.len() == 64,
    {
        sha512_finalize(self.state)
    }
}

/// One-shot digest of a byte slice held in memory.
pub fn digest_bytes(data: &[u8]) -> (d: Vec<u8>)
    ensures
        d@ == sha512_of(data@),
        d@.len() == 64,
{
    let mut h = Digester::new();
    h.update(data);
    proof {
        assert(h.bytes_fed() =~= data@);
    }
    h.finish()
}

/// Digest determinism: digesting the same byte sequence twice yields the
/// same digest value.
pub proof fn lemma_digest_deterministic(b1: Seq<u8>, b2: Seq<u8>)
    requires
        b1 == b2,
    ensures
        sha512_of(b1) == sha512_of(b2),
{
}

} // verus!
