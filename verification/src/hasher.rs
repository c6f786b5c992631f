//! The fixed hashing scheme: SHA-256 over everything written to the hasher.

use crate::digest::Digest;
use crate::encoding::append_bytes;
use vstd::prelude::*;

verus! {

/// The SHA-256 digest of a byte string, as 32 bytes.
pub uninterp spec fn sha256_digest(data: Seq<u8>) -> Seq<u8>;

/// Calls `sha2::Sha256::digest` (the one-shot form of `sha2::Digest`) and
/// copies the 32 output bytes into an array. The contract only names the
/// result: it is the SHA-256 digest of exactly the bytes passed in.
#[verifier::external_body]
fn sha256(data: &[u8]) -> (out: [u8; 32])
    ensures
        out@ == sha256_digest(data@),
{
    <sha2::Sha256 as sha2::Digest>::digest(data).into()
}

/// `sparse_merkle_tree::H256`, whose inside is not looked into.
#[verifier::external_type_specification]
#[verifier::external_body]
pub struct ExH256(sparse_merkle_tree::H256);

/// The 32 bytes that an outside digest holds, in the order of its array.
pub uninterp spec fn h256_bytes(h: sparse_merkle_tree::H256) -> Seq<u8>;

/// `sparse_merkle_tree::H256::as_slice` lends the bytes of an outside
/// digest: a slice of the whole array that the digest wraps.
pub assume_specification[ sparse_merkle_tree::H256::as_slice ](
    h: &sparse_merkle_tree::H256,
) -> (bytes: &[u8])
    ensures
        bytes@ == h256_bytes(*h),
;

/// `From<[u8; 32]>` for `sparse_merkle_tree::H256` wraps 32 bytes as an
/// outside digest, which then holds exactly these bytes.
pub assume_specification[ <sparse_merkle_tree::H256 as core::convert::From<[u8; 32]>>::from ](
    bytes: [u8; 32],
) -> (h: sparse_merkle_tree::H256)
    ensures
        h256_bytes(h) == bytes@,
;

/// Hashes a byte string in one step.
pub fn hash_bytes(data: &[u8]) -> (d: Digest)
    ensures
        d@ == sha256_digest(data@),
{
    Digest::from_bytes(sha256(data))
}

/// An incremental hasher. Its view is the byte string written so far; the
/// digest it finishes with is the SHA-256 digest of that string.
pub struct ShaHasher {
    buffer: Vec<u8>,
}

impl View for ShaHasher {
    type V = Seq<u8>;

    closed spec fn view(&self) -> Seq<u8> {
        self.buffer@
    }
}

impl ShaHasher {
    /// A hasher to which nothing has been written.
    pub fn new() -> (h: ShaHasher)
        ensures
            h@ == Seq::<u8>::empty(),
    {
        ShaHasher { buffer: Vec::new() }
    }

    /// Appends one byte.
    pub fn absorb_byte(&mut self, b: u8)
        ensures
            final(self)@ == old(self)@.push(b),
    {
        self.buffer.push(b);
    }

    /// Appends a byte string.
    pub fn absorb(&mut self, bytes: &[u8])
        ensures
            final(self)@ == old(self)@ + bytes@,
    {
        append_bytes(&mut self.buffer, bytes);
    }

    /// The digest of everything written.
    pub fn into_digest(self) -> (d: Digest)
        ensures
            d@ == sha256_digest(self@),
    {
        hash_bytes(self.buffer.as_slice())
    }
}

impl Default for ShaHasher {
    fn default() -> (h: ShaHasher)
        ensures
            h@ == Seq::<u8>::empty(),
    {
        ShaHasher::new()
    }
}

/// The tree hashes through this impl: whatever it writes is appended to the
/// byte string, a digest as its 32 bytes, and what it gets back when it
/// finishes is the SHA-256 digest of the string.
impl sparse_merkle_tree::traits::Hasher for ShaHasher {
    /// Appends the 32 bytes of a digest.
    fn write_h256(&mut self, h: &sparse_merkle_tree::H256)
        ensures
            final(self)@ == old(self)@ + h256_bytes(*h),
    {
        self.absorb(h.as_slice());
    }

    /// Appends one byte.
    fn write_byte(&mut self, b: u8)
        ensures
            final(self)@ == old(self)@.push(b),
    {
        self.absorb_byte(b);
    }

    /// The SHA-256 digest of everything written, as an outside digest.
    fn finish(self) -> (out: sparse_merkle_tree::H256)
        ensures
            h256_bytes(out) == sha256_digest(self@),
    {
        sparse_merkle_tree::H256::from(self.into_digest().bytes)
    }
}

} // verus!
