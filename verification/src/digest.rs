//! 256-bit digests: roots, keys and leaf commitments.

use vstd::prelude::*;

verus! {

/// The byte sequence of the all-zero digest, which stands for "nothing here":
/// the root of an empty tree and the commitment of a vacant leaf.
pub open spec fn zero_bytes() -> Seq<u8> {
    Seq::new(32, |i: int| 0u8)
}

/// The byte sequence of the digest that is zero but for a one in its last
/// byte.
pub open spec fn one_bytes() -> Seq<u8> {
    Seq::new(32, |i: int| if i == 31 { 1u8 } else { 0u8 })
}

/// The commitment of an occupied leaf with digest `digest`. The zero digest
/// is reserved for vacant leaves, so the one digest that would read as
/// vacant is moved to [`one_bytes`].
pub open spec fn occupied(digest: Seq<u8>) -> Seq<u8> {
    if digest == zero_bytes() {
        one_bytes()
    } else {
        digest
    }
}

/// A 256-bit value. Its view is the sequence of its 32 bytes.
#[derive(Clone, Copy, Debug, PartialEq, Eq)]
pub struct Digest {
    pub bytes: [u8; 32],
}

impl View for Digest {
    type V = Seq<u8>;

    open spec fn view(&self) -> Seq<u8> {
        self.bytes@
    }
}

/// Whether two 32-byte arrays hold the same bytes.
pub fn bytes32_equal(a: &[u8; 32], b: &[u8; 32]) -> (same: bool)
    ensures
        same == (a@ == b@),
{
    let mut i: usize = 0;
    while i < 32
        invariant
            i <= 32,
            forall|j: int| 0 <= j < i ==> a@[j] == b@[j],
        decreases 32 - i,
    {
        if a[i] != b[i] {
            return false;
        }
        i += 1;
    }
    assert(a@ =~= b@);
    true
}

impl Digest {
    /// The all-zero digest.
    pub fn zero() -> (d: Digest)
        ensures
            d@ == zero_bytes(),
    {
        let bytes: [u8; 32] = [0u8; 32];
        proof {
            vstd::array::axiom_spec_array_fill_for_copy_type::<u8, 32>(0u8);
        }
        Digest { bytes }
    }

    /// Wraps 32 bytes.
    pub fn from_bytes(bytes: [u8; 32]) -> (d: Digest)
        ensures
            d@ == bytes@,
    {
        Digest { bytes }
    }

    /// Whether every byte is zero.
    pub fn is_zero(&self) -> (b: bool)
        ensures
            b == (self@ == zero_bytes()),
    {
        let mut i: usize = 0;
        while i < 32
            invariant
                i <= 32,
                forall|j: int| 0 <= j < i ==> self.bytes@[j] == 0u8,
            decreases 32 - i,
        {
            if self.bytes[i] != 0 {
                return false;
            }
            i += 1;
        }
        assert(self@ =~= zero_bytes());
        true
    }

    /// The digest as the commitment of an occupied leaf: never zero.
    pub fn or_one(self) -> (d: Digest)
        ensures
            d@ == occupied(self@),
            d@ != zero_bytes(),
    {
        if self.is_zero() {
            let mut bytes: [u8; 32] = [0u8; 32];
            proof {
                vstd::array::axiom_spec_array_fill_for_copy_type::<u8, 32>(0u8);
            }
            bytes[31] = 1;
            assert(one_bytes()[31] != zero_bytes()[31]);
            Digest { bytes }
        } else {
            self
        }
    }

    /// Whether two digests hold the same bytes.
    pub fn same(&self, other: &Digest) -> (b: bool)
        ensures
            b == (self@ == other@),
            b == (*self == *other),
    {
        proof {
            lemma_digest_ext(*self, *other);
        }
        bytes32_equal(&self.bytes, &other.bytes)
    }
}

/// Digests are determined by their bytes.
pub proof fn lemma_digest_ext(a: Digest, b: Digest)
    ensures
        (a@ == b@) <==> (a == b),
{
    if a@ == b@ {
        assert(a.bytes =~= b.bytes);
    }
}

} // verus!
