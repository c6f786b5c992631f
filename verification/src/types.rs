//! Data carried between the executor and the verifier.

use crate::digest::{lemma_digest_ext, Digest};
use crate::encoding::append_bytes;
use crate::hasher::{hash_bytes, sha256_digest};
use crate::traits::TxHasher;
use vstd::prelude::*;

verus! {

/// One sibling hash on the way from a leaf to the root.
#[derive(Clone, Copy, Debug, PartialEq, Eq)]
pub enum SiblingNode {
    /// The hash of a subtree.
    Value(Digest),
    /// A subtree that was merged with `zero_count` empty siblings in a row.
    MergeWithZero { base_node: Digest, zero_bits: Digest, zero_count: u8 },
}

/// The view of a [`SiblingNode`]: the same shape over byte sequences.
pub enum SiblingNodeView {
    /// The hash of a subtree.
    Value(Seq<u8>),
    /// A subtree that was merged with `zero_count` empty siblings in a row.
    MergeWithZero { base_node: Seq<u8>, zero_bits: Seq<u8>, zero_count: u8 },
}

impl View for SiblingNode {
    type V = SiblingNodeView;

    open spec fn view(&self) -> SiblingNodeView {
        match *self {
            SiblingNode::Value(v) => SiblingNodeView::Value(v@),
            SiblingNode::MergeWithZero { base_node, zero_bits, zero_count } => {
                SiblingNodeView::MergeWithZero {
                    base_node: base_node@,
                    zero_bits: zero_bits@,
                    zero_count,
                }
            },
        }
    }
}

/// A Merkle proof for a set of leaves: one bitmap per leaf that marks the
/// heights with a non-empty sibling, and the sibling hashes in the order in
/// which verification consumes them.
#[derive(Debug, PartialEq, Eq)]
pub struct InclusionProof {
    pub leaves_bitmap: Vec<Digest>,
    pub merkle_path: Vec<SiblingNode>,
}

/// The view of an [`InclusionProof`].
pub struct InclusionProofView {
    pub leaves_bitmap: Seq<Seq<u8>>,
    pub merkle_path: Seq<SiblingNodeView>,
}

impl View for InclusionProof {
    type V = InclusionProofView;

    open spec fn view(&self) -> InclusionProofView {
        InclusionProofView {
            leaves_bitmap: self.leaves_bitmap@.map_values(|d: Digest| d@),
            merkle_path: self.merkle_path@.map_values(|n: SiblingNode| n@),
        }
    }
}

impl Clone for InclusionProof {
    fn clone(&self) -> (copy: InclusionProof)
        ensures
            copy@ == self@,
    {
        InclusionProof {
            leaves_bitmap: copy_values(&self.leaves_bitmap),
            merkle_path: copy_values(&self.merkle_path),
        }
    }
}

/// A list with the same values in the same order.
pub fn copy_values<V: Copy>(values: &Vec<V>) -> (copy: Vec<V>)
    ensures
        copy@ == values@,
{
    let mut copy: Vec<V> = Vec::new();
    let mut i: usize = 0;
    while i < values.len()
        invariant
            i <= values@.len(),
            copy@ == values@.subrange(0, i as int),
        decreases values@.len() - i,
    {
        copy.push(values[i]);
        i += 1;
    }
    copy
}

/// What an executor claims about one batch of writes: the roots before and
/// after, and for each side the touched values, in the order of the batch,
/// with a proof that they belong to that root.
#[derive(Debug, PartialEq, Eq)]
pub struct StateUpdate<V> {
    pub pre_state_root: Digest,
    pub post_state_root: Digest,
    pub pre_state_with_proof: (Vec<V>, InclusionProof),
    pub post_state_with_proof: (Vec<V>, InclusionProof),
}

impl<V: Copy> Clone for StateUpdate<V> {
    fn clone(&self) -> (copy: StateUpdate<V>)
        ensures
            copy.pre_state_root == self.pre_state_root,
            copy.post_state_root == self.post_state_root,
            copy.pre_state_with_proof.0@ == self.pre_state_with_proof.0@,
            copy.pre_state_with_proof.1@ == self.pre_state_with_proof.1@,
            copy.post_state_with_proof.0@ == self.post_state_with_proof.0@,
            copy.post_state_with_proof.1@ == self.post_state_with_proof.1@,
    {
        StateUpdate {
            pre_state_root: self.pre_state_root,
            post_state_root: self.post_state_root,
            pre_state_with_proof: (
                copy_values(&self.pre_state_with_proof.0),
                self.pre_state_with_proof.1.clone(),
            ),
            post_state_with_proof: (
                copy_values(&self.post_state_with_proof.0),
                self.post_state_with_proof.1.clone(),
            ),
        }
    }
}

/// The record of a transaction's outcome, as the bytes that the transition
/// function chose for it. Only its digest enters a batch header.
#[derive(Debug, PartialEq, Eq)]
pub struct TransactionReceipt {
    pub data: Vec<u8>,
}

impl View for TransactionReceipt {
    type V = Seq<u8>;

    open spec fn view(&self) -> Seq<u8> {
        self.data@
    }
}

impl Clone for TransactionReceipt {
    fn clone(&self) -> (copy: TransactionReceipt)
        ensures
            copy@ == self@,
    {
        let mut data: Vec<u8> = Vec::new();
        append_bytes(&mut data, self.data.as_slice());
        TransactionReceipt { data }
    }
}

impl TxHasher for TransactionReceipt {
    open spec fn digest(&self) -> Seq<u8> {
        sha256_digest(self@)
    }

    fn to_h256(&self) -> (d: Digest) {
        hash_bytes(self.data.as_slice())
    }
}

/// The commitment to one verified transition: roots and digests only.
///
/// Mind the two state roots: `pre_state_root` holds the root that the
/// transition leads to and `state_root` the root that it starts from.
#[derive(Clone, Copy, Debug, PartialEq, Eq)]
pub struct BatchHeader {
    pub pre_state_root: Digest,
    pub state_root: Digest,
    pub transactions_root: Digest,
    pub receipts_root: Digest,
    pub batch_number: u64,
}

/// The view of a [`BatchHeader`].
pub struct BatchHeaderView {
    pub pre_state_root: Seq<u8>,
    pub state_root: Seq<u8>,
    pub transactions_root: Seq<u8>,
    pub receipts_root: Seq<u8>,
    pub batch_number: u64,
}

impl View for BatchHeader {
    type V = BatchHeaderView;

    open spec fn view(&self) -> BatchHeaderView {
        BatchHeaderView {
            pre_state_root: self.pre_state_root@,
            state_root: self.state_root@,
            transactions_root: self.transactions_root@,
            receipts_root: self.receipts_root@,
            batch_number: self.batch_number,
        }
    }
}

/// Batch headers are determined by their views.
pub proof fn lemma_header_ext(a: BatchHeader, b: BatchHeader)
    ensures
        (a@ == b@) <==> (a == b),
{
    lemma_digest_ext(a.pre_state_root, b.pre_state_root);
    lemma_digest_ext(a.state_root, b.state_root);
    lemma_digest_ext(a.transactions_root, b.transactions_root);
    lemma_digest_ext(a.receipts_root, b.receipts_root);
}

} // verus!
