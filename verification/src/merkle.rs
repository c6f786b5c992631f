//! The sparse Merkle tree that commits to the ledger, and proof checking.
//!
//! The tree itself, proof generation and proof evaluation belong to the
//! `sparse_merkle_tree` crate. This module states what the ledger relies on
//! and keeps every call inside the inputs on which that crate is total.

use crate::digest::{zero_bytes, Digest};
use crate::errors::{Error, ProofDefect};
use crate::hasher::ShaHasher;
use crate::traits::Leaf;
use crate::types::{InclusionProof, InclusionProofView, SiblingNode};
use sparse_merkle_tree::merge::MergeValue;
use sparse_merkle_tree::MerkleProof;
use vstd::prelude::*;

verus! {

/// `sparse_merkle_tree::SparseMerkleTree`, whose inside is not looked into.
#[verifier::external_type_specification]
#[verifier::external_body]
#[verifier::reject_recursive_types(H)]
#[verifier::reject_recursive_types(V)]
#[verifier::reject_recursive_types(S)]
pub struct ExSparseMerkleTree<H, V, S>(sparse_merkle_tree::SparseMerkleTree<H, V, S>);

/// `sparse_merkle_tree::default_store::DefaultStore`, whose inside is not
/// looked into.
#[verifier::external_type_specification]
#[verifier::external_body]
#[verifier::reject_recursive_types(V)]
pub struct ExDefaultStore<V>(sparse_merkle_tree::default_store::DefaultStore<V>);

/// The store behind the commitment tree: leaf commitments held in memory.
pub type LeafStore = sparse_merkle_tree::default_store::DefaultStore<sparse_merkle_tree::H256>;

/// The tree that commits to a ledger: SHA-256 over leaf commitments.
pub type CommitmentTree = sparse_merkle_tree::SparseMerkleTree<
    ShaHasher,
    sparse_merkle_tree::H256,
    LeafStore,
>;

/// A leaf as the tree sees it: key bytes and commitment bytes.
pub type LeafBytes = (Seq<u8>, Seq<u8>);

/// The leaves that a store holds: key bytes to commitment bytes.
pub uninterp spec fn store_leaves(store: LeafStore) -> Map<Seq<u8>, Seq<u8>>;

/// The leaves that a tree holds: key bytes to commitment bytes. A key whose
/// commitment is zero is not in the map.
pub uninterp spec fn tree_leaves(tree: CommitmentTree) -> Map<Seq<u8>, Seq<u8>>;

/// The root that a tree currently reports.
pub uninterp spec fn tree_root(tree: CommitmentTree) -> Seq<u8>;

/// What evaluating a proof yields: `None` when the proof cannot be evaluated
/// for these leaves, otherwise whether the root it leads to is `root`.
pub uninterp spec fn merkle_verdict(
    proof: InclusionProofView,
    root: Seq<u8>,
    leaves: Seq<LeafBytes>,
) -> Option<bool>;

/// The map without any leaf.
pub open spec fn no_leaves() -> Map<Seq<u8>, Seq<u8>> {
    Map::empty()
}

/// The byte view of a list of leaves.
pub open spec fn leaf_bytes(leaves: Seq<(Digest, Digest)>) -> Seq<LeafBytes> {
    leaves.map_values(|leaf: (Digest, Digest)| (leaf.0@, leaf.1@))
}

/// The leaves that a list of values stands for: each value under its own
/// key, with its own commitment.
pub open spec fn leaves_of<V: Leaf>(values: Seq<V>) -> Seq<LeafBytes> {
    values.map_values(|v: V| (v.key(), v.commitment()))
}

/// The byte view of a list of keys.
pub open spec fn key_bytes(keys: Seq<Digest>) -> Seq<Seq<u8>> {
    keys.map_values(|key: Digest| key@)
}

/// A proof that is accepted has evaluated to the claimed root, for leaves
/// that name no key twice; every refusal is an invalid proof.
pub proof fn lemma_inclusion_outcome(
    proof: InclusionProofView,
    root: Seq<u8>,
    leaves: Seq<LeafBytes>,
)
    ensures
        inclusion_outcome(proof, root, leaves) is Ok <==> pairwise_distinct(leaf_keys(leaves))
            && merkle_verdict(proof, root, leaves) == Some(true),
        inclusion_outcome(proof, root, leaves) matches Err(e) ==> e is InvalidProof,
{
}

/// No key occurs twice.
pub open spec fn pairwise_distinct(keys: Seq<Seq<u8>>) -> bool {
    forall|i: int, j: int| 0 <= i < j < keys.len() ==> keys[i] != keys[j]
}

/// The keys of a list of leaves, in order.
pub open spec fn leaf_keys(leaves: Seq<LeafBytes>) -> Seq<Seq<u8>> {
    leaves.map_values(|leaf: LeafBytes| leaf.0)
}

/// Writing a batch of leaves into a leaf map, in order: a zero commitment
/// removes the key, any other commitment replaces what the key held.
pub open spec fn write_leaves(leaves: Map<Seq<u8>, Seq<u8>>, batch: Seq<LeafBytes>) -> Map<
    Seq<u8>,
    Seq<u8>,
>
    decreases batch.len(),
{
    if batch.len() == 0 {
        leaves
    } else {
        let earlier = write_leaves(leaves, batch.drop_last());
        let (key, commitment) = batch.last();
        if commitment == zero_bytes() {
            earlier.remove(key)
        } else {
            earlier.insert(key, commitment)
        }
    }
}

/// `DefaultStore::default`: a store that holds no leaf and no branch.
#[verifier::external_body]
pub(crate) fn empty_store() -> (store: LeafStore)
    ensures
        store_leaves(store) == no_leaves(),
{
    sparse_merkle_tree::default_store::DefaultStore::default()
}

/// `SparseMerkleTree::new`: a tree that reports `root` and reads and writes
/// `store`. The root is taken as given and is not recomputed.
#[verifier::external_body]
pub(crate) fn tree_over(root: &Digest, store: LeafStore) -> (tree: CommitmentTree)
    ensures
        tree_root(tree) == root@,
        tree_leaves(tree) == store_leaves(store),
{
    sparse_merkle_tree::SparseMerkleTree::new(root.bytes.into(), store)
}

/// `SparseMerkleTree::root`: the root the tree reports.
#[verifier::external_body]
pub(crate) fn tree_root_digest(tree: &CommitmentTree) -> (root: Digest)
    ensures
        root@ == tree_root(*tree),
{
    Digest { bytes: (*tree.root()).into() }
}

/// `SparseMerkleTree::update_all`: writes the batch, where the last entry of
/// a key wins and a zero commitment deletes the leaf. The call can only fail
/// when the store does, and a `DefaultStore` never reports a failure, so the
/// outcome is not handed on. Nothing is claimed about the new root.
#[verifier::external_body]
pub(crate) fn tree_update_all(tree: &mut CommitmentTree, batch: &Vec<(Digest, Digest)>)
    ensures
        tree_leaves(*final(tree)) == write_leaves(tree_leaves(*old(tree)), leaf_bytes(batch@)),
{
    let pairs = batch.iter().map(|(k, c)| (k.bytes.into(), c.bytes.into())).collect();
    let _ = tree.update_all(pairs);
}

/// `SparseMerkleTree::merkle_proof`, with the proof taken apart by
/// `MerkleProof::take`. Over a `DefaultStore` the call fails exactly when no
/// key is given, and a proof holds one bitmap per key. Keys must differ from
/// one another: the bounded work stack of `sparse_merkle_tree` is sized for
/// distinct keys.
#[verifier::external_body]
pub(crate) fn tree_merkle_proof(tree: &CommitmentTree, keys: &Vec<Digest>) -> (r: Option<
    InclusionProof,
>)
    requires
        pairwise_distinct(key_bytes(keys@)),
    ensures
        r is Some <==> keys@.len() > 0,
        r matches Some(proof) ==> proof.leaves_bitmap@.len() == keys@.len(),
{
    let outside = tree.merkle_proof(keys.iter().map(|k| k.bytes.into()).collect()).ok()?;
    let (bitmaps, path) = outside.take();
    let leaves_bitmap = bitmaps.into_iter().map(|b| Digest { bytes: b.into() }).collect();
    let merkle_path = path.into_iter().map(|node| match node {
        MergeValue::Value(v) => SiblingNode::Value(Digest { bytes: v.into() }),
        MergeValue::MergeWithZero { base_node, zero_bits, zero_count } => SiblingNode::MergeWithZero {
            base_node: Digest { bytes: base_node.into() },
            zero_bits: Digest { bytes: zero_bits.into() },
            zero_count,
        },
    }).collect();
    Some(InclusionProof { leaves_bitmap, merkle_path })
}

/// `MerkleProof::verify` with the ledger's hasher, on a proof put together by
/// `MerkleProof::new`. The call is a function of the proof, the root and the
/// leaves alone; an error of the crate means that the proof cannot be
/// evaluated for these leaves and comes back as `None`. Keys must differ
/// from one another: the bounded work stack of `sparse_merkle_tree` is sized
/// for distinct keys.
#[verifier::external_body]
fn verify_inclusion(proof: &InclusionProof, root: &Digest, leaves: &Vec<(Digest, Digest)>) -> (r:
    Option<bool>)
    requires
        pairwise_distinct(leaf_keys(leaf_bytes(leaves@))),
    ensures
        r == merkle_verdict(proof@, root@, leaf_bytes(leaves@)),
{
    let bitmaps = proof.leaves_bitmap.iter().map(|b| b.bytes.into()).collect();
    let path = proof.merkle_path.iter().map(|node| match *node {
        SiblingNode::Value(v) => MergeValue::Value(v.bytes.into()),
        SiblingNode::MergeWithZero { base_node, zero_bits, zero_count } => MergeValue::MergeWithZero {
            base_node: base_node.bytes.into(),
            zero_bits: zero_bits.bytes.into(),
            zero_count,
        },
    }).collect();
    let pairs = leaves.iter().map(|(k, c)| (k.bytes.into(), c.bytes.into())).collect();
    MerkleProof::new(bitmaps, path).verify::<ShaHasher>(&root.bytes.into(), pairs).ok()
}

/// Whether no key occurs twice in the list.
pub fn keys_distinct(keys: &Vec<Digest>) -> (distinct: bool)
    ensures
        distinct == pairwise_distinct(key_bytes(keys@)),
{
    let n: usize = keys.len();
    let mut j: usize = 0;
    while j < n
        invariant
            n == keys@.len(),
            j <= n,
            forall|a: int, b: int| 0 <= a < b < j ==> keys@[a]@ != keys@[b]@,
        decreases n - j,
    {
        let mut i: usize = 0;
        while i < j
            invariant
                n == keys@.len(),
                i <= j < n,
                forall|a: int| 0 <= a < i ==> keys@[a]@ != keys@[j as int]@,
            decreases j - i,
        {
            if keys[i].same(&keys[j]) {
                assert(key_bytes(keys@)[i as int] == key_bytes(keys@)[j as int]);
                return false;
            }
            i += 1;
        }
        j += 1;
    }
    true
}

/// The keys of a list of leaves, in order.
pub fn keys_of(leaves: &Vec<(Digest, Digest)>) -> (keys: Vec<Digest>)
    ensures
        key_bytes(keys@) == leaf_keys(leaf_bytes(leaves@)),
{
    let mut keys: Vec<Digest> = Vec::new();
    let mut i: usize = 0;
    while i < leaves.len()
        invariant
            i <= leaves@.len(),
            keys@.len() == i,
            forall|a: int| 0 <= a < i ==> keys@[a] == leaves@[a].0,
        decreases leaves@.len() - i,
    {
        keys.push(leaves[i].0);
        i += 1;
    }
    keys
}

/// The keys and commitments of a list of values, in order.
pub fn collect_leaves<V: Leaf>(values: &Vec<V>) -> (leaves: Vec<(Digest, Digest)>)
    ensures
        leaf_bytes(leaves@) == leaves_of(values@),
{
    let mut leaves: Vec<(Digest, Digest)> = Vec::new();
    let mut i: usize = 0;
    while i < values.len()
        invariant
            i <= values@.len(),
            leaves@.len() == i,
            forall|a: int|
                0 <= a < i ==> leaves@[a].0@ == values@[a].key() && leaves@[a].1@
                    == values@[a].commitment(),
        decreases values@.len() - i,
    {
        let key = values[i].get_key();
        let commitment = values[i].to_h256();
        leaves.push((key, commitment));
        i += 1;
    }
    leaves
}

/// What a verdict means for the operation that asked for it: only a proof
/// that evaluates to the claimed root lets it go on.
pub open spec fn verdict_outcome(verdict: Option<bool>) -> Result<(), Error> {
    match verdict {
        Some(true) => Ok(()),
        Some(false) => Err(Error::InvalidProof(ProofDefect::NotIncluded)),
        None => Err(Error::InvalidProof(ProofDefect::Malformed)),
    }
}

/// Turns a verdict into the decision to go on or to refuse.
pub fn settle_verdict(verdict: Option<bool>) -> (r: Result<(), Error>)
    ensures
        r == verdict_outcome(verdict),
{
    match verdict {
        Some(true) => Ok(()),
        Some(false) => Err(Error::InvalidProof(ProofDefect::NotIncluded)),
        None => Err(Error::InvalidProof(ProofDefect::Malformed)),
    }
}

/// What checking a proof for a list of leaves against a root comes to. A
/// list that names a key twice is refused as malformed before the proof is
/// looked at: a leaf is only ever proved under its own key.
pub open spec fn inclusion_outcome(
    proof: InclusionProofView,
    root: Seq<u8>,
    leaves: Seq<LeafBytes>,
) -> Result<(), Error> {
    if pairwise_distinct(leaf_keys(leaves)) {
        verdict_outcome(merkle_verdict(proof, root, leaves))
    } else {
        Err(Error::InvalidProof(ProofDefect::Malformed))
    }
}

/// Checks that `leaves` belong to the tree with root `root`, as witnessed by
/// `proof`.
pub fn check_inclusion(proof: &InclusionProof, root: &Digest, leaves: &Vec<(Digest, Digest)>) -> (r:
    Result<(), Error>)
    ensures
        r == inclusion_outcome(proof@, root@, leaf_bytes(leaves@)),
{
    let keys = keys_of(leaves);
    if !keys_distinct(&keys) {
        return Err(Error::InvalidProof(ProofDefect::Malformed));
    }
    settle_verdict(verify_inclusion(proof, root, leaves))
}

} // verus!
