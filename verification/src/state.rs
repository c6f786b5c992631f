//! The state store: values by key, committed to by a sparse Merkle tree.

use crate::digest::{zero_bytes, Digest};
use crate::errors::{Error, StoreError};
use crate::merkle::{
    collect_leaves, empty_store, key_bytes, keys_distinct, keys_of, leaves_of, no_leaves,
    pairwise_distinct, tree_leaves, tree_merkle_proof, tree_over, tree_root, tree_root_digest,
    tree_update_all, write_leaves, CommitmentTree,
};
use crate::traits::Leaf;
use crate::types::StateUpdate;
use vstd::prelude::*;

verus! {

/// What a key holds, if anything.
pub open spec fn lookup<V>(leaves: Map<Seq<u8>, V>, key: Seq<u8>) -> Option<V> {
    if leaves.contains_key(key) {
        Some(leaves[key])
    } else {
        None
    }
}

/// Writing one value: a value that commits to the zero digest vacates its
/// key, any other value takes the place of what its key held.
pub open spec fn write_value<V: Leaf>(leaves: Map<Seq<u8>, V>, value: V) -> Map<Seq<u8>, V> {
    if value.commitment() == zero_bytes() {
        leaves.remove(value.key())
    } else {
        leaves.insert(value.key(), value)
    }
}

/// Writing a batch of values, in order.
pub open spec fn write_values<V: Leaf>(leaves: Map<Seq<u8>, V>, batch: Seq<V>) -> Map<Seq<u8>, V>
    decreases batch.len(),
{
    if batch.len() == 0 {
        leaves
    } else {
        write_value(write_values(leaves, batch.drop_last()), batch.last())
    }
}

/// What stands under a value's key before the value is written: the stored
/// value, or the vacated form of the new value where the key holds nothing.
pub open spec fn prior_value<V: Leaf>(leaves: Map<Seq<u8>, V>, value: V) -> V {
    match lookup(leaves, value.key()) {
        Some(stored) => stored,
        None => value.vacated(),
    }
}

/// The prior values of a batch, in the order of the batch.
pub open spec fn prior_values<V: Leaf>(leaves: Map<Seq<u8>, V>, batch: Seq<V>) -> Seq<V> {
    batch.map_values(|value: V| prior_value(leaves, value))
}

/// The keys of a batch, in order.
pub open spec fn batch_keys<V: Leaf>(batch: Seq<V>) -> Seq<Seq<u8>> {
    batch.map_values(|value: V| value.key())
}

/// Why a batch is refused, if it is: there has to be something to write,
/// and no key may be written twice in one batch.
pub open spec fn batch_refusal<V: Leaf>(batch: Seq<V>) -> Option<StoreError> {
    if batch.len() == 0 {
        Some(StoreError::EmptyBatch)
    } else if !pairwise_distinct(batch_keys(batch)) {
        Some(StoreError::DuplicateKey)
    } else {
        None
    }
}

/// The commitments that a tree has to hold for a map of values.
pub open spec fn commitments<V: Leaf>(leaves: Map<Seq<u8>, V>) -> Map<Seq<u8>, Seq<u8>> {
    leaves.map_values(|value: V| value.commitment())
}

/// Whether some entry has the key.
spec fn holds_key<V: Leaf>(entries: Seq<V>, key: Seq<u8>) -> bool {
    exists|i: int| 0 <= i < entries.len() && #[trigger] entries[i].key() == key
}

/// The place of an entry with the key.
spec fn place_of<V: Leaf>(entries: Seq<V>, key: Seq<u8>) -> int {
    choose|i: int| 0 <= i < entries.len() && #[trigger] entries[i].key() == key
}

/// The entries as a map from key to value.
spec fn entries_map<V: Leaf>(entries: Seq<V>) -> Map<Seq<u8>, V> {
    Map::new(|key: Seq<u8>| holds_key(entries, key), |key: Seq<u8>| entries[place_of(entries, key)])
}

/// No two entries share a key.
spec fn unique_keys<V: Leaf>(entries: Seq<V>) -> bool {
    forall|i: int, j: int|
        0 <= i < j < entries.len() ==> #[trigger] entries[i].key() != #[trigger] entries[j].key()
}

/// No entry commits to the zero digest.
spec fn all_occupied<V: Leaf>(entries: Seq<V>) -> bool {
    forall|i: int| 0 <= i < entries.len() ==> #[trigger] entries[i].commitment() != zero_bytes()
}

/// With unique keys, every entry is what the map holds under its key.
proof fn lemma_entry_in_map<V: Leaf>(entries: Seq<V>, i: int)
    requires
        unique_keys(entries),
        0 <= i < entries.len(),
    ensures
        entries_map(entries).contains_key(entries[i].key()),
        entries_map(entries)[entries[i].key()] == entries[i],
{
    let j = place_of(entries, entries[i].key());
    assert(entries[j].key() == entries[i].key());
}

/// Replacing an entry by a value of the same key replaces it in the map.
proof fn lemma_map_after_update<V: Leaf>(entries: Seq<V>, i: int, value: V)
    requires
        unique_keys(entries),
        0 <= i < entries.len(),
        value.key() == entries[i].key(),
    ensures
        unique_keys(entries.update(i, value)),
        entries_map(entries.update(i, value)) == entries_map(entries).insert(value.key(), value),
{
    let after = entries.update(i, value);
    assert forall|key: Seq<u8>| holds_key(after, key) <==> holds_key(entries, key) by {
        if holds_key(entries, key) {
            assert(after[place_of(entries, key)].key() == key);
        }
    }
    assert forall|key: Seq<u8>| holds_key(after, key) implies entries_map(after)[key]
        == entries_map(entries).insert(value.key(), value)[key] by {
        let a = place_of(after, key);
        lemma_entry_in_map(after, a);
        if key != value.key() {
            lemma_entry_in_map(entries, a);
        } else {
            lemma_entry_in_map(after, i);
        }
    }
}

/// Taking an entry out takes its key out of the map.
proof fn lemma_map_after_remove<V: Leaf>(entries: Seq<V>, i: int)
    requires
        unique_keys(entries),
        0 <= i < entries.len(),
    ensures
        unique_keys(entries.remove(i)),
        entries_map(entries.remove(i)) == entries_map(entries).remove(entries[i].key()),
{
    let after = entries.remove(i);
    let gone = entries[i].key();
    assert forall|key: Seq<u8>| holds_key(after, key) <==> (holds_key(entries, key) && key
        != gone) by {
        if holds_key(entries, key) && key != gone {
            let a0 = place_of(entries, key);
            let a = if a0 < i { a0 } else { a0 - 1 };
            assert(after[a].key() == key);
        }
    }
    assert forall|key: Seq<u8>| holds_key(after, key) implies entries_map(after)[key]
        == entries_map(entries)[key] by {
        let a = place_of(after, key);
        let a0 = if a < i { a } else { a + 1 };
        lemma_entry_in_map(after, a);
        lemma_entry_in_map(entries, a0);
    }
}

/// Adding an entry under a new key adds it to the map.
proof fn lemma_map_after_push<V: Leaf>(entries: Seq<V>, value: V)
    requires
        unique_keys(entries),
        !holds_key(entries, value.key()),
    ensures
        unique_keys(entries.push(value)),
        entries_map(entries.push(value)) == entries_map(entries).insert(value.key(), value),
{
    let after = entries.push(value);
    let last = entries.len() as int;
    assert(after[last].key() == value.key());
    assert forall|key: Seq<u8>| holds_key(after, key) <==> (holds_key(entries, key) || key
        == value.key()) by {
        if holds_key(entries, key) {
            assert(after[place_of(entries, key)].key() == key);
        }
    }
    assert forall|key: Seq<u8>| holds_key(after, key) implies entries_map(after)[key]
        == entries_map(entries).insert(value.key(), value)[key] by {
        let a = place_of(after, key);
        lemma_entry_in_map(after, a);
        if a < last {
            lemma_entry_in_map(entries, a);
        }
    }
}

/// Where the entry with the key stands, if there is one.
fn position<V: Leaf>(entries: &Vec<V>, key: &Digest) -> (r: Option<usize>)
    ensures
        match r {
            Some(i) => i < entries@.len() && entries@[i as int].key() == key@,
            None => !holds_key(entries@, key@),
        },
{
    let mut i: usize = 0;
    while i < entries.len()
        invariant
            i <= entries@.len(),
            forall|j: int| 0 <= j < i ==> #[trigger] entries@[j].key() != key@,
        decreases entries@.len() - i,
    {
        let candidate = entries[i].get_key();
        if candidate.same(key) {
            return Some(i);
        }
        i += 1;
    }
    None
}

/// Writes one value into the entries.
fn put_entry<V: Leaf + Copy>(entries: &mut Vec<V>, value: V)
    requires
        unique_keys(old(entries)@),
        all_occupied(old(entries)@),
    ensures
        unique_keys(final(entries)@),
        all_occupied(final(entries)@),
        entries_map(final(entries)@) == write_value(entries_map(old(entries)@), value),
{
    let key = value.get_key();
    let vacant = value.to_h256().is_zero();
    match position(entries, &key) {
        Some(i) => {
            if vacant {
                proof {
                    lemma_map_after_remove(entries@, i as int);
                }
                entries.remove(i);
            } else {
                proof {
                    lemma_map_after_update(entries@, i as int, value);
                }
                entries[i] = value;
            }
        },
        None => {
            if !vacant {
                proof {
                    lemma_map_after_push(entries@, value);
                }
                entries.push(value);
            }
        },
    }
}

/// The tree's leaves follow the values: writing values and then committing
/// is committing and then writing their leaves.
pub proof fn lemma_commitments_follow<V: Leaf>(leaves: Map<Seq<u8>, V>, batch: Seq<V>)
    ensures
        commitments(write_values(leaves, batch)) == write_leaves(
            commitments(leaves),
            leaves_of(batch),
        ),
    decreases batch.len(),
{
    if batch.len() > 0 {
        let earlier = write_values(leaves, batch.drop_last());
        let value = batch.last();
        lemma_commitments_follow(leaves, batch.drop_last());
        assert(leaves_of(batch).drop_last() =~= leaves_of(batch.drop_last()));
        if value.commitment() == zero_bytes() {
            assert(commitments(earlier.remove(value.key())) =~= commitments(earlier).remove(
                value.key(),
            ));
        } else {
            assert(commitments(earlier.insert(value.key(), value)) =~= commitments(
                earlier,
            ).insert(value.key(), value.commitment()));
        }
    }
}

/// A key that no value of the batch has keeps what it held.
pub proof fn lemma_other_keys_are_kept<V: Leaf>(
    leaves: Map<Seq<u8>, V>,
    batch: Seq<V>,
    key: Seq<u8>,
)
    requires
        forall|i: int| 0 <= i < batch.len() ==> #[trigger] batch[i].key() != key,
    ensures
        lookup(write_values(leaves, batch), key) == lookup(leaves, key),
    decreases batch.len(),
{
    if batch.len() > 0 {
        lemma_other_keys_are_kept(leaves, batch.drop_last(), key);
    }
}

/// What is written is what is read back. After a batch with no key twice, a
/// key of the batch holds exactly the value written for it; a value that
/// commits to the zero digest has vacated its key instead.
pub proof fn lemma_written_is_read<V: Leaf>(leaves: Map<Seq<u8>, V>, batch: Seq<V>, i: int)
    requires
        pairwise_distinct(batch_keys(batch)),
        0 <= i < batch.len(),
    ensures
        lookup(write_values(leaves, batch), batch[i].key()) == if batch[i].commitment()
            == zero_bytes() {
            None
        } else {
            Some(batch[i])
        },
    decreases batch.len(),
{
    let earlier = batch.drop_last();
    let last = batch.len() - 1;
    if i < last {
        assert(batch_keys(batch)[i] != batch_keys(batch)[last]);
        assert forall|a: int, b: int| 0 <= a < b < earlier.len() implies batch_keys(earlier)[a]
            != batch_keys(earlier)[b] by {
            assert(batch_keys(batch)[a] != batch_keys(batch)[b]);
        }
        lemma_written_is_read(leaves, earlier, i);
    }
}

/// A key-addressed store of values with the Merkle tree that commits to
/// them. The store alone changes the root.
pub struct VmState<V> {
    tree: CommitmentTree,
    entries: Vec<V>,
}

impl<V: Leaf + Copy> VmState<V> {
    /// The values that the store holds, by key.
    pub closed spec fn leaves(&self) -> Map<Seq<u8>, V> {
        entries_map(self.entries@)
    }

    /// The root that commits to the store.
    pub closed spec fn root(&self) -> Seq<u8> {
        tree_root(self.tree)
    }

    /// The store's invariant: one value per key, no vacant value is kept,
    /// and the tree commits to exactly the values held.
    pub closed spec fn wf(&self) -> bool {
        &&& unique_keys(self.entries@)
        &&& all_occupied(self.entries@)
        &&& tree_leaves(self.tree) == commitments(entries_map(self.entries@))
    }

    /// Every value is stored under its own key, and none is vacant.
    pub proof fn lemma_leaves_keyed(&self)
        requires
            self.wf(),
        ensures
            forall|key: Seq<u8>| #[trigger]
                self.leaves().contains_key(key) ==> self.leaves()[key].key() == key
                    && self.leaves()[key].commitment() != zero_bytes(),
    {
        assert forall|key: Seq<u8>| #[trigger]
            self.leaves().contains_key(key) implies self.leaves()[key].key() == key
            && self.leaves()[key].commitment() != zero_bytes() by {
            let i = place_of(self.entries@, key);
        }
    }

    /// A store that reports `root` and holds nothing yet. A non-zero root is
    /// taken on trust: what it commits to is not in the store.
    pub fn new(root: Digest) -> (state: Self)
        ensures
            state.wf(),
            state.root() == root@,
            state.leaves() == Map::<Seq<u8>, V>::empty(),
    {
        let tree = tree_over(&root, empty_store());
        let state = VmState { tree, entries: Vec::new() };
        proof {
            assert(entries_map(state.entries@) =~= Map::<Seq<u8>, V>::empty());
            assert(commitments(Map::<Seq<u8>, V>::empty()) =~= no_leaves());
        }
        state
    }

    /// The root that commits to the store.
    pub fn get_root(&self) -> (root: Digest)
        ensures
            root@ == self.root(),
    {
        tree_root_digest(&self.tree)
    }

    /// The value stored under `key`, if any. Looking a key up never fails in
    /// this store; the result type leaves room for stores that can.
    pub fn get(&self, key: &Digest) -> (r: Result<Option<V>, Error>)
        requires
            self.wf(),
        ensures
            r == Ok::<Option<V>, Error>(lookup(self.leaves(), key@)),
    {
        match position(&self.entries, key) {
            Some(i) => {
                proof {
                    lemma_entry_in_map(self.entries@, i as int);
                }
                Ok(Some(self.entries[i]))
            },
            None => Ok(None),
        }
    }

    /// What a successful write of `batch` leaves behind: `after` holds the
    /// batch written over what `self` held, and `update` records both roots,
    /// the values before and after in the order of the batch, and one proof
    /// for each side with a bitmap per value.
    pub open spec fn records(&self, after: &Self, batch: Seq<V>, update: StateUpdate<V>) -> bool {
        &&& after.leaves() == write_values(self.leaves(), batch)
        &&& update.pre_state_root@ == self.root()
        &&& update.post_state_root@ == after.root()
        &&& update.pre_state_with_proof.0@ == prior_values(self.leaves(), batch)
        &&& update.post_state_with_proof.0@ == batch
        &&& update.pre_state_with_proof.1.leaves_bitmap@.len() == batch.len()
        &&& update.post_state_with_proof.1.leaves_bitmap@.len() == batch.len()
    }

    /// Writes a batch of values, each under its own key, and returns the
    /// roots before and after with the touched values and their proofs. A
    /// refused batch leaves the store as it was.
    pub fn update_set(&mut self, set: Vec<V>) -> (r: Result<StateUpdate<V>, Error>)
        requires
            old(self).wf(),
        ensures
            final(self).wf(),
            match r {
                Ok(update) => batch_refusal(set@) is None && old(self).records(
                    final(self),
                    set@,
                    update,
                ),
                Err(e) => batch_refusal(set@) matches Some(reason) && e == Error::Store(reason)
                    && *final(self) == *old(self),
            },
    {
        let leaves = collect_leaves(&set);
        let keys = keys_of(&leaves);
        assert(key_bytes(keys@) =~= batch_keys(set@));
        if !keys_distinct(&keys) {
            return Err(Error::Store(StoreError::DuplicateKey));
        }
        let pre_proof = match tree_merkle_proof(&self.tree, &keys) {
            Some(proof) => proof,
            None => {
                return Err(Error::Store(StoreError::EmptyBatch));
            },
        };
        let pre_state_root = self.get_root();
        let ghost before = self.leaves();

        let mut pre_values: Vec<V> = Vec::new();
        let mut i: usize = 0;
        while i < set.len()
            invariant
                i <= set@.len(),
                keys@.len() == set@.len(),
                key_bytes(keys@) == batch_keys(set@),
                unique_keys(self.entries@),
                before == entries_map(self.entries@),
                pre_values@.len() == i,
                forall|a: int| 0 <= a < i ==> pre_values@[a] == prior_value(before, set@[a]),
            decreases set@.len() - i,
        {
            assert(key_bytes(keys@)[i as int] == batch_keys(set@)[i as int]);
            let prior = match position(&self.entries, &keys[i]) {
                Some(j) => {
                    proof {
                        lemma_entry_in_map(self.entries@, j as int);
                    }
                    self.entries[j]
                },
                None => set[i].vacate(),
            };
            pre_values.push(prior);
            i += 1;
        }
        assert(pre_values@ =~= prior_values(before, set@));

        let mut n: usize = 0;
        while n < set.len()
            invariant
                n <= set@.len(),
                unique_keys(self.entries@),
                all_occupied(self.entries@),
                entries_map(self.entries@) == write_values(before, set@.subrange(0, n as int)),
                self.tree == old(self).tree,
            decreases set@.len() - n,
        {
            assert(set@.subrange(0, n + 1).drop_last() =~= set@.subrange(0, n as int));
            put_entry(&mut self.entries, set[n]);
            n += 1;
        }
        assert(set@.subrange(0, set@.len() as int) =~= set@);

        tree_update_all(&mut self.tree, &leaves);
        proof {
            lemma_commitments_follow(before, set@);
        }
        let post_proof = tree_merkle_proof(&self.tree, &keys).unwrap();
        let post_state_root = self.get_root();
        Ok(
            StateUpdate {
                pre_state_root,
                post_state_root,
                pre_state_with_proof: (pre_values, pre_proof),
                post_state_with_proof: (set, post_proof),
            },
        )
    }
}

} // verus!
