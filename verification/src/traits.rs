//! What a domain has to supply to run on the core: values that can be keyed
//! and committed to, transactions that can be digested, and a transition
//! function.

use crate::digest::{zero_bytes, Digest};
use crate::errors::Error;
use crate::types::{StateUpdate, TransactionReceipt};
use vstd::prelude::*;

verus! {

/// A value that lives in the state store.
pub trait Leaf: Sized {
    /// The 32 bytes under which the value is stored.
    spec fn key(&self) -> Seq<u8>;

    /// The 32 bytes that commit to the value. The zero digest commits to a
    /// vacant leaf: writing such a value removes the key.
    spec fn commitment(&self) -> Seq<u8>;

    /// The value that stands for "nothing stored yet" under this value's key.
    spec fn vacated(&self) -> Self;

    /// A vacated value keeps the key and commits to the zero digest.
    proof fn lemma_vacated(&self)
        ensures
            self.vacated().key() == self.key(),
            self.vacated().commitment() == zero_bytes(),
    ;

    /// The key under which the value is stored.
    fn get_key(&self) -> (k: Digest)
        ensures
            k@ == self.key(),
    ;

    /// The digest that commits to the value.
    fn to_h256(&self) -> (c: Digest)
        ensures
            c@ == self.commitment(),
    ;

    /// The value that stands for "nothing stored yet" under this value's key.
    fn vacate(&self) -> (v: Self)
        ensures
            v == self.vacated(),
    ;
}

/// Something whose digest enters a batch header.
pub trait TxHasher {
    /// The 32 bytes of the digest.
    spec fn digest(&self) -> Seq<u8>;

    /// The digest.
    fn to_h256(&self) -> (d: Digest)
        ensures
            d@ == self.digest(),
    ;
}

/// What a transition returned, with the values and the receipt by their
/// views.
pub open spec fn transition_view<V>(r: Result<(Vec<V>, TransactionReceipt), Error>) -> Result<
    (Seq<V>, Seq<u8>),
    Error,
> {
    match r {
        Ok((updated, receipt)) => Ok((updated@, receipt@)),
        Err(e) => Err(e),
    }
}

/// A state transition function: from the current values and a transaction to
/// the updated values and a receipt, or to the reason for refusing.
///
/// The function is pure. `transition` says what it computes, so the same
/// values and the same transaction always give the same outcome, and the
/// executable method is held to it.
pub trait StateTransition<V, T> {
    /// What the function computes: the updated values and the bytes of the
    /// receipt, or the reason for refusing.
    spec fn transition(&self, pre_state: Seq<V>, params: T) -> Result<(Seq<V>, Seq<u8>), Error>;

    /// Applies the transaction to the values.
    fn execute_tx(&self, pre_state: Vec<V>, params: T) -> (r: Result<
        (Vec<V>, TransactionReceipt),
        Error,
    >)
        ensures
            transition_view(r) == self.transition(pre_state@, params),
    ;
}

/// A state machine that owns a state store and runs transactions against it.
pub trait StateMachine<V, T>: Sized {
    /// The machine's invariant.
    spec fn wf(&self) -> bool;

    /// Attaches to the store with the given root.
    fn new(root: Digest) -> (machine: Self)
        ensures
            machine.wf(),
    ;

    /// Runs one transaction against the store and returns what was written,
    /// with its proofs, and the receipt.
    fn execute_tx(&mut self, params: T) -> (r: Result<(StateUpdate<V>, TransactionReceipt), Error>)
        requires
            old(self).wf(),
        ensures
            final(self).wf(),
    ;
}

} // verus!
