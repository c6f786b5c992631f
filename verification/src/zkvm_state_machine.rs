//! The proof-checking state machine: it re-derives a claimed transition from
//! roots, values and proofs alone and seals it into a batch header.

use crate::digest::Digest;
use crate::errors::Error;
use crate::hasher::sha256_digest;
use crate::merkle::{check_inclusion, collect_leaves, inclusion_outcome, leaves_of};
use crate::traits::{Leaf, StateTransition, TxHasher};
use crate::types::{lemma_header_ext, BatchHeader, BatchHeaderView, StateUpdate};
use core::marker::PhantomData;
use vstd::prelude::*;

verus! {

/// A verifier for transitions of values `V` under transactions `T`, with the
/// transition function `S`. It keeps no state between calls.
pub struct ZKStateMachine<V, T, S: StateTransition<V, T>> {
    stf: S,
    phantom_v: PhantomData<V>,
    phantom_t: PhantomData<T>,
}

/// The header that commits to a transition from `pre_root` to `post_root`.
///
/// The field `pre_state_root` receives the root after the transition and the
/// field `state_root` the root before it. Consumers of the header read the
/// fields this way; whoever changes the assignment changes the format.
pub open spec fn sealed_header(
    pre_root: Seq<u8>,
    post_root: Seq<u8>,
    transactions_root: Seq<u8>,
    receipts_root: Seq<u8>,
    batch_number: u64,
) -> BatchHeaderView {
    BatchHeaderView {
        pre_state_root: post_root,
        state_root: pre_root,
        transactions_root,
        receipts_root,
        batch_number,
    }
}

/// Puts a batch header together; see [`sealed_header`] for the two roots.
pub fn seal_header(
    pre_root: Digest,
    post_root: Digest,
    transactions_root: Digest,
    receipts_root: Digest,
    batch_number: u64,
) -> (header: BatchHeader)
    ensures
        header@ == sealed_header(
            pre_root@,
            post_root@,
            transactions_root@,
            receipts_root@,
            batch_number,
        ),
{
    BatchHeader {
        pre_state_root: post_root,
        state_root: pre_root,
        transactions_root,
        receipts_root,
        batch_number,
    }
}

/// A header, or the error that came instead, with the header by its view.
pub open spec fn header_view(r: Result<BatchHeader, Error>) -> Result<BatchHeaderView, Error> {
    match r {
        Ok(header) => Ok(header@),
        Err(e) => Err(e),
    }
}

impl<V: Leaf> StateUpdate<V> {
    /// What checking the proof for the values before comes to: the values
    /// claimed, each under its own key, against the root before.
    pub open spec fn pre_check(&self) -> Result<(), Error> {
        inclusion_outcome(
            self.pre_state_with_proof.1@,
            self.pre_state_root@,
            leaves_of(self.pre_state_with_proof.0@),
        )
    }

    /// What checking the proof for the values after comes to, for the values
    /// `updated` that the transition computed, against the root after.
    pub open spec fn post_check(&self, updated: Seq<V>) -> Result<(), Error> {
        inclusion_outcome(self.post_state_with_proof.1@, self.post_state_root@, leaves_of(updated))
    }
}

impl<V: Leaf, T: TxHasher, S: StateTransition<V, T>> ZKStateMachine<V, T, S> {
    /// What verifying a claimed transition comes to. Three gates stand in a
    /// row: the proof of the values before, the transition itself, and the
    /// proof of the values that the transition computed. The first gate that
    /// refuses decides the error; only when all three pass is a header
    /// sealed.
    pub open spec fn outcome(
        stf: S,
        params: T,
        state_update: StateUpdate<V>,
        batch_number: u64,
    ) -> Result<BatchHeaderView, Error> {
        match state_update.pre_check() {
            Err(e) => Err(e),
            Ok(_) => match stf.transition(state_update.pre_state_with_proof.0@, params) {
                Err(e) => Err(e),
                Ok((updated, receipt)) => match state_update.post_check(updated) {
                    Err(e) => Err(e),
                    Ok(_) => Ok(
                        sealed_header(
                            state_update.pre_state_root@,
                            state_update.post_state_root@,
                            params.digest(),
                            sha256_digest(receipt),
                            batch_number,
                        ),
                    ),
                },
            },
        }
    }

    /// A verifier around the transition function `stf`.
    pub fn new(stf: S) -> (machine: Self)
        ensures
            machine.stf() == stf,
    {
        ZKStateMachine { stf, phantom_v: PhantomData, phantom_t: PhantomData }
    }

    /// The transition function that this verifier re-executes.
    pub closed spec fn stf(&self) -> S {
        self.stf
    }

    /// Verifies that `state_update` is what `params` leads to, and seals the
    /// transition into the header of batch `batch_number`.
    ///
    /// The values claimed for the state before are taken from
    /// `state_update`; the values after are not: they are computed here and
    /// then held against the proof for the state after.
    pub fn execute_tx(&self, params: T, state_update: StateUpdate<V>, batch_number: u64) -> (r:
        Result<BatchHeader, Error>)
        ensures
            header_view(r) == Self::outcome(self.stf(), params, state_update, batch_number),
    {
        let StateUpdate {
            pre_state_root,
            post_state_root,
            pre_state_with_proof,
            post_state_with_proof,
        } = state_update;
        let (pre_values, pre_proof) = pre_state_with_proof;
        let (_, post_proof) = post_state_with_proof;

        let pre_leaves = collect_leaves(&pre_values);
        match check_inclusion(&pre_proof, &pre_state_root, &pre_leaves) {
            Ok(_) => {},
            Err(e) => return Err(e),
        }

        let transactions_root = params.to_h256();
        let (updated, receipt) = match self.stf.execute_tx(pre_values, params) {
            Ok(v) => v,
            Err(e) => return Err(e),
        };

        let post_leaves = collect_leaves(&updated);
        match check_inclusion(&post_proof, &post_state_root, &post_leaves) {
            Ok(_) => {},
            Err(e) => return Err(e),
        }

        Ok(
            seal_header(
                pre_state_root,
                post_state_root,
                transactions_root,
                receipt.to_h256(),
                batch_number,
            ),
        )
    }

    /// The proof for the values before cannot be bypassed: where it is
    /// refused, the transition is refused with that very error, an invalid
    /// proof, whatever the transition function would have said.
    pub proof fn lemma_pre_proof_gates(
        stf: S,
        params: T,
        state_update: StateUpdate<V>,
        batch_number: u64,
    )
        requires
            state_update.pre_check() is Err,
        ensures
            Self::outcome(stf, params, state_update, batch_number) is Err,
            Self::outcome(stf, params, state_update, batch_number)->Err_0
                == state_update.pre_check()->Err_0,
            Self::outcome(stf, params, state_update, batch_number)->Err_0 is InvalidProof,
    {
    }

    /// The proof for the values after cannot be bypassed either: where the
    /// values that the transition computes are refused by it, the transition
    /// is refused with that very error, an invalid proof, however valid the
    /// transition itself was.
    pub proof fn lemma_post_proof_gates(
        stf: S,
        params: T,
        state_update: StateUpdate<V>,
        batch_number: u64,
    )
        requires
            state_update.pre_check() is Ok,
            stf.transition(state_update.pre_state_with_proof.0@, params) is Ok,
            state_update.post_check(
                stf.transition(state_update.pre_state_with_proof.0@, params)->Ok_0.0,
            ) is Err,
        ensures
            Self::outcome(stf, params, state_update, batch_number) is Err,
            Self::outcome(stf, params, state_update, batch_number)->Err_0
                == state_update.post_check(
                stf.transition(state_update.pre_state_with_proof.0@, params)->Ok_0.0,
            )->Err_0,
            Self::outcome(stf, params, state_update, batch_number)->Err_0 is InvalidProof,
    {
    }

    /// A header is sealed only when both proofs hold and the transition went
    /// through.
    pub proof fn lemma_header_needs_all_gates(
        stf: S,
        params: T,
        state_update: StateUpdate<V>,
        batch_number: u64,
    )
        requires
            Self::outcome(stf, params, state_update, batch_number) is Ok,
        ensures
            state_update.pre_check() is Ok,
            stf.transition(state_update.pre_state_with_proof.0@, params) is Ok,
            state_update.post_check(
                stf.transition(state_update.pre_state_with_proof.0@, params)->Ok_0.0,
            ) is Ok,
    {
    }

    /// Verification has no memory: whatever two runs on the same
    /// transaction, the same state update and the same batch number return,
    /// they return the same.
    pub proof fn lemma_verification_is_repeatable(
        stf: S,
        params: T,
        state_update: StateUpdate<V>,
        batch_number: u64,
        first: Result<BatchHeader, Error>,
        second: Result<BatchHeader, Error>,
    )
        requires
            header_view(first) == Self::outcome(stf, params, state_update, batch_number),
            header_view(second) == Self::outcome(stf, params, state_update, batch_number),
        ensures
            first == second,
    {
        if let Ok(a) = first {
            if let Ok(b) = second {
                lemma_header_ext(a, b);
            }
        }
    }
}

} // verus!
