//! Verifiable state-transition core of a rollup-style ledger.
//!
//! The crate advances an account ledger that is committed to by a sparse
//! Merkle tree, and checks claimed transitions against inclusion proofs
//! before sealing them into a batch header.

pub mod digest;
pub mod encoding;
pub mod errors;
pub mod hasher;
pub mod merkle;
pub mod payments;
pub mod state;
pub mod traits;
pub mod types;
pub mod zkvm_state_machine;
