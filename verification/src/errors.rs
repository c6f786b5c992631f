//! Why an operation of the ledger core was refused.

use vstd::prelude::*;

verus! {

/// The state store refused a batch of writes.
#[derive(Clone, Copy, Debug, PartialEq, Eq)]
pub enum StoreError {
    /// The batch holds no value, so there is nothing to prove.
    EmptyBatch,
    /// Two values of the batch share a key.
    DuplicateKey,
}

/// The transition function refused a transaction for the values supplied.
#[derive(Clone, Copy, Debug, PartialEq, Eq)]
pub enum DomainError {
    /// The values supplied are not the sender's and the receiver's accounts,
    /// in this order.
    MismatchedAccounts,
    /// Sender and receiver are the same address.
    SelfTransfer,
    /// The sender holds less than the amount.
    InsufficientBalance,
    /// The receiver's balance would not fit.
    BalanceOverflow,
    /// The sender's nonce cannot advance any further.
    NonceExhausted,
}

/// Why a Merkle proof was not accepted.
#[derive(Clone, Copy, Debug, PartialEq, Eq)]
pub enum ProofDefect {
    /// The proof cannot be evaluated for the leaves it is claimed for.
    Malformed,
    /// The proof evaluates, but to a root other than the claimed one.
    NotIncluded,
}

/// Every way in which the core refuses to go on. Errors are handed to the
/// caller as they are; nothing is retried.
#[derive(Clone, Copy, Debug, PartialEq, Eq)]
pub enum Error {
    /// The state store refused to write.
    Store(StoreError),
    /// The transition function refused the transaction.
    Domain(DomainError),
    /// A Merkle proof did not hold.
    InvalidProof(ProofDefect),
}

} // verus!
