//! The transition function of the payments domain.

use crate::errors::{DomainError, Error};
use crate::payments::types::{receipt_bytes, Account, PaymentReceiptData, Transaction};
use crate::traits::StateTransition;
use crate::types::TransactionReceipt;
use vstd::prelude::*;

verus! {

/// The rules of a transfer. They need nothing but the two accounts involved
/// and the transfer itself: the accounts must be the sender's and the
/// receiver's, the two must differ, the sender must hold the amount, and
/// neither the receiver's balance nor the sender's nonce may run over.
#[derive(Clone, Copy, Debug)]
pub struct PaymentsStateTransition {}

/// Why a transfer is refused for the accounts supplied, if it is. The checks
/// stand in the order in which they are made.
pub open spec fn transfer_refusal(pre_state: Seq<Account>, tx: Transaction) -> Option<DomainError> {
    if pre_state.len() != 2 || pre_state[0].address != tx.from || pre_state[1].address != tx.to {
        Some(DomainError::MismatchedAccounts)
    } else if tx.from == tx.to {
        Some(DomainError::SelfTransfer)
    } else if pre_state[0].balance < tx.amount {
        Some(DomainError::InsufficientBalance)
    } else if pre_state[1].balance + tx.amount > u64::MAX {
        Some(DomainError::BalanceOverflow)
    } else if pre_state[0].nonce == u64::MAX {
        Some(DomainError::NonceExhausted)
    } else {
        None
    }
}

/// The sender's account after a transfer that was not refused.
pub open spec fn debited(sender: Account, tx: Transaction) -> Account {
    Account {
        address: sender.address,
        balance: (sender.balance - tx.amount) as u64,
        nonce: (sender.nonce + 1) as u64,
    }
}

/// The receiver's account after a transfer that was not refused.
pub open spec fn credited(receiver: Account, tx: Transaction) -> Account {
    Account {
        address: receiver.address,
        balance: (receiver.balance + tx.amount) as u64,
        nonce: receiver.nonce,
    }
}

/// The receipt of a transfer that was not refused.
pub open spec fn transfer_receipt(sender: Account, tx: Transaction) -> PaymentReceiptData {
    PaymentReceiptData {
        from: tx.from,
        to: tx.to,
        amount: tx.amount,
        nonce: (sender.nonce + 1) as u64,
    }
}

/// What a transfer does to `[sender, receiver]`: the amount moves from the
/// first account to the second and the sender's nonce advances by one.
pub open spec fn transfer(pre_state: Seq<Account>, tx: Transaction) -> Result<
    (Seq<Account>, Seq<u8>),
    Error,
> {
    match transfer_refusal(pre_state, tx) {
        Some(reason) => Err(Error::Domain(reason)),
        None => Ok(
            (
                seq![debited(pre_state[0], tx), credited(pre_state[1], tx)],
                receipt_bytes(transfer_receipt(pre_state[0], tx)),
            ),
        ),
    }
}

/// A transfer that is not refused moves value and creates none: the two
/// balances add up to what they added up to before, the accounts keep their
/// addresses, the sender's nonce advances by one and the receiver's stays.
pub proof fn lemma_transfer_conserves(pre_state: Seq<Account>, tx: Transaction)
    requires
        transfer(pre_state, tx) is Ok,
    ensures
        ({
            let updated = transfer(pre_state, tx)->Ok_0.0;
            &&& updated.len() == 2
            &&& updated[0].address == tx.from && updated[1].address == tx.to
            &&& updated[0].balance + updated[1].balance == pre_state[0].balance
                + pre_state[1].balance
            &&& updated[0].balance == pre_state[0].balance - tx.amount
            &&& updated[0].nonce == pre_state[0].nonce + 1
            &&& updated[1].nonce == pre_state[1].nonce
        }),
{
}

impl PaymentsStateTransition {
    /// The transition function. It holds no state of its own.
    pub fn new() -> (stf: PaymentsStateTransition) {
        PaymentsStateTransition {}
    }
}

impl StateTransition<Account, Transaction> for PaymentsStateTransition {
    open spec fn transition(&self, pre_state: Seq<Account>, params: Transaction) -> Result<
        (Seq<Account>, Seq<u8>),
        Error,
    > {
        transfer(pre_state, params)
    }

    fn execute_tx(&self, pre_state: Vec<Account>, params: Transaction) -> (r: Result<
        (Vec<Account>, TransactionReceipt),
        Error,
    >) {
        if pre_state.len() != 2 {
            return Err(Error::Domain(DomainError::MismatchedAccounts));
        }
        let sender: Account = pre_state[0];
        let receiver: Account = pre_state[1];
        if !sender.address.same(&params.from) || !receiver.address.same(&params.to) {
            return Err(Error::Domain(DomainError::MismatchedAccounts));
        }
        if params.from.same(&params.to) {
            return Err(Error::Domain(DomainError::SelfTransfer));
        }
        if sender.balance < params.amount {
            return Err(Error::Domain(DomainError::InsufficientBalance));
        }
        if receiver.balance > u64::MAX - params.amount {
            return Err(Error::Domain(DomainError::BalanceOverflow));
        }
        if sender.nonce == u64::MAX {
            return Err(Error::Domain(DomainError::NonceExhausted));
        }
        let nonce: u64 = sender.nonce + 1;
        let mut updated: Vec<Account> = Vec::new();
        updated.push(
            Account { address: sender.address, balance: sender.balance - params.amount, nonce },
        );
        updated.push(
            Account {
                address: receiver.address,
                balance: receiver.balance + params.amount,
                nonce: receiver.nonce,
            },
        );
        let data = PaymentReceiptData {
            from: params.from,
            to: params.to,
            amount: params.amount,
            nonce,
        };
        let receipt = TransactionReceipt { data: data.encode() };
        assert(updated@ =~= seq![debited(pre_state@[0], params), credited(pre_state@[1], params)]);
        Ok((updated, receipt))
    }
}

} // verus!
