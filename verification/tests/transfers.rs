use ledger_core::digest::Digest;
use ledger_core::errors::{DomainError, Error};
use ledger_core::hasher::hash_bytes;
use ledger_core::payments::state_transition::PaymentsStateTransition;
use ledger_core::payments::types::{Account, Address, PaymentReceiptData, Transaction};
use ledger_core::traits::{Leaf, StateTransition, TxHasher};
use ledger_core::types::TransactionReceipt;

fn address(n: u8) -> Address {
    let mut bytes = [0u8; 32];
    bytes[31] = n;
    Address(bytes)
}

fn account(n: u8, balance: u64, nonce: u64) -> Account {
    Account { address: address(n), balance, nonce }
}

fn transfer(from: u8, to: u8, amount: u64) -> Transaction {
    Transaction { from: address(from), to: address(to), amount }
}

fn run(
    pre_state: Vec<Account>,
    tx: Transaction,
) -> Result<(Vec<Account>, TransactionReceipt), Error> {
    PaymentsStateTransition::new().execute_tx(pre_state, tx)
}

#[test]
fn transfer_moves_the_amount_and_advances_the_nonce() {
    let (updated, receipt) =
        run(vec![account(1, 1000, 0), account(2, 1000, 0)], transfer(1, 2, 100)).unwrap();
    assert_eq!(updated, vec![account(1, 900, 1), account(2, 1100, 0)]);
    let expected =
        PaymentReceiptData { from: address(1), to: address(2), amount: 100, nonce: 1 };
    assert_eq!(receipt.data, expected.encode());
}

#[test]
fn transfer_conserves_the_sum_of_balances() {
    let (updated, _) =
        run(vec![account(3, 70, 9), account(4, 5, 2)], transfer(3, 4, 70)).unwrap();
    assert_eq!(updated[0].balance + updated[1].balance, 75);
    assert_eq!(updated, vec![account(3, 0, 10), account(4, 75, 2)]);
}

#[test]
fn transfer_of_nothing_still_advances_the_nonce() {
    let (updated, _) = run(vec![account(1, 0, 0), account(2, 0, 0)], transfer(1, 2, 0)).unwrap();
    assert_eq!(updated, vec![account(1, 0, 1), account(2, 0, 0)]);
}

#[test]
fn transfer_is_the_same_every_time() {
    let first = run(vec![account(1, 10, 0), account(2, 0, 0)], transfer(1, 2, 4));
    let second = run(vec![account(1, 10, 0), account(2, 0, 0)], transfer(1, 2, 4));
    assert_eq!(first, second);
}

#[test]
fn transfer_needs_exactly_the_two_accounts() {
    let mismatched = Err(Error::Domain(DomainError::MismatchedAccounts));
    assert_eq!(run(vec![], transfer(1, 2, 1)), mismatched);
    assert_eq!(run(vec![account(1, 10, 0)], transfer(1, 2, 1)), mismatched);
    assert_eq!(
        run(vec![account(1, 10, 0), account(2, 0, 0), account(3, 0, 0)], transfer(1, 2, 1)),
        mismatched
    );
    assert_eq!(run(vec![account(2, 10, 0), account(1, 10, 0)], transfer(1, 2, 1)), mismatched);
    assert_eq!(run(vec![account(1, 10, 0), account(3, 10, 0)], transfer(1, 2, 1)), mismatched);
}

#[test]
fn transfer_to_oneself_is_refused() {
    assert_eq!(
        run(vec![account(1, 10, 0), account(1, 10, 0)], transfer(1, 1, 1)),
        Err(Error::Domain(DomainError::SelfTransfer))
    );
}

#[test]
fn transfer_of_more_than_the_balance_is_refused() {
    assert_eq!(
        run(vec![account(1, 99, 0), account(2, 0, 0)], transfer(1, 2, 100)),
        Err(Error::Domain(DomainError::InsufficientBalance))
    );
    assert!(run(vec![account(1, 100, 0), account(2, 0, 0)], transfer(1, 2, 100)).is_ok());
}

#[test]
fn transfer_that_overflows_the_receiver_is_refused() {
    assert_eq!(
        run(vec![account(1, 10, 0), account(2, u64::MAX - 4, 0)], transfer(1, 2, 5)),
        Err(Error::Domain(DomainError::BalanceOverflow))
    );
    let (updated, _) =
        run(vec![account(1, 10, 0), account(2, u64::MAX - 5, 0)], transfer(1, 2, 5)).unwrap();
    assert_eq!(updated[1].balance, u64::MAX);
}

#[test]
fn transfer_with_an_exhausted_nonce_is_refused() {
    assert_eq!(
        run(vec![account(1, 10, u64::MAX), account(2, 0, 0)], transfer(1, 2, 5)),
        Err(Error::Domain(DomainError::NonceExhausted))
    );
}

#[test]
fn refusals_come_in_a_fixed_order() {
    assert_eq!(
        run(vec![account(1, 0, u64::MAX), account(1, u64::MAX, 0)], transfer(1, 1, 5)),
        Err(Error::Domain(DomainError::SelfTransfer))
    );
    assert_eq!(
        run(vec![account(1, 0, u64::MAX), account(2, u64::MAX, 0)], transfer(1, 2, 5)),
        Err(Error::Domain(DomainError::InsufficientBalance))
    );
    assert_eq!(
        run(vec![account(1, 9, u64::MAX), account(2, u64::MAX, 0)], transfer(1, 2, 5)),
        Err(Error::Domain(DomainError::BalanceOverflow))
    );
}

#[test]
fn account_encoding_is_address_balance_nonce() {
    let encoded = account(7, 1000, 3).encode();
    let mut expected = vec![0u8; 31];
    expected.push(7);
    expected.extend_from_slice(&[0, 0, 0, 0, 0, 0, 0x03, 0xe8]);
    expected.extend_from_slice(&[0, 0, 0, 0, 0, 0, 0, 3]);
    assert_eq!(encoded, expected);
    assert_eq!(encoded.len(), 48);
}

#[test]
fn account_commits_to_the_hash_of_its_encoding() {
    let funded = account(7, 1000, 3);
    assert_eq!(funded.to_h256(), hash_bytes(&funded.encode()));
    assert!(!funded.to_h256().is_zero());
    assert_eq!(funded.get_key().bytes, address(7).0);
}

#[test]
fn vacant_account_commits_to_zero() {
    assert_eq!(account(7, 0, 0).to_h256(), Digest::zero());
    assert_eq!(Account::fresh(address(7)), account(7, 0, 0));
    assert!(!account(7, 0, 1).to_h256().is_zero());
    assert!(!account(7, 1, 0).to_h256().is_zero());
    assert_eq!(account(7, 5, 6).vacate(), account(7, 0, 0));
}

#[test]
fn transaction_digest_is_the_hash_of_its_encoding() {
    let tx = transfer(1, 2, 100);
    let mut expected = vec![0u8; 31];
    expected.push(1);
    expected.extend_from_slice(&[0u8; 31]);
    expected.push(2);
    expected.extend_from_slice(&[0, 0, 0, 0, 0, 0, 0, 100]);
    assert_eq!(tx.encode(), expected);
    assert_eq!(tx.to_h256(), hash_bytes(&expected));
    assert!(tx.to_h256() != transfer(1, 2, 101).to_h256());
}

#[test]
fn receipt_digest_is_the_hash_of_its_bytes() {
    let receipt = TransactionReceipt { data: b"abc".to_vec() };
    assert_eq!(receipt.to_h256(), hash_bytes(b"abc"));
    let data = PaymentReceiptData { from: address(1), to: address(2), amount: 100, nonce: 1 };
    let mut expected = transfer(1, 2, 100).encode();
    expected.extend_from_slice(&[0, 0, 0, 0, 0, 0, 0, 1]);
    assert_eq!(data.encode(), expected);
}
