use ledger_core::digest::Digest;
use ledger_core::errors::{DomainError, Error, ProofDefect};
use ledger_core::payments::state_machine::{AccountLookup, PaymentsStateMachine, GENESIS_BALANCE};
use ledger_core::payments::state_transition::PaymentsStateTransition;
use ledger_core::payments::types::{Account, Address, Transaction};
use ledger_core::traits::{StateMachine, TxHasher};
use ledger_core::types::{BatchHeader, StateUpdate};
use ledger_core::zkvm_state_machine::{seal_header, ZKStateMachine};

type Verifier = ZKStateMachine<Account, Transaction, PaymentsStateTransition>;

fn address(n: u8) -> Address {
    let mut bytes = [0u8; 32];
    bytes[31] = n;
    Address(bytes)
}

fn account(n: u8, balance: u64, nonce: u64) -> Account {
    Account { address: address(n), balance, nonce }
}

fn transfer(from: u8, to: u8, amount: u64) -> Transaction {
    Transaction { from: address(from), to: address(to), amount }
}

fn stored(machine: &PaymentsStateMachine, n: u8) -> Option<Account> {
    machine.state.get(&address(n).get_key()).unwrap()
}

fn copy_of(update: &StateUpdate<Account>) -> StateUpdate<Account> {
    update.clone()
}

fn zk() -> Verifier {
    ZKStateMachine::new(PaymentsStateTransition::new())
}

#[test]
fn genesis_holds_two_accounts_of_a_thousand() {
    let machine = PaymentsStateMachine::new(Digest::zero());
    assert_eq!(GENESIS_BALANCE, 1000);
    assert_eq!(stored(&machine, 1), Some(account(1, 1000, 0)));
    assert_eq!(stored(&machine, 2), Some(account(2, 1000, 0)));
    assert_eq!(stored(&machine, 0), None);
    assert_eq!(stored(&machine, 3), None);
    assert!(!machine.state.get_root().is_zero());
}

#[test]
fn genesis_is_the_same_every_time() {
    let one = PaymentsStateMachine::new(Digest::zero());
    let other = PaymentsStateMachine::new(Digest::zero());
    assert_eq!(one.state.get_root(), other.state.get_root());
}

#[test]
fn genesis_addresses_are_the_numbers_one_and_two() {
    let machine = PaymentsStateMachine::new(Digest::zero());
    let first = Address::from_decimal("1").unwrap();
    let second = Address::from_decimal("2").unwrap();
    assert_eq!(
        machine.state.get(&first.get_key()),
        Ok(Some(Account { address: first, balance: 1000, nonce: 0 }))
    );
    assert_eq!(
        machine.state.get(&second.get_key()),
        Ok(Some(Account { address: second, balance: 1000, nonce: 0 }))
    );
}

#[test]
fn ledger_that_exists_is_not_set_up_again() {
    let first = PaymentsStateMachine::new(Digest::zero());
    let root = first.state.get_root();
    let again = PaymentsStateMachine::new(root);
    assert_eq!(again.state.get_root(), root);
    assert_eq!(stored(&again, 1), None);
    assert_eq!(stored(&again, 2), None);
}

#[test]
fn transfer_between_the_genesis_accounts() {
    let mut machine = PaymentsStateMachine::new(Digest::zero());
    let genesis_root = machine.state.get_root();
    let tx = transfer(1, 2, 100);
    let (update, receipt) = machine.execute_tx(tx).unwrap();

    assert_eq!(update.pre_state_with_proof.0, vec![account(1, 1000, 0), account(2, 1000, 0)]);
    assert_eq!(update.post_state_with_proof.0, vec![account(1, 900, 1), account(2, 1100, 0)]);
    assert_eq!(update.pre_state_root, genesis_root);
    assert_eq!(update.post_state_root, machine.state.get_root());
    assert!(update.pre_state_root != update.post_state_root);
    assert_eq!(stored(&machine, 1), Some(account(1, 900, 1)));
    assert_eq!(stored(&machine, 2), Some(account(2, 1100, 0)));

    let header = zk().execute_tx(tx, copy_of(&update), 1).unwrap();
    assert_eq!(header.transactions_root, tx.to_h256());
    assert_eq!(header.receipts_root, receipt.to_h256());
    assert_eq!(header.batch_number, 1);
    assert_eq!(header.pre_state_root, update.post_state_root);
    assert_eq!(header.state_root, update.pre_state_root);
}

#[test]
fn header_carries_the_later_root_in_pre_state_root() {
    let before = Digest::from_bytes([1u8; 32]);
    let after = Digest::from_bytes([2u8; 32]);
    let transactions = Digest::from_bytes([3u8; 32]);
    let receipts = Digest::from_bytes([4u8; 32]);
    assert_eq!(
        seal_header(before, after, transactions, receipts, 9),
        BatchHeader {
            pre_state_root: after,
            state_root: before,
            transactions_root: transactions,
            receipts_root: receipts,
            batch_number: 9,
        }
    );
}

#[test]
fn address_without_history_is_a_fresh_account() {
    let mut machine = PaymentsStateMachine::new(Digest::zero());
    let (update, _) = machine.execute_tx(transfer(1, 7, 250)).unwrap();
    assert_eq!(update.pre_state_with_proof.0, vec![account(1, 1000, 0), account(7, 0, 0)]);
    assert_eq!(stored(&machine, 7), Some(account(7, 250, 0)));
    assert_eq!(stored(&machine, 1), Some(account(1, 750, 1)));

    let (update, _) = machine.execute_tx(transfer(8, 9, 0)).unwrap();
    assert_eq!(update.pre_state_with_proof.0, vec![account(8, 0, 0), account(9, 0, 0)]);
    assert_eq!(update.post_state_with_proof.0, vec![account(8, 0, 1), account(9, 0, 0)]);
    assert_eq!(stored(&machine, 8), Some(account(8, 0, 1)));
    assert_eq!(stored(&machine, 9), None);
}

#[test]
fn transfer_to_a_fresh_account_verifies() {
    let mut machine = PaymentsStateMachine::new(Digest::zero());
    let tx = transfer(2, 7, 1000);
    let (update, receipt) = machine.execute_tx(tx).unwrap();
    let update_root = update.pre_state_root;
    assert_eq!(update.post_state_with_proof.0, vec![account(2, 0, 1), account(7, 1000, 0)]);
    let header = zk().execute_tx(tx, update, 4).unwrap();
    assert_eq!(header.receipts_root, receipt.to_h256());
    assert_eq!(header.state_root, update_root);
    assert_eq!(header.pre_state_root, machine.state.get_root());
}

#[test]
fn transfer_from_an_account_without_funds_is_refused() {
    let mut machine = PaymentsStateMachine::new(Digest::zero());
    let before = machine.state.get_root();
    assert_eq!(
        machine.execute_tx(transfer(7, 1, 1)),
        Err(Error::Domain(DomainError::InsufficientBalance))
    );
    assert_eq!(machine.state.get_root(), before);
    assert_eq!(stored(&machine, 7), None);
    assert_eq!(stored(&machine, 1), Some(account(1, 1000, 0)));
}

#[test]
fn refused_transfer_leaves_the_root_unchanged() {
    let mut machine = PaymentsStateMachine::new(Digest::zero());
    let before = machine.state.get_root();
    assert_eq!(
        machine.execute_tx(transfer(1, 2, 1001)),
        Err(Error::Domain(DomainError::InsufficientBalance))
    );
    assert_eq!(machine.state.get_root(), before);
    assert_eq!(
        machine.execute_tx(transfer(1, 1, 10)),
        Err(Error::Domain(DomainError::SelfTransfer))
    );
    assert_eq!(machine.state.get_root(), before);
    assert_eq!(stored(&machine, 1), Some(account(1, 1000, 0)));
    assert_eq!(stored(&machine, 2), Some(account(2, 1000, 0)));
}

#[test]
fn verifier_refuses_a_perturbed_pre_state() {
    let mut machine = PaymentsStateMachine::new(Digest::zero());
    let tx = transfer(1, 2, 100);
    let (update, _) = machine.execute_tx(tx).unwrap();
    let mut perturbed = copy_of(&update);
    perturbed.pre_state_with_proof.0[0].balance ^= 1;
    assert_eq!(perturbed.pre_state_with_proof.0[0].balance, 1001);
    assert_eq!(
        zk().execute_tx(tx, perturbed, 1),
        Err(Error::InvalidProof(ProofDefect::NotIncluded))
    );
    assert!(zk().execute_tx(tx, update, 1).is_ok());
}

#[test]
fn verifier_refuses_a_wrong_root_after() {
    let mut machine = PaymentsStateMachine::new(Digest::zero());
    let tx = transfer(1, 2, 100);
    let (update, _) = machine.execute_tx(tx).unwrap();
    let mut claimed = copy_of(&update);
    claimed.post_state_root = update.pre_state_root;
    assert_eq!(
        zk().execute_tx(tx, claimed, 1),
        Err(Error::InvalidProof(ProofDefect::NotIncluded))
    );
}

#[test]
fn verifier_computes_the_values_after_itself() {
    let mut machine = PaymentsStateMachine::new(Digest::zero());
    let tx = transfer(1, 2, 100);
    let (update, _) = machine.execute_tx(tx).unwrap();
    let mut claimed = copy_of(&update);
    claimed.post_state_with_proof.0 = vec![account(1, 1000, 1), account(2, 1100, 0)];
    assert!(zk().execute_tx(tx, claimed, 1).is_ok());
    assert_eq!(
        zk().execute_tx(transfer(1, 2, 99), update, 1),
        Err(Error::InvalidProof(ProofDefect::NotIncluded))
    );
}

#[test]
fn verifier_hands_on_the_refusal_of_the_transition() {
    let mut machine = PaymentsStateMachine::new(Digest::zero());
    let (update, _) = machine.execute_tx(transfer(1, 2, 100)).unwrap();
    assert_eq!(
        zk().execute_tx(transfer(1, 2, 5000), copy_of(&update), 1),
        Err(Error::Domain(DomainError::InsufficientBalance))
    );
    assert_eq!(
        zk().execute_tx(transfer(2, 1, 100), update, 1),
        Err(Error::Domain(DomainError::MismatchedAccounts))
    );
}

#[test]
fn verifier_checks_the_proof_before_the_transition() {
    let mut machine = PaymentsStateMachine::new(Digest::zero());
    let (update, _) = machine.execute_tx(transfer(1, 2, 100)).unwrap();
    let mut perturbed = copy_of(&update);
    perturbed.pre_state_with_proof.0[1].nonce = 3;
    assert_eq!(
        zk().execute_tx(transfer(1, 2, 5000), perturbed, 1),
        Err(Error::InvalidProof(ProofDefect::NotIncluded))
    );
}

#[test]
fn verifier_refuses_values_without_a_proof_for_them() {
    let mut machine = PaymentsStateMachine::new(Digest::zero());
    let tx = transfer(1, 2, 100);
    let (update, _) = machine.execute_tx(tx).unwrap();
    let mut emptied = copy_of(&update);
    emptied.pre_state_with_proof.0 = vec![];
    assert_eq!(
        zk().execute_tx(tx, emptied, 1),
        Err(Error::InvalidProof(ProofDefect::Malformed))
    );
    let mut doubled = copy_of(&update);
    doubled.pre_state_with_proof.0 = vec![account(1, 1000, 0), account(1, 1000, 0)];
    assert_eq!(
        zk().execute_tx(tx, doubled, 1),
        Err(Error::InvalidProof(ProofDefect::Malformed))
    );
}

#[test]
fn verifying_twice_gives_the_same_header() {
    let mut machine = PaymentsStateMachine::new(Digest::zero());
    let tx = transfer(2, 1, 40);
    let (update, _) = machine.execute_tx(tx).unwrap();
    let machine_a = zk();
    let first = machine_a.execute_tx(tx, copy_of(&update), 12);
    let second = machine_a.execute_tx(tx, copy_of(&update), 12);
    assert!(first.is_ok());
    assert_eq!(first, second);
    let other_batch = zk().execute_tx(tx, update, 13).unwrap();
    assert_eq!(other_batch.batch_number, 13);
    assert_eq!(other_batch.receipts_root, first.unwrap().receipts_root);
}

#[test]
fn a_chain_of_transfers_verifies_step_by_step() {
    let mut machine = PaymentsStateMachine::new(Digest::zero());
    let mut last_root = machine.state.get_root();
    let steps = [transfer(1, 2, 100), transfer(2, 3, 1100), transfer(3, 1, 50), transfer(1, 4, 0)];
    for (n, tx) in steps.iter().enumerate() {
        let (update, _) = machine.execute_tx(*tx).unwrap();
        assert_eq!(update.pre_state_root, last_root);
        let header = zk().execute_tx(*tx, copy_of(&update), n as u64).unwrap();
        assert_eq!(header.state_root, last_root);
        assert_eq!(header.pre_state_root, update.post_state_root);
        last_root = update.post_state_root;
    }
    assert_eq!(stored(&machine, 1), Some(account(1, 950, 2)));
    assert_eq!(stored(&machine, 2), Some(account(2, 0, 1)));
    assert_eq!(stored(&machine, 3), Some(account(3, 1050, 1)));
    assert_eq!(stored(&machine, 4), None);
}

#[test]
fn lookup_says_whether_the_account_was_found() {
    let machine = PaymentsStateMachine::new(Digest::zero());
    assert_eq!(
        machine.lookup_account(&address(1)),
        Ok(AccountLookup::Found(account(1, 1000, 0)))
    );
    assert_eq!(
        machine.lookup_account(&address(9)),
        Ok(AccountLookup::Defaulted(account(9, 0, 0)))
    );
    assert_eq!(AccountLookup::Found(account(1, 5, 0)).account(), account(1, 5, 0));
    assert_eq!(AccountLookup::Defaulted(account(9, 0, 0)).account(), account(9, 0, 0));
}

#[test]
fn cloned_receipt_is_the_same_receipt() {
    let mut machine = PaymentsStateMachine::new(Digest::zero());
    let (_, receipt) = machine.execute_tx(transfer(1, 2, 1)).unwrap();
    assert_eq!(receipt.clone(), receipt);
    assert_eq!(receipt.data.len(), 80);
}

#[test]
fn cloned_update_is_the_same_update() {
    let mut machine = PaymentsStateMachine::new(Digest::zero());
    let (update, _) = machine.execute_tx(transfer(1, 2, 1)).unwrap();
    assert_eq!(update.clone(), update);
}
