//! The payments state machine: the ledger of accounts and the transfers
//! that run against it.

use crate::digest::{zero_bytes, Digest};
use crate::encoding::{be_bytes, decimal_value, lemma_capacity_floor};
use crate::errors::{DomainError, Error};
use crate::payments::state_transition::{transfer, PaymentsStateTransition};
use crate::payments::types::{
    fresh_account, lemma_address_ext, lemma_vacant_iff_zero, Account, Address, Transaction,
};
use crate::state::{lookup, VmState};
use crate::traits::{Leaf, StateMachine, StateTransition};
use crate::types::{StateUpdate, TransactionReceipt};
use vstd::prelude::*;

verus! {

/// What every account of the first ledger holds.
pub const GENESIS_BALANCE: u64 = 1000;

/// The ledger of accounts with the rules for transfers.
pub struct PaymentsStateMachine {
    pub state: VmState<Account>,
    stf: PaymentsStateTransition,
}

/// The bytes of the address that the number `n` stands for.
pub open spec fn numbered_address(n: nat) -> Seq<u8> {
    be_bytes(n, 32)
}

/// Whether `account` is the account that the first ledger holds for the
/// number `n`.
pub open spec fn is_genesis_account(account: Account, n: nat) -> bool {
    &&& account.address@ == numbered_address(n)
    &&& account.balance == GENESIS_BALANCE
    &&& account.nonce == 0
}

/// Whether `leaves` is the first ledger: the accounts of the numbers 1 and 2
/// with their genesis balance, and nothing else.
pub open spec fn is_genesis_ledger(leaves: Map<Seq<u8>, Account>) -> bool {
    &&& leaves.dom() =~= set![numbered_address(1), numbered_address(2)]
    &&& is_genesis_account(leaves[numbered_address(1)], 1)
    &&& is_genesis_account(leaves[numbered_address(2)], 2)
}

/// What looking an address up came to: the account that the ledger holds
/// for it, or the fresh account that stands in where it holds none.
#[derive(Clone, Copy, Debug, PartialEq, Eq)]
pub enum AccountLookup {
    /// The ledger holds this account.
    Found(Account),
    /// The ledger holds nothing for the address; this is the fresh account.
    Defaulted(Account),
}

impl AccountLookup {
    /// The account, whichever way it came.
    pub open spec fn account_spec(self) -> Account {
        match self {
            AccountLookup::Found(account) => account,
            AccountLookup::Defaulted(account) => account,
        }
    }

    /// The account, whichever way it came.
    #[verifier::when_used_as_spec(account_spec)]
    pub fn account(self) -> (account: Account)
        ensures
            account == self.account_spec(),
    {
        match self {
            AccountLookup::Found(account) => account,
            AccountLookup::Defaulted(account) => account,
        }
    }
}

/// What looking `address` up in a ledger comes to.
pub open spec fn looked_up(leaves: Map<Seq<u8>, Account>, address: Address) -> AccountLookup {
    match lookup(leaves, address@) {
        Some(account) => AccountLookup::Found(account),
        None => AccountLookup::Defaulted(fresh_account(address)),
    }
}

/// The account that a ledger holds for an address: the stored one, or a
/// fresh one where the address has no history.
pub open spec fn account_at(leaves: Map<Seq<u8>, Account>, address: Address) -> Account {
    looked_up(leaves, address).account()
}

/// The two accounts that a transfer concerns, sender first.
pub open spec fn parties(leaves: Map<Seq<u8>, Account>, tx: Transaction) -> Seq<Account> {
    seq![account_at(leaves, tx.from), account_at(leaves, tx.to)]
}

/// The first ledger is one ledger: the description leaves nothing open.
pub proof fn lemma_genesis_is_unique(a: Map<Seq<u8>, Account>, b: Map<Seq<u8>, Account>)
    requires
        is_genesis_ledger(a),
        is_genesis_ledger(b),
    ensures
        a == b,
{
    assert forall|key: Seq<u8>| a.contains_key(key) implies a[key] == b[key] by {
        lemma_address_ext(a[key].address, b[key].address);
    }
}

/// An address without history is no error: it is served as a fresh account.
/// The accounts handed to the transition function are always the sender's
/// and the receiver's, so a transfer is never refused for the accounts
/// being the wrong ones; a transfer of nothing from an address never seen
/// to another address never seen goes through.
pub proof fn lemma_unseen_address_is_fresh(leaves: Map<Seq<u8>, Account>, tx: Transaction)
    requires
        forall|key: Seq<u8>| #[trigger] leaves.contains_key(key) ==> leaves[key].key() == key,
    ensures
        !leaves.contains_key(tx.from@) ==> parties(leaves, tx)[0] == fresh_account(tx.from),
        !leaves.contains_key(tx.to@) ==> parties(leaves, tx)[1] == fresh_account(tx.to),
        transfer(parties(leaves, tx), tx) != Err::<(Seq<Account>, Seq<u8>), Error>(
            Error::Domain(DomainError::MismatchedAccounts),
        ),
        !leaves.contains_key(tx.from@) && !leaves.contains_key(tx.to@) && tx.from != tx.to
            && tx.amount == 0 ==> transfer(parties(leaves, tx), tx) is Ok,
{
    lemma_address_ext(account_at(leaves, tx.from).address, tx.from);
    lemma_address_ext(account_at(leaves, tx.to).address, tx.to);
}

/// The decimal strings "1" and "2" name the addresses of the numbers 1 and 2.
proof fn lemma_genesis_numbers()
    ensures
        crate::encoding::decimal_word("1"@) == Some(numbered_address(1)),
        crate::encoding::decimal_word("2"@) == Some(numbered_address(2)),
        numbered_address(1) != numbered_address(2),
{
    reveal_strlit("1");
    reveal_strlit("2");
    reveal_with_fuel(decimal_value, 2);
    lemma_capacity_floor(32);
    assert(numbered_address(1).last() == 1u8);
    assert(numbered_address(2).last() == 2u8);
}

impl PaymentsStateMachine {
    /// The store that holds the ledger.
    pub closed spec fn store(&self) -> VmState<Account> {
        self.state
    }

    /// Looks an address up in the ledger. An address without history is not
    /// an error: it is answered with a fresh account, and said to be so.
    pub fn lookup_account(&self, address: &Address) -> (r: Result<AccountLookup, Error>)
        requires
            self.wf(),
        ensures
            r == Ok::<AccountLookup, Error>(looked_up(self.store().leaves(), *address)),
    {
        match self.state.get(&address.get_key()) {
            Ok(Some(account)) => Ok(AccountLookup::Found(account)),
            Ok(None) => Ok(AccountLookup::Defaulted(Account::fresh(*address))),
            Err(e) => Err(e),
        }
    }

    /// The account with the genesis balance at the address that the decimal
    /// number `text` names.
    fn genesis_account(text: &str, Ghost(n): Ghost<nat>) -> (account: Account)
        requires
            crate::encoding::decimal_word(text@) == Some(numbered_address(n)),
        ensures
            is_genesis_account(account, n),
    {
        let address = Address::from_decimal(text).unwrap();
        Account { address, balance: GENESIS_BALANCE, nonce: 0 }
    }
}

impl StateMachine<Account, Transaction> for PaymentsStateMachine {
    open spec fn wf(&self) -> bool {
        self.store().wf()
    }

    /// Attaches to the ledger with root `root`. The zero root is the root of
    /// the ledger that does not exist yet: it is then set up with its first
    /// two accounts. Any other root is taken as the root of a ledger that
    /// has been set up before.
    fn new(root: Digest) -> (machine: Self)
        ensures
            root@ == zero_bytes() ==> is_genesis_ledger(machine.store().leaves()),
            root@ != zero_bytes() ==> machine.store().root() == root@ && machine.store().leaves()
                == Map::<Seq<u8>, Account>::empty(),
    {
        let mut state: VmState<Account> = VmState::new(root);
        if state.get_root().is_zero() {
            proof {
                lemma_genesis_numbers();
            }
            let first = Self::genesis_account("1", Ghost(1));
            let second = Self::genesis_account("2", Ghost(2));
            let mut accounts: Vec<Account> = Vec::new();
            accounts.push(first);
            accounts.push(second);
            proof {
                lemma_vacant_iff_zero(first);
                lemma_vacant_iff_zero(second);
                reveal_with_fuel(crate::state::write_values, 3);
            }
            let written = state.update_set(accounts);
            assert(written is Ok);
        }
        PaymentsStateMachine { state, stf: PaymentsStateTransition::new() }
    }

    /// Runs a transfer against the ledger: looks the two accounts up, lets
    /// the transition function decide, and writes what it returns. An
    /// address without history counts as a fresh account. A refused
    /// transfer leaves the ledger as it was.
    fn execute_tx(&mut self, params: Transaction) -> (r: Result<
        (StateUpdate<Account>, TransactionReceipt),
        Error,
    >)
        ensures
            match transfer(parties(old(self).store().leaves(), params), params) {
                Ok((updated, receipt)) => r matches Ok((update, issued)) && issued@ == receipt
                    && old(self).store().records(&final(self).store(), updated, update),
                Err(e) => r matches Err(refusal) && refusal == e && *final(self) == *old(self),
            },
    {
        proof {
            self.state.lemma_leaves_keyed();
        }
        let from_account: Account = match self.lookup_account(&params.from) {
            Ok(found) => found.account(),
            Err(e) => {
                return Err(e);
            },
        };
        let to_account: Account = match self.lookup_account(&params.to) {
            Ok(found) => found.account(),
            Err(e) => {
                return Err(e);
            },
        };

        let mut pre_state: Vec<Account> = Vec::new();
        pre_state.push(from_account);
        pre_state.push(to_account);

        let (updated, receipt) = match self.stf.execute_tx(pre_state, params) {
            Ok(outcome) => outcome,
            Err(e) => {
                return Err(e);
            },
        };
        proof {
            lemma_address_ext(params.from, params.to);
            lemma_address_ext(from_account.address, params.from);
            lemma_address_ext(to_account.address, params.to);
        }
        match self.state.update_set(updated) {
            Ok(update) => Ok((update, receipt)),
            Err(e) => Err(e),
        }
    }
}

} // verus!
