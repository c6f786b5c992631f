//! Addresses, accounts and transfers.

use crate::digest::{bytes32_equal, occupied, one_bytes, zero_bytes, Digest};
use crate::encoding::{
    append_bytes, be_bytes, decimal_word, lemma_be_bytes_injective, lemma_be_bytes_len,
    lemma_u64_fits, u256_bytes_from_decimal, u64_be_bytes,
};
use crate::hasher::{hash_bytes, sha256_digest};
use crate::traits::{Leaf, TxHasher};
use vstd::prelude::*;

verus! {

/// The 32-byte identifier of an account. Its view is its bytes.
#[derive(Clone, Copy, Debug, PartialEq, Eq)]
pub struct Address(pub [u8; 32]);

impl View for Address {
    type V = Seq<u8>;

    open spec fn view(&self) -> Seq<u8> {
        self.0@
    }
}

/// Addresses are determined by their bytes.
pub proof fn lemma_address_ext(a: Address, b: Address)
    ensures
        (a@ == b@) <==> (a == b),
{
    if a@ == b@ {
        assert(a.0 =~= b.0);
    }
}

impl Address {
    /// The address that the decimal number `text` stands for: its 32
    /// big-endian bytes. `None` where `text` is not a decimal number of at
    /// most 256 bits.
    pub fn from_decimal(text: &str) -> (r: Option<Address>)
        ensures
            r matches Some(address) ==> decimal_word(text@) == Some(address@),
            r is None ==> decimal_word(text@) is None,
    {
        match u256_bytes_from_decimal(text) {
            Some(bytes) => Some(Address(bytes)),
            None => None,
        }
    }

    /// The key under which the account of this address is stored: the
    /// address itself.
    pub fn get_key(&self) -> (key: Digest)
        ensures
            key@ == self@,
    {
        Digest::from_bytes(self.0)
    }

    /// Whether two addresses are the same.
    pub fn same(&self, other: &Address) -> (b: bool)
        ensures
            b == (*self == *other),
    {
        proof {
            lemma_address_ext(*self, *other);
        }
        bytes32_equal(&self.0, &other.0)
    }
}

/// An account of the ledger.
#[derive(Clone, Copy, Debug, PartialEq, Eq)]
pub struct Account {
    pub address: Address,
    pub balance: u64,
    pub nonce: u64,
}

/// The account that an address without history stands for.
pub open spec fn fresh_account(address: Address) -> Account {
    Account { address, balance: 0, nonce: 0 }
}

/// The bytes that commit to an account: address, balance, nonce, the numbers
/// as eight big-endian bytes each.
pub open spec fn account_bytes(account: Account) -> Seq<u8> {
    account.address@ + be_bytes(account.balance as nat, 8) + be_bytes(account.nonce as nat, 8)
}

impl Account {
    /// The account of an address that has never been written.
    pub fn fresh(address: Address) -> (account: Account)
        ensures
            account == fresh_account(address),
    {
        Account { address, balance: 0, nonce: 0 }
    }

    /// Whether the account is indistinguishable from one that was never
    /// written.
    pub open spec fn is_vacant(&self) -> bool {
        self.balance == 0 && self.nonce == 0
    }

    /// The encoding that is hashed into the account's commitment.
    pub fn encode(&self) -> (bytes: Vec<u8>)
        ensures
            bytes@ == account_bytes(*self),
            bytes@.len() == 48,
    {
        let mut bytes: Vec<u8> = Vec::new();
        append_bytes(&mut bytes, self.address.0.as_slice());
        append_bytes(&mut bytes, u64_be_bytes(self.balance).as_slice());
        append_bytes(&mut bytes, u64_be_bytes(self.nonce).as_slice());
        proof {
            lemma_be_bytes_len(self.balance as nat, 8);
            lemma_be_bytes_len(self.nonce as nat, 8);
        }
        bytes
    }
}

/// The encoding of an account leaves nothing out: accounts with the same
/// bytes are the same account.
pub proof fn lemma_account_bytes_injective(a: Account, b: Account)
    requires
        account_bytes(a) == account_bytes(b),
    ensures
        a == b,
{
    let (ea, eb) = (account_bytes(a), account_bytes(b));
    lemma_be_bytes_len(a.balance as nat, 8);
    lemma_be_bytes_len(b.balance as nat, 8);
    lemma_be_bytes_len(a.nonce as nat, 8);
    lemma_be_bytes_len(b.nonce as nat, 8);
    assert(ea.subrange(0, 32) =~= a.address@);
    assert(eb.subrange(0, 32) =~= b.address@);
    assert(ea.subrange(32, 40) =~= be_bytes(a.balance as nat, 8));
    assert(eb.subrange(32, 40) =~= be_bytes(b.balance as nat, 8));
    assert(ea.subrange(40, 48) =~= be_bytes(a.nonce as nat, 8));
    assert(eb.subrange(40, 48) =~= be_bytes(b.nonce as nat, 8));
    lemma_address_ext(a.address, b.address);
    lemma_u64_fits(a.balance);
    lemma_u64_fits(b.balance);
    lemma_u64_fits(a.nonce);
    lemma_u64_fits(b.nonce);
    lemma_be_bytes_injective(a.balance as nat, b.balance as nat, 8);
    lemma_be_bytes_injective(a.nonce as nat, b.nonce as nat, 8);
}

/// An account commits to the zero digest exactly when it is vacant.
pub proof fn lemma_vacant_iff_zero(account: Account)
    ensures
        account.commitment() == zero_bytes() <==> account.is_vacant(),
{
    assert(one_bytes()[31] != zero_bytes()[31]);
}

impl Leaf for Account {
    open spec fn key(&self) -> Seq<u8> {
        self.address@
    }

    open spec fn commitment(&self) -> Seq<u8> {
        if self.is_vacant() {
            zero_bytes()
        } else {
            occupied(sha256_digest(account_bytes(*self)))
        }
    }

    open spec fn vacated(&self) -> Account {
        fresh_account(self.address)
    }

    proof fn lemma_vacated(&self) {
    }

    fn get_key(&self) -> (k: Digest) {
        self.address.get_key()
    }

    fn to_h256(&self) -> (c: Digest) {
        if self.balance == 0 && self.nonce == 0 {
            Digest::zero()
        } else {
            hash_bytes(self.encode().as_slice()).or_one()
        }
    }

    fn vacate(&self) -> (v: Account) {
        Account::fresh(self.address)
    }
}

/// A transfer of `amount` from one account to another.
#[derive(Clone, Copy, Debug, PartialEq, Eq)]
pub struct Transaction {
    pub from: Address,
    pub to: Address,
    pub amount: u64,
}

/// The bytes that a transfer is digested from: sender, receiver, and the
/// amount as eight big-endian bytes.
pub open spec fn transaction_bytes(tx: Transaction) -> Seq<u8> {
    tx.from@ + tx.to@ + be_bytes(tx.amount as nat, 8)
}

/// The encoding of a transfer leaves nothing out: transfers with the same
/// bytes are the same transfer.
pub proof fn lemma_transaction_bytes_injective(a: Transaction, b: Transaction)
    requires
        transaction_bytes(a) == transaction_bytes(b),
    ensures
        a == b,
{
    let (ea, eb) = (transaction_bytes(a), transaction_bytes(b));
    lemma_be_bytes_len(a.amount as nat, 8);
    lemma_be_bytes_len(b.amount as nat, 8);
    assert(ea.subrange(0, 32) =~= a.from@);
    assert(eb.subrange(0, 32) =~= b.from@);
    assert(ea.subrange(32, 64) =~= a.to@);
    assert(eb.subrange(32, 64) =~= b.to@);
    assert(ea.subrange(64, 72) =~= be_bytes(a.amount as nat, 8));
    assert(eb.subrange(64, 72) =~= be_bytes(b.amount as nat, 8));
    lemma_address_ext(a.from, b.from);
    lemma_address_ext(a.to, b.to);
    lemma_u64_fits(a.amount);
    lemma_u64_fits(b.amount);
    lemma_be_bytes_injective(a.amount as nat, b.amount as nat, 8);
}

impl Transaction {
    /// The encoding that is hashed into the transfer's digest.
    pub fn encode(&self) -> (bytes: Vec<u8>)
        ensures
            bytes@ == transaction_bytes(*self),
    {
        let mut bytes: Vec<u8> = Vec::new();
        append_bytes(&mut bytes, self.from.0.as_slice());
        append_bytes(&mut bytes, self.to.0.as_slice());
        append_bytes(&mut bytes, u64_be_bytes(self.amount).as_slice());
        bytes
    }
}

impl TxHasher for Transaction {
    open spec fn digest(&self) -> Seq<u8> {
        sha256_digest(transaction_bytes(*self))
    }

    fn to_h256(&self) -> (d: Digest) {
        hash_bytes(self.encode().as_slice())
    }
}

/// What a receipt records of an executed transfer: who paid whom how much,
/// and the nonce that the sender's account has moved to.
#[derive(Clone, Copy, Debug, PartialEq, Eq)]
pub struct PaymentReceiptData {
    pub from: Address,
    pub to: Address,
    pub amount: u64,
    pub nonce: u64,
}

/// The bytes of a receipt: sender, receiver, amount, nonce, the numbers as
/// eight big-endian bytes each.
pub open spec fn receipt_bytes(data: PaymentReceiptData) -> Seq<u8> {
    data.from@ + data.to@ + be_bytes(data.amount as nat, 8) + be_bytes(data.nonce as nat, 8)
}

impl PaymentReceiptData {
    /// The bytes that go into the transaction receipt.
    pub fn encode(&self) -> (bytes: Vec<u8>)
        ensures
            bytes@ == receipt_bytes(*self),
    {
        let mut bytes: Vec<u8> = Vec::new();
        append_bytes(&mut bytes, self.from.0.as_slice());
        append_bytes(&mut bytes, self.to.0.as_slice());
        append_bytes(&mut bytes, u64_be_bytes(self.amount).as_slice());
        append_bytes(&mut bytes, u64_be_bytes(self.nonce).as_slice());
        bytes
    }
}

} // verus!
