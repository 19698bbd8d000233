//! The ledger: a fixed total supply, the balances that carry it, and the
//! log of transfer notifications.

use vstd::prelude::*;
use crate::account::AccountId;
use crate::balances::balance_in;
use crate::balances::distinct_keys;
use crate::balances::lemma_balance_absent;
use crate::balances::lemma_balance_le_total;
use crate::balances::read_balance;
use crate::balances::store_balance;
use crate::balances::total_in;

verus! {

/// The failure a transfer can report.
#[derive(Clone, Copy, Debug, PartialEq, Eq)]
pub enum Error {
    /// The sender's balance cannot fulfil the requested value.
    InsufficientBalance,
}

/// A transfer notification: one record of a balance movement, appended to
/// the ledger's log. Issuance is recorded as a transfer from the null
/// account, with `from == None`.
#[derive(Clone, Copy, Debug, PartialEq, Eq)]
pub struct Transfer {
    pub from: Option<AccountId>,
    pub to: Option<AccountId>,
    pub value: u128,
}

/// A minimal fungible-asset ledger.
///
/// The supply is issued once, at construction, entirely to the issuing
/// account; afterwards the ledger changes only through [`Erc20::transfer`].
/// Well-formedness ([`Erc20::wf`]) carries the one real invariant:
/// conservation, the balances always sum to the total supply. Construction
/// establishes it and every operation preserves it.
pub struct Erc20 {
    /// The total supply, fixed at construction.
    pub total_supply: u128,
    /// One entry per account that has ever held or received a balance;
    /// absence reads as zero.
    pub balances: Vec<(AccountId, u128)>,
    /// Every notification emitted so far, in operation order.
    pub events: Vec<Transfer>,
}

impl Erc20 {
    /// The balance recorded for the account with bytes `key`, zero when the
    /// account has never held or received one.
    pub open spec fn spec_balance_of(self, key: Seq<u8>) -> u128 {
        balance_in(self.balances@, key)
    }

    /// Well-formedness: at most one entry per account, and conservation —
    /// the balances sum exactly to the total supply.
    pub open spec fn wf(self) -> bool {
        &&& distinct_keys(self.balances@)
        &&& total_in(self.balances@) == self.total_supply as int
    }

    /// Creates a fresh ledger with `initial_supply` credited entirely to
    /// `issuer`, and records the issuance notification (null sender).
    pub fn new(initial_supply: u128, issuer: AccountId) -> (ledger: Erc20)
        ensures
            ledger.wf(),
            ledger.total_supply == initial_supply,
            ledger.spec_balance_of(issuer@) == initial_supply,
            forall|a: Seq<u8>| a != issuer@ ==> ledger.spec_balance_of(a) == 0,
            ledger.events@ == seq![
                Transfer { from: None, to: Some(issuer), value: initial_supply },
            ],
    {
        let mut balances: Vec<(AccountId, u128)> = Vec::new();
        let ghost s0 = balances@;
        store_balance(&mut balances, &issuer, initial_supply);
        proof {
            lemma_balance_absent(s0, issuer@);
            assert forall|a: Seq<u8>| a != issuer@ implies balance_in(balances@, a) == 0 by {
                lemma_balance_absent(s0, a);
            }
        }
        let mut events: Vec<Transfer> = Vec::new();
        events.push(Transfer { from: None, to: Some(issuer), value: initial_supply });
        proof {
            assert(events@ =~= seq![
                Transfer { from: None, to: Some(issuer), value: initial_supply },
            ]);
        }
        Erc20 { total_supply: initial_supply, balances, events }
    }

    /// The total supply, as fixed at construction.
    pub fn total_supply(&self) -> (r: u128)
        ensures
            r == self.total_supply,
    {
        self.total_supply
    }

    /// The balance of `owner`, zero for an account the ledger has never
    /// seen (the zero-default read, applied here and inside `transfer`).
    pub fn balance_of(&self, owner: AccountId) -> (r: u128)
        ensures
            r == self.spec_balance_of(owner@),
    {
        read_balance(&self.balances, &owner)
    }

    /// Moves `value` from `from` to `to`.
    ///
    /// Fails with [`Error::InsufficientBalance`] exactly when `from` holds
    /// less than `value`, leaving the ledger untouched; otherwise debits
    /// `from`, credits `to`, appends the notification, and succeeds. A
    /// self-transfer runs both steps against the same key and nets to
    /// identity; a zero-value transfer always succeeds. Conservation makes
    /// the credit provably free of overflow.
    pub fn transfer(&mut self, from: AccountId, to: AccountId, value: u128) -> (r: Result<
        (),
        Error,
    >)
        requires
            old(self).wf(),
        ensures
            final(self).wf(),
            final(self).total_supply == old(self).total_supply,
            r is Ok <==> value <= old(self).spec_balance_of(from@),
            r is Err ==> r == Err::<(), Error>(Error::InsufficientBalance) && *final(self)
                == *old(self),
            r is Ok ==> final(self).events@ == old(self).events@.push(
                Transfer { from: Some(from), to: Some(to), value },
            ),
            r is Ok && from@ != to@ ==> final(self).spec_balance_of(from@) == old(
                self,
            ).spec_balance_of(from@) - value && final(self).spec_balance_of(to@) == old(
                self,
            ).spec_balance_of(to@) + value,
            r is Ok && from@ == to@ ==> final(self).spec_balance_of(to@) == old(
                self,
            ).spec_balance_of(to@),
            forall|a: Seq<u8>|
                a != from@ && a != to@ ==> final(self).spec_balance_of(a) == old(
                    self,
                ).spec_balance_of(a),
            value == 0 ==> r is Ok && forall|a: Seq<u8>|
                final(self).spec_balance_of(a) == old(self).spec_balance_of(a),
    {
        let from_balance: u128 = read_balance(&self.balances, &from);
        if from_balance < value {
            return Err(Error::InsufficientBalance);
        }
        store_balance(&mut self.balances, &from, from_balance - value);
        let to_balance: u128 = read_balance(&self.balances, &to);
        proof {
            lemma_balance_le_total(self.balances@, to@);
        }
        store_balance(&mut self.balances, &to, to_balance + value);
        self.events.push(Transfer { from: Some(from), to: Some(to), value });
        Ok(())
    }

    /// The notifications emitted so far, in operation order.
    pub fn events(&self) -> (r: &Vec<Transfer>)
        ensures
            r@ == self.events@,
    {
        &self.events
    }
}

/// Conservation: in a well-formed ledger the balances sum exactly to the
/// total supply. `new` establishes well-formedness with the total supply
/// equal to the initial supply, and `transfer` preserves both, so the sum
/// of all balances equals the original issuance after any sequence of
/// transfers.
pub proof fn lemma_conservation(ledger: Erc20)
    requires
        ledger.wf(),
    ensures
        total_in(ledger.balances@) == ledger.total_supply as int,
{
}

/// No account ever holds more than the total supply.
pub proof fn lemma_balance_bounded(ledger: Erc20, account: Seq<u8>)
    requires
        ledger.wf(),
    ensures
        ledger.spec_balance_of(account) <= ledger.total_supply,
{
    lemma_balance_le_total(ledger.balances@, account);
    crate::balances::lemma_total_nonneg(ledger.balances@);
}

/// Zero-default: an account the balance table does not carry reads as
/// zero.
pub proof fn lemma_zero_default(ledger: Erc20, account: Seq<u8>)
    requires
        forall|k: int| 0 <= k < ledger.balances@.len() ==> ledger.balances@[k].0@ != account,
    ensures
        ledger.spec_balance_of(account) == 0,
{
    lemma_balance_absent(ledger.balances@, account);
}

} // verus!
