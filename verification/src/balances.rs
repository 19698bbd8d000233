//! The sparse balance table: an association list from account to balance.
//!
//! A key is present only for an account that has ever held or received a
//! balance; absence reads as zero. The table keeps at most one entry per
//! account ([`distinct_keys`]), so the balance an account reads and the sum
//! of the whole table ([`total_in`]) are related by simple arithmetic: the
//! lemmas below say exactly how a lookup, an overwrite and an append move
//! them.

use vstd::prelude::*;
use vstd::pervasive::VecAdditionalExecFns;
use crate::account::AccountId;
use crate::account::same_account;

verus! {

/// The balance the table records for `key`: the value of the first entry
/// whose account bytes are `key`, and 0 when no entry carries it.
pub open spec fn balance_in(entries: Seq<(AccountId, u128)>, key: Seq<u8>) -> u128
    decreases entries.len(),
{
    if entries.len() == 0 {
        0
    } else if entries[0].0@ == key {
        entries[0].1
    } else {
        balance_in(entries.drop_first(), key)
    }
}

/// The sum of every balance in the table.
pub open spec fn total_in(entries: Seq<(AccountId, u128)>) -> int
    decreases entries.len(),
{
    if entries.len() == 0 {
        0
    } else {
        entries[0].1 + total_in(entries.drop_first())
    }
}

/// No two entries carry the same account.
pub open spec fn distinct_keys(entries: Seq<(AccountId, u128)>) -> bool {
    forall|i: int, j: int|
        0 <= i < j < entries.len() ==> entries[i].0@ != entries[j].0@
}

/// The sum of the table is never negative.
pub proof fn lemma_total_nonneg(entries: Seq<(AccountId, u128)>)
    ensures
        total_in(entries) >= 0,
    decreases entries.len(),
{
    if entries.len() > 0 {
        lemma_total_nonneg(entries.drop_first());
    }
}

/// No single balance exceeds the sum of the table.
pub proof fn lemma_balance_le_total(entries: Seq<(AccountId, u128)>, key: Seq<u8>)
    ensures
        balance_in(entries, key) <= total_in(entries),
    decreases entries.len(),
{
    if entries.len() == 0 {
    } else if entries[0].0@ == key {
        lemma_total_nonneg(entries.drop_first());
    } else {
        lemma_balance_le_total(entries.drop_first(), key);
        lemma_total_nonneg(entries.drop_first());
    }
}

/// A key that no entry carries reads as zero.
pub proof fn lemma_balance_absent(entries: Seq<(AccountId, u128)>, key: Seq<u8>)
    requires
        forall|k: int| 0 <= k < entries.len() ==> entries[k].0@ != key,
    ensures
        balance_in(entries, key) == 0,
    decreases entries.len(),
{
    if entries.len() > 0 {
        lemma_balance_absent(entries.drop_first(), key);
    }
}

/// The first entry that carries `key` is the one the lookup reads.
pub proof fn lemma_balance_found(entries: Seq<(AccountId, u128)>, key: Seq<u8>, i: int)
    requires
        0 <= i < entries.len(),
        entries[i].0@ == key,
        forall|k: int| 0 <= k < i ==> entries[k].0@ != key,
    ensures
        balance_in(entries, key) == entries[i].1,
    decreases i,
{
    if i > 0 {
        lemma_balance_found(entries.drop_first(), key, i - 1);
    }
}

/// Overwriting the value of the first entry for a key makes that key read
/// the new value.
pub proof fn lemma_balance_update_same(
    entries: Seq<(AccountId, u128)>,
    i: int,
    entry: (AccountId, u128),
)
    requires
        0 <= i < entries.len(),
        entry.0@ == entries[i].0@,
        forall|k: int| 0 <= k < i ==> entries[k].0@ != entry.0@,
    ensures
        balance_in(entries.update(i, entry), entry.0@) == entry.1,
    decreases i,
{
    if i > 0 {
        assert(entries.update(i, entry).drop_first() =~= entries.drop_first().update(
            i - 1,
            entry,
        ));
        lemma_balance_update_same(entries.drop_first(), i - 1, entry);
    }
}

/// Overwriting an entry in place, key kept, leaves every other key reading
/// what it read before.
pub proof fn lemma_balance_update_other(
    entries: Seq<(AccountId, u128)>,
    i: int,
    entry: (AccountId, u128),
    key: Seq<u8>,
)
    requires
        0 <= i < entries.len(),
        entry.0@ == entries[i].0@,
        key != entry.0@,
    ensures
        balance_in(entries.update(i, entry), key) == balance_in(entries, key),
    decreases i,
{
    if i == 0 {
        assert(entries.update(0, entry).drop_first() =~= entries.drop_first());
    } else {
        assert(entries.update(i, entry).drop_first() =~= entries.drop_first().update(
            i - 1,
            entry,
        ));
        lemma_balance_update_other(entries.drop_first(), i - 1, entry, key);
    }
}

/// Overwriting the value of entry `i` moves the sum by the difference of
/// the new value and the old one.
pub proof fn lemma_total_update(
    entries: Seq<(AccountId, u128)>,
    i: int,
    entry: (AccountId, u128),
)
    requires
        0 <= i < entries.len(),
    ensures
        total_in(entries.update(i, entry)) == total_in(entries) - entries[i].1 + entry.1,
    decreases i,
{
    if i == 0 {
        assert(entries.update(0, entry).drop_first() =~= entries.drop_first());
    } else {
        assert(entries.update(i, entry).drop_first() =~= entries.drop_first().update(
            i - 1,
            entry,
        ));
        lemma_total_update(entries.drop_first(), i - 1, entry);
    }
}

/// Appending an entry for a key the table does not carry makes that key
/// read the appended value.
pub proof fn lemma_balance_push_same(entries: Seq<(AccountId, u128)>, entry: (AccountId, u128))
    requires
        forall|k: int| 0 <= k < entries.len() ==> entries[k].0@ != entry.0@,
    ensures
        balance_in(entries.push(entry), entry.0@) == entry.1,
    decreases entries.len(),
{
    if entries.len() == 0 {
        assert(entries.push(entry).drop_first() =~= entries);
    } else {
        assert(entries.push(entry).drop_first() =~= entries.drop_first().push(entry));
        lemma_balance_push_same(entries.drop_first(), entry);
    }
}

/// Appending an entry leaves every other key reading what it read before.
pub proof fn lemma_balance_push_other(
    entries: Seq<(AccountId, u128)>,
    entry: (AccountId, u128),
    key: Seq<u8>,
)
    requires
        key != entry.0@,
    ensures
        balance_in(entries.push(entry), key) == balance_in(entries, key),
    decreases entries.len(),
{
    if entries.len() == 0 {
        assert(entries.push(entry).drop_first() =~= entries);
    } else {
        assert(entries.push(entry).drop_first() =~= entries.drop_first().push(entry));
        lemma_balance_push_other(entries.drop_first(), entry, key);
    }
}

/// Appending an entry adds its value to the sum.
pub proof fn lemma_total_push(entries: Seq<(AccountId, u128)>, entry: (AccountId, u128))
    ensures
        total_in(entries.push(entry)) == total_in(entries) + entry.1,
    decreases entries.len(),
{
    if entries.len() == 0 {
        assert(entries.push(entry).drop_first() =~= entries);
    } else {
        assert(entries.push(entry).drop_first() =~= entries.drop_first().push(entry));
        lemma_total_push(entries.drop_first(), entry);
    }
}

/// Index of the first entry that carries `account`, scanning from the
/// front; `None` when no entry does.
fn find_account(entries: &Vec<(AccountId, u128)>, account: &AccountId) -> (r: Option<usize>)
    ensures
        match r {
            Some(i) => i < entries@.len() && entries@[i as int].0@ == account@ && forall|k: int|
                0 <= k < i ==> entries@[k].0@ != account@,
            None => forall|k: int| 0 <= k < entries@.len() ==> entries@[k].0@ != account@,
        },
{
    let mut i: usize = 0;
    while i < entries.len()
        invariant
            i <= entries@.len(),
            forall|k: int| 0 <= k < i ==> entries@[k].0@ != account@,
        decreases entries@.len() - i,
    {
        if same_account(&entries[i].0, account) {
            return Some(i);
        }
        i += 1;
    }
    None
}

/// The balance the table carries for `account`, zero when absent.
pub fn read_balance(entries: &Vec<(AccountId, u128)>, account: &AccountId) -> (r: u128)
    ensures
        r == balance_in(entries@, account@),
{
    match find_account(entries, account) {
        Some(i) => {
            proof {
                lemma_balance_found(entries@, account@, i as int);
            }
            entries[i].1
        },
        None => {
            proof {
                lemma_balance_absent(entries@, account@);
            }
            0
        },
    }
}

/// Records `value` as the balance of `account`: overwrites the entry that
/// carries the account, or appends one when none does. Touches no other
/// key, and moves the sum of the table by exactly the difference between
/// the new value and the balance the account read before.
pub fn store_balance(entries: &mut Vec<(AccountId, u128)>, account: &AccountId, value: u128)
    requires
        distinct_keys(old(entries)@),
    ensures
        distinct_keys(final(entries)@),
        balance_in(final(entries)@, account@) == value,
        forall|b: Seq<u8>|
            b != account@ ==> balance_in(final(entries)@, b) == balance_in(old(entries)@, b),
        total_in(final(entries)@) == total_in(old(entries)@) - balance_in(old(entries)@, account@)
            + value,
{
    let ghost s0 = entries@;
    match find_account(entries, account) {
        Some(i) => {
            let key = entries[i].0;
            entries.set(i, (key, value));
            proof {
                let entry = (key, value);
                lemma_balance_found(s0, account@, i as int);
                lemma_balance_update_same(s0, i as int, entry);
                assert forall|b: Seq<u8>| b != account@ implies balance_in(entries@, b)
                    == balance_in(s0, b) by {
                    lemma_balance_update_other(s0, i as int, entry, b);
                }
                lemma_total_update(s0, i as int, entry);
                assert(forall|k: int| 0 <= k < entries@.len() ==> entries@[k].0 == s0[k].0);
            }
        },
        None => {
            entries.push((*account, value));
            proof {
                let entry = (*account, value);
                lemma_balance_push_same(s0, entry);
                assert forall|b: Seq<u8>| b != account@ implies balance_in(entries@, b)
                    == balance_in(s0, b) by {
                    lemma_balance_push_other(s0, entry, b);
                }
                lemma_total_push(s0, entry);
                lemma_balance_absent(s0, account@);
                assert forall|p: int, q: int|
                    0 <= p < q < entries@.len() implies entries@[p].0@ != entries@[q].0@ by {
                    if q == s0.len() {
                        assert(entries@[p].0 == s0[p].0);
                    } else {
                        assert(entries@[p].0 == s0[p].0);
                        assert(entries@[q].0 == s0[q].0);
                    }
                }
            }
        },
    }
}

} // verus!
