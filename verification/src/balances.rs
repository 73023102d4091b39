//! The mathematical model of an account table: spec functions over a sequence
//! of accounts, and the lemmas that relate them to the operations the ledger
//! performs (looking an account up, updating one entry, appending one entry).

use vstd::prelude::*;

use crate::account::Account;

verus! {

/// The sum of all balances in `s`.
pub open spec fn sum_balances(s: Seq<Account>) -> int
    decreases s.len(),
{
    if s.len() == 0 {
        0
    } else {
        sum_balances(s.drop_last()) + s.last().balance
    }
}

/// The balance recorded for `id`, or 0 if no account carries that id.
/// The "unknown account has balance zero" policy of the ledger's queries is
/// built into this definition.
pub open spec fn balance_in(s: Seq<Account>, id: Seq<char>) -> u64
    decreases s.len(),
{
    if s.len() == 0 {
        0u64
    } else if s.last().id@ == id {
        s.last().balance
    } else {
        balance_in(s.drop_last(), id)
    }
}

/// Whether some account in `s` carries the id `id`.
pub open spec fn has_account_in(s: Seq<Account>, id: Seq<char>) -> bool
    decreases s.len(),
{
    if s.len() == 0 {
        false
    } else {
        s.last().id@ == id || has_account_in(s.drop_last(), id)
    }
}

/// No two accounts in `s` share an id.
pub open spec fn ids_unique(s: Seq<Account>) -> bool {
    forall|i: int, j: int| 0 <= i < j < s.len() ==> s[i].id@ != s[j].id@
}

/// A sum of balances is never negative.
pub proof fn lemma_sum_nonneg(s: Seq<Account>)
    ensures
        sum_balances(s) >= 0,
    decreases s.len(),
{
    if s.len() > 0 {
        lemma_sum_nonneg(s.drop_last());
    }
}

/// Dropping the last account keeps the ids of the rest unique.
pub proof fn lemma_ids_unique_drop_last(s: Seq<Account>)
    requires
        ids_unique(s),
        s.len() > 0,
    ensures
        ids_unique(s.drop_last()),
{
    assert forall|i: int, j: int|
        0 <= i < j < s.drop_last().len() implies s.drop_last()[i].id@
        != s.drop_last()[j].id@ by {
        assert(s.drop_last()[i] == s[i]);
        assert(s.drop_last()[j] == s[j]);
    }
}

/// No single balance exceeds the sum of all balances.
pub proof fn lemma_balance_le_sum(s: Seq<Account>, id: Seq<char>)
    ensures
        balance_in(s, id) <= sum_balances(s),
    decreases s.len(),
{
    if s.len() == 0 {
    } else if s.last().id@ == id {
        lemma_sum_nonneg(s.drop_last());
    } else {
        lemma_balance_le_sum(s.drop_last(), id);
    }
}

/// When the ids are unique, the account at index `i` is the one that
/// `balance_in` and `has_account_in` find for its id.
pub proof fn lemma_balance_at_index(s: Seq<Account>, i: int)
    requires
        ids_unique(s),
        0 <= i < s.len(),
    ensures
        has_account_in(s, s[i].id@),
        balance_in(s, s[i].id@) == s[i].balance,
    decreases s.len(),
{
    if i == s.len() - 1 {
        assert(s.last() == s[i]);
    } else {
        assert(s.last().id@ != s[i].id@);
        lemma_ids_unique_drop_last(s);
        assert(s.drop_last()[i] == s[i]);
        lemma_balance_at_index(s.drop_last(), i);
    }
}

/// An id that matches no account has no record and balance 0.
pub proof fn lemma_absent(s: Seq<Account>, id: Seq<char>)
    requires
        forall|i: int| 0 <= i < s.len() ==> s[i].id@ != id,
    ensures
        !has_account_in(s, id),
        balance_in(s, id) == 0,
    decreases s.len(),
{
    if s.len() > 0 {
        assert(s[s.len() - 1].id@ != id);
        assert forall|i: int| 0 <= i < s.drop_last().len() implies s.drop_last()[i].id@ != id by {
            assert(s.drop_last()[i] == s[i]);
        }
        lemma_absent(s.drop_last(), id);
    }
}

/// Replacing the account at index `i` by one with the same id changes that
/// id's balance, changes the sum by the difference, and touches nothing else.
pub proof fn lemma_update(s: Seq<Account>, i: int, a: Account)
    requires
        ids_unique(s),
        0 <= i < s.len(),
        a.id@ == s[i].id@,
    ensures
        ids_unique(s.update(i, a)),
        sum_balances(s.update(i, a)) == sum_balances(s) - s[i].balance + a.balance,
        balance_in(s.update(i, a), a.id@) == a.balance,
        forall|id: Seq<char>|
            id != a.id@ ==> balance_in(s.update(i, a), id) == balance_in(s, id),
        forall|id: Seq<char>| has_account_in(s.update(i, a), id) == has_account_in(s, id),
    decreases s.len(),
{
    let t = s.update(i, a);
    assert forall|p: int, q: int| 0 <= p < q < t.len() implies t[p].id@ != t[q].id@ by {
        if p == i {
            assert(t[p].id@ == s[i].id@);
        } else if q == i {
            assert(t[q].id@ == s[i].id@);
        }
    }
    if i == s.len() - 1 {
        assert(t.last() == a);
        assert(t.drop_last() =~= s.drop_last());
        assert forall|id: Seq<char>| id != a.id@ implies balance_in(t, id) == balance_in(
            s,
            id,
        ) by {
            assert(balance_in(t, id) == balance_in(s.drop_last(), id));
        }
        assert forall|id: Seq<char>| has_account_in(t, id) == has_account_in(s, id) by {
            assert(t.last().id@ == s.last().id@);
        }
    } else {
        assert(t.last() == s.last());
        assert(t.drop_last() =~= s.drop_last().update(i, a));
        assert(s.drop_last()[i] == s[i]);
        lemma_ids_unique_drop_last(s);
        lemma_update(s.drop_last(), i, a);
        assert(s.last().id@ != s[i].id@);
        assert(balance_in(t, a.id@) == balance_in(t.drop_last(), a.id@));
        assert forall|id: Seq<char>| id != a.id@ implies balance_in(t, id) == balance_in(
            s,
            id,
        ) by {
            if s.last().id@ != id {
                assert(balance_in(t, id) == balance_in(t.drop_last(), id));
                assert(balance_in(s, id) == balance_in(s.drop_last(), id));
            }
        }
        assert forall|id: Seq<char>| has_account_in(t, id) == has_account_in(s, id) by {
            if s.last().id@ != id {
                assert(has_account_in(t, id) == has_account_in(t.drop_last(), id));
                assert(has_account_in(s, id) == has_account_in(s.drop_last(), id));
            }
        }
    }
}

/// Appending an account with a fresh id adds its balance to the sum, gives
/// its id its balance, and touches nothing else.
pub proof fn lemma_push(s: Seq<Account>, a: Account)
    requires
        ids_unique(s),
        forall|i: int| 0 <= i < s.len() ==> s[i].id@ != a.id@,
    ensures
        ids_unique(s.push(a)),
        sum_balances(s.push(a)) == sum_balances(s) + a.balance,
        balance_in(s.push(a), a.id@) == a.balance,
        has_account_in(s.push(a), a.id@),
        forall|id: Seq<char>|
            id != a.id@ ==> balance_in(s.push(a), id) == balance_in(s, id),
        forall|id: Seq<char>|
            id != a.id@ ==> has_account_in(s.push(a), id) == has_account_in(s, id),
{
    let t = s.push(a);
    assert(t.drop_last() =~= s);
    assert(t.last() == a);
    assert forall|p: int, q: int| 0 <= p < q < t.len() implies t[p].id@ != t[q].id@ by {
        if q == t.len() - 1 {
            assert(t[p] == s[p]);
        }
    }
}

/// The sum over one more entry of a prefix.
pub proof fn lemma_sum_take_succ(s: Seq<Account>, k: int)
    requires
        0 <= k < s.len(),
    ensures
        sum_balances(s.take(k + 1)) == sum_balances(s.take(k)) + s[k].balance,
{
    assert(s.take(k + 1).drop_last() =~= s.take(k));
    assert(s.take(k + 1).last() == s[k]);
}

/// A prefix never sums to more than the whole sequence.
pub proof fn lemma_sum_take_le(s: Seq<Account>, k: int)
    requires
        0 <= k <= s.len(),
    ensures
        sum_balances(s.take(k)) <= sum_balances(s),
    decreases s.len() - k,
{
    if k == s.len() {
        assert(s.take(k) =~= s);
    } else {
        lemma_sum_take_succ(s, k);
        lemma_sum_take_le(s, k + 1);
    }
}

} // verus!
