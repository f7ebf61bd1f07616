//! The balance ledger's mathematical model: a sequence of uniquely-named
//! account entries, the lookup functions over it, and the lemmas that say
//! how lookup and balance totals move under the three edits the ledger ever
//! performs (update one entry, add an entry, remove an entry).

use vstd::prelude::*;

verus! {

/// One registered account: its identifier, token balance, and the payment
/// reserved against its persistent storage footprint.
#[derive(Clone, Debug, PartialEq, Eq)]
pub struct Account {
    pub id: String,
    pub balance: u128,
    pub deposit: u128,
}

/// No two entries share an identifier.
pub open spec fn ids_unique(s: Seq<Account>) -> bool {
    forall|i: int, j: int| 0 <= i < j < s.len() ==> s[i].id@ != s[j].id@
}

/// Whether some entry carries identifier `x`.
pub open spec fn has_account(s: Seq<Account>, x: Seq<char>) -> bool {
    exists|i: int| 0 <= i < s.len() && s[i].id@ == x
}

/// The index of the entry carrying `x`; meaningful only when one exists.
pub open spec fn account_at(s: Seq<Account>, x: Seq<char>) -> int {
    choose|i: int| 0 <= i < s.len() && s[i].id@ == x
}

/// The balance recorded for `x`; an identifier with no entry reports zero.
pub open spec fn bal_in(s: Seq<Account>, x: Seq<char>) -> u128 {
    if has_account(s, x) {
        s[account_at(s, x)].balance
    } else {
        0
    }
}

/// The storage deposit reserved for `x`; zero when no entry exists.
pub open spec fn dep_in(s: Seq<Account>, x: Seq<char>) -> u128 {
    if has_account(s, x) {
        s[account_at(s, x)].deposit
    } else {
        0
    }
}

/// The sum of all balances in the ledger.
pub open spec fn sum_bal(s: Seq<Account>) -> int
    decreases s.len(),
{
    if s.len() == 0 {
        0
    } else {
        sum_bal(s.drop_last()) + s.last().balance
    }
}

/// When identifiers are unique, the entry found for `x` is the only one.
pub proof fn lemma_at_unique(s: Seq<Account>, x: Seq<char>)
    requires
        ids_unique(s),
        has_account(s, x),
    ensures
        0 <= account_at(s, x) < s.len(),
        s[account_at(s, x)].id@ == x,
        forall|k: int| 0 <= k < s.len() && s[k].id@ == x ==> k == account_at(s, x),
{
    let j = account_at(s, x);
    assert(0 <= j < s.len() && s[j].id@ == x);
    assert forall|k: int| 0 <= k < s.len() && s[k].id@ == x implies k == j by {
        if k != j {
            if k < j {
                assert(s[k].id@ != s[j].id@);
            } else {
                assert(s[j].id@ != s[k].id@);
            }
        }
    }
}

/// Overwriting the entry at `i` with one of the same identifier keeps every
/// lookup but that identifier's balance and deposit.
pub proof fn lemma_update(s: Seq<Account>, i: int, a: Account)
    requires
        ids_unique(s),
        0 <= i < s.len(),
        a.id@ == s[i].id@,
    ensures
        ids_unique(s.update(i, a)),
        forall|x: Seq<char>| has_account(s.update(i, a), x) == has_account(s, x),
        bal_in(s.update(i, a), a.id@) == a.balance,
        dep_in(s.update(i, a), a.id@) == a.deposit,
        forall|x: Seq<char>| x != a.id@ ==> bal_in(s.update(i, a), x) == bal_in(s, x),
        forall|x: Seq<char>| x != a.id@ ==> dep_in(s.update(i, a), x) == dep_in(s, x),
{
    let t = s.update(i, a);
    assert forall|p: int, q: int| 0 <= p < q < t.len() implies t[p].id@ != t[q].id@ by {
        assert(t[p].id@ == s[p].id@);
        assert(t[q].id@ == s[q].id@);
    }
    assert forall|x: Seq<char>| has_account(t, x) == has_account(s, x) by {
        if has_account(s, x) {
            let j = account_at(s, x);
            assert(t[j].id@ == x);
        }
        if has_account(t, x) {
            let j = account_at(t, x);
            assert(s[j].id@ == x);
        }
    }
    lemma_at_unique(s, a.id@);
    lemma_at_unique(t, a.id@);
    assert(account_at(t, a.id@) == i);
    assert forall|x: Seq<char>| x != a.id@ implies bal_in(t, x) == bal_in(s, x) && dep_in(
        t,
        x,
    ) == dep_in(s, x) by {
        if has_account(s, x) {
            lemma_at_unique(s, x);
            lemma_at_unique(t, x);
            let j = account_at(s, x);
            assert(j != i);
            assert(t[j] == s[j]);
            assert(account_at(t, x) == j);
        }
    }
}

/// Adding an entry with a fresh identifier registers exactly that
/// identifier and disturbs no other lookup.
pub proof fn lemma_push(s: Seq<Account>, a: Account)
    requires
        ids_unique(s),
        !has_account(s, a.id@),
    ensures
        ids_unique(s.push(a)),
        forall|x: Seq<char>|
            has_account(s.push(a), x) == (has_account(s, x) || x == a.id@),
        bal_in(s.push(a), a.id@) == a.balance,
        dep_in(s.push(a), a.id@) == a.deposit,
        forall|x: Seq<char>| x != a.id@ ==> bal_in(s.push(a), x) == bal_in(s, x),
        forall|x: Seq<char>| x != a.id@ ==> dep_in(s.push(a), x) == dep_in(s, x),
        sum_bal(s.push(a)) == sum_bal(s) + a.balance,
{
    let t = s.push(a);
    assert forall|p: int, q: int| 0 <= p < q < t.len() implies t[p].id@ != t[q].id@ by {
        if q == s.len() {
            assert(t[p].id@ == s[p].id@);
            if t[p].id@ == a.id@ {
                assert(has_account(s, a.id@));
            }
        } else {
            assert(t[p].id@ == s[p].id@);
            assert(t[q].id@ == s[q].id@);
        }
    }
    assert forall|x: Seq<char>|
        has_account(t, x) == (has_account(s, x) || x == a.id@) by {
        if has_account(s, x) {
            let j = account_at(s, x);
            assert(t[j].id@ == x);
        }
        if x == a.id@ {
            assert(t[s.len() as int].id@ == x);
        }
        if has_account(t, x) && x != a.id@ {
            let j = account_at(t, x);
            assert(j != s.len());
            assert(s[j].id@ == x);
        }
    }
    lemma_at_unique(t, a.id@);
    assert(account_at(t, a.id@) == s.len() as int);
    assert forall|x: Seq<char>| x != a.id@ implies bal_in(t, x) == bal_in(s, x) && dep_in(
        t,
        x,
    ) == dep_in(s, x) by {
        if has_account(s, x) {
            lemma_at_unique(s, x);
            lemma_at_unique(t, x);
            let j = account_at(s, x);
            assert(t[j] == s[j]);
            assert(account_at(t, x) == j);
        }
    }
    assert(t.drop_last() =~= s);
}

/// Removing the entry at `i` unregisters exactly its identifier and
/// disturbs no other lookup; the balance total drops by its balance.
pub proof fn lemma_remove(s: Seq<Account>, i: int)
    requires
        ids_unique(s),
        0 <= i < s.len(),
    ensures
        ids_unique(s.remove(i)),
        !has_account(s.remove(i), s[i].id@),
        forall|x: Seq<char>|
            x != s[i].id@ ==> has_account(s.remove(i), x) == has_account(s, x),
        forall|x: Seq<char>| x != s[i].id@ ==> bal_in(s.remove(i), x) == bal_in(s, x),
        forall|x: Seq<char>| x != s[i].id@ ==> dep_in(s.remove(i), x) == dep_in(s, x),
        sum_bal(s.remove(i)) == sum_bal(s) - s[i].balance,
    decreases s.len(),
{
    let t = s.remove(i);
    assert forall|p: int, q: int| 0 <= p < q < t.len() implies t[p].id@ != t[q].id@ by {
        let p0 = if p < i { p } else { p + 1 };
        let q0 = if q < i { q } else { q + 1 };
        assert(t[p] == s[p0]);
        assert(t[q] == s[q0]);
    }
    assert forall|j: int| 0 <= j < t.len() implies t[j].id@ != s[i].id@ by {
        let j0 = if j < i { j } else { j + 1 };
        assert(t[j] == s[j0]);
        assert(j0 != i);
        if j0 < i {
            assert(s[j0].id@ != s[i].id@);
        } else {
            assert(s[i].id@ != s[j0].id@);
        }
    }
    assert forall|x: Seq<char>| x != s[i].id@ implies has_account(t, x) == has_account(
        s,
        x,
    ) && bal_in(t, x) == bal_in(s, x) && dep_in(t, x) == dep_in(s, x) by {
        if has_account(s, x) {
            lemma_at_unique(s, x);
            let j = account_at(s, x);
            assert(j != i);
            let j1 = if j < i { j } else { j - 1 };
            assert(t[j1] == s[j]);
            assert(has_account(t, x));
            lemma_at_unique(t, x);
            assert(account_at(t, x) == j1);
        }
        if has_account(t, x) {
            let j = account_at(t, x);
            let j0 = if j < i { j } else { j + 1 };
            assert(t[j] == s[j0]);
            assert(has_account(s, x));
        }
    }
    if i == s.len() - 1 {
        assert(t =~= s.drop_last());
    } else {
        assert(t.drop_last() =~= s.drop_last().remove(i));
        assert(t.last() == s.last());
        lemma_remove(s.drop_last(), i);
    }
}

/// Replacing one entry moves the balance total by exactly the difference.
pub proof fn lemma_sum_update(s: Seq<Account>, i: int, a: Account)
    requires
        0 <= i < s.len(),
    ensures
        sum_bal(s.update(i, a)) == sum_bal(s) - s[i].balance + a.balance,
    decreases s.len(),
{
    let t = s.update(i, a);
    if i == s.len() - 1 {
        assert(t.drop_last() =~= s.drop_last());
        assert(t.last() == a);
    } else {
        assert(t.drop_last() =~= s.drop_last().update(i, a));
        assert(t.last() == s.last());
        lemma_sum_update(s.drop_last(), i, a);
    }
}

/// A balance total is never negative.
pub proof fn lemma_sum_nonneg(s: Seq<Account>)
    ensures
        sum_bal(s) >= 0,
    decreases s.len(),
{
    if s.len() > 0 {
        lemma_sum_nonneg(s.drop_last());
    }
}

/// Every entry's balance is bounded by the balance total.
pub proof fn lemma_sum_elem(s: Seq<Account>, i: int)
    requires
        0 <= i < s.len(),
    ensures
        sum_bal(s) >= s[i].balance,
    decreases s.len(),
{
    if i == s.len() - 1 {
        lemma_sum_nonneg(s.drop_last());
    } else {
        lemma_sum_elem(s.drop_last(), i);
    }
}

/// Two distinct entries' balances together are bounded by the total.
pub proof fn lemma_sum_two_elems(s: Seq<Account>, i: int, j: int)
    requires
        0 <= i < s.len(),
        0 <= j < s.len(),
        i != j,
    ensures
        sum_bal(s) >= s[i].balance + s[j].balance,
    decreases s.len(),
{
    let lo = if i < j { i } else { j };
    let hi = if i < j { j } else { i };
    if hi == s.len() - 1 {
        lemma_sum_elem(s.drop_last(), lo);
    } else {
        lemma_sum_two_elems(s.drop_last(), i, j);
    }
}

} // verus!
