use crate::address::Address;
use crate::uint::U256;
use vstd::prelude::*;

verus! {

/// One account's balance.
#[derive(Clone, Copy, Debug)]
pub struct BalanceEntry {
    pub account: Address,
    pub amount: U256,
}

/// The balance recorded for `a` in `s`; an account with no entry holds 0.
pub open spec fn balance_in(s: Seq<BalanceEntry>, a: Address) -> nat
    decreases s.len(),
{
    if s.len() == 0 {
        0
    } else if s.last().account == a {
        s.last().amount.value()
    } else {
        balance_in(s.drop_last(), a)
    }
}

/// The sum of all balances recorded in `s`.
pub open spec fn sum_of(s: Seq<BalanceEntry>) -> nat
    decreases s.len(),
{
    if s.len() == 0 {
        0
    } else {
        sum_of(s.drop_last()) + s.last().amount.value()
    }
}

/// No account has two entries.
pub open spec fn accounts_unique(s: Seq<BalanceEntry>) -> bool {
    forall|i: int, j: int|
        0 <= i < j < s.len() ==> #[trigger] s[i].account != #[trigger] s[j].account
}

pub proof fn lemma_balance_absent(s: Seq<BalanceEntry>, a: Address)
    requires
        forall|i: int| 0 <= i < s.len() ==> #[trigger] s[i].account != a,
    ensures
        balance_in(s, a) == 0,
    decreases s.len(),
{
    if s.len() > 0 {
        assert(s.last().account == s[s.len() - 1].account);
        lemma_balance_absent(s.drop_last(), a);
    }
}

pub proof fn lemma_balance_at(s: Seq<BalanceEntry>, i: int)
    requires
        accounts_unique(s),
        0 <= i < s.len(),
    ensures
        balance_in(s, s[i].account) == s[i].amount.value(),
    decreases s.len(),
{
    if i < s.len() - 1 {
        assert(s[i].account != s[s.len() - 1].account);
        assert(s.drop_last()[i] == s[i]);
        lemma_balance_at(s.drop_last(), i);
    }
}

/// A single balance never exceeds the sum of all of them.
pub proof fn lemma_balance_le_sum(s: Seq<BalanceEntry>, a: Address)
    ensures
        balance_in(s, a) <= sum_of(s),
    decreases s.len(),
{
    if s.len() > 0 {
        lemma_balance_le_sum(s.drop_last(), a);
    }
}

/// Replacing one entry's amount changes the sum by the difference.
pub proof fn lemma_sum_update(s: Seq<BalanceEntry>, i: int, e: BalanceEntry)
    requires
        0 <= i < s.len(),
    ensures
        sum_of(s.update(i, e)) + s[i].amount.value() == sum_of(s) + e.amount.value(),
    decreases s.len(),
{
    let t = s.update(i, e);
    if i == s.len() - 1 {
        assert(t.drop_last() =~= s.drop_last());
    } else {
        assert(t.drop_last() =~= s.drop_last().update(i, e));
        lemma_sum_update(s.drop_last(), i, e);
    }
}

/// A table of balances, one entry per account that has ever held tokens.
pub struct Balances {
    pub entries: Vec<BalanceEntry>,
}

impl Balances {
    pub open spec fn wf(&self) -> bool {
        accounts_unique(self.entries@)
    }

    pub open spec fn get_spec(&self, a: Address) -> nat {
        balance_in(self.entries@, a)
    }

    pub open spec fn sum(&self) -> nat {
        sum_of(self.entries@)
    }

    pub fn new() -> (r: Balances)
        ensures
            r.wf(),
            r.sum() == 0,
            forall|a: Address| r.get_spec(a) == 0,
    {
        Balances { entries: Vec::new() }
    }

    /// The index of `a`'s entry, if it has one.
    fn find(&self, a: &Address) -> (r: Option<usize>)
        ensures
            match r {
                Some(i) => i < self.entries@.len() && self.entries@[i as int].account == *a,
                None => forall|i: int|
                    0 <= i < self.entries@.len() ==> #[trigger] self.entries@[i].account != *a,
            },
    {
        let mut i: usize = 0;
        while i < self.entries.len()
            invariant
                0 <= i <= self.entries@.len(),
                forall|j: int| 0 <= j < i ==> #[trigger] self.entries@[j].account != *a,
            decreases self.entries@.len() - i,
        {
            if self.entries[i].account.same(a) {
                return Some(i);
            }
            i = i + 1;
        }
        None
    }

    /// `a`'s balance.
    pub fn get(&self, a: &Address) -> (r: U256)
        requires
            self.wf(),
        ensures
            r.value() == self.get_spec(*a),
    {
        match self.find(a) {
            Some(i) => {
                proof {
                    lemma_balance_at(self.entries@, i as int);
                }
                self.entries[i].amount
            },
            None => {
                proof {
                    lemma_balance_absent(self.entries@, *a);
                }
                U256::zero()
            },
        }
    }

    /// Sets `a`'s balance to `v`, leaving every other balance as it was.
    pub fn set(&mut self, a: &Address, v: U256)
        requires
            old(self).wf(),
        ensures
            final(self).wf(),
            final(self).get_spec(*a) == v.value(),
            forall|b: Address| b != *a ==> final(self).get_spec(b) == old(self).get_spec(b),
            final(self).sum() + old(self).get_spec(*a) == old(self).sum() + v.value(),
    {
        let e = BalanceEntry { account: *a, amount: v };
        let ghost s = self.entries@;
        match self.find(a) {
            Some(i) => {
                proof {
                    lemma_balance_at(s, i as int);
                    lemma_sum_update(s, i as int, e);
                }
                self.entries.set(i, e);
                let ghost t = self.entries@;
                assert(t == s.update(i as int, e));
                assert(accounts_unique(t)) by {
                    assert forall|j: int, k: int| 0 <= j < k < t.len() implies #[trigger] t[j].account
                        != #[trigger] t[k].account by {
                        assert(s[j].account != s[k].account);
                    }
                }
                proof {
                    lemma_balance_at(t, i as int);
                    assert forall|b: Address| b != *a implies balance_in(t, b) == balance_in(
                        s,
                        b,
                    ) by {
                        if exists|j: int| 0 <= j < s.len() && s[j].account == b {
                            let j = choose|j: int| 0 <= j < s.len() && s[j].account == b;
                            lemma_balance_at(s, j);
                            lemma_balance_at(t, j);
                        } else {
                            lemma_balance_absent(s, b);
                            assert forall|j: int| 0 <= j < t.len() implies #[trigger] t[j].account
                                != b by {
                                assert(s[j].account != b);
                            }
                            lemma_balance_absent(t, b);
                        }
                    }
                }
            },
            None => {
                proof {
                    lemma_balance_absent(s, *a);
                }
                self.entries.push(e);
                let ghost t = self.entries@;
                assert(t.drop_last() =~= s);
                assert(accounts_unique(t)) by {
                    assert forall|j: int, k: int| 0 <= j < k < t.len() implies #[trigger] t[j].account
                        != #[trigger] t[k].account by {
                        if k < s.len() {
                            assert(s[j].account != s[k].account);
                        } else {
                            assert(s[j].account != *a);
                        }
                    }
                }
            },
        }
    }
}

} // verus!
