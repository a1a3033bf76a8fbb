use crate::address::Address;
use crate::uint::U256;
use vstd::prelude::*;

verus! {

/// What `owner` lets `spender` move from its balance.
#[derive(Clone, Copy, Debug)]
pub struct AllowanceEntry {
    pub owner: Address,
    pub spender: Address,
    pub amount: U256,
}

/// The allowance recorded for `(o, s)` in `t`; a pair with no entry has 0.
pub open spec fn allowance_in(t: Seq<AllowanceEntry>, o: Address, s: Address) -> nat
    decreases t.len(),
{
    if t.len() == 0 {
        0
    } else if t.last().owner == o && t.last().spender == s {
        t.last().amount.value()
    } else {
        allowance_in(t.drop_last(), o, s)
    }
}

pub open spec fn is_key(e: AllowanceEntry, o: Address, s: Address) -> bool {
    e.owner == o && e.spender == s
}

/// No `(owner, spender)` pair has two entries.
pub open spec fn pairs_unique(t: Seq<AllowanceEntry>) -> bool {
    forall|i: int, j: int|
        0 <= i < j < t.len() ==> !is_key(#[trigger] t[i], t[j].owner, #[trigger] t[j].spender)
}

pub proof fn lemma_allowance_absent(t: Seq<AllowanceEntry>, o: Address, s: Address)
    requires
        forall|i: int| 0 <= i < t.len() ==> !is_key(#[trigger] t[i], o, s),
    ensures
        allowance_in(t, o, s) == 0,
    decreases t.len(),
{
    if t.len() > 0 {
        assert(!is_key(t[t.len() - 1], o, s));
        lemma_allowance_absent(t.drop_last(), o, s);
    }
}

pub proof fn lemma_allowance_at(t: Seq<AllowanceEntry>, i: int)
    requires
        pairs_unique(t),
        0 <= i < t.len(),
    ensures
        allowance_in(t, t[i].owner, t[i].spender) == t[i].amount.value(),
    decreases t.len(),
{
    if i < t.len() - 1 {
        assert(!is_key(t[i], t[t.len() - 1].owner, t[t.len() - 1].spender));
        assert(t.drop_last()[i] == t[i]);
        lemma_allowance_at(t.drop_last(), i);
    }
}

/// The table of allowances, one entry per `(owner, spender)` pair ever approved.
pub struct Allowances {
    pub entries: Vec<AllowanceEntry>,
}

impl Allowances {
    pub open spec fn wf(&self) -> bool {
        pairs_unique(self.entries@)
    }

    pub open spec fn get_spec(&self, o: Address, s: Address) -> nat {
        allowance_in(self.entries@, o, s)
    }

    pub fn new() -> (r: Allowances)
        ensures
            r.wf(),
            forall|o: Address, s: Address| r.get_spec(o, s) == 0,
    {
        Allowances { entries: Vec::new() }
    }

    /// The index of the entry for `(o, s)`, if it has one.
    fn find(&self, o: &Address, s: &Address) -> (r: Option<usize>)
        ensures
            match r {
                Some(i) => i < self.entries@.len() && is_key(self.entries@[i as int], *o, *s),
                None => forall|i: int|
                    0 <= i < self.entries@.len() ==> !is_key(#[trigger] self.entries@[i], *o, *s),
            },
    {
        let mut i: usize = 0;
        while i < self.entries.len()
            invariant
                0 <= i <= self.entries@.len(),
                forall|j: int| 0 <= j < i ==> !is_key(#[trigger] self.entries@[j], *o, *s),
            decreases self.entries@.len() - i,
        {
            if self.entries[i].owner.same(o) && self.entries[i].spender.same(s) {
                return Some(i);
            }
            i = i + 1;
        }
        None
    }

    /// What `o` lets `s` spend.
    pub fn get(&self, o: &Address, s: &Address) -> (r: U256)
        requires
            self.wf(),
        ensures
            r.value() == self.get_spec(*o, *s),
    {
        match self.find(o, s) {
            Some(i) => {
                proof {
                    lemma_allowance_at(self.entries@, i as int);
                }
                self.entries[i].amount
            },
            None => {
                proof {
                    lemma_allowance_absent(self.entries@, *o, *s);
                }
                U256::zero()
            },
        }
    }

    /// Sets what `o` lets `s` spend to `v`, leaving every other pair as it was.
    pub fn set(&mut self, o: &Address, s: &Address, v: U256)
        requires
            old(self).wf(),
        ensures
            final(self).wf(),
            final(self).get_spec(*o, *s) == v.value(),
            forall|p: Address, q: Address|
                !(p == *o && q == *s) ==> final(self).get_spec(p, q) == old(self).get_spec(p, q),
    {
        let e = AllowanceEntry { owner: *o, spender: *s, amount: v };
        let ghost u = self.entries@;
        match self.find(o, s) {
            Some(i) => {
                self.entries.set(i, e);
                let ghost t = self.entries@;
                assert(t == u.update(i as int, e));
                assert(pairs_unique(t)) by {
                    assert forall|j: int, k: int| 0 <= j < k < t.len() implies !is_key(
                        #[trigger] t[j],
                        t[k].owner,
                        #[trigger] t[k].spender,
                    ) by {
                        assert(!is_key(u[j], u[k].owner, u[k].spender));
                    }
                }
                proof {
                    lemma_allowance_at(t, i as int);
                    assert forall|p: Address, q: Address| !(p == *o && q == *s) implies allowance_in(
                        t,
                        p,
                        q,
                    ) == allowance_in(u, p, q) by {
                        if exists|j: int| 0 <= j < u.len() && is_key(u[j], p, q) {
                            let j = choose|j: int| 0 <= j < u.len() && is_key(u[j], p, q);
                            lemma_allowance_at(u, j);
                            lemma_allowance_at(t, j);
                        } else {
                            lemma_allowance_absent(u, p, q);
                            assert forall|j: int| 0 <= j < t.len() implies !is_key(
                                #[trigger] t[j],
                                p,
                                q,
                            ) by {
                                assert(!is_key(u[j], p, q));
                            }
                            lemma_allowance_absent(t, p, q);
                        }
                    }
                }
            },
            None => {
                self.entries.push(e);
                let ghost t = self.entries@;
                assert(t.drop_last() =~= u);
                assert(pairs_unique(t)) by {
                    assert forall|j: int, k: int| 0 <= j < k < t.len() implies !is_key(
                        #[trigger] t[j],
                        t[k].owner,
                        #[trigger] t[k].spender,
                    ) by {
                        if k < u.len() {
                            assert(!is_key(u[j], u[k].owner, u[k].spender));
                        } else {
                            assert(!is_key(u[j], *o, *s));
                        }
                    }
                }
            },
        }
    }
}

} // verus!
