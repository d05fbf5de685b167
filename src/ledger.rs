use vstd::prelude::*;

use crate::account::AccountId;

verus! {

/// The balance that `entries` records for account `a`, zero where none is
/// recorded.
pub open spec fn balance_in(entries: Seq<(AccountId, i128)>, a: Seq<u8>) -> int
    decreases entries.len(),
{
    if entries.len() == 0 {
        0
    } else if entries.last().0@ == a {
        entries.last().1 as int
    } else {
        balance_in(entries.drop_last(), a)
    }
}

/// No account has two entries.
pub open spec fn keys_unique(entries: Seq<(AccountId, i128)>) -> bool {
    forall|i: int, j: int|
        0 <= i < j < entries.len() ==> #[trigger] entries[i].0@ != #[trigger] entries[j].0@
}

proof fn lemma_balance_at(entries: Seq<(AccountId, i128)>, k: int)
    requires
        keys_unique(entries),
        0 <= k < entries.len(),
    ensures
        balance_in(entries, entries[k].0@) == entries[k].1,
    decreases entries.len(),
{
    if k < entries.len() - 1 {
        assert(entries.last() == entries[entries.len() - 1]);
        lemma_balance_at(entries.drop_last(), k);
    }
}

proof fn lemma_balance_absent(entries: Seq<(AccountId, i128)>, a: Seq<u8>)
    requires
        forall|i: int| 0 <= i < entries.len() ==> #[trigger] entries[i].0@ != a,
    ensures
        balance_in(entries, a) == 0,
    decreases entries.len(),
{
    if entries.len() > 0 {
        assert(entries.last() == entries[entries.len() - 1]);
        lemma_balance_absent(entries.drop_last(), a);
    }
}

proof fn lemma_balance_update(entries: Seq<(AccountId, i128)>, k: int, e: (AccountId, i128), b: Seq<u8>)
    requires
        keys_unique(entries),
        0 <= k < entries.len(),
        e.0@ == entries[k].0@,
    ensures
        balance_in(entries.update(k, e), b) == if b == e.0@ {
            e.1 as int
        } else {
            balance_in(entries, b)
        },
    decreases entries.len(),
{
    let u = entries.update(k, e);
    if k < entries.len() - 1 {
        assert(u.drop_last() =~= entries.drop_last().update(k, e));
        assert(u.last() == entries.last());
        if entries.last().0@ != b {
            lemma_balance_update(entries.drop_last(), k, e, b);
        } else {
            assert(b != e.0@);
        }
    } else {
        assert(u.drop_last() =~= entries.drop_last());
    }
}

/// A table of balances keyed by account.
#[derive(Debug)]
pub struct Ledger {
    entries: Vec<(AccountId, i128)>,
}

impl Ledger {
    pub closed spec fn wf(&self) -> bool {
        keys_unique(self.entries@)
    }

    /// The balance of account `a`: zero for an account never written.
    pub closed spec fn spec_balance(&self, a: Seq<u8>) -> int {
        balance_in(self.entries@, a)
    }

    /// An empty table: every balance is zero.
    pub fn new() -> (r: Ledger)
        ensures
            r.wf(),
            forall|a: Seq<u8>| #[trigger] r.spec_balance(a) == 0,
    {
        Ledger { entries: Vec::new() }
    }

    fn position(&self, a: &AccountId) -> (r: Option<usize>)
        ensures
            match r {
                Some(k) => k < self.entries@.len() && self.entries@[k as int].0@ == a@,
                None => forall|i: int| 0 <= i < self.entries@.len() ==> #[trigger] self.entries@[i].0@ != a@,
            },
    {
        let mut i: usize = 0;
        while i < self.entries.len()
            invariant
                i <= self.entries@.len(),
                forall|j: int| 0 <= j < i ==> #[trigger] self.entries@[j].0@ != a@,
            decreases self.entries@.len() - i,
        {
            if self.entries[i].0.same_as(a) {
                return Some(i);
            }
            i = i + 1;
        }
        None
    }

    /// The balance of `a`.
    pub fn balance(&self, a: &AccountId) -> (r: i128)
        requires
            self.wf(),
        ensures
            r == self.spec_balance(a@),
    {
        match self.position(a) {
            Some(k) => {
                proof {
                    lemma_balance_at(self.entries@, k as int);
                }
                self.entries[k].1
            },
            None => {
                proof {
                    lemma_balance_absent(self.entries@, a@);
                }
                0
            },
        }
    }

    /// Sets the balance of `a` to `v`, leaving every other balance as it was.
    pub fn set(&mut self, a: &AccountId, v: i128)
        requires
            old(self).wf(),
        ensures
            final(self).wf(),
            forall|b: Seq<u8>| #[trigger] final(self).spec_balance(b) == if b == a@ {
                v as int
            } else {
                old(self).spec_balance(b)
            },
    {
        match self.position(a) {
            Some(k) => {
                let ghost before = self.entries@;
                let e = (a.clone(), v);
                self.entries.set(k, e);
                proof {
                    assert(self.entries@ == before.update(k as int, e));
                    assert forall|b: Seq<u8>| #[trigger] balance_in(self.entries@, b) == if b == a@ {
                        v as int
                    } else {
                        balance_in(before, b)
                    } by {
                        lemma_balance_update(before, k as int, e, b);
                    }
                }
            },
            None => {
                let ghost before = self.entries@;
                self.entries.push((a.clone(), v));
                proof {
                    assert(self.entries@.drop_last() =~= before);
                }
            },
        }
    }
}

} // verus!
