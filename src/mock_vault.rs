use vstd::prelude::*;

use crate::account::AccountId;
use crate::ledger::Ledger;
use crate::payout::{credited, debited, Payout};

verus! {

/// The exact sum of `s`.
pub open spec fn sum_i128(s: Seq<i128>) -> int
    decreases s.len(),
{
    if s.len() == 0 {
        0
    } else {
        sum_i128(s.drop_last()) + s.last()
    }
}

proof fn lemma_sum_i128_step(s: Seq<i128>, k: int)
    requires
        0 <= k < s.len(),
    ensures
        sum_i128(s.take(k + 1)) == sum_i128(s.take(k)) + s[k],
{
    assert(s.take(k + 1).drop_last() =~= s.take(k));
}

proof fn lemma_sum_i128_lower(s: Seq<i128>, k: int)
    requires
        0 <= k <= s.len(),
        forall|i: int| 0 <= i < s.len() ==> #[trigger] s[i] >= 0,
    ensures
        0 <= sum_i128(s.take(k)),
    decreases k,
{
    if k > 0 {
        lemma_sum_i128_lower(s, k - 1);
        lemma_sum_i128_step(s, k - 1);
    } else {
        assert(s.take(0) =~= Seq::<i128>::empty());
    }
}

proof fn lemma_sum_i128_upper(s: Seq<i128>, k: int)
    requires
        0 <= k <= s.len(),
        forall|i: int| 0 <= i < s.len() ==> #[trigger] s[i] >= 0,
    ensures
        sum_i128(s.take(k)) <= sum_i128(s),
    decreases s.len() - k,
{
    if k < s.len() {
        lemma_sum_i128_step(s, k);
        lemma_sum_i128_upper(s, k + 1);
    } else {
        assert(s.take(k) =~= s);
    }
}

proof fn lemma_sum_i128_prefix(s: Seq<i128>, k: int)
    requires
        0 <= k <= s.len(),
        forall|i: int| 0 <= i < s.len() ==> #[trigger] s[i] >= 0,
    ensures
        0 <= sum_i128(s.take(k)) <= sum_i128(s),
        k < s.len() ==> sum_i128(s.take(k + 1)) == sum_i128(s.take(k)) + s[k],
{
    lemma_sum_i128_lower(s, k);
    lemma_sum_i128_upper(s, k);
    if k < s.len() {
        lemma_sum_i128_step(s, k);
    }
}

proof fn lemma_flows_step(ps: Seq<Payout>, k: int, a: Seq<u8>)
    requires
        0 <= k < ps.len(),
    ensures
        credited(ps.take(k + 1), a) == credited(ps.take(k), a) + if ps[k].grant.to@ == a {
            ps[k].grant.amount as int
        } else {
            0
        },
        debited(ps.take(k + 1), a) == debited(ps.take(k), a) + if ps[k].grant.from@ == a {
            ps[k].grant.amount as int
        } else {
            0
        },
{
    assert(ps.take(k + 1).drop_last() =~= ps.take(k));
}

proof fn lemma_flows_bounded(ps: Seq<Payout>, k: int, a: Seq<u8>)
    requires
        0 <= k <= ps.len(),
        forall|i: int| 0 <= i < ps.len() ==> #[trigger] ps[i].grant.amount >= 0,
    ensures
        0 <= credited(ps.take(k), a) <= credited(ps, a),
        0 <= debited(ps.take(k), a) <= debited(ps, a),
    decreases ps.len() - k,
{
    if k < ps.len() {
        lemma_flows_step(ps, k, a);
        lemma_flows_bounded(ps, k + 1, a);
        assert forall|i: int| 0 <= i < ps.take(k).len() implies #[trigger] ps.take(k)[i].grant.amount >= 0 by {
            assert(ps.take(k)[i] == ps[i]);
        }
        lemma_flows_nonneg(ps.take(k), a);
    } else {
        assert(ps.take(k) =~= ps);
        lemma_flows_nonneg(ps, a);
    }
}

proof fn lemma_flows_nonneg(ps: Seq<Payout>, a: Seq<u8>)
    requires
        forall|i: int| 0 <= i < ps.len() ==> #[trigger] ps[i].grant.amount >= 0,
    ensures
        0 <= credited(ps, a),
        0 <= debited(ps, a),
    decreases ps.len(),
{
    if ps.len() > 0 {
        assert(ps.last() == ps[ps.len() - 1]);
        lemma_flows_nonneg(ps.drop_last(), a);
    }
}

/// An in-memory single-asset pool whose claim units are also a transferable
/// token: it mints units for deposits (one per underlying unit, or a preset
/// count), values units pro-rata against what it holds, and keeps a balance
/// per account. It lets a distribution run end to end without a live pool.
#[derive(Debug)]
pub struct MockVault {
    balances: Ledger,
    preset: Option<i128>,
    total_underlying: i128,
    total_supply: i128,
}

impl MockVault {
    pub closed spec fn wf(&self) -> bool {
        &&& self.balances.wf()
        &&& self.total_underlying >= 0
        &&& self.total_supply >= 0
        &&& self.preset matches Some(p) ==> p >= 0
    }

    /// The claim units held by account `a`.
    pub closed spec fn spec_balance(&self, a: Seq<u8>) -> int {
        self.balances.spec_balance(a)
    }

    /// The count that the next deposit mints, if one was preset.
    pub closed spec fn spec_preset(&self) -> Option<i128> {
        self.preset
    }

    /// The underlying amount deposited so far.
    pub closed spec fn spec_underlying(&self) -> int {
        self.total_underlying as int
    }

    /// The claim units minted so far.
    pub closed spec fn spec_supply(&self) -> int {
        self.total_supply as int
    }

    /// A pool with nothing deposited, no balances and no preset.
    pub fn new() -> (r: MockVault)
        ensures
            r.wf(),
            r.spec_preset() is None,
            r.spec_underlying() == 0,
            r.spec_supply() == 0,
            forall|a: Seq<u8>| #[trigger] r.spec_balance(a) == 0,
    {
        MockVault { balances: Ledger::new(), preset: None, total_underlying: 0, total_supply: 0 }
    }

    /// Makes every later deposit mint `amount` units, whatever was deposited.
    pub fn preset_df_mint(&mut self, amount: i128)
        requires
            old(self).wf(),
            amount >= 0,
        ensures
            final(self).wf(),
            final(self).spec_preset() == Some(amount),
            final(self).spec_underlying() == old(self).spec_underlying(),
            final(self).spec_supply() == old(self).spec_supply(),
            forall|a: Seq<u8>| #[trigger] final(self).spec_balance(a) == old(self).spec_balance(a),
    {
        self.preset = Some(amount);
    }

    /// The units a deposit of `total` mints: the preset count, or `total`.
    pub open spec fn minted_for(&self, total: int) -> int {
        match self.spec_preset() {
            Some(p) => p as int,
            None => total,
        }
    }

    /// Accepts the whole of `amounts_desired` and mints claim units to
    /// `from`; returns what was accepted and the units minted.
    pub fn deposit(&mut self, amounts_desired: Vec<i128>, amounts_min: Vec<i128>, from: &AccountId, invest: bool) -> (r: (
        Vec<i128>,
        i128,
    ))
        requires
            old(self).wf(),
            forall|i: int| 0 <= i < amounts_desired@.len() ==> #[trigger] amounts_desired@[i] >= 0,
            old(self).spec_underlying() + sum_i128(amounts_desired@) <= i128::MAX,
            old(self).spec_supply() + old(self).minted_for(sum_i128(amounts_desired@)) <= i128::MAX,
            old(self).spec_balance(from@) + old(self).minted_for(sum_i128(amounts_desired@)) <= i128::MAX,
        ensures
            final(self).wf(),
            r.0@ == amounts_desired@,
            r.1 == old(self).minted_for(sum_i128(amounts_desired@)),
            final(self).spec_preset() == old(self).spec_preset(),
            final(self).spec_underlying() == old(self).spec_underlying() + sum_i128(amounts_desired@),
            final(self).spec_supply() == old(self).spec_supply() + r.1,
            forall|a: Seq<u8>| #[trigger] final(self).spec_balance(a) == if a == from@ {
                old(self).spec_balance(a) + r.1
            } else {
                old(self).spec_balance(a)
            },
    {
        let ghost s = amounts_desired@;
        proof {
            lemma_sum_i128_prefix(s, 0);
        }
        let mut total: i128 = 0;
        let mut i: usize = 0;
        while i < amounts_desired.len()
            invariant
                s == amounts_desired@,
                i <= s.len(),
                forall|k: int| 0 <= k < s.len() ==> #[trigger] s[k] >= 0,
                sum_i128(s) <= i128::MAX,
                total == sum_i128(s.take(i as int)),
            decreases s.len() - i,
        {
            proof {
                lemma_sum_i128_prefix(s, i as int);
                lemma_sum_i128_prefix(s, i as int + 1);
            }
            total = total + amounts_desired[i];
            i = i + 1;
        }
        assert(s.take(s.len() as int) =~= s);
        let minted = match self.preset {
            Some(p) => p,
            None => total,
        };
        self.total_underlying = self.total_underlying + total;
        self.total_supply = self.total_supply + minted;
        let cur = self.balances.balance(from);
        self.balances.set(from, cur + minted);
        (amounts_desired, minted)
    }

    /// The underlying value of `vault_shares` units: their pro-rata part of
    /// everything deposited, rounded down, or zero while nothing is minted.
    pub fn get_asset_amounts_per_shares(&self, vault_shares: i128) -> (r: Vec<i128>)
        requires
            self.wf(),
            vault_shares >= 0,
            vault_shares * self.spec_underlying() <= i128::MAX,
        ensures
            r@.len() == 1,
            r@[0] == if self.spec_supply() == 0 {
                0
            } else {
                vault_shares * self.spec_underlying() / self.spec_supply()
            },
    {
        let amount: i128 = if self.total_supply == 0 {
            0
        } else {
            proof {
                vstd::arithmetic::mul::lemma_mul_nonnegative(vault_shares as int, self.total_underlying as int);
            }
            let product: i128 = vault_shares * self.total_underlying;
            product / self.total_supply
        };
        let mut r: Vec<i128> = Vec::new();
        r.push(amount);
        r
    }

    /// Moves `amount` claim units from `from` to `to`.
    pub fn transfer(&mut self, from: &AccountId, to: &AccountId, amount: i128)
        requires
            old(self).wf(),
            i128::MIN <= old(self).spec_balance(from@) - amount <= i128::MAX,
            i128::MIN <= old(self).spec_balance(to@) + amount <= i128::MAX,
        ensures
            final(self).wf(),
            final(self).spec_preset() == old(self).spec_preset(),
            final(self).spec_underlying() == old(self).spec_underlying(),
            final(self).spec_supply() == old(self).spec_supply(),
            forall|a: Seq<u8>| #[trigger] final(self).spec_balance(a) == if from@ == to@ {
                old(self).spec_balance(a)
            } else if a == from@ {
                old(self).spec_balance(a) - amount
            } else if a == to@ {
                old(self).spec_balance(a) + amount
            } else {
                old(self).spec_balance(a)
            },
    {
        if from.same_as(to) {
            return;
        }
        let f = self.balances.balance(from);
        self.balances.set(from, f - amount);
        let t = self.balances.balance(to);
        self.balances.set(to, t + amount);
    }

    /// The claim units held by `address`.
    pub fn balance(&self, address: &AccountId) -> (r: i128)
        requires
            self.wf(),
        ensures
            r == self.spec_balance(address@),
    {
        self.balances.balance(address)
    }

    /// Carries out, in order, the claim-unit transfer that each payout's
    /// grant covers. Every account ends with its balance plus what the grants
    /// move into it, less what they move out of it.
    pub fn apply_payouts(&mut self, payouts: &Vec<Payout>)
        requires
            old(self).wf(),
            forall|i: int| 0 <= i < payouts@.len() ==> #[trigger] payouts@[i].grant.amount >= 0,
            forall|a: Seq<u8>| old(self).spec_balance(a) + #[trigger] credited(payouts@, a) <= i128::MAX,
            forall|a: Seq<u8>| old(self).spec_balance(a) - #[trigger] debited(payouts@, a) >= i128::MIN,
        ensures
            final(self).wf(),
            final(self).spec_preset() == old(self).spec_preset(),
            final(self).spec_underlying() == old(self).spec_underlying(),
            final(self).spec_supply() == old(self).spec_supply(),
            forall|a: Seq<u8>| #[trigger] final(self).spec_balance(a) == old(self).spec_balance(a)
                + credited(payouts@, a) - debited(payouts@, a),
    {
        let ghost ps = payouts@;
        let ghost start = *self;
        let mut k: usize = 0;
        while k < payouts.len()
            invariant
                ps == payouts@,
                k <= ps.len(),
                self.wf(),
                self.spec_preset() == start.spec_preset(),
                self.spec_underlying() == start.spec_underlying(),
                self.spec_supply() == start.spec_supply(),
                forall|i: int| 0 <= i < ps.len() ==> #[trigger] ps[i].grant.amount >= 0,
                forall|a: Seq<u8>| start.spec_balance(a) + #[trigger] credited(ps, a) <= i128::MAX,
                forall|a: Seq<u8>| start.spec_balance(a) - #[trigger] debited(ps, a) >= i128::MIN,
                forall|a: Seq<u8>| #[trigger] self.spec_balance(a) == start.spec_balance(a)
                    + credited(ps.take(k as int), a) - debited(ps.take(k as int), a),
            decreases ps.len() - k,
        {
            let g = &payouts[k].grant;
            proof {
                assert forall|a: Seq<u8>| #![auto]
                    credited(ps.take(k + 1), a) == credited(ps.take(k as int), a) + if ps[k as int].grant.to@ == a {
                        ps[k as int].grant.amount as int
                    } else {
                        0
                    } && debited(ps.take(k + 1), a) == debited(ps.take(k as int), a) + if ps[k as int].grant.from@ == a {
                        ps[k as int].grant.amount as int
                    } else {
                        0
                    } by {
                    lemma_flows_step(ps, k as int, a);
                }
                lemma_flows_bounded(ps, k + 1, g.from@);
                lemma_flows_bounded(ps, k as int, g.from@);
                lemma_flows_bounded(ps, k + 1, g.to@);
                lemma_flows_bounded(ps, k as int, g.to@);
                assert(start.spec_balance(g.from@) + credited(ps, g.from@) <= i128::MAX);
                assert(start.spec_balance(g.from@) - debited(ps, g.from@) >= i128::MIN);
                assert(start.spec_balance(g.to@) + credited(ps, g.to@) <= i128::MAX);
                assert(start.spec_balance(g.to@) - debited(ps, g.to@) >= i128::MIN);
            }
            self.transfer(&g.from, &g.to, g.amount);
            k = k + 1;
        }
        assert(ps.take(ps.len() as int) =~= ps);
    }
}

} // verus!
