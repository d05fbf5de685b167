use vstd::prelude::*;

use crate::account::AccountId;
use crate::allocate::{allocation_accepts, is_allocation, remainder_share, share_of, shares_before};
use crate::distributor::Distributor;
use crate::error::DistributionError;
use crate::payout::{credited, debited, Payout};
use crate::recipient::{lemma_sum_amounts_step, sum_amounts, Recipient};
use crate::validate::{appears_before, entry_fault, recipients_valid, validation_accepts, ValidationPolicy};

verus! {

/// The exact sum of the claim units in `out`.
pub open spec fn sum_units(out: Seq<(AccountId, i128)>) -> int
    decreases out.len(),
{
    if out.len() == 0 {
        0
    } else {
        sum_units(out.drop_last()) + out.last().1
    }
}

proof fn lemma_sum_units_prefix(rs: Seq<Recipient>, minted: int, basis: int, out: Seq<(AccountId, i128)>, k: int)
    requires
        is_allocation(rs, minted, basis, out),
        0 <= k <= rs.len() - 1,
    ensures
        sum_units(out.take(k)) == shares_before(rs, k, minted, basis),
    decreases k,
{
    if k > 0 {
        lemma_sum_units_prefix(rs, minted, basis, out, k - 1);
        assert(out.take(k).drop_last() =~= out.take(k - 1));
    }
}

/// Conservation: the claim units handed out sum to exactly the units minted,
/// and the last recipient's share is the minted units less all earlier shares.
pub proof fn conservation(rs: Seq<Recipient>, minted: int, basis: int, out: Vec<(AccountId, i128)>)
    requires
        allocation_accepts(rs, minted, basis, Ok(out)),
    ensures
        sum_units(out@) == minted,
        out@.last().1 == minted - sum_units(out@.take(out@.len() - 1)),
{
    let n = rs.len() as int;
    lemma_sum_units_prefix(rs, minted, basis, out@, n - 1);
    assert(out@.drop_last() =~= out@.take(n - 1));
}

/// A single recipient receives every minted unit, whatever the valuation basis.
pub proof fn single_recipient_takes_all(
    rs: Seq<Recipient>,
    minted: int,
    basis: int,
    r: Result<Vec<(AccountId, i128)>, DistributionError>,
)
    requires
        rs.len() == 1,
        minted >= 0,
        allocation_accepts(rs, minted, basis, r),
    ensures
        r is Ok,
        r->Ok_0@.len() == 1,
        r->Ok_0@[0].0@ == rs[0].address@,
        r->Ok_0@[0].1 == minted,
{
    assert(shares_before(rs, 0, minted, basis) == 0);
    assert(remainder_share(rs, minted, basis) == minted);
    if let Err(e) = r {
        assert(!(exists|i: int| crate::allocate::first_share_fault(rs, i, minted, basis, e)));
    }
}

/// A list in which some account appears twice never passes validation.
pub proof fn duplicate_rejected(
    rs: Seq<Recipient>,
    pool: Seq<u8>,
    policy: ValidationPolicy,
    r: Result<i128, DistributionError>,
    i: int,
    j: int,
)
    requires
        0 <= i < j < rs.len(),
        rs[i].address@ == rs[j].address@,
        validation_accepts(rs, pool, policy, r),
    ensures
        r is Err,
{
    if rs.len() <= policy.max_recipients && r is Ok {
        assert(entry_fault(rs, j, pool, policy) is None);
        assert(appears_before(rs, j));
    }
}

/// A list whose amounts sum beyond the signed 128-bit range never passes
/// validation.
pub proof fn overflow_rejected(
    rs: Seq<Recipient>,
    pool: Seq<u8>,
    policy: ValidationPolicy,
    r: Result<i128, DistributionError>,
)
    requires
        sum_amounts(rs) > i128::MAX,
        validation_accepts(rs, pool, policy, r),
    ensures
        r is Err,
{
    let n = rs.len() as int;
    if 0 < n <= policy.max_recipients && r is Ok {
        assert(entry_fault(rs, n - 1, pool, policy) is None);
        assert(rs.take(n) =~= rs);
    }
}

proof fn lemma_prefix_sum_bounded(rs: Seq<Recipient>, k: int)
    requires
        0 <= k <= rs.len(),
        forall|i: int| 0 <= i < rs.len() ==> #[trigger] rs[i].amount > 0,
    ensures
        sum_amounts(rs.take(k)) <= sum_amounts(rs),
    decreases rs.len() - k,
{
    if k < rs.len() {
        lemma_sum_amounts_step(rs, k);
        lemma_prefix_sum_bounded(rs, k + 1);
    } else {
        assert(rs.take(k) =~= rs);
    }
}

/// Validation succeeds exactly on the lists that are non-empty and within the
/// policy's length, whose amounts are all positive, whose accounts are
/// pairwise distinct and (where the policy says so) never the pool, and whose
/// amounts sum within the signed 128-bit range; the aggregate is that sum.
pub proof fn validation_matches_rules(
    rs: Seq<Recipient>,
    pool: Seq<u8>,
    policy: ValidationPolicy,
    r: Result<i128, DistributionError>,
)
    requires
        validation_accepts(rs, pool, policy, r),
    ensures
        r is Ok <==> recipients_valid(rs, pool, policy),
        r is Ok ==> r->Ok_0 == sum_amounts(rs),
{
    let n = rs.len() as int;
    if 0 < n <= policy.max_recipients {
        if r is Ok {
            assert forall|i: int, j: int| 0 <= i < j < n implies #[trigger] rs[i].address@ != #[trigger] rs[j].address@ by {
                assert(entry_fault(rs, j, pool, policy) is None);
                if rs[i].address@ == rs[j].address@ {
                    assert(appears_before(rs, j));
                }
            }
            assert forall|i: int| 0 <= i < n implies #[trigger] rs[i].amount > 0 by {
                assert(entry_fault(rs, i, pool, policy) is None);
            }
            assert(policy.exclude_pool ==> forall|i: int| 0 <= i < n ==> #[trigger] rs[i].address@ != pool) by {
                assert forall|i: int| 0 <= i < n implies #[trigger] rs[i].address@ != pool || !policy.exclude_pool by {
                    assert(entry_fault(rs, i, pool, policy) is None);
                }
            }
            assert(entry_fault(rs, n - 1, pool, policy) is None);
            assert(rs.take(n) =~= rs);
        } else if recipients_valid(rs, pool, policy) {
            assert forall|i: int| 0 <= i < n implies (#[trigger] entry_fault(rs, i, pool, policy)) is None by {
                lemma_prefix_sum_bounded(rs, i + 1);
                if appears_before(rs, i) {
                    let j = choose|j: int| 0 <= j < i && #[trigger] rs[j].address@ == rs[i].address@;
                    assert(rs[j].address@ != rs[i].address@);
                }
            }
            let e = r->Err_0;
            let i = choose|i: int| crate::validate::first_fault(rs, i, pool, policy, e);
            assert(entry_fault(rs, i, pool, policy) is None);
        }
    }
}

proof fn lemma_custodian_flows(d: Distributor, rs: Seq<Recipient>, alloc: Seq<(AccountId, i128)>, ps: Seq<Payout>, k: int)
    requires
        d.are_payouts(rs, alloc, ps),
        alloc.len() == rs.len(),
        forall|i: int| 0 <= i < rs.len() ==> (#[trigger] alloc[i]).0@ == rs[i].address@,
        forall|i: int| 0 <= i < rs.len() ==> #[trigger] rs[i].address@ != d.custodian@,
        0 <= k <= ps.len(),
    ensures
        debited(ps.take(k), d.custodian@) == sum_units(alloc.take(k)),
        credited(ps.take(k), d.custodian@) == 0,
    decreases k,
{
    if k > 0 {
        lemma_custodian_flows(d, rs, alloc, ps, k - 1);
        assert(ps.take(k).drop_last() =~= ps.take(k - 1));
        assert(alloc.take(k).drop_last() =~= alloc.take(k - 1));
        assert(ps[k - 1].grant.covers(d.pool@, d.custodian@, alloc[k - 1].0@, alloc[k - 1].1 as int));
    }
}

proof fn lemma_recipient_flows(
    d: Distributor,
    rs: Seq<Recipient>,
    alloc: Seq<(AccountId, i128)>,
    ps: Seq<Payout>,
    i: int,
    k: int,
)
    requires
        d.are_payouts(rs, alloc, ps),
        alloc.len() == rs.len(),
        forall|j: int| 0 <= j < rs.len() ==> (#[trigger] alloc[j]).0@ == rs[j].address@,
        forall|j: int, l: int| 0 <= j < l < rs.len() ==> #[trigger] rs[j].address@ != #[trigger] rs[l].address@,
        forall|j: int| 0 <= j < rs.len() ==> #[trigger] rs[j].address@ != d.custodian@,
        0 <= i < rs.len(),
        0 <= k <= ps.len(),
    ensures
        credited(ps.take(k), rs[i].address@) == if i < k {
            alloc[i].1 as int
        } else {
            0
        },
        debited(ps.take(k), rs[i].address@) == 0,
    decreases k,
{
    if k > 0 {
        lemma_recipient_flows(d, rs, alloc, ps, i, k - 1);
        assert(ps.take(k).drop_last() =~= ps.take(k - 1));
        assert(ps[k - 1].grant.covers(d.pool@, d.custodian@, alloc[k - 1].0@, alloc[k - 1].1 as int));
        if k - 1 != i {
            assert(rs[k - 1].address@ != rs[i].address@);
        }
    }
}

/// Custody clears: where the recipients' accounts are pairwise distinct and
/// none is the distributing contract's own, the payouts of a settlement move
/// exactly the minted units out of the distributing contract and nothing into
/// it, and move into each recipient exactly its share and nothing out of it.
pub proof fn payouts_clear_custody(
    d: Distributor,
    rs: Seq<Recipient>,
    minted: int,
    basis: int,
    alloc: Vec<(AccountId, i128)>,
    ps: Seq<Payout>,
)
    requires
        allocation_accepts(rs, minted, basis, Ok(alloc)),
        d.are_payouts(rs, alloc@, ps),
        forall|j: int, l: int| 0 <= j < l < rs.len() ==> #[trigger] rs[j].address@ != #[trigger] rs[l].address@,
        forall|j: int| 0 <= j < rs.len() ==> #[trigger] rs[j].address@ != d.custodian@,
    ensures
        debited(ps, d.custodian@) == minted,
        credited(ps, d.custodian@) == 0,
        forall|i: int|
            0 <= i < rs.len() ==> credited(ps, #[trigger] rs[i].address@) == alloc@[i].1 && debited(ps, rs[i].address@)
                == 0,
{
    let n = rs.len() as int;
    conservation(rs, minted, basis, alloc);
    lemma_custodian_flows(d, rs, alloc@, ps, n);
    assert(ps.take(n) =~= ps);
    assert(alloc@.take(n) =~= alloc@);
    assert forall|i: int| 0 <= i < n implies credited(ps, #[trigger] rs[i].address@) == alloc@[i].1 && debited(ps, rs[i].address@) == 0 by {
        lemma_recipient_flows(d, rs, alloc@, ps, i, n);
    }
}

} // verus!
