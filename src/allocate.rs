use vstd::prelude::*;

use crate::account::AccountId;
use crate::error::DistributionError;
use crate::recipient::Recipient;

verus! {

/// floor(amount × minted / basis), for a positive basis.
pub open spec fn pro_rata_share(amount: int, minted: int, basis: int) -> int {
    (amount * minted) / basis
}

/// The pro-rata share of entry `i`.
pub open spec fn share_of(rs: Seq<Recipient>, i: int, minted: int, basis: int) -> int {
    pro_rata_share(rs[i].amount as int, minted, basis)
}

/// The sum of the pro-rata shares of the first `k` entries.
pub open spec fn shares_before(rs: Seq<Recipient>, k: int, minted: int, basis: int) -> int
    decreases k,
{
    if k <= 0 {
        0
    } else {
        shares_before(rs, k - 1, minted, basis) + share_of(rs, k - 1, minted, basis)
    }
}

/// Whether `x` lies in the signed 128-bit range.
pub open spec fn fits_i128(x: int) -> bool {
    i128::MIN <= x <= i128::MAX
}

/// What goes wrong at non-last entry `i`, given that every earlier one passed:
/// its share cannot be computed, or the running sum of shares leaves range.
pub open spec fn share_fault(rs: Seq<Recipient>, i: int, minted: int, basis: int) -> Option<
    DistributionError,
> {
    if !fits_i128(rs[i].amount * minted) {
        Some(DistributionError::ShareOverflow)
    } else if !fits_i128(shares_before(rs, i + 1, minted, basis)) {
        Some(DistributionError::DistributedOverflow)
    } else {
        None
    }
}

/// Entry `i` is the first non-last entry with a fault, and that fault is `e`.
pub open spec fn first_share_fault(
    rs: Seq<Recipient>,
    i: int,
    minted: int,
    basis: int,
    e: DistributionError,
) -> bool {
    &&& 0 <= i < rs.len() - 1
    &&& share_fault(rs, i, minted, basis) == Some(e)
    &&& forall|j: int| 0 <= j < i ==> (#[trigger] share_fault(rs, j, minted, basis)) is None
}

/// What the last entry receives: the minted units less every earlier share.
pub open spec fn remainder_share(rs: Seq<Recipient>, minted: int, basis: int) -> int {
    minted - shares_before(rs, rs.len() - 1, minted, basis)
}

/// `out` pairs each account of `rs` with its share: the pro-rata share for
/// every entry but the last, the remainder for the last.
pub open spec fn is_allocation(
    rs: Seq<Recipient>,
    minted: int,
    basis: int,
    out: Seq<(AccountId, i128)>,
) -> bool {
    &&& out.len() == rs.len()
    &&& forall|i: int| 0 <= i < rs.len() ==> (#[trigger] out[i]).0@ == rs[i].address@
    &&& forall|i: int| 0 <= i < rs.len() - 1 ==> (#[trigger] out[i]).1 == share_of(rs, i, minted, basis)
    &&& out[rs.len() - 1].1 == remainder_share(rs, minted, basis)
}

/// The outcome of apportioning `minted` units over `rs` against `basis`.
pub open spec fn allocation_accepts(
    rs: Seq<Recipient>,
    minted: int,
    basis: int,
    r: Result<Vec<(AccountId, i128)>, DistributionError>,
) -> bool {
    if rs.len() == 0 {
        r == Err::<Vec<(AccountId, i128)>, DistributionError>(DistributionError::EmptyRecipients)
    } else if minted < 0 {
        r == Err::<Vec<(AccountId, i128)>, DistributionError>(DistributionError::InvalidMinted)
    } else if rs.len() > 1 && basis <= 0 {
        r == Err::<Vec<(AccountId, i128)>, DistributionError>(DistributionError::InvalidBasis)
    } else {
        let clean = forall|i: int| 0 <= i < rs.len() - 1 ==> (#[trigger] share_fault(rs, i, minted, basis)) is None;
        match r {
            Ok(out) => clean && remainder_share(rs, minted, basis) >= 0 && is_allocation(rs, minted, basis, out@),
            Err(e) => (exists|i: int| first_share_fault(rs, i, minted, basis, e)) || (clean
                && remainder_share(rs, minted, basis) < 0 && e == DistributionError::RemainderUnderflow),
        }
    }
}

/// Relies on `FixedPoint::fixed_div_floor` of soroban-fixed-point-math for
/// `i128`: floor(x × denominator / y), or `None` when the product
/// x × denominator leaves the `i128` range or `y` is zero.
#[verifier::external_body]
fn fixed_div_floor(x: i128, y: i128, denominator: i128) -> (r: Option<i128>)
    ensures
        y > 0 && fits_i128(x * denominator) ==> r == Some(((x * denominator) / (y as int)) as i128),
        y > 0 && !fits_i128(x * denominator) ==> r is None,
        y == 0 ==> r is None,
{
    soroban_fixed_point_math::FixedPoint::fixed_div_floor(x, y, denominator)
}

proof fn lemma_share_bounds(amount: int, minted: int, basis: int)
    requires
        amount > 0,
        minted >= 0,
        basis > 0,
        fits_i128(amount * minted),
    ensures
        0 <= pro_rata_share(amount, minted, basis) <= amount * minted,
{
    assert(0 <= amount * minted) by (nonlinear_arith)
        requires
            amount > 0,
            minted >= 0,
    ;
    assert((amount * minted) / basis <= amount * minted) by (nonlinear_arith)
        requires
            amount * minted >= 0,
            basis > 0,
    ;
    assert(0 <= (amount * minted) / basis) by (nonlinear_arith)
        requires
            amount * minted >= 0,
            basis > 0,
    ;
}

/// Apportions `minted` claim units over `recipients` against the valuation
/// `basis`.
///
/// Every recipient but the positionally last one receives
/// floor(amount × minted / basis); the last receives `minted` less the shares
/// already assigned, so the shares always sum to `minted`. A single recipient
/// receives all of `minted`, whatever the basis. Fails when `minted` is
/// negative, when `basis` is not positive and a division is needed, when a
/// product amount × minted or the running sum of shares leaves the signed
/// 128-bit range, or when the earlier shares exceed `minted`.
pub fn allocate(recipients: &Vec<Recipient>, minted: i128, basis: i128) -> (r: Result<
    Vec<(AccountId, i128)>,
    DistributionError,
>)
    requires
        forall|i: int| 0 <= i < recipients@.len() ==> #[trigger] recipients@[i].amount > 0,
    ensures
        allocation_accepts(recipients@, minted as int, basis as int, r),
{
    let n = recipients.len();
    if n == 0 {
        return Err(DistributionError::EmptyRecipients);
    }
    if minted < 0 {
        return Err(DistributionError::InvalidMinted);
    }
    if n > 1 && basis <= 0 {
        return Err(DistributionError::InvalidBasis);
    }
    let ghost rs = recipients@;
    let mut out: Vec<(AccountId, i128)> = Vec::new();
    let mut distributed: i128 = 0;
    let mut i: usize = 0;
    while i < n - 1
        invariant
            rs == recipients@,
            n == rs.len(),
            n > 0,
            minted >= 0,
            n > 1 ==> basis > 0,
            forall|k: int| 0 <= k < n ==> #[trigger] rs[k].amount > 0,
            i <= n - 1,
            distributed == shares_before(rs, i as int, minted as int, basis as int),
            distributed >= 0,
            forall|j: int| 0 <= j < i ==> (#[trigger] share_fault(rs, j, minted as int, basis as int)) is None,
            out@.len() == i,
            forall|j: int| 0 <= j < i ==> (#[trigger] out@[j]).0@ == rs[j].address@,
            forall|j: int| 0 <= j < i ==> (#[trigger] out@[j]).1 == share_of(rs, j, minted as int, basis as int),
        decreases n - 1 - i,
    {
        let r = &recipients[i];
        let share = match fixed_div_floor(r.amount, basis, minted) {
            Some(s) => s,
            None => {
                assert(first_share_fault(rs, i as int, minted as int, basis as int, DistributionError::ShareOverflow));
                return Err(DistributionError::ShareOverflow);
            },
        };
        proof {
            lemma_share_bounds(r.amount as int, minted as int, basis as int);
        }
        assert(shares_before(rs, i + 1, minted as int, basis as int) == distributed + share);
        distributed = match distributed.checked_add(share) {
            Some(d) => d,
            None => {
                assert(first_share_fault(rs, i as int, minted as int, basis as int, DistributionError::DistributedOverflow));
                return Err(DistributionError::DistributedOverflow);
            },
        };
        out.push((r.address.clone(), share));
        i = i + 1;
    }
    let last = minted - distributed;
    if last < 0 {
        return Err(DistributionError::RemainderUnderflow);
    }
    out.push((recipients[n - 1].address.clone(), last));
    Ok(out)
}

} // verus!
