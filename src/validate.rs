use vstd::prelude::*;

use crate::account::AccountId;
use crate::error::DistributionError;
use crate::recipient::{lemma_sum_amounts_step, sum_amounts, Recipient};

verus! {

/// The largest recipient list the standard policy accepts.
pub const MAX_RECIPIENTS: usize = 100;

/// The configurable parts of validation.
#[derive(Clone, Copy, Debug, PartialEq, Eq, Structural)]
pub struct ValidationPolicy {
    /// The longest recipient list accepted.
    pub max_recipients: usize,
    /// Whether the pool's own account is refused as a recipient.
    pub exclude_pool: bool,
}

impl ValidationPolicy {
    /// At most [`MAX_RECIPIENTS`] recipients, and never the pool itself.
    pub fn standard() -> (r: ValidationPolicy)
        ensures
            r.max_recipients == MAX_RECIPIENTS,
            r.exclude_pool,
    {
        ValidationPolicy { max_recipients: MAX_RECIPIENTS, exclude_pool: true }
    }
}

/// Whether the account of entry `i` already stands at an earlier position.
pub open spec fn appears_before(rs: Seq<Recipient>, i: int) -> bool {
    exists|j: int| 0 <= j < i && #[trigger] rs[j].address@ == rs[i].address@
}

/// What is wrong with entry `i`, given that every earlier entry passed: the
/// checks run in this order.
pub open spec fn entry_fault(
    rs: Seq<Recipient>,
    i: int,
    pool: Seq<u8>,
    policy: ValidationPolicy,
) -> Option<DistributionError> {
    if rs[i].amount <= 0 {
        Some(DistributionError::NonPositiveAmount)
    } else if policy.exclude_pool && rs[i].address@ == pool {
        Some(DistributionError::RecipientIsPool)
    } else if appears_before(rs, i) {
        Some(DistributionError::DuplicateRecipient)
    } else if sum_amounts(rs.take(i + 1)) > i128::MAX {
        Some(DistributionError::TotalOverflow)
    } else {
        None
    }
}

/// Entry `i` is the first one with a fault, and that fault is `e`.
pub open spec fn first_fault(
    rs: Seq<Recipient>,
    i: int,
    pool: Seq<u8>,
    policy: ValidationPolicy,
    e: DistributionError,
) -> bool {
    &&& 0 <= i < rs.len()
    &&& entry_fault(rs, i, pool, policy) == Some(e)
    &&& forall|j: int| 0 <= j < i ==> (#[trigger] entry_fault(rs, j, pool, policy)) is None
}

/// The outcome of validating `rs` against the pool account and the policy:
/// the aggregate amount, or the first violation found.
pub open spec fn validation_accepts(
    rs: Seq<Recipient>,
    pool: Seq<u8>,
    policy: ValidationPolicy,
    r: Result<i128, DistributionError>,
) -> bool {
    if rs.len() == 0 {
        r == Err::<i128, DistributionError>(DistributionError::EmptyRecipients)
    } else if rs.len() > policy.max_recipients {
        r == Err::<i128, DistributionError>(DistributionError::TooManyRecipients)
    } else {
        match r {
            Ok(total) => {
                &&& forall|i: int| 0 <= i < rs.len() ==> (#[trigger] entry_fault(rs, i, pool, policy)) is None
                &&& total == sum_amounts(rs)
            },
            Err(e) => exists|i: int| first_fault(rs, i, pool, policy, e),
        }
    }
}

/// A recipient list that passes validation, stated directly.
pub open spec fn recipients_valid(rs: Seq<Recipient>, pool: Seq<u8>, policy: ValidationPolicy) -> bool {
    &&& 0 < rs.len() <= policy.max_recipients
    &&& forall|i: int| 0 <= i < rs.len() ==> #[trigger] rs[i].amount > 0
    &&& policy.exclude_pool ==> forall|i: int| 0 <= i < rs.len() ==> #[trigger] rs[i].address@ != pool
    &&& forall|i: int, j: int|
        0 <= i < j < rs.len() ==> #[trigger] rs[i].address@ != #[trigger] rs[j].address@
    &&& sum_amounts(rs) <= i128::MAX
}

/// Whether the account of `recipients[i]` stands at an earlier position.
fn seen_before(recipients: &Vec<Recipient>, i: usize) -> (r: bool)
    requires
        i < recipients@.len(),
    ensures
        r == appears_before(recipients@, i as int),
{
    let mut j: usize = 0;
    while j < i
        invariant
            i < recipients@.len(),
            j <= i,
            forall|k: int| 0 <= k < j ==> recipients@[k].address@ != recipients@[i as int].address@,
        decreases i - j,
    {
        if recipients[j].address.same_as(&recipients[i].address) {
            return true;
        }
        j = j + 1;
    }
    false
}

/// Checks the recipient list and returns the aggregate amount to deposit.
///
/// In order: the list is non-empty; it is no longer than the policy allows;
/// then, entry by entry, the amount is positive, the account is not the pool
/// (where the policy says so), the account has not appeared before, and the
/// running sum stays within the signed 128-bit range. The first violation is
/// the error returned.
pub fn validate_recipients(
    recipients: &Vec<Recipient>,
    pool: &AccountId,
    policy: ValidationPolicy,
) -> (r: Result<i128, DistributionError>)
    ensures
        validation_accepts(recipients@, pool@, policy, r),
{
    let n = recipients.len();
    if n == 0 {
        return Err(DistributionError::EmptyRecipients);
    }
    if n > policy.max_recipients {
        return Err(DistributionError::TooManyRecipients);
    }
    let mut total: i128 = 0;
    let mut i: usize = 0;
    while i < n
        invariant
            n == recipients@.len(),
            0 < n <= policy.max_recipients,
            i <= n,
            total == sum_amounts(recipients@.take(i as int)),
            forall|j: int| 0 <= j < i ==> (#[trigger] entry_fault(recipients@, j, pool@, policy)) is None,
        decreases n - i,
    {
        let r = &recipients[i];
        proof {
            lemma_sum_amounts_step(recipients@, i as int);
        }
        if r.amount <= 0 {
            assert(first_fault(recipients@, i as int, pool@, policy, DistributionError::NonPositiveAmount));
            return Err(DistributionError::NonPositiveAmount);
        }
        if policy.exclude_pool && r.address.same_as(pool) {
            assert(first_fault(recipients@, i as int, pool@, policy, DistributionError::RecipientIsPool));
            return Err(DistributionError::RecipientIsPool);
        }
        if seen_before(recipients, i) {
            assert(first_fault(recipients@, i as int, pool@, policy, DistributionError::DuplicateRecipient));
            return Err(DistributionError::DuplicateRecipient);
        }
        match total.checked_add(r.amount) {
            Some(t) => {
                total = t;
            },
            None => {
                assert(first_fault(recipients@, i as int, pool@, policy, DistributionError::TotalOverflow));
                return Err(DistributionError::TotalOverflow);
            },
        }
        i = i + 1;
    }
    assert(recipients@.take(n as int) =~= recipients@);
    Ok(total)
}

} // verus!
