use vstd::prelude::*;

use crate::account::AccountId;

verus! {

/// One beneficiary of a distribution and the underlying amount it contributed.
#[derive(Clone, Debug)]
pub struct Recipient {
    pub address: AccountId,
    pub amount: i128,
}

impl Recipient {
    pub fn new(address: AccountId, amount: i128) -> (r: Recipient)
        ensures
            r.address@ == address@,
            r.amount == amount,
    {
        Recipient { address, amount }
    }
}

/// The exact sum of the amounts of `rs`.
pub open spec fn sum_amounts(rs: Seq<Recipient>) -> int
    decreases rs.len(),
{
    if rs.len() == 0 {
        0
    } else {
        sum_amounts(rs.drop_last()) + rs.last().amount
    }
}

/// Adding one more recipient adds its amount to the sum of a prefix.
pub proof fn lemma_sum_amounts_step(rs: Seq<Recipient>, i: int)
    requires
        0 <= i < rs.len(),
    ensures
        sum_amounts(rs.take(i + 1)) == sum_amounts(rs.take(i)) + rs[i].amount,
{
    assert(rs.take(i + 1).drop_last() =~= rs.take(i));
}

} // verus!
