use vstd::prelude::*;

use crate::account::AccountId;
use crate::allocate::{allocate, allocation_accepts};
use crate::error::DistributionError;
use crate::payout::{DepositRequest, Distributed, Payout, TransferGrant};
use crate::recipient::Recipient;
use crate::validate::{validate_recipients, validation_accepts, ValidationPolicy};

verus! {

/// The distributing contract's view of one distribution: its own account
/// (which holds funds and claim units in passing), the underlying asset, the
/// pool, and the validation policy.
///
/// A distribution runs in four steps, all inside one atomic invocation:
/// [`Distributor::validate`] before any outside call; the deposit that
/// [`Distributor::deposit_request`] describes; [`Distributor::settle`] on the
/// minted units and the pool's valuation of them; then, per payout in order,
/// the grant, the transfer it covers, and the record.
#[derive(Clone, Debug)]
pub struct Distributor {
    pub custodian: AccountId,
    pub asset: AccountId,
    pub pool: AccountId,
    pub policy: ValidationPolicy,
}

/// The outcome of apportioning the minted claim units.
#[derive(Clone, Debug)]
pub struct Settlement {
    /// Each recipient with its claim units, in input order.
    pub allocations: Vec<(AccountId, i128)>,
    /// Each recipient's grant and record, in input order.
    pub payouts: Vec<Payout>,
}

impl Distributor {
    pub fn new(custodian: AccountId, asset: AccountId, pool: AccountId, policy: ValidationPolicy) -> (r:
        Distributor)
        ensures
            r.custodian@ == custodian@,
            r.asset@ == asset@,
            r.pool@ == pool@,
            r.policy == policy,
    {
        Distributor { custodian, asset, pool, policy }
    }

    /// Validates the recipient list and returns the aggregate amount.
    pub fn validate(&self, recipients: &Vec<Recipient>) -> (r: Result<i128, DistributionError>)
        ensures
            validation_accepts(recipients@, self.pool@, self.policy, r),
    {
        validate_recipients(recipients, &self.pool, self.policy)
    }

    /// `req` deposits `total` with zero slippage tolerance, invested at once,
    /// with the distributing contract as depositor of record, and grants the
    /// pool's pull of exactly `total` of the asset from it.
    pub open spec fn is_deposit_request(self, total: int, req: DepositRequest) -> bool {
        &&& req.amount_desired == total
        &&& req.amount_min == total
        &&& req.from@ == self.custodian@
        &&& req.invest
        &&& req.grant.covers(self.asset@, self.custodian@, self.pool@, total)
    }

    /// What to ask of the pool for a validated aggregate `total`.
    pub fn deposit_request(&self, total: i128) -> (r: DepositRequest)
        ensures
            self.is_deposit_request(total as int, r),
    {
        DepositRequest {
            amount_desired: total,
            amount_min: total,
            from: self.custodian.clone(),
            invest: true,
            grant: TransferGrant::new(&self.asset, &self.custodian, &self.pool, total),
        }
    }

    /// `ps` holds, for each allocation in order, the grant for the transfer of
    /// its units from the distributing contract and the matching record.
    pub open spec fn are_payouts(
        self,
        rs: Seq<Recipient>,
        alloc: Seq<(AccountId, i128)>,
        ps: Seq<Payout>,
    ) -> bool {
        &&& ps.len() == alloc.len()
        &&& forall|i: int|
            0 <= i < ps.len() ==> (#[trigger] ps[i]).grant.covers(
                self.pool@,
                self.custodian@,
                alloc[i].0@,
                alloc[i].1 as int,
            )
        &&& forall|i: int|
            0 <= i < ps.len() ==> (#[trigger] ps[i]).record.records(
                self.asset@,
                self.pool@,
                alloc[i].0@,
                rs[i].amount as int,
                alloc[i].1 as int,
            )
    }

    /// The grants and records for the allocations of `recipients`.
    pub fn payouts(&self, recipients: &Vec<Recipient>, allocations: &Vec<(AccountId, i128)>) -> (r: Vec<
        Payout,
    >)
        requires
            recipients@.len() == allocations@.len(),
        ensures
            self.are_payouts(recipients@, allocations@, r@),
    {
        let n = allocations.len();
        let mut ps: Vec<Payout> = Vec::new();
        let mut i: usize = 0;
        while i < n
            invariant
                n == allocations@.len(),
                n == recipients@.len(),
                i <= n,
                ps@.len() == i,
                forall|j: int|
                    0 <= j < i ==> (#[trigger] ps@[j]).grant.covers(
                        self.pool@,
                        self.custodian@,
                        allocations@[j].0@,
                        allocations@[j].1 as int,
                    ),
                forall|j: int|
                    0 <= j < i ==> (#[trigger] ps@[j]).record.records(
                        self.asset@,
                        self.pool@,
                        allocations@[j].0@,
                        recipients@[j].amount as int,
                        allocations@[j].1 as int,
                    ),
            decreases n - i,
        {
            let to = &allocations[i].0;
            let units = allocations[i].1;
            let grant = TransferGrant::new(&self.pool, &self.custodian, to, units);
            let record = Distributed {
                asset: self.asset.clone(),
                vault: self.pool.clone(),
                user: to.clone(),
                underlying_amount: recipients[i].amount,
                df_tokens: units,
            };
            ps.push(Payout { grant, record });
            i = i + 1;
        }
        ps
    }

    /// Apportions the `minted` claim units over the recipients against the
    /// valuation `basis`, and lays out the payouts.
    ///
    /// The basis the contract passes is the pool's own post-deposit valuation
    /// of the minted units, not the raw aggregate: the two differ once the
    /// pool's exchange rate has drifted from one to one.
    pub fn settle(&self, recipients: &Vec<Recipient>, minted: i128, basis: i128) -> (r: Result<
        Settlement,
        DistributionError,
    >)
        requires
            forall|i: int| 0 <= i < recipients@.len() ==> #[trigger] recipients@[i].amount > 0,
        ensures
            match r {
                Ok(s) => allocation_accepts(recipients@, minted as int, basis as int, Ok(s.allocations))
                    && self.are_payouts(recipients@, s.allocations@, s.payouts@),
                Err(e) => allocation_accepts(recipients@, minted as int, basis as int, Err(e)),
            },
    {
        match allocate(recipients, minted, basis) {
            Ok(allocations) => {
                let payouts = self.payouts(recipients, &allocations);
                Ok(Settlement { allocations, payouts })
            },
            Err(e) => Err(e),
        }
    }
}

} // verus!
