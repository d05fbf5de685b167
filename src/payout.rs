use vstd::prelude::*;

use crate::account::AccountId;

verus! {

/// A single-use delegated authorization that the distributing contract issues
/// for exactly one downstream call: `transfer(from, to, amount)` on the token
/// contract `contract`, with no nested grants.
#[derive(Clone, Debug)]
pub struct TransferGrant {
    pub contract: AccountId,
    pub from: AccountId,
    pub to: AccountId,
    pub amount: i128,
}

/// The name of the one capability a [`TransferGrant`] covers.
pub const TRANSFER_FN: &'static str = "transfer";

impl TransferGrant {
    /// `self` covers `transfer(from, to, amount)` on `contract`, and nothing else.
    pub open spec fn covers(self, contract: Seq<u8>, from: Seq<u8>, to: Seq<u8>, amount: int) -> bool {
        &&& self.contract@ == contract
        &&& self.from@ == from
        &&& self.to@ == to
        &&& self.amount == amount
    }

    /// The grant for `transfer(from, to, amount)` on `contract`.
    pub fn new(contract: &AccountId, from: &AccountId, to: &AccountId, amount: i128) -> (r: TransferGrant)
        ensures
            r.covers(contract@, from@, to@, amount as int),
    {
        TransferGrant { contract: contract.clone(), from: from.clone(), to: to.clone(), amount }
    }

    /// The name of the function the grant lets through.
    pub fn function_name(&self) -> &'static str {
        TRANSFER_FN
    }
}

/// The record published once a recipient's claim units have been transferred.
#[derive(Clone, Debug)]
pub struct Distributed {
    /// The underlying asset that was deposited.
    pub asset: AccountId,
    /// The pool that minted the claim units.
    pub vault: AccountId,
    /// The recipient.
    pub user: AccountId,
    /// What the recipient contributed, in the underlying asset.
    pub underlying_amount: i128,
    /// The claim units the recipient received.
    pub df_tokens: i128,
}

impl Distributed {
    /// `self` records `units` claim units of `pool` paid to `user` for `amount` of `asset`.
    pub open spec fn records(
        self,
        asset: Seq<u8>,
        pool: Seq<u8>,
        user: Seq<u8>,
        amount: int,
        units: int,
    ) -> bool {
        &&& self.asset@ == asset
        &&& self.vault@ == pool
        &&& self.user@ == user
        &&& self.underlying_amount == amount
        &&& self.df_tokens == units
    }
}

/// One recipient's part of a distribution: the grant that lets the transfer of
/// its claim units through, and the record published after it.
#[derive(Clone, Debug)]
pub struct Payout {
    pub grant: TransferGrant,
    pub record: Distributed,
}

/// The units that the grants of `ps` move into account `a`.
pub open spec fn credited(ps: Seq<Payout>, a: Seq<u8>) -> int
    decreases ps.len(),
{
    if ps.len() == 0 {
        0
    } else {
        credited(ps.drop_last(), a) + if ps.last().grant.to@ == a {
            ps.last().grant.amount as int
        } else {
            0
        }
    }
}

/// The units that the grants of `ps` move out of account `a`.
pub open spec fn debited(ps: Seq<Payout>, a: Seq<u8>) -> int
    decreases ps.len(),
{
    if ps.len() == 0 {
        0
    } else {
        debited(ps.drop_last(), a) + if ps.last().grant.from@ == a {
            ps.last().grant.amount as int
        } else {
            0
        }
    }
}

/// What the distributing contract asks of the pool's deposit capability.
#[derive(Clone, Debug)]
pub struct DepositRequest {
    /// The amount offered.
    pub amount_desired: i128,
    /// The least amount the pool must accept.
    pub amount_min: i128,
    /// The depositor of record, who receives the minted claim units.
    pub from: AccountId,
    /// Whether the pool invests the deposit at once.
    pub invest: bool,
    /// The grant for the pool's pull of the underlying asset from the depositor.
    pub grant: TransferGrant,
}

} // verus!
