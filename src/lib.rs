//! Pooled-deposit distribution: validation of a recipient list, pro-rata
//! apportioning of the claim units that a pool mints for the aggregate deposit,
//! and the per-recipient transfer plan (delegated grants and distribution
//! records) that carries the shares out.
//!
//! - [`account`], [`recipient`], [`error`]: the values a distribution works on.
//! - [`validate`]: the checks a recipient list passes before any outside call.
//! - [`allocate`]: floor-rounded pro-rata shares, dust to the last recipient.
//! - [`payout`], [`distributor`]: grants, records and the deposit request.
//! - [`ledger`], [`mock_vault`]: an in-memory pool to run a distribution on.
//! - [`laws`]: what holds across these functions.

pub mod account;
pub mod allocate;
pub mod distributor;
pub mod error;
pub mod laws;
pub mod ledger;
pub mod mock_vault;
pub mod payout;
pub mod recipient;
pub mod validate;
