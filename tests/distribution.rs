use defindex_distributor::account::AccountId;
use defindex_distributor::distributor::{Distributor, Settlement};
use defindex_distributor::error::DistributionError;
use defindex_distributor::mock_vault::MockVault;
use defindex_distributor::recipient::Recipient;
use defindex_distributor::validate::ValidationPolicy;

fn acct(tag: u8) -> AccountId {
    AccountId::new(vec![b'G', tag, tag, tag])
}

fn caller() -> AccountId {
    acct(200)
}

fn custodian() -> AccountId {
    acct(201)
}

fn asset() -> AccountId {
    acct(202)
}

fn pool() -> AccountId {
    acct(203)
}

fn distributor() -> Distributor {
    Distributor::new(custodian(), asset(), pool(), ValidationPolicy::standard())
}

fn recipients(entries: &[(u8, i128)]) -> Vec<Recipient> {
    entries.iter().map(|(tag, amount)| Recipient::new(acct(*tag), *amount)).collect()
}

/// Runs a whole distribution against the in-memory pool, in the order the
/// contract does: validate, deposit as depositor of record, value the minted
/// units, settle, then the transfer that each payout's grant covers.
fn run(vault: &mut MockVault, d: &Distributor, rs: &Vec<Recipient>) -> Result<Settlement, DistributionError> {
    let total = d.validate(rs)?;
    let req = d.deposit_request(total);
    let (_accepted, minted) = vault.deposit(vec![req.amount_desired], vec![req.amount_min], &req.from, req.invest);
    let basis = vault.get_asset_amounts_per_shares(minted)[0];
    let settlement = d.settle(rs, minted, basis)?;
    vault.apply_payouts(&settlement.payouts);
    Ok(settlement)
}

fn units(s: &Settlement) -> Vec<i128> {
    s.allocations.iter().map(|(_, u)| *u).collect()
}

#[test]
fn test_two_recipients_exact_split() {
    let mut vault = MockVault::new();
    let d = distributor();
    let rs = recipients(&[(1, 300), (2, 700)]);
    let s = run(&mut vault, &d, &rs).unwrap();
    assert_eq!(s.allocations[0], (acct(1), 300_i128));
    assert_eq!(s.allocations[1], (acct(2), 700_i128));
    assert_eq!(vault.balance(&acct(1)), 300);
    assert_eq!(vault.balance(&acct(2)), 700);
    assert_eq!(vault.balance(&caller()), 0);
    assert_eq!(vault.balance(&custodian()), 0);
}

#[test]
fn test_uneven_split_floors_correctly() {
    let mut vault = MockVault::new();
    vault.preset_df_mint(10);
    let d = distributor();
    let rs = recipients(&[(1, 1), (2, 2)]);
    let s = run(&mut vault, &d, &rs).unwrap();
    assert_eq!(s.allocations[0], (acct(1), 3_i128));
    assert_eq!(s.allocations[1], (acct(2), 7_i128));
    assert_eq!(vault.balance(&acct(1)), 3);
    assert_eq!(vault.balance(&acct(2)), 7);
}

#[test]
fn test_rounding_remainder_goes_to_last() {
    let mut vault = MockVault::new();
    vault.preset_df_mint(10);
    let d = distributor();
    let rs = recipients(&[(1, 3), (2, 3), (3, 3)]);
    let s = run(&mut vault, &d, &rs).unwrap();
    assert_eq!(s.allocations[0], (acct(1), 3_i128));
    assert_eq!(s.allocations[1], (acct(2), 3_i128));
    assert_eq!(s.allocations[2], (acct(3), 4_i128));
    assert_eq!(vault.balance(&acct(3)), 4);
    assert_eq!(units(&s).iter().sum::<i128>(), 10);
}

#[test]
fn test_single_recipient_gets_all_df_tokens() {
    let mut vault = MockVault::new();
    vault.preset_df_mint(999);
    let d = distributor();
    let rs = recipients(&[(1, 500)]);
    let s = run(&mut vault, &d, &rs).unwrap();
    assert_eq!(s.allocations[0], (acct(1), 999_i128));
    assert_eq!(vault.balance(&acct(1)), 999);
    assert_eq!(vault.balance(&caller()), 0);
    assert_eq!(vault.balance(&custodian()), 0);
}

#[test]
fn test_no_df_tokens_lost_to_rounding() {
    let mut vault = MockVault::new();
    vault.preset_df_mint(13);
    let d = distributor();
    let rs = recipients(&[(1, 1), (2, 1), (3, 2), (4, 1), (5, 2)]);
    let s = run(&mut vault, &d, &rs).unwrap();
    let total_distributed: i128 = units(&s).iter().sum();
    assert_eq!(total_distributed, 13_i128);
    assert_eq!(vault.balance(&caller()), 0);
    assert_eq!(vault.balance(&custodian()), 0);
    // floor(1*13/7)=1, floor(1*13/7)=1, floor(2*13/7)=3, floor(1*13/7)=1, last 13-6=7
    assert_eq!(units(&s), vec![1, 1, 3, 1, 7]);
}

#[test]
fn test_events_emitted_per_recipient() {
    let mut vault = MockVault::new();
    let d = distributor();
    let rs = recipients(&[(1, 600), (2, 400)]);
    let s = run(&mut vault, &d, &rs).unwrap();
    assert_eq!(s.payouts.len(), 2);
    let expected = [(acct(1), 600_i128), (acct(2), 400_i128)];
    for (p, (user, amount)) in s.payouts.iter().zip(expected.iter()) {
        assert_eq!(p.record.asset, asset());
        assert_eq!(p.record.vault, pool());
        assert_eq!(p.record.user, *user);
        assert_eq!(p.record.underlying_amount, *amount);
        assert_eq!(p.record.df_tokens, *amount);
    }
}

#[test]
fn test_events_non_1to1_exchange_rate() {
    let mut vault = MockVault::new();
    vault.preset_df_mint(10);
    let d = distributor();
    let rs = recipients(&[(1, 3), (2, 3), (3, 3)]);
    let s = run(&mut vault, &d, &rs).unwrap();
    let got: Vec<(AccountId, i128, i128)> = s
        .payouts
        .iter()
        .map(|p| (p.record.user.clone(), p.record.underlying_amount, p.record.df_tokens))
        .collect();
    assert_eq!(got, vec![(acct(1), 3, 3), (acct(2), 3, 3), (acct(3), 3, 4)]);
    for p in s.payouts.iter() {
        assert_eq!(p.record.asset, asset());
        assert_eq!(p.record.vault, pool());
    }
}

#[test]
fn test_correct_auth_passes() {
    let mut vault = MockVault::new();
    let d = distributor();
    let rs = recipients(&[(1, 600), (2, 400)]);
    let total = d.validate(&rs).unwrap();
    assert_eq!(total, 1000);
    let req = d.deposit_request(total);
    assert_eq!(req.grant.contract, asset());
    assert_eq!(req.grant.from, custodian());
    assert_eq!(req.grant.to, pool());
    assert_eq!(req.grant.amount, 1000);
    let s = run(&mut vault, &d, &rs).unwrap();
    assert_eq!(s.allocations.len(), 2);
    assert_eq!(s.allocations[0], (acct(1), 600_i128));
    assert_eq!(s.allocations[1], (acct(2), 400_i128));
    for (p, (to, units)) in s.payouts.iter().zip(s.allocations.iter()) {
        assert_eq!(p.grant.function_name(), "transfer");
        assert_eq!(p.grant.contract, pool());
        assert_eq!(p.grant.from, custodian());
        assert_eq!(p.grant.to, *to);
        assert_eq!(p.grant.amount, *units);
    }
    assert_eq!(vault.balance(&acct(1)), 600);
    assert_eq!(vault.balance(&acct(2)), 400);
    assert_eq!(vault.balance(&caller()), 0);
}
