use defindex_distributor::account::AccountId;
use defindex_distributor::allocate::allocate;
use defindex_distributor::distributor::Distributor;
use defindex_distributor::error::{DistributionError, ErrorKind};
use defindex_distributor::mock_vault::MockVault;
use defindex_distributor::recipient::Recipient;
use defindex_distributor::validate::{validate_recipients, ValidationPolicy, MAX_RECIPIENTS};

fn id(tag: u8) -> AccountId {
    AccountId::new(vec![tag, 7, tag])
}

fn list(entries: &[(u8, i128)]) -> Vec<Recipient> {
    entries.iter().map(|(tag, amount)| Recipient::new(id(*tag), *amount)).collect()
}

fn shares(r: Result<Vec<(AccountId, i128)>, DistributionError>) -> Vec<i128> {
    r.unwrap().into_iter().map(|(_, u)| u).collect()
}

const POOL: u8 = 99;

fn standard(rs: &Vec<Recipient>) -> Result<i128, DistributionError> {
    validate_recipients(rs, &id(POOL), ValidationPolicy::standard())
}

#[test]
fn validation_sums_amounts() {
    assert_eq!(standard(&list(&[(1, 300), (2, 700)])), Ok(1000));
    assert_eq!(standard(&list(&[(1, 1)])), Ok(1));
}

#[test]
fn validation_rejects_empty_list() {
    assert_eq!(standard(&Vec::new()), Err(DistributionError::EmptyRecipients));
}

#[test]
fn validation_rejects_too_many() {
    let at_limit: Vec<Recipient> = (0..MAX_RECIPIENTS).map(|i| Recipient::new(AccountId::new(vec![2, i as u8]), 1)).collect();
    assert_eq!(standard(&at_limit), Ok(MAX_RECIPIENTS as i128));
    let over: Vec<Recipient> = (0..=MAX_RECIPIENTS).map(|i| Recipient::new(AccountId::new(vec![1, i as u8]), 1)).collect();
    assert_eq!(standard(&over), Err(DistributionError::TooManyRecipients));
}

#[test]
fn validation_rejects_non_positive_amount() {
    assert_eq!(standard(&list(&[(1, 5), (2, 0)])), Err(DistributionError::NonPositiveAmount));
    assert_eq!(standard(&list(&[(1, -3)])), Err(DistributionError::NonPositiveAmount));
}

#[test]
fn validation_rejects_pool_as_recipient_by_policy() {
    let rs = list(&[(1, 5), (POOL, 5)]);
    assert_eq!(standard(&rs), Err(DistributionError::RecipientIsPool));
    let lax = ValidationPolicy { max_recipients: MAX_RECIPIENTS, exclude_pool: false };
    assert_eq!(validate_recipients(&rs, &id(POOL), lax), Ok(10));
}

#[test]
fn validation_rejects_duplicates() {
    assert_eq!(standard(&list(&[(1, 5), (2, 5), (1, 5)])), Err(DistributionError::DuplicateRecipient));
    assert_eq!(DistributionError::DuplicateRecipient.kind(), ErrorKind::Validation);
    assert_eq!(DistributionError::DuplicateRecipient.message(), "duplicate recipient address");
}

#[test]
fn validation_rejects_overflowing_total() {
    let rs = list(&[(1, i128::MAX), (2, 1)]);
    assert_eq!(standard(&rs), Err(DistributionError::TotalOverflow));
    assert_eq!(DistributionError::TotalOverflow.kind(), ErrorKind::Arithmetic);
    assert_eq!(standard(&list(&[(1, i128::MAX)])), Ok(i128::MAX));
}

#[test]
fn validation_reports_first_fault_in_order() {
    // the non-positive amount at position 1 comes before the duplicate at position 2
    assert_eq!(standard(&list(&[(1, 5), (2, 0), (1, 5)])), Err(DistributionError::NonPositiveAmount));
    // the duplicate at position 2 comes before the overflow at position 3
    assert_eq!(
        standard(&list(&[(1, i128::MAX - 1), (2, 1), (1, 5), (3, 9)])),
        Err(DistributionError::DuplicateRecipient)
    );
}

#[test]
fn allocation_floors_and_gives_dust_to_last() {
    let rs = list(&[(1, 3), (2, 3), (3, 3)]);
    assert_eq!(shares(allocate(&rs, 10, 9)), vec![3, 3, 4]);
    let rs = list(&[(1, 1), (2, 1), (3, 2), (4, 1), (5, 2)]);
    let s = shares(allocate(&rs, 13, 7));
    assert_eq!(s.iter().sum::<i128>(), 13);
    assert_eq!(s, vec![1, 1, 3, 1, 7]);
}

#[test]
fn allocation_keeps_input_order() {
    let rs = list(&[(9, 1), (4, 2), (6, 3)]);
    let out = allocate(&rs, 600, 6).unwrap();
    let accounts: Vec<AccountId> = out.iter().map(|(a, _)| a.clone()).collect();
    assert_eq!(accounts, vec![id(9), id(4), id(6)]);
    assert_eq!(out.iter().map(|(_, u)| *u).collect::<Vec<i128>>(), vec![100, 200, 300]);
}

#[test]
fn allocation_uses_basis_not_raw_total() {
    // basis 1000 against amounts that sum to 1050: floor(500*2000/1000) = 1000
    let rs = list(&[(1, 500), (2, 550)]);
    assert_eq!(shares(allocate(&rs, 2000, 1000)), vec![1000, 1000]);
    // floor(1*10/3) = 3
    assert_eq!(shares(allocate(&list(&[(1, 1), (2, 2)]), 10, 3)), vec![3, 7]);
}

#[test]
fn allocation_single_recipient_takes_all() {
    assert_eq!(shares(allocate(&list(&[(1, 500)]), 999, 500)), vec![999]);
    assert_eq!(shares(allocate(&list(&[(1, 500)]), 999, 0)), vec![999]);
    assert_eq!(shares(allocate(&list(&[(1, 500)]), 0, 500)), vec![0]);
}

#[test]
fn allocation_errors() {
    assert_eq!(allocate(&Vec::new(), 10, 10), Err(DistributionError::EmptyRecipients));
    assert_eq!(allocate(&list(&[(1, 1)]), -1, 10), Err(DistributionError::InvalidMinted));
    assert_eq!(allocate(&list(&[(1, 1), (2, 1)]), 10, 0), Err(DistributionError::InvalidBasis));
    assert_eq!(allocate(&list(&[(1, 1), (2, 1)]), 10, -4), Err(DistributionError::InvalidBasis));
    assert_eq!(allocate(&list(&[(1, 1 << 100), (2, 1)]), 1 << 30, 1), Err(DistributionError::ShareOverflow));
    assert_eq!(
        allocate(&list(&[(1, 1 << 126), (2, 1 << 126), (3, 1)]), 1, 1),
        Err(DistributionError::DistributedOverflow)
    );
    assert_eq!(allocate(&list(&[(1, 5), (2, 5)]), 10, 4), Err(DistributionError::RemainderUnderflow));
    assert_eq!(DistributionError::InvalidBasis.kind(), ErrorKind::Downstream);
}

#[test]
fn allocation_large_values_stay_exact() {
    // 10^18 * 10^19 fits below 2^127: floor(10^37 / (10^18 + 2)) is exact
    let rs = list(&[(1, 1_000_000_000_000_000_000), (2, 2)]);
    let s = shares(allocate(&rs, 10_000_000_000_000_000_000, 1_000_000_000_000_000_002));
    assert_eq!(s, vec![9_999_999_999_999_999_980, 20]);
}

#[test]
fn account_equality_is_by_bytes() {
    assert_eq!(AccountId::new(vec![1, 2, 3]), AccountId::new(vec![1, 2, 3]));
    assert_ne!(AccountId::new(vec![1, 2, 3]), AccountId::new(vec![1, 2]));
    assert!(!AccountId::new(vec![1, 2, 4]).same_as(&AccountId::new(vec![1, 2, 3])));
}

#[test]
fn deposit_request_has_zero_slippage() {
    let d = Distributor::new(id(1), id(2), id(3), ValidationPolicy::standard());
    let req = d.deposit_request(777);
    assert_eq!(req.amount_desired, 777);
    assert_eq!(req.amount_min, 777);
    assert_eq!(req.from, id(1));
    assert!(req.invest);
}

#[test]
fn settle_reports_allocation_errors() {
    let d = Distributor::new(id(1), id(2), id(3), ValidationPolicy::standard());
    let rs = list(&[(4, 5), (5, 5)]);
    assert_eq!(d.settle(&rs, 10, 4).err(), Some(DistributionError::RemainderUnderflow));
}

#[test]
fn mock_vault_values_minted_units() {
    let mut vault = MockVault::new();
    assert_eq!(vault.get_asset_amounts_per_shares(50), vec![0]);
    vault.preset_df_mint(10);
    let (accepted, minted) = vault.deposit(vec![9], vec![9], &id(1), true);
    assert_eq!(accepted, vec![9]);
    assert_eq!(minted, 10);
    assert_eq!(vault.balance(&id(1)), 10);
    assert_eq!(vault.get_asset_amounts_per_shares(10), vec![9]);
    assert_eq!(vault.get_asset_amounts_per_shares(5), vec![4]);
    vault.transfer(&id(1), &id(2), 4);
    assert_eq!(vault.balance(&id(1)), 6);
    assert_eq!(vault.balance(&id(2)), 4);
    vault.transfer(&id(2), &id(2), 4);
    assert_eq!(vault.balance(&id(2)), 4);
}

#[test]
fn payouts_move_units_out_of_custody() {
    let d = Distributor::new(id(1), id(2), id(3), ValidationPolicy::standard());
    let rs = list(&[(4, 2), (5, 3), (6, 4)]);
    let s = d.settle(&rs, 100, 9).unwrap();
    let mut vault = MockVault::new();
    let (_, minted) = vault.deposit(vec![100], vec![100], &id(1), true);
    assert_eq!(minted, 100);
    vault.apply_payouts(&s.payouts);
    assert_eq!(vault.balance(&id(1)), 0);
    // floor(2*100/9) = 22, floor(3*100/9) = 33, last 100 - 55 = 45
    assert_eq!(vault.balance(&id(4)), 22);
    assert_eq!(vault.balance(&id(5)), 33);
    assert_eq!(vault.balance(&id(6)), 45);
}
