use ttl_legacy::account::AccountId;
use ttl_legacy::control::{token_allowed, Control};
use ttl_legacy::index::{reindexed_lists, remove_vault_id, same_index_key};
use ttl_legacy::notes::VaultNotes;
use ttl_legacy::split::{share, split_release, total_bps};
use ttl_legacy::types::{
    next_vault_id, vault_ttl_ledgers, BeneficiaryEntry, IntervalBounds, ReleaseStatus, VaultError,
};
use ttl_legacy::vault::Vault;
use ttl_legacy::vesting::VestingSchedule;

fn account(name: &str) -> AccountId {
    AccountId::new(name.as_bytes().to_vec())
}

fn entry(name: &str, bps: u32) -> BeneficiaryEntry {
    BeneficiaryEntry { address: account(name), bps }
}

fn any() -> IntervalBounds {
    IntervalBounds::unbounded()
}

fn fresh_vault() -> Vault {
    Vault::new(account("owner"), account("heir"), 86400, account("token"), 1000, &any()).unwrap()
}

#[test]
fn account_equality_and_copy() {
    let a = account("alice");
    assert!(a.same(&account("alice")));
    assert!(!a.same(&account("alicf")));
    assert!(!a.same(&account("alic")));
    assert_eq!(a.duplicate(), a);
}

#[test]
fn new_vault_rejects_zero_interval_and_self_beneficiary() {
    assert_eq!(
        Vault::new(account("o"), account("b"), 0, account("t"), 0, &any()).err(),
        Some(VaultError::InvalidInterval)
    );
    assert_eq!(
        Vault::new(account("o"), account("o"), 10, account("t"), 0, &any()).err(),
        Some(VaultError::InvalidBeneficiary)
    );
    let v = fresh_vault();
    assert_eq!(v.last_check_in, 1000);
    assert_eq!(v.created_at, 1000);
    assert!(!v.is_paused);
    assert!(v.metadata.is_empty());
    assert!(v.custom_metadata.is_empty());
}

#[test]
fn vault_ids_count_up_from_one() {
    assert_eq!(next_vault_id(0), Ok(1));
    assert_eq!(next_vault_id(5), Ok(6));
    assert_eq!(next_vault_id(u64::MAX), Err(VaultError::VaultCountOverflow));
}

#[test]
fn expired_exactly_when_no_time_is_left() {
    let v = fresh_vault();
    // deadline = 1000 + 86400
    assert!(!v.is_expired(87399));
    assert_eq!(v.get_ttl_remaining(87399), 1);
    assert!(v.is_expired(87400));
    assert_eq!(v.get_ttl_remaining(87400), 0);
    assert_eq!(v.get_ttl_remaining(0), 87400);
}

#[test]
fn remaining_time_is_capped() {
    let mut v =
        Vault::new(account("o"), account("b"), u64::MAX, account("t"), u64::MAX, &any()).unwrap();
    assert_eq!(v.get_ttl_remaining(0), u64::MAX);
    assert!(!v.is_expired(u64::MAX));
    v.check_in(&account("o"), 5).unwrap();
    assert_eq!(v.get_ttl_remaining(5), u64::MAX);
}

#[test]
fn expiry_warning_below_one_day() {
    let v = fresh_vault();
    assert!(!v.needs_expiry_warning(1000));
    assert!(v.needs_expiry_warning(1001));
    assert!(v.needs_expiry_warning(90000));
}

#[test]
fn check_in_restarts_the_countdown() {
    let mut v = fresh_vault();
    v.check_in(&account("owner"), 50000).unwrap();
    assert_eq!(v.last_check_in, 50000);
    assert_eq!(v.get_ttl_remaining(50000), 86400);
    assert!(!v.is_expired(136399));
    assert!(v.is_expired(136400));
}

#[test]
fn deposit_then_withdraw_restores_the_balance() {
    let mut v = fresh_vault();
    v.deposit(500).unwrap();
    v.deposit(250).unwrap();
    assert_eq!(v.balance, 750);
    v.withdraw(250).unwrap();
    assert_eq!(v.balance, 500);
    assert_eq!(v.deposit(0), Err(VaultError::InvalidAmount));
    assert_eq!(v.deposit(-5), Err(VaultError::InvalidAmount));
    assert_eq!(v.withdraw(501), Err(VaultError::InsufficientBalance));
    assert_eq!(v.balance, 500);
    v.withdraw(500).unwrap();
    assert_eq!(v.balance, 0);
}

#[test]
fn deposit_overflow_is_refused() {
    let mut v = fresh_vault();
    v.deposit(i128::MAX).unwrap();
    assert_eq!(v.deposit(1), Err(VaultError::BalanceOverflow));
    assert_eq!(v.balance, i128::MAX);
}

#[test]
fn release_needs_expiry_and_happens_once() {
    let mut v = fresh_vault();
    v.deposit(1000).unwrap();
    assert_eq!(v.trigger_release(7, 87399).err(), Some(VaultError::NotExpired));
    assert_eq!(v.status, ReleaseStatus::Locked);
    assert_eq!(v.balance, 1000);
    let events = v.trigger_release(7, 87400).unwrap();
    assert_eq!(events.len(), 1);
    assert_eq!(events[0].vault_id, 7);
    assert_eq!(events[0].beneficiary, account("heir"));
    assert_eq!(events[0].amount, 1000);
    assert_eq!(v.status, ReleaseStatus::Released);
    assert_eq!(v.balance, 0);
    assert_eq!(v.trigger_release(7, 90000).err(), Some(VaultError::AlreadyReleased));
}

#[test]
fn settled_vault_refuses_every_change() {
    let mut v = fresh_vault();
    v.deposit(40).unwrap();
    assert_eq!(v.cancel_vault(), Ok(40));
    assert_eq!(v.status, ReleaseStatus::Cancelled);
    assert_eq!(v.balance, 0);
    let e = Err(VaultError::AlreadyCancelled);
    assert_eq!(v.check_in(&account("owner"), 2000), e);
    assert_eq!(v.check_in(&account("intruder"), 2000), Err(VaultError::NotOwner));
    assert_eq!(v.deposit(1), e);
    assert_eq!(v.withdraw(1), e);
    assert_eq!(v.update_beneficiary(account("x")), e);
    assert_eq!(v.transfer_ownership(account("x")), e);
    assert_eq!(v.set_beneficiaries(vec![entry("x", 10000)]), e);
    assert_eq!(v.add_beneficiary(entry("x", 1)), e);
    assert_eq!(v.remove_beneficiary(&account("x")), e);
    assert_eq!(v.update_check_in_interval(5, &any()), e);
    assert_eq!(v.set_metadata(b"label".to_vec()), e);
    assert_eq!(v.pause_vault(), e);
    assert_eq!(v.resume_vault(), e);
    assert_eq!(v.set_custom_metadata(vec![1, 2]), e);
    assert_eq!(v.cancel_vault(), Err(VaultError::AlreadyCancelled));
    assert_eq!(v.trigger_release(1, 1_000_000).err(), Some(VaultError::AlreadyCancelled));
    assert_eq!(v.last_check_in, 1000);
    assert_eq!(v.beneficiary, account("heir"));
}

#[test]
fn split_pays_out_the_whole_balance() {
    let mut v = fresh_vault();
    v.deposit(100).unwrap();
    v.set_beneficiaries(vec![entry("a", 3333), entry("b", 3333), entry("c", 3334)])
        .unwrap();
    let events = v.trigger_release(3, 87400).unwrap();
    let amounts: Vec<i128> = events.iter().map(|e| e.amount).collect();
    assert_eq!(amounts, vec![33, 33, 34]);
    assert_eq!(events[2].beneficiary, account("c"));
    assert_eq!(amounts.iter().sum::<i128>(), 100);
}

#[test]
fn split_rounding_goes_to_the_last_entry() {
    let entries = vec![entry("a", 5000), entry("b", 5000)];
    let events = split_release(9, &entries, 1);
    assert_eq!(events[0].amount, 0);
    assert_eq!(events[1].amount, 1);
    let entries = vec![entry("a", 2500)];
    let events = split_release(9, &entries, 99);
    assert_eq!(events.len(), 1);
    assert_eq!(events[0].amount, 99);
}

#[test]
fn shares_are_exact_for_huge_balances() {
    assert_eq!(share(100, 3333), 33);
    assert_eq!(share(i128::MAX, 10000), i128::MAX);
    assert_eq!(share(i128::MAX, 5000), i128::MAX / 2);
    assert_eq!(share(0, 7000), 0);
    assert_eq!(total_bps(&vec![entry("a", 1), entry("b", u32::MAX)]), 1 + u32::MAX as u128);
}

#[test]
fn beneficiary_split_rules() {
    let mut v = fresh_vault();
    assert_eq!(
        v.set_beneficiaries(vec![entry("owner", 5000), entry("b", 5000)]),
        Err(VaultError::InvalidBeneficiary)
    );
    assert_eq!(
        v.set_beneficiaries(vec![entry("a", 5000), entry("b", 4999)]),
        Err(VaultError::InvalidBps)
    );
    assert_eq!(v.set_beneficiaries(vec![]), Err(VaultError::InvalidBps));
    assert!(v.beneficiaries.is_empty());

    v.add_beneficiary(entry("a", 6000)).unwrap();
    assert_eq!(v.add_beneficiary(entry("a", 1000)), Err(VaultError::DuplicateBeneficiary));
    assert_eq!(v.add_beneficiary(entry("owner", 1000)), Err(VaultError::InvalidBeneficiary));
    assert_eq!(v.add_beneficiary(entry("b", 4001)), Err(VaultError::InvalidBps));
    v.add_beneficiary(entry("b", 4000)).unwrap();
    assert_eq!(v.beneficiaries, vec![entry("a", 6000), entry("b", 4000)]);

    assert_eq!(v.remove_beneficiary(&account("c")), Err(VaultError::BeneficiaryNotFound));
    v.remove_beneficiary(&account("a")).unwrap();
    assert_eq!(v.beneficiaries, vec![entry("b", 4000)]);

    // A split below 100% pays the rest to its last entry.
    v.deposit(10).unwrap();
    let events = v.trigger_release(1, 87400).unwrap();
    assert_eq!(events.len(), 1);
    assert_eq!(events[0].beneficiary, account("b"));
    assert_eq!(events[0].amount, 10);
}

#[test]
fn metadata_limits() {
    let mut v = fresh_vault();
    v.set_metadata(vec![b'x'; 256]).unwrap();
    assert_eq!(v.metadata.len(), 256);
    assert_eq!(v.set_metadata(vec![b'x'; 257]), Err(VaultError::MetadataTooLong));
    // The limit counts bytes: 129 two-byte characters are 258 bytes.
    assert_eq!(
        v.set_metadata("é".repeat(129).into_bytes()),
        Err(VaultError::MetadataTooLong)
    );
    // Bytes that are not UTF-8 are kept as they are.
    v.set_metadata(vec![0xff, 0xfe]).unwrap();
    assert_eq!(v.metadata, vec![0xff, 0xfe]);
    v.set_custom_metadata(vec![7; 2048]).unwrap();
    assert_eq!(v.set_custom_metadata(vec![7; 2049]), Err(VaultError::MetadataTooLong));
    assert_eq!(v.custom_metadata.len(), 2048);
}

#[test]
fn interval_update() {
    let mut v = fresh_vault();
    assert_eq!(v.update_check_in_interval(0, &any()), Err(VaultError::InvalidInterval));
    v.update_check_in_interval(10, &any()).unwrap();
    assert!(v.is_expired(1010));
    assert!(!v.is_expired(1009));
}

#[test]
fn vesting_installments_add_up_to_the_total() {
    assert_eq!(VestingSchedule::new(0, 0, 3, 100), Err(VaultError::InvalidInterval));
    assert_eq!(VestingSchedule::new(0, 10, 0, 100), Err(VaultError::InvalidInstallments));
    assert_eq!(VestingSchedule::new(0, 10, 3, -1), Err(VaultError::InvalidAmount));
    assert!(VestingSchedule::new(0, 10, 3, 0).is_ok());

    let s = VestingSchedule::new(1000, 100, 3, 100).unwrap();
    let amounts: Vec<i128> = (0..3).map(|k| s.installment_amount(k)).collect();
    assert_eq!(amounts, vec![33, 33, 34]);
    assert_eq!(amounts.iter().sum::<i128>(), 100);
}

#[test]
fn vesting_unlocks_one_installment_per_interval() {
    let s = VestingSchedule::new(1000, 100, 3, 100).unwrap();
    assert_eq!(s.unlocked_installments(999), 0);
    assert_eq!(s.unlocked_installments(1000), 1);
    assert_eq!(s.unlocked_installments(1099), 1);
    assert_eq!(s.unlocked_installments(1100), 2);
    assert_eq!(s.unlocked_installments(1200), 3);
    assert_eq!(s.unlocked_installments(u64::MAX), 3);
}

#[test]
fn vesting_claims_in_order_and_only_once() {
    let mut s = VestingSchedule::new(1000, 100, 3, 100).unwrap();
    assert_eq!(s.claim_installment(999), Err(VaultError::InstallmentNotDue));
    assert_eq!(s.claim_installment(1000), Ok(33));
    assert_eq!(s.claim_installment(1000), Err(VaultError::InstallmentNotDue));
    assert_eq!(s.claim_installment(5000), Ok(33));
    assert_eq!(s.claim_installment(5000), Ok(34));
    assert_eq!(s.claim_installment(5000), Err(VaultError::VestingComplete));
    assert_eq!(s.claimed_installments, 3);
}

#[test]
fn index_removal_drops_every_occurrence() {
    assert_eq!(remove_vault_id(&vec![1, 2, 1, 3], 1), vec![2, 3]);
    assert_eq!(remove_vault_id(&vec![4], 4), Vec::<u64>::new());
    assert_eq!(remove_vault_id(&vec![5, 6], 7), vec![5, 6]);
}

#[test]
fn ownership_transfer_changes_who_may_check_in() {
    let mut v = fresh_vault();
    v.transfer_ownership(account("successor")).unwrap();
    assert_eq!(v.owner, account("successor"));
    assert_eq!(v.check_in(&account("owner"), 2000), Err(VaultError::NotOwner));
    v.check_in(&account("successor"), 2000).unwrap();
    assert_eq!(v.last_check_in, 2000);
}

#[test]
fn interval_bounds_are_enforced() {
    let bounds = any().with_min(3600).unwrap().with_max(30 * 86400).unwrap();
    assert_eq!(bounds, IntervalBounds { min: 3600, max: 2_592_000 });
    assert_eq!(any().with_min(0), Err(VaultError::InvalidInterval));
    assert_eq!(bounds.with_min(2_592_001), Err(VaultError::InvalidInterval));
    assert_eq!(bounds.with_max(3599), Err(VaultError::InvalidInterval));
    assert!(bounds.allows(3600) && bounds.allows(2_592_000));
    assert!(!bounds.allows(3599) && !bounds.allows(2_592_001));
    assert_eq!(
        Vault::new(account("o"), account("b"), 60, account("t"), 0, &bounds).err(),
        Some(VaultError::InvalidInterval)
    );
    let mut v = Vault::new(account("o"), account("b"), 86400, account("t"), 0, &bounds).unwrap();
    assert_eq!(v.update_check_in_interval(2_592_001, &bounds), Err(VaultError::InvalidInterval));
    assert_eq!(v.check_in_interval, 86400);
    v.update_check_in_interval(7200, &bounds).unwrap();
    assert_eq!(v.check_in_interval, 7200);
}

#[test]
fn paused_vault_cannot_be_released() {
    let mut v = fresh_vault();
    v.pause_vault().unwrap();
    assert!(v.is_paused);
    assert_eq!(v.trigger_release(1, 1_000_000).err(), Some(VaultError::VaultPaused));
    assert_eq!(v.status, ReleaseStatus::Locked);
    v.resume_vault().unwrap();
    assert!(!v.is_paused);
    assert!(v.trigger_release(1, 1_000_000).is_ok());
}

#[test]
fn vested_claims_are_paid_out_of_the_vault() {
    let mut v = fresh_vault();
    v.deposit(50).unwrap();
    let mut s = VestingSchedule::new(0, 100, 3, 100).unwrap();
    assert_eq!(v.claim_vested_installment(&mut s, 0), Ok(33));
    assert_eq!(v.balance, 17);
    assert_eq!(s.claimed_installments, 1);
    assert_eq!(v.claim_vested_installment(&mut s, 50), Err(VaultError::InstallmentNotDue));
    assert_eq!(v.claim_vested_installment(&mut s, 100), Err(VaultError::InsufficientBalance));
    assert_eq!(v.balance, 17);
    assert_eq!(s.claimed_installments, 1);
    v.deposit(100).unwrap();
    assert_eq!(v.claim_vested_installment(&mut s, 500), Ok(33));
    assert_eq!(v.claim_vested_installment(&mut s, 500), Ok(34));
    assert_eq!(v.balance, 50);
    assert_eq!(v.claim_vested_installment(&mut s, 500), Err(VaultError::VestingComplete));
}

#[test]
fn zero_installments_do_not_block_claims() {
    let mut v = fresh_vault();
    let mut s = VestingSchedule::new(0, 10, 3, 2).unwrap();
    assert_eq!(v.claim_vested_installment(&mut s, 100), Ok(0));
    assert_eq!(v.claim_vested_installment(&mut s, 100), Ok(0));
    assert_eq!(v.claim_vested_installment(&mut s, 100), Err(VaultError::InsufficientBalance));
    v.deposit(2).unwrap();
    assert_eq!(v.claim_vested_installment(&mut s, 100), Ok(2));
    assert_eq!(v.balance, 0);
}

#[test]
fn index_keys_follow_owner_beneficiary_and_cancellation() {
    let mut v = fresh_vault();
    assert_eq!(v.owner_index_key(), account("owner"));
    assert_eq!(v.beneficiary_index_key(), Some(account("heir")));
    v.update_beneficiary(account("niece")).unwrap();
    assert_eq!(v.beneficiary_index_key(), Some(account("niece")));
    v.transfer_ownership(account("son")).unwrap();
    assert_eq!(v.owner_index_key(), account("son"));
    v.cancel_vault().unwrap();
    assert_eq!(v.beneficiary_index_key(), None);
    assert_eq!(v.owner_index_key(), account("son"));
}

#[test]
fn released_vault_stays_listed_under_its_beneficiary() {
    let mut v = fresh_vault();
    v.trigger_release(1, 1_000_000).unwrap();
    assert_eq!(v.beneficiary_index_key(), Some(account("heir")));
}

#[test]
fn storage_lifetime_scales_with_the_interval() {
    assert_eq!(vault_ttl_ledgers(86400, 3_110_400), 200_000);
    assert_eq!(vault_ttl_ledgers(30 * 86400, 3_110_400), 1_036_800);
    assert_eq!(vault_ttl_ledgers(u64::MAX, 3_110_400), 3_110_400);
    assert_eq!(vault_ttl_ledgers(86400, 100_000), 100_000);
}

#[test]
fn split_may_not_name_an_address_twice() {
    let mut v = fresh_vault();
    assert_eq!(
        v.set_beneficiaries(vec![entry("a", 5000), entry("b", 2000), entry("a", 3000)]),
        Err(VaultError::DuplicateBeneficiary)
    );
    assert!(v.beneficiaries.is_empty());
    v.set_beneficiaries(vec![entry("a", 5000), entry("b", 5000)]).unwrap();
    assert!(v.is_well_formed());
}

#[test]
fn reindexing_moves_the_id_between_lists() {
    let (from, to) = reindexed_lists(Some(vec![1, 7, 2]), Some(vec![3]), 7, false);
    assert_eq!(from, Some(vec![1, 2]));
    assert_eq!(to, Some(vec![3, 7]));
    // A new vault joins a list; a cancelled one leaves one.
    assert_eq!(reindexed_lists(None, Some(vec![]), 4, false), (None, Some(vec![4])));
    assert_eq!(reindexed_lists(Some(vec![4, 5]), None, 4, false), (Some(vec![5]), None));
    // An unchanged key leaves the list, and its order, as it is.
    assert_eq!(
        reindexed_lists(Some(vec![9, 4, 5]), Some(vec![9, 4, 5]), 9, true),
        (Some(vec![9, 4, 5]), Some(vec![9, 4, 5]))
    );
    assert!(same_index_key(&Some(account("a")), &Some(account("a"))));
    assert!(!same_index_key(&Some(account("a")), &Some(account("b"))));
    assert!(!same_index_key(&Some(account("a")), &None));
    assert!(same_index_key(&None, &None));
}

#[test]
fn contract_administration() {
    let mut c = Control::new(account("admin"));
    assert!(c.require_active().is_ok());
    assert_eq!(c.set_paused(&account("mallory"), true), Err(VaultError::NotAdmin));
    c.set_paused(&account("admin"), true).unwrap();
    assert_eq!(c.require_active(), Err(VaultError::ContractPaused));
    c.set_paused(&account("admin"), false).unwrap();
    assert!(c.require_active().is_ok());

    assert_eq!(c.accept_admin(&account("heir")), Err(VaultError::NotPendingAdmin));
    assert_eq!(c.propose_admin(&account("heir"), account("heir")), Err(VaultError::NotAdmin));
    c.propose_admin(&account("admin"), account("heir")).unwrap();
    assert_eq!(c.admin, Some(account("admin")));
    assert_eq!(c.accept_admin(&account("mallory")), Err(VaultError::NotPendingAdmin));
    c.accept_admin(&account("heir")).unwrap();
    assert_eq!(c.admin, Some(account("heir")));
    assert_eq!(c.pending_admin, None);
    assert_eq!(c.require_admin(&account("admin")), Err(VaultError::NotAdmin));
    assert!(c.require_admin(&account("heir")).is_ok());

    assert!(token_allowed(&account("xlm"), &account("xlm"), false));
    assert!(!token_allowed(&account("usdc"), &account("xlm"), false));
    assert!(token_allowed(&account("usdc"), &account("xlm"), true));
}

#[test]
fn vault_notes_limits() {
    assert!(VaultNotes::new(vec![b'n'; 64], vec![b'd'; 512], vec![b'x'; 1024]).is_ok());
    assert_eq!(
        VaultNotes::new(vec![b'n'; 65], vec![], vec![]),
        Err(VaultError::MetadataTooLong)
    );
    assert_eq!(
        VaultNotes::new(vec![], vec![b'd'; 513], vec![]),
        Err(VaultError::MetadataTooLong)
    );
    assert_eq!(
        VaultNotes::new(vec![], vec![], vec![b'x'; 1025]),
        Err(VaultError::MetadataTooLong)
    );
}

#[test]
fn partial_release_pays_part_of_the_balance() {
    let mut v = fresh_vault();
    v.deposit(1000).unwrap();
    v.set_beneficiaries(vec![entry("a", 2500), entry("b", 7500)]).unwrap();
    assert_eq!(v.partial_release(5, 100, 87399).err(), Some(VaultError::NotExpired));
    assert_eq!(v.partial_release(5, 0, 87400).err(), Some(VaultError::InvalidAmount));
    assert_eq!(v.partial_release(5, 1001, 87400).err(), Some(VaultError::InsufficientBalance));
    let events = v.partial_release(5, 101, 87400).unwrap();
    let amounts: Vec<i128> = events.iter().map(|e| e.amount).collect();
    assert_eq!(amounts, vec![25, 76]);
    assert_eq!(v.balance, 899);
    assert_eq!(v.status, ReleaseStatus::Locked);
    let events = v.trigger_release(5, 87400).unwrap();
    let amounts: Vec<i128> = events.iter().map(|e| e.amount).collect();
    assert_eq!(amounts, vec![224, 675]);
}

#[test]
fn parent_vault_links() {
    let mut v = fresh_vault();
    assert_eq!(v.set_parent_vault(3, 3), Err(VaultError::InvalidParent));
    v.set_parent_vault(3, 1).unwrap();
    assert_eq!(v.parent_vault_id, Some(1));
}
