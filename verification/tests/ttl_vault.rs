use ttl_legacy::account::AccountId;
use ttl_legacy::types::{next_vault_id, IntervalBounds, ReleaseCondition, ReleaseStatus, VaultError};
use ttl_legacy::vault::Vault;

fn account(name: &str) -> AccountId {
    AccountId::new(name.as_bytes().to_vec())
}

/// A vault created at time 0 with a one-day check-in interval.
fn setup() -> (AccountId, AccountId, AccountId, Vault) {
    let owner = account("owner");
    let beneficiary = account("beneficiary");
    let token = account("token");
    let bounds = IntervalBounds::unbounded();
    let vault =
        Vault::new(owner.clone(), beneficiary.clone(), 86400u64, token.clone(), 0, &bounds)
            .unwrap();
    (owner, beneficiary, token, vault)
}

#[test]
fn test_create_vault() {
    let (owner, beneficiary, token, vault) = setup();
    let vault_id = next_vault_id(0).unwrap();
    assert_eq!(vault_id, 1);

    assert_eq!(vault.owner, owner);
    assert_eq!(vault.beneficiary, beneficiary);
    assert_eq!(vault.balance, 0);
    assert_eq!(vault.check_in_interval, 86400u64);
    assert_eq!(vault.status, ReleaseStatus::Locked);
    assert_eq!(vault.token_address, token);
    assert_eq!(vault.release_condition, ReleaseCondition::OnExpiry);
    assert!(vault.beneficiaries.is_empty());
    assert_eq!(vault.parent_vault_id, None);
}

#[test]
fn test_check_in_resets_timer() {
    let (owner, _, _, mut vault) = setup();
    let now = 43200;
    vault.check_in(&owner, now).unwrap();

    let remaining = vault.get_ttl_remaining(now);
    assert!(remaining > 43000 && remaining <= 86400);
}

#[test]
fn test_non_owner_cannot_check_in() {
    let (_, _, _, mut vault) = setup();
    let stranger = account("stranger");

    let result = vault.check_in(&stranger, 0);
    assert_eq!(result, Err(VaultError::NotOwner), "non-owner must receive NotOwner error");
}

#[test]
fn test_is_not_expired_before_interval() {
    let (_, _, _, vault) = setup();
    assert!(!vault.is_expired(43200));
}

#[test]
fn test_is_expired_after_interval() {
    let (_, _, _, vault) = setup();
    assert!(vault.is_expired(90000));
}

#[test]
fn test_withdraw_zero_amount_rejected() {
    let (_, _, _, mut vault) = setup();
    let result = vault.withdraw(0i128);
    assert_eq!(result, Err(VaultError::InvalidAmount));
}

#[test]
fn test_withdraw_negative_amount_rejected() {
    let (_, _, _, mut vault) = setup();
    let result = vault.withdraw(-1i128);
    assert_eq!(result, Err(VaultError::InvalidAmount));
}

#[test]
fn test_check_in_emits_event() {
    let (owner, _, _, mut vault) = setup();
    let ts = 0u64;
    vault.check_in(&owner, ts).unwrap();
    // The check-in records the ledger time, which the contract publishes.
    assert_eq!(vault.last_check_in, ts);
}

#[test]
fn test_update_beneficiary() {
    let (_, _, _, mut vault) = setup();
    let new_beneficiary = account("new beneficiary");
    vault.update_beneficiary(new_beneficiary.clone()).unwrap();
    assert_eq!(vault.beneficiary, new_beneficiary);
}

#[test]
fn test_update_beneficiary_after_release_fails() {
    let (_, _, _, mut vault) = setup();
    let vault_id = next_vault_id(0).unwrap();

    // Past the check-in interval the vault has expired and can be released.
    vault.trigger_release(vault_id, 90000).unwrap();

    // Updating the beneficiary of a released vault is refused.
    let new_beneficiary = account("new beneficiary");
    assert_eq!(
        vault.update_beneficiary(new_beneficiary),
        Err(VaultError::AlreadyReleased)
    );
}

#[test]
fn test_update_beneficiary_while_locked_near_expiry() {
    let (_, _, _, mut vault) = setup();

    // Just before expiry the vault is still locked.
    assert!(!vault.is_expired(86399));

    let new_beneficiary = account("new beneficiary");
    vault.update_beneficiary(new_beneficiary.clone()).unwrap();
    assert_eq!(vault.beneficiary, new_beneficiary);
}

#[test]
fn test_trigger_release_emits_event() {
    let (_, beneficiary, _, mut vault) = setup();
    let vault_id = next_vault_id(0).unwrap();

    let events = vault.trigger_release(vault_id, 90000).unwrap();
    assert_eq!(events.len(), 1);
    let event = &events[0];
    assert_eq!(event.vault_id, vault_id);
    assert_eq!(event.beneficiary, beneficiary);
    assert_eq!(event.amount, 0); // no deposit was made
    assert_eq!(vault.status, ReleaseStatus::Released);
}
