use vstd::prelude::*;

use crate::account::AccountId;
use crate::vesting::VestingSchedule;
use crate::split::{
    amounts_total, bps_total, is_split_of, lemma_bps_total_remove, lemma_split_pays_out_balance,
    split_release, total_bps,
};
use crate::types::{
    BeneficiaryEntry, IntervalBounds, ReleaseCondition, ReleaseEvent, ReleaseStatus, VaultError,
    EXPIRY_WARNING_THRESHOLD, MAX_CUSTOM_METADATA_LEN, MAX_METADATA_LEN, TOTAL_BPS,
};

verus! {

/// A time-locked vault: its owner checks in within every `check_in_interval` seconds,
/// and once a deadline passes without a check-in, the funds go to the beneficiaries.
pub struct Vault {
    pub owner: AccountId,
    /// Primary beneficiary, which receives everything when `beneficiaries` is empty.
    /// When `beneficiaries` is non-empty, this field is not used on release.
    pub beneficiary: AccountId,
    pub balance: i128,
    /// Seconds allowed between two check-ins.
    pub check_in_interval: u64,
    /// Time of the last check-in.
    pub last_check_in: u64,
    /// Time of the vault's creation.
    pub created_at: u64,
    pub status: ReleaseStatus,
    /// Multi-beneficiary split. Empty means the primary beneficiary receives 100%.
    pub beneficiaries: Vec<BeneficiaryEntry>,
    /// Optional short metadata: the bytes of a label or an IPFS hash.
    pub metadata: Vec<u8>,
    /// Token in which the vault holds its funds.
    pub token_address: AccountId,
    /// Custom metadata bytes (at most 2 KiB).
    pub custom_metadata: Vec<u8>,
    /// Whether the vault is paused.
    pub is_paused: bool,
    /// What makes the vault releasable.
    pub release_condition: ReleaseCondition,
    /// Parent vault in an inheritance chain.
    pub parent_vault_id: Option<u64>,
}

/// The error that a vault in `status` answers to any change, when it is no longer locked.
pub open spec fn status_error(status: ReleaseStatus) -> VaultError {
    match status {
        ReleaseStatus::Released => VaultError::AlreadyReleased,
        _ => VaultError::AlreadyCancelled,
    }
}

/// `r` and the vault after a call agree with `expected`: on success the vault is the
/// expected one, and on failure the error is the expected one and the vault is unchanged.
pub open spec fn agrees(
    r: Result<(), VaultError>,
    before: Vault,
    after: Vault,
    expected: Result<Vault, VaultError>,
) -> bool {
    match r {
        Ok(_) => expected == Ok::<Vault, VaultError>(after),
        Err(e) => expected == Err::<Vault, VaultError>(e) && after == before,
    }
}

/// Whether some entry of `entries` has the address `address`.
pub open spec fn has_address(entries: Seq<BeneficiaryEntry>, address: Seq<u8>) -> bool {
    exists|i: int| 0 <= i < entries.len() && (#[trigger] entries[i]).address@ == address
}

/// The index of the first entry of `entries` with address `address`.
pub open spec fn first_with_address(entries: Seq<BeneficiaryEntry>, address: Seq<u8>) -> int {
    choose|i: int|
        0 <= i < entries.len() && (#[trigger] entries[i]).address@ == address && forall|j: int|
            0 <= j < i ==> (#[trigger] entries[j]).address@ != address
}

/// On success the vault after a call differs from the one before only in its
/// beneficiary split, which is the expected one; on failure the error is the expected
/// one and the vault is unchanged.
pub open spec fn agrees_on_split(
    r: Result<(), VaultError>,
    before: Vault,
    after: Vault,
    expected: Result<Seq<BeneficiaryEntry>, VaultError>,
) -> bool {
    match r {
        Ok(_) => {
            &&& expected == Ok::<Seq<BeneficiaryEntry>, VaultError>(after.beneficiaries@)
            &&& after == (Vault { beneficiaries: after.beneficiaries, ..before })
        },
        Err(e) => expected == Err::<Seq<BeneficiaryEntry>, VaultError>(e) && after == before,
    }
}

/// No address appears twice among `entries`.
pub open spec fn distinct_addresses(entries: Seq<BeneficiaryEntry>) -> bool {
    forall|i: int, j: int|
        0 <= i < j < entries.len() ==> (#[trigger] entries[i]).address@ != (#[trigger] entries[j]).address@
}

/// Taking an entry out keeps the addresses distinct.
proof fn lemma_remove_keeps_distinct(entries: Seq<BeneficiaryEntry>, k: int)
    requires
        0 <= k < entries.len(),
        distinct_addresses(entries),
    ensures
        distinct_addresses(entries.remove(k)),
{
    let r = entries.remove(k);
    assert forall|i: int, j: int| 0 <= i < j < r.len() implies (#[trigger] r[i]).address@ != (
    #[trigger] r[j]).address@ by {
        let ii = if i < k { i } else { i + 1 };
        let jj = if j < k { j } else { j + 1 };
        assert(r[i] == entries[ii]);
        assert(r[j] == entries[jj]);
        assert(entries[ii].address@ != entries[jj].address@);
    }
}

/// Whether some address appears twice among `entries`.
fn has_duplicate_address(entries: &Vec<BeneficiaryEntry>) -> (r: bool)
    ensures
        r == !distinct_addresses(entries@),
{
    let n = entries.len();
    let mut j: usize = 0;
    while j < n
        invariant
            n == entries@.len(),
            j <= n,
            distinct_addresses(entries@.take(j as int)),
        decreases n - j,
    {
        let mut i: usize = 0;
        while i < j
            invariant
                n == entries@.len(),
                i <= j < n,
                forall|k: int| 0 <= k < i ==> entries@[k].address@ != entries@[j as int].address@,
            decreases j - i,
        {
            if entries[i].address.same(&entries[j].address) {
                assert(!distinct_addresses(entries@)) by {
                    assert(entries@[i as int].address@ == entries@[j as int].address@);
                }
                return true;
            }
            i = i + 1;
        }
        assert(distinct_addresses(entries@.take(j + 1))) by {
            let t = entries@.take(j + 1);
            assert forall|a: int, b: int| 0 <= a < b < t.len() implies (#[trigger] t[a]).address@
                != (#[trigger] t[b]).address@ by {
                if b < j {
                    assert(entries@.take(j as int)[a] == t[a]);
                    assert(entries@.take(j as int)[b] == t[b]);
                }
            }
        }
        j = j + 1;
    }
    assert(entries@.take(n as int) =~= entries@);
    false
}

impl Vault {
    /// The invariant that every operation keeps: the balance is never negative, the
    /// beneficiary split never stands for more than 100%, and no address appears twice in it.
    pub open spec fn wf(&self) -> bool {
        &&& self.balance >= 0
        &&& bps_total(self.beneficiaries@) <= TOTAL_BPS
        &&& distinct_addresses(self.beneficiaries@)
    }

    /// The time at which the vault expires unless its owner checks in.
    pub open spec fn deadline(&self) -> int {
        self.last_check_in + self.check_in_interval
    }

    /// Whether the vault has expired at time `now`.
    pub open spec fn expired_at(&self, now: int) -> bool {
        now >= self.deadline()
    }

    /// Seconds left before expiry at time `now`: zero once expired, and capped at the
    /// largest `u64`.
    pub open spec fn time_left(&self, now: int) -> int {
        if now >= self.deadline() {
            0
        } else if self.deadline() - now > u64::MAX {
            u64::MAX as int
        } else {
            self.deadline() - now
        }
    }

    /// The vault after an owner's check-in at `now`.
    pub open spec fn checked_in(self, caller: Seq<u8>, now: u64) -> Result<Vault, VaultError> {
        if caller != self.owner@ {
            Err(VaultError::NotOwner)
        } else if !(self.status is Locked) {
            Err(status_error(self.status))
        } else {
            Ok(Vault { last_check_in: now, ..self })
        }
    }

    /// The vault after a deposit of `amount`.
    pub open spec fn deposited(self, amount: int) -> Result<Vault, VaultError> {
        if amount <= 0 {
            Err(VaultError::InvalidAmount)
        } else if !(self.status is Locked) {
            Err(status_error(self.status))
        } else if self.balance + amount > i128::MAX {
            Err(VaultError::BalanceOverflow)
        } else {
            Ok(Vault { balance: (self.balance + amount) as i128, ..self })
        }
    }

    /// The vault after its owner withdraws `amount`.
    pub open spec fn withdrawn(self, amount: int) -> Result<Vault, VaultError> {
        if amount <= 0 {
            Err(VaultError::InvalidAmount)
        } else if !(self.status is Locked) {
            Err(status_error(self.status))
        } else if amount > self.balance {
            Err(VaultError::InsufficientBalance)
        } else {
            Ok(Vault { balance: (self.balance - amount) as i128, ..self })
        }
    }

    /// The vault after its primary beneficiary is replaced by `new_beneficiary`.
    pub open spec fn beneficiary_updated(self, new_beneficiary: AccountId) -> Result<
        Vault,
        VaultError,
    > {
        if !(self.status is Locked) {
            Err(status_error(self.status))
        } else {
            Ok(Vault { beneficiary: new_beneficiary, ..self })
        }
    }

    /// The vault after it is paused (`paused`) or resumed (`!paused`).
    pub open spec fn pause_set(self, paused: bool) -> Result<Vault, VaultError> {
        if !(self.status is Locked) {
            Err(status_error(self.status))
        } else {
            Ok(Vault { is_paused: paused, ..self })
        }
    }

    /// The key under which the owner index lists this vault.
    pub open spec fn owner_key(self) -> Option<Seq<u8>> {
        Some(self.owner@)
    }

    /// The key under which the beneficiary index lists this vault: its primary
    /// beneficiary, and none once the vault is cancelled.
    pub open spec fn beneficiary_key(self) -> Option<Seq<u8>> {
        if self.status is Cancelled {
            None
        } else {
            Some(self.beneficiary@)
        }
    }

    /// The vault after its ownership passes to `new_owner`.
    pub open spec fn ownership_transferred(self, new_owner: AccountId) -> Result<Vault, VaultError> {
        if !(self.status is Locked) {
            Err(status_error(self.status))
        } else {
            Ok(Vault { owner: new_owner, ..self })
        }
    }

    /// The vault after its beneficiary split is replaced by `entries`.
    pub open spec fn beneficiaries_set(self, entries: Vec<BeneficiaryEntry>) -> Result<
        Vault,
        VaultError,
    > {
        if !(self.status is Locked) {
            Err(status_error(self.status))
        } else if has_address(entries@, self.owner@) {
            Err(VaultError::InvalidBeneficiary)
        } else if !distinct_addresses(entries@) {
            Err(VaultError::DuplicateBeneficiary)
        } else if bps_total(entries@) != TOTAL_BPS {
            Err(VaultError::InvalidBps)
        } else {
            Ok(Vault { beneficiaries: entries, ..self })
        }
    }

    /// The vault after its check-in interval is set to `interval`, under `bounds`.
    pub open spec fn interval_updated(self, interval: u64, bounds: IntervalBounds) -> Result<
        Vault,
        VaultError,
    > {
        if !(self.status is Locked) {
            Err(status_error(self.status))
        } else if !bounds.admits(interval) {
            Err(VaultError::InvalidInterval)
        } else {
            Ok(Vault { check_in_interval: interval, ..self })
        }
    }

    /// The vault after its metadata is set to `metadata`.
    pub open spec fn metadata_set(self, metadata: Vec<u8>) -> Result<Vault, VaultError> {
        if !(self.status is Locked) {
            Err(status_error(self.status))
        } else if metadata@.len() > MAX_METADATA_LEN {
            Err(VaultError::MetadataTooLong)
        } else {
            Ok(Vault { metadata: metadata, ..self })
        }
    }

    /// The vault after its custom metadata is set to `data`.
    pub open spec fn custom_metadata_set(self, data: Vec<u8>) -> Result<Vault, VaultError> {
        if !(self.status is Locked) {
            Err(status_error(self.status))
        } else if data@.len() > MAX_CUSTOM_METADATA_LEN {
            Err(VaultError::MetadataTooLong)
        } else {
            Ok(Vault { custom_metadata: data, ..self })
        }
    }

    /// The beneficiary split after `entry` is added to it.
    pub open spec fn beneficiary_added(self, entry: BeneficiaryEntry) -> Result<
        Seq<BeneficiaryEntry>,
        VaultError,
    > {
        if !(self.status is Locked) {
            Err(status_error(self.status))
        } else if entry.address@ == self.owner@ {
            Err(VaultError::InvalidBeneficiary)
        } else if has_address(self.beneficiaries@, entry.address@) {
            Err(VaultError::DuplicateBeneficiary)
        } else if bps_total(self.beneficiaries@) + entry.bps > TOTAL_BPS {
            Err(VaultError::InvalidBps)
        } else {
            Ok(self.beneficiaries@.push(entry))
        }
    }

    /// The beneficiary split after the entry with address `address` is taken out of it.
    pub open spec fn beneficiary_removed(self, address: Seq<u8>) -> Result<
        Seq<BeneficiaryEntry>,
        VaultError,
    > {
        if !(self.status is Locked) {
            Err(status_error(self.status))
        } else if !has_address(self.beneficiaries@, address) {
            Err(VaultError::BeneficiaryNotFound)
        } else {
            Ok(self.beneficiaries@.remove(first_with_address(self.beneficiaries@, address)))
        }
    }

    /// The payments that paying `amount` out of the vault makes, as vault `vault_id`:
    /// everything to the primary beneficiary when there is no split, else the split of
    /// `amount`.
    pub open spec fn is_payout_of(self, events: Seq<ReleaseEvent>, vault_id: u64, amount: int) -> bool {
        if self.beneficiaries@.len() == 0 {
            &&& events.len() == 1
            &&& events[0].vault_id == vault_id
            &&& events[0].beneficiary@ == self.beneficiary@
            &&& events[0].amount == amount
        } else {
            is_split_of(events, vault_id, self.beneficiaries@, amount)
        }
    }

    /// The payments that releasing the vault makes, as vault `vault_id`: its whole
    /// balance, paid out as `is_payout_of` says.
    pub open spec fn is_release_of(self, events: Seq<ReleaseEvent>, vault_id: u64) -> bool {
        self.is_payout_of(events, vault_id, self.balance as int)
    }

    /// The vault after it is made part of an inheritance chain under vault `parent_id`,
    /// as vault `vault_id`.
    pub open spec fn parent_set(self, vault_id: u64, parent_id: u64) -> Result<Vault, VaultError> {
        if !(self.status is Locked) {
            Err(status_error(self.status))
        } else if parent_id == vault_id {
            Err(VaultError::InvalidParent)
        } else {
            Ok(Vault { parent_vault_id: Some(parent_id), ..self })
        }
    }
}

/// The error that `status` calls for, or success when the vault is still locked.
fn require_locked(status: ReleaseStatus) -> (r: Result<(), VaultError>)
    ensures
        r is Ok <==> status is Locked,
        r is Err ==> r == Err::<(), VaultError>(status_error(status)),
{
    match status {
        ReleaseStatus::Locked => Ok(()),
        ReleaseStatus::Released => Err(VaultError::AlreadyReleased),
        ReleaseStatus::Cancelled => Err(VaultError::AlreadyCancelled),
    }
}

/// The index of the first entry with address `address`, if any.
fn find_address(entries: &Vec<BeneficiaryEntry>, address: &AccountId) -> (r: Option<usize>)
    ensures
        r is None <==> !has_address(entries@, address@),
        r matches Some(i) ==> {
            &&& i < entries@.len()
            &&& entries@[i as int].address@ == address@
            &&& forall|j: int| 0 <= j < i ==> (#[trigger] entries@[j]).address@ != address@
        },
{
    let n = entries.len();
    let mut i: usize = 0;
    while i < n
        invariant
            n == entries@.len(),
            i <= n,
            forall|j: int| 0 <= j < i ==> (#[trigger] entries@[j]).address@ != address@,
        decreases n - i,
    {
        if entries[i].address.same(address) {
            return Some(i);
        }
        i = i + 1;
    }
    None
}


impl Vault {
    /// Opens a locked, empty vault at time `now`. The owner may not be its own
    /// beneficiary, and the check-in interval must lie within `bounds`.
    pub fn new(
        owner: AccountId,
        beneficiary: AccountId,
        check_in_interval: u64,
        token_address: AccountId,
        now: u64,
        bounds: &IntervalBounds,
    ) -> (r: Result<Vault, VaultError>)
        ensures
            !bounds.admits(check_in_interval) ==> r == Err::<Vault, VaultError>(
                VaultError::InvalidInterval,
            ),
            bounds.admits(check_in_interval) && owner@ == beneficiary@ ==> r == Err::<
                Vault,
                VaultError,
            >(VaultError::InvalidBeneficiary),
            r is Ok <==> bounds.admits(check_in_interval) && owner@ != beneficiary@,
            r matches Ok(v) ==> {
                &&& v.owner == owner
                &&& v.beneficiary == beneficiary
                &&& v.balance == 0
                &&& v.check_in_interval == check_in_interval
                &&& v.last_check_in == now
                &&& v.created_at == now
                &&& v.status == ReleaseStatus::Locked
                &&& v.beneficiaries@.len() == 0
                &&& v.metadata@.len() == 0
                &&& v.token_address == token_address
                &&& v.custom_metadata@.len() == 0
                &&& !v.is_paused
                &&& v.release_condition == ReleaseCondition::OnExpiry
                &&& v.parent_vault_id is None
                &&& v.wf()
            },
    {
        if !bounds.allows(check_in_interval) {
            return Err(VaultError::InvalidInterval);
        }
        if owner.same(&beneficiary) {
            return Err(VaultError::InvalidBeneficiary);
        }
        Ok(Vault {
            owner,
            beneficiary,
            balance: 0,
            check_in_interval,
            last_check_in: now,
            created_at: now,
            status: ReleaseStatus::Locked,
            beneficiaries: Vec::new(),
            metadata: Vec::new(),
            token_address,
            custom_metadata: Vec::new(),
            is_paused: false,
            release_condition: ReleaseCondition::OnExpiry,
            parent_vault_id: None,
        })
    }

    /// Whether the vault satisfies `wf`: a non-negative balance, and a beneficiary split of
    /// at most 10_000 basis points that names no address twice.
    pub fn is_well_formed(&self) -> (r: bool)
        ensures
            r == self.wf(),
    {
        self.balance >= 0 && total_bps(&self.beneficiaries) <= TOTAL_BPS as u128
            && !has_duplicate_address(&self.beneficiaries)
    }

    /// Whether the vault has expired at time `now`: the owner has not checked in within
    /// `check_in_interval` seconds of the last check-in.
    pub fn is_expired(&self, now: u64) -> (r: bool)
        ensures
            r == self.expired_at(now as int),
    {
        (now as u128) >= (self.last_check_in as u128) + (self.check_in_interval as u128)
    }

    /// Seconds left before the vault expires, zero once it has expired.
    pub fn get_ttl_remaining(&self, now: u64) -> (r: u64)
        ensures
            r == self.time_left(now as int),
    {
        let deadline = (self.last_check_in as u128) + (self.check_in_interval as u128);
        let now_wide = now as u128;
        if now_wide >= deadline {
            0
        } else {
            let left = deadline - now_wide;
            if left > u64::MAX as u128 {
                u64::MAX
            } else {
                left as u64
            }
        }
    }

    /// Whether an expiry ping at `now` reports the vault: less than
    /// `EXPIRY_WARNING_THRESHOLD` seconds are left.
    pub fn needs_expiry_warning(&self, now: u64) -> (r: bool)
        ensures
            r == (self.time_left(now as int) < EXPIRY_WARNING_THRESHOLD),
    {
        self.get_ttl_remaining(now) < EXPIRY_WARNING_THRESHOLD
    }

    /// The owner checks in at `now`, which restarts the countdown.
    pub fn check_in(&mut self, caller: &AccountId, now: u64) -> (r: Result<(), VaultError>)
        ensures
            agrees(r, *old(self), *final(self), old(self).checked_in(caller@, now)),
            old(self).wf() ==> final(self).wf(),
    {
        if !caller.same(&self.owner) {
            return Err(VaultError::NotOwner);
        }
        require_locked(self.status)?;
        self.last_check_in = now;
        Ok(())
    }

    /// Adds `amount` to the vault's balance.
    pub fn deposit(&mut self, amount: i128) -> (r: Result<(), VaultError>)
        ensures
            agrees(r, *old(self), *final(self), old(self).deposited(amount as int)),
            old(self).wf() ==> final(self).wf(),
    {
        if amount <= 0 {
            return Err(VaultError::InvalidAmount);
        }
        require_locked(self.status)?;
        if self.balance > i128::MAX - amount {
            return Err(VaultError::BalanceOverflow);
        }
        self.balance = self.balance + amount;
        Ok(())
    }

    /// Takes `amount` out of the vault's balance for its owner.
    pub fn withdraw(&mut self, amount: i128) -> (r: Result<(), VaultError>)
        ensures
            agrees(r, *old(self), *final(self), old(self).withdrawn(amount as int)),
            old(self).wf() ==> final(self).wf(),
    {
        if amount <= 0 {
            return Err(VaultError::InvalidAmount);
        }
        require_locked(self.status)?;
        if amount > self.balance {
            return Err(VaultError::InsufficientBalance);
        }
        self.balance = self.balance - amount;
        Ok(())
    }

    /// Replaces the primary beneficiary.
    pub fn update_beneficiary(&mut self, new_beneficiary: AccountId) -> (r: Result<(), VaultError>)
        ensures
            agrees(r, *old(self), *final(self), old(self).beneficiary_updated(new_beneficiary)),
            old(self).wf() ==> final(self).wf(),
    {
        require_locked(self.status)?;
        self.beneficiary = new_beneficiary;
        Ok(())
    }

    /// Pauses the vault: while paused it cannot be released.
    pub fn pause_vault(&mut self) -> (r: Result<(), VaultError>)
        ensures
            agrees(r, *old(self), *final(self), old(self).pause_set(true)),
            old(self).wf() ==> final(self).wf(),
    {
        require_locked(self.status)?;
        self.is_paused = true;
        Ok(())
    }

    /// Resumes a paused vault.
    pub fn resume_vault(&mut self) -> (r: Result<(), VaultError>)
        ensures
            agrees(r, *old(self), *final(self), old(self).pause_set(false)),
            old(self).wf() ==> final(self).wf(),
    {
        require_locked(self.status)?;
        self.is_paused = false;
        Ok(())
    }

    /// The account whose owner index lists this vault.
    pub fn owner_index_key(&self) -> (r: AccountId)
        ensures
            Some(r@) == self.owner_key(),
    {
        self.owner.duplicate()
    }

    /// The account whose beneficiary index lists this vault, if any.
    pub fn beneficiary_index_key(&self) -> (r: Option<AccountId>)
        ensures
            r is None <==> self.beneficiary_key() is None,
            r matches Some(a) ==> self.beneficiary_key() == Some(a@),
    {
        match self.status {
            ReleaseStatus::Cancelled => None,
            _ => Some(self.beneficiary.duplicate()),
        }
    }

    /// Claims the next installment of `schedule` at time `now` and pays it out of the
    /// vault's balance; its amount, due to the primary beneficiary, is returned.
    pub fn claim_vested_installment(&mut self, schedule: &mut VestingSchedule, now: u64) -> (r:
        Result<i128, VaultError>)
        requires
            old(schedule).wf(),
        ensures
            !(old(self).status is Locked) ==> r == Err::<i128, VaultError>(
                status_error(old(self).status),
            ),
            old(self).status is Locked && old(schedule).claimed_installments
                == old(schedule).num_installments ==> r == Err::<i128, VaultError>(
                VaultError::VestingComplete,
            ),
            old(self).status is Locked && old(schedule).claimed_installments
                < old(schedule).num_installments && old(schedule).unlocked_at(now as int)
                <= old(schedule).claimed_installments ==> r == Err::<i128, VaultError>(
                VaultError::InstallmentNotDue,
            ),
            old(self).status is Locked && old(schedule).claimed_installments < old(
                schedule,
            ).unlocked_at(now as int) && old(schedule).installment(
                old(schedule).claimed_installments as int,
            ) > old(self).balance ==> r == Err::<i128, VaultError>(VaultError::InsufficientBalance),
            r is Ok <==> old(self).status is Locked && old(schedule).claimed_installments < old(
                schedule,
            ).unlocked_at(now as int) && old(schedule).installment(
                old(schedule).claimed_installments as int,
            ) <= old(self).balance,
            r is Err ==> *final(self) == *old(self) && *final(schedule) == *old(schedule),
            r matches Ok(amount) ==> {
                &&& amount == old(schedule).installment(old(schedule).claimed_installments as int)
                &&& *final(schedule) == (VestingSchedule {
                    claimed_installments: (old(schedule).claimed_installments + 1) as u32,
                    ..*old(schedule)
                })
                &&& *final(self) == (Vault {
                    balance: (old(self).balance - amount) as i128,
                    ..*old(self)
                })
            },
            final(schedule).wf(),
            old(self).wf() ==> final(self).wf(),
    {
        require_locked(self.status)?;
        if schedule.claimed_installments == schedule.num_installments {
            return Err(VaultError::VestingComplete);
        }
        if schedule.unlocked_installments(now) <= schedule.claimed_installments {
            return Err(VaultError::InstallmentNotDue);
        }
        let due = schedule.installment_amount(schedule.claimed_installments);
        if due > self.balance {
            return Err(VaultError::InsufficientBalance);
        }
        let amount = match schedule.claim_installment(now) {
            Ok(a) => a,
            Err(e) => {
                return Err(e);
            },
        };
        self.balance = self.balance - amount;
        Ok(amount)
    }

    /// Hands the vault to a new owner.
    pub fn transfer_ownership(&mut self, new_owner: AccountId) -> (r: Result<(), VaultError>)
        ensures
            agrees(r, *old(self), *final(self), old(self).ownership_transferred(new_owner)),
            old(self).wf() ==> final(self).wf(),
    {
        require_locked(self.status)?;
        self.owner = new_owner;
        Ok(())
    }

    /// Replaces the beneficiary split; the entries must not name the owner, must not
    /// name an address twice, and must sum to exactly 10_000 basis points.
    pub fn set_beneficiaries(&mut self, entries: Vec<BeneficiaryEntry>) -> (r: Result<
        (),
        VaultError,
    >)
        ensures
            agrees(r, *old(self), *final(self), old(self).beneficiaries_set(entries)),
            old(self).wf() ==> final(self).wf(),
    {
        require_locked(self.status)?;
        if find_address(&entries, &self.owner).is_some() {
            return Err(VaultError::InvalidBeneficiary);
        }
        if has_duplicate_address(&entries) {
            return Err(VaultError::DuplicateBeneficiary);
        }
        if total_bps(&entries) != TOTAL_BPS as u128 {
            return Err(VaultError::InvalidBps);
        }
        self.beneficiaries = entries;
        Ok(())
    }

    /// Sets the check-in interval; it must lie within `bounds`.
    pub fn update_check_in_interval(&mut self, interval: u64, bounds: &IntervalBounds) -> (r:
        Result<(), VaultError>)
        ensures
            agrees(r, *old(self), *final(self), old(self).interval_updated(interval, *bounds)),
            old(self).wf() ==> final(self).wf(),
    {
        require_locked(self.status)?;
        if !bounds.allows(interval) {
            return Err(VaultError::InvalidInterval);
        }
        self.check_in_interval = interval;
        Ok(())
    }

    /// Sets the metadata; it may hold at most `MAX_METADATA_LEN` bytes.
    pub fn set_metadata(&mut self, metadata: Vec<u8>) -> (r: Result<(), VaultError>)
        ensures
            agrees(r, *old(self), *final(self), old(self).metadata_set(metadata)),
            old(self).wf() ==> final(self).wf(),
    {
        require_locked(self.status)?;
        if metadata.len() > MAX_METADATA_LEN as usize {
            return Err(VaultError::MetadataTooLong);
        }
        self.metadata = metadata;
        Ok(())
    }

    /// Sets the custom metadata; it may hold at most `MAX_CUSTOM_METADATA_LEN` bytes.
    pub fn set_custom_metadata(&mut self, data: Vec<u8>) -> (r: Result<(), VaultError>)
        ensures
            agrees(r, *old(self), *final(self), old(self).custom_metadata_set(data)),
            old(self).wf() ==> final(self).wf(),
    {
        require_locked(self.status)?;
        if data.len() > MAX_CUSTOM_METADATA_LEN as usize {
            return Err(VaultError::MetadataTooLong);
        }
        self.custom_metadata = data;
        Ok(())
    }

    /// Adds one entry to the beneficiary split. The entry may not name the owner or an
    /// address already in the split, and the split may not exceed 10_000 basis points.
    pub fn add_beneficiary(&mut self, entry: BeneficiaryEntry) -> (r: Result<(), VaultError>)
        ensures
            agrees_on_split(r, *old(self), *final(self), old(self).beneficiary_added(entry)),
            old(self).wf() ==> final(self).wf(),
    {
        require_locked(self.status)?;
        if entry.address.same(&self.owner) {
            return Err(VaultError::InvalidBeneficiary);
        }
        if find_address(&self.beneficiaries, &entry.address).is_some() {
            return Err(VaultError::DuplicateBeneficiary);
        }
        let current = total_bps(&self.beneficiaries);
        if entry.bps > TOTAL_BPS || current > (TOTAL_BPS - entry.bps) as u128 {
            return Err(VaultError::InvalidBps);
        }
        proof {
            assert(self.beneficiaries@.push(entry).drop_last() =~= self.beneficiaries@);
        }
        self.beneficiaries.push(entry);
        Ok(())
    }

    /// Takes the entry with address `address` out of the beneficiary split.
    pub fn remove_beneficiary(&mut self, address: &AccountId) -> (r: Result<(), VaultError>)
        ensures
            agrees_on_split(r, *old(self), *final(self), old(self).beneficiary_removed(address@)),
            old(self).wf() ==> final(self).wf(),
    {
        require_locked(self.status)?;
        match find_address(&self.beneficiaries, address) {
            None => Err(VaultError::BeneficiaryNotFound),
            Some(i) => {
                proof {
                    let k = first_with_address(self.beneficiaries@, address@);
                    assert(0 <= k < self.beneficiaries@.len() && self.beneficiaries@[k].address@
                        == address@);
                    if k < i {
                        assert(self.beneficiaries@[k].address@ != address@);
                    }
                    if i < k {
                        assert(self.beneficiaries@[i as int].address@ != address@);
                    }
                    assert(k == i);
                    lemma_bps_total_remove(self.beneficiaries@, i as int);
                    if distinct_addresses(self.beneficiaries@) {
                        lemma_remove_keeps_distinct(self.beneficiaries@, i as int);
                    }
                }
                self.beneficiaries.remove(i);
                Ok(())
            },
        }
    }

    /// The payments that paying `amount` out of the vault makes, as vault `vault_id`.
    pub fn payouts(&self, vault_id: u64, amount: i128) -> (r: Vec<ReleaseEvent>)
        requires
            self.wf(),
            amount >= 0,
        ensures
            self.is_payout_of(r@, vault_id, amount as int),
            amounts_total(r@) == amount,
    {
        if self.beneficiaries.len() == 0 {
            let r = vec![
                ReleaseEvent {
                    vault_id,
                    beneficiary: self.beneficiary.duplicate(),
                    amount,
                },
            ];
            proof {
                assert(r@.len() == 1);
                assert(r@.drop_last() =~= Seq::<ReleaseEvent>::empty());
                assert(amounts_total(r@) == amounts_total(r@.drop_last()) + r@.last().amount);
            }
            r
        } else {
            split_release(vault_id, &self.beneficiaries, amount)
        }
    }

    /// Pays `amount`, part of the balance of an expired vault, to its beneficiaries as
    /// vault `vault_id` at time `now`; the vault stays locked with the rest.
    pub fn partial_release(&mut self, vault_id: u64, amount: i128, now: u64) -> (r: Result<
        Vec<ReleaseEvent>,
        VaultError,
    >)
        requires
            old(self).wf(),
        ensures
            r is Ok <==> old(self).status is Locked && !old(self).is_paused && old(self).expired_at(
                now as int,
            ) && 0 < amount <= old(self).balance,
            !(old(self).status is Locked) ==> r == Err::<Vec<ReleaseEvent>, VaultError>(
                status_error(old(self).status),
            ),
            old(self).status is Locked && old(self).is_paused ==> r == Err::<
                Vec<ReleaseEvent>,
                VaultError,
            >(VaultError::VaultPaused),
            old(self).status is Locked && !old(self).is_paused && !old(self).expired_at(now as int)
                ==> r == Err::<Vec<ReleaseEvent>, VaultError>(VaultError::NotExpired),
            old(self).status is Locked && !old(self).is_paused && old(self).expired_at(now as int)
                && amount <= 0 ==> r == Err::<Vec<ReleaseEvent>, VaultError>(
                VaultError::InvalidAmount,
            ),
            old(self).status is Locked && !old(self).is_paused && old(self).expired_at(now as int)
                && 0 < amount && amount > old(self).balance ==> r == Err::<
                Vec<ReleaseEvent>,
                VaultError,
            >(VaultError::InsufficientBalance),
            r is Err ==> *final(self) == *old(self),
            r matches Ok(events) ==> {
                &&& old(self).is_payout_of(events@, vault_id, amount as int)
                &&& amounts_total(events@) == amount
                &&& *final(self) == (Vault {
                    balance: (old(self).balance - amount) as i128,
                    ..*old(self)
                })
            },
            final(self).wf(),
    {
        require_locked(self.status)?;
        if self.is_paused {
            return Err(VaultError::VaultPaused);
        }
        if !self.is_expired(now) {
            return Err(VaultError::NotExpired);
        }
        if amount <= 0 {
            return Err(VaultError::InvalidAmount);
        }
        if amount > self.balance {
            return Err(VaultError::InsufficientBalance);
        }
        let events = self.payouts(vault_id, amount);
        self.balance = self.balance - amount;
        Ok(events)
    }

    /// Makes the vault, as vault `vault_id`, part of an inheritance chain under vault
    /// `parent_id`; a vault may not be its own parent.
    pub fn set_parent_vault(&mut self, vault_id: u64, parent_id: u64) -> (r: Result<(), VaultError>)
        ensures
            agrees(r, *old(self), *final(self), old(self).parent_set(vault_id, parent_id)),
            old(self).wf() ==> final(self).wf(),
    {
        require_locked(self.status)?;
        if parent_id == vault_id {
            return Err(VaultError::InvalidParent);
        }
        self.parent_vault_id = Some(parent_id);
        Ok(())
    }

    /// Releases an expired vault as vault `vault_id` at time `now`: its whole balance goes
    /// to the beneficiaries, and the vault is marked released.
    pub fn trigger_release(&mut self, vault_id: u64, now: u64) -> (r: Result<
        Vec<ReleaseEvent>,
        VaultError,
    >)
        requires
            old(self).wf(),
        ensures
            r is Ok <==> old(self).status is Locked && !old(self).is_paused && old(self).expired_at(
                now as int,
            ),
            !(old(self).status is Locked) ==> r == Err::<Vec<ReleaseEvent>, VaultError>(
                status_error(old(self).status),
            ),
            old(self).status is Locked && old(self).is_paused ==> r == Err::<
                Vec<ReleaseEvent>,
                VaultError,
            >(VaultError::VaultPaused),
            old(self).status is Locked && !old(self).is_paused && !old(self).expired_at(now as int)
                ==> r == Err::<Vec<ReleaseEvent>, VaultError>(VaultError::NotExpired),
            r is Err ==> *final(self) == *old(self),
            r matches Ok(events) ==> {
                &&& old(self).is_release_of(events@, vault_id)
                &&& amounts_total(events@) == old(self).balance
                &&& *final(self) == (Vault {
                    status: ReleaseStatus::Released,
                    balance: 0,
                    ..*old(self)
                })
            },
            final(self).wf(),
    {
        require_locked(self.status)?;
        if self.is_paused {
            return Err(VaultError::VaultPaused);
        }
        if !self.is_expired(now) {
            return Err(VaultError::NotExpired);
        }
        let events = self.payouts(vault_id, self.balance);
        self.status = ReleaseStatus::Released;
        self.balance = 0;
        Ok(events)
    }

    /// Cancels a locked vault; its balance, which goes back to the owner, is returned.
    pub fn cancel_vault(&mut self) -> (r: Result<i128, VaultError>)
        ensures
            r is Ok <==> old(self).status is Locked,
            !(old(self).status is Locked) ==> r == Err::<i128, VaultError>(
                status_error(old(self).status),
            ),
            r is Err ==> *final(self) == *old(self),
            r matches Ok(refund) ==> {
                &&& refund == old(self).balance
                &&& *final(self) == (Vault {
                    status: ReleaseStatus::Cancelled,
                    balance: 0,
                    ..*old(self)
                })
            },
            old(self).wf() ==> final(self).wf(),
    {
        require_locked(self.status)?;
        let refund = self.balance;
        self.status = ReleaseStatus::Cancelled;
        self.balance = 0;
        Ok(refund)
    }
}

/// A vault has expired exactly when no time is left before its deadline.
pub proof fn lemma_expired_iff_no_time_left(v: Vault, now: int)
    ensures
        v.expired_at(now) <==> v.time_left(now) == 0,
{
}

/// A check-in at `now` restarts the countdown: right after it the vault is not expired,
/// a whole interval is left, and it expires exactly one interval after `now`.
pub proof fn lemma_check_in_restarts_countdown(v: Vault, caller: Seq<u8>, now: u64, later: int)
    requires
        v.checked_in(caller, now) is Ok,
        v.check_in_interval > 0,
    ensures
        ({
            let w = v.checked_in(caller, now)->Ok_0;
            &&& !w.expired_at(now as int)
            &&& w.time_left(now as int) == v.check_in_interval
            &&& w.expired_at(later) <==> later >= now + v.check_in_interval
        }),
{
}

/// Withdrawing what was just deposited gives back the vault as it was.
pub proof fn lemma_deposit_then_withdraw(v: Vault, amount: int)
    requires
        v.wf(),
        v.deposited(amount) is Ok,
    ensures
        v.deposited(amount)->Ok_0.withdrawn(amount) == Ok::<Vault, VaultError>(v),
{
    let w = v.deposited(amount)->Ok_0;
    assert(w.balance == v.balance + amount);
    assert(w.withdrawn(amount) is Ok);
    let u = w.withdrawn(amount)->Ok_0;
    assert(u.balance == v.balance);
    assert(u == v);
}

/// A released or cancelled vault refuses every change, with the error that its status
/// calls for (a check-in by someone other than the owner is refused as such first).
pub proof fn lemma_settled_vault_refuses_changes(
    v: Vault,
    caller: Seq<u8>,
    now: u64,
    amount: int,
    new_beneficiary: AccountId,
    entries: Vec<BeneficiaryEntry>,
    entry: BeneficiaryEntry,
    address: Seq<u8>,
    interval: u64,
    vault_id: u64,
    parent_id: u64,
    bounds: IntervalBounds,
    metadata: Vec<u8>,
    data: Vec<u8>,
)
    requires
        !(v.status is Locked),
    ensures
        v.checked_in(caller, now) is Err,
        v.checked_in(v.owner@, now) == Err::<Vault, VaultError>(status_error(v.status)),
        amount > 0 ==> v.deposited(amount) == Err::<Vault, VaultError>(status_error(v.status)),
        amount > 0 ==> v.withdrawn(amount) == Err::<Vault, VaultError>(status_error(v.status)),
        v.beneficiary_updated(new_beneficiary) == Err::<Vault, VaultError>(
            status_error(v.status),
        ),
        v.ownership_transferred(new_beneficiary) == Err::<Vault, VaultError>(
            status_error(v.status),
        ),
        v.pause_set(true) == Err::<Vault, VaultError>(status_error(v.status)),
        v.parent_set(vault_id, parent_id) == Err::<Vault, VaultError>(status_error(v.status)),
        v.pause_set(false) == Err::<Vault, VaultError>(status_error(v.status)),
        v.beneficiaries_set(entries) == Err::<Vault, VaultError>(status_error(v.status)),
        v.beneficiary_added(entry) == Err::<Seq<BeneficiaryEntry>, VaultError>(
            status_error(v.status),
        ),
        v.beneficiary_removed(address) == Err::<Seq<BeneficiaryEntry>, VaultError>(
            status_error(v.status),
        ),
        v.interval_updated(interval, bounds) == Err::<Vault, VaultError>(status_error(v.status)),
        v.metadata_set(metadata) == Err::<Vault, VaultError>(status_error(v.status)),
        v.custom_metadata_set(data) == Err::<Vault, VaultError>(status_error(v.status)),
{
}

/// Paying a non-negative amount out of a well-formed vault pays every recipient a
/// non-negative amount and pays out exactly that amount.
pub proof fn lemma_payout_pays_out_amount(
    v: Vault,
    events: Seq<ReleaseEvent>,
    vault_id: u64,
    amount: int,
)
    requires
        v.wf(),
        amount >= 0,
        v.is_payout_of(events, vault_id, amount),
    ensures
        amounts_total(events) == amount,
        forall|i: int| 0 <= i < events.len() ==> (#[trigger] events[i]).amount >= 0,
{
    if v.beneficiaries@.len() == 0 {
        assert(events.drop_last() =~= Seq::<ReleaseEvent>::empty());
        assert(amounts_total(events) == amounts_total(events.drop_last()) + events.last().amount);
    } else {
        lemma_split_pays_out_balance(events, vault_id, v.beneficiaries@, amount);
    }
}

/// Releasing a well-formed vault pays every recipient a non-negative amount and pays out
/// exactly the vault's balance.
pub proof fn lemma_release_pays_out_balance(v: Vault, events: Seq<ReleaseEvent>, vault_id: u64)
    requires
        v.wf(),
        v.is_release_of(events, vault_id),
    ensures
        amounts_total(events) == v.balance,
        forall|i: int| 0 <= i < events.len() ==> (#[trigger] events[i]).amount >= 0,
{
    lemma_payout_pays_out_amount(v, events, vault_id, v.balance as int);
}

/// Which index lists an operation changes. Only a change of primary beneficiary moves
/// the vault between beneficiary lists, only a change of owner moves it between owner
/// lists, and cancellation takes it out of the beneficiary lists; every other operation,
/// full or partial release and any change of the beneficiary split included, keeps both
/// keys.
pub proof fn lemma_index_keys_of_operations(
    v: Vault,
    caller: Seq<u8>,
    now: u64,
    amount: int,
    account: AccountId,
    entries: Vec<BeneficiaryEntry>,
    interval: u64,
    vault_id: u64,
    parent_id: u64,
    bounds: IntervalBounds,
    metadata: Vec<u8>,
    paused: bool,
)
    requires
        v.status is Locked,
    ensures
        v.beneficiary_updated(account) is Ok ==> {
            let w = v.beneficiary_updated(account)->Ok_0;
            w.owner_key() == v.owner_key() && w.beneficiary_key() == Some(account@)
        },
        v.ownership_transferred(account) is Ok ==> {
            let w = v.ownership_transferred(account)->Ok_0;
            w.owner_key() == Some(account@) && w.beneficiary_key() == v.beneficiary_key()
        },
        ({
            let w = Vault { status: ReleaseStatus::Cancelled, balance: 0, ..v };
            w.owner_key() == v.owner_key() && w.beneficiary_key() is None
        }),
        ({
            let w = Vault { status: ReleaseStatus::Released, balance: 0, ..v };
            w.owner_key() == v.owner_key() && w.beneficiary_key() == v.beneficiary_key()
        }),
        v.checked_in(caller, now) is Ok ==> keys_kept(v, v.checked_in(caller, now)->Ok_0),
        v.deposited(amount) is Ok ==> keys_kept(v, v.deposited(amount)->Ok_0),
        v.withdrawn(amount) is Ok ==> keys_kept(v, v.withdrawn(amount)->Ok_0),
        v.beneficiaries_set(entries) is Ok ==> keys_kept(v, v.beneficiaries_set(entries)->Ok_0),
        v.interval_updated(interval, bounds) is Ok ==> keys_kept(
            v,
            v.interval_updated(interval, bounds)->Ok_0,
        ),
        v.metadata_set(metadata) is Ok ==> keys_kept(v, v.metadata_set(metadata)->Ok_0),
        v.custom_metadata_set(metadata) is Ok ==> keys_kept(
            v,
            v.custom_metadata_set(metadata)->Ok_0,
        ),
        v.pause_set(paused) is Ok ==> keys_kept(v, v.pause_set(paused)->Ok_0),
        v.parent_set(vault_id, parent_id) is Ok ==> keys_kept(v, v.parent_set(vault_id, parent_id)->Ok_0),
        keys_kept(v, Vault { balance: (v.balance - amount) as i128, ..v }),
        keys_kept(v, Vault { beneficiaries: entries, ..v }),
{
}

/// `w` is listed under the same owner and beneficiary keys as `v`.
pub open spec fn keys_kept(v: Vault, w: Vault) -> bool {
    w.owner_key() == v.owner_key() && w.beneficiary_key() == v.beneficiary_key()
}

} // verus!
