use vstd::prelude::*;

use crate::account::AccountId;
use crate::split::{bps_total, is_split_of, shares_total};
use crate::types::{BeneficiaryEntry, IntervalBounds, ReleaseEvent, ReleaseStatus, VaultError};
use crate::vault::Vault;
use crate::vesting::{lemma_installments_pay_total, VestingSchedule};

verus! {

/// The error that a vault answers to a change once it is no longer locked: released
/// vaults say so, cancelled ones say so.
pub open spec fn refusal(status: ReleaseStatus) -> VaultError {
    if status == ReleaseStatus::Released {
        VaultError::AlreadyReleased
    } else {
        VaultError::AlreadyCancelled
    }
}

/// The owner can always check in to a locked vault, expired or not: the check-in
/// succeeds, records `now` as the last check-in and changes nothing else. Anyone else
/// is refused as not the owner, and a settled vault refuses the owner too.
pub proof fn law_check_in(v: Vault, caller: Seq<u8>, now: u64)
    ensures
        caller != v.owner@ ==> v.checked_in(caller, now) == Err::<Vault, VaultError>(
            VaultError::NotOwner,
        ),
        caller == v.owner@ && v.status != ReleaseStatus::Locked ==> v.checked_in(caller, now)
            == Err::<Vault, VaultError>(refusal(v.status)),
        caller == v.owner@ && v.status == ReleaseStatus::Locked ==> v.checked_in(caller, now)
            == Ok::<Vault, VaultError>(Vault { last_check_in: now, ..v }),
        v.status == ReleaseStatus::Locked && v.check_in_interval > 0 ==> {
            let w = v.checked_in(v.owner@, now)->Ok_0;
            &&& !w.expired_at(now as int)
            &&& w.last_check_in + w.check_in_interval > now
        },
{
}

/// A deposit into a locked vault succeeds exactly when the amount is positive and the
/// balance stays within `i128`, and then adds the amount to the balance and changes
/// nothing else.
pub proof fn law_deposit(v: Vault, amount: int)
    ensures
        v.deposited(amount) is Ok <==> amount > 0 && v.status == ReleaseStatus::Locked
            && v.balance + amount <= i128::MAX,
        amount <= 0 ==> v.deposited(amount) == Err::<Vault, VaultError>(VaultError::InvalidAmount),
        amount > 0 && v.status != ReleaseStatus::Locked ==> v.deposited(amount) == Err::<
            Vault,
            VaultError,
        >(refusal(v.status)),
        amount > 0 && v.status == ReleaseStatus::Locked && v.balance + amount > i128::MAX
            ==> v.deposited(amount) == Err::<Vault, VaultError>(VaultError::BalanceOverflow),
        v.deposited(amount) is Ok ==> {
            let w = v.deposited(amount)->Ok_0;
            &&& w.balance == v.balance + amount
            &&& w == (Vault { balance: w.balance, ..v })
        },
{
}

/// A withdrawal from a locked vault succeeds exactly when the amount is positive and at
/// most the balance, and then takes the amount off the balance and changes nothing else.
pub proof fn law_withdraw(v: Vault, amount: int)
    ensures
        v.withdrawn(amount) is Ok <==> amount > 0 && v.status == ReleaseStatus::Locked && amount
            <= v.balance,
        amount <= 0 ==> v.withdrawn(amount) == Err::<Vault, VaultError>(VaultError::InvalidAmount),
        amount > 0 && v.status != ReleaseStatus::Locked ==> v.withdrawn(amount) == Err::<
            Vault,
            VaultError,
        >(refusal(v.status)),
        amount > 0 && v.status == ReleaseStatus::Locked && amount > v.balance ==> v.withdrawn(
            amount,
        ) == Err::<Vault, VaultError>(VaultError::InsufficientBalance),
        v.withdrawn(amount) is Ok ==> {
            let w = v.withdrawn(amount)->Ok_0;
            &&& w.balance == v.balance - amount
            &&& w == (Vault { balance: w.balance, ..v })
        },
{
}

/// Replacing the primary beneficiary of a locked vault always succeeds, with any new
/// beneficiary, and changes nothing else; a settled vault refuses.
pub proof fn law_update_beneficiary(v: Vault, new_beneficiary: AccountId)
    ensures
        v.status == ReleaseStatus::Locked ==> v.beneficiary_updated(new_beneficiary) == Ok::<
            Vault,
            VaultError,
        >(Vault { beneficiary: new_beneficiary, ..v }),
        v.status != ReleaseStatus::Locked ==> v.beneficiary_updated(new_beneficiary) == Err::<
            Vault,
            VaultError,
        >(refusal(v.status)),
{
}

/// Handing a locked vault to a new owner always succeeds and changes nothing else; a
/// settled vault refuses.
pub proof fn law_transfer_ownership(v: Vault, new_owner: AccountId)
    ensures
        v.status == ReleaseStatus::Locked ==> v.ownership_transferred(new_owner) == Ok::<
            Vault,
            VaultError,
        >(Vault { owner: new_owner, ..v }),
        v.status != ReleaseStatus::Locked ==> v.ownership_transferred(new_owner) == Err::<
            Vault,
            VaultError,
        >(refusal(v.status)),
{
}

/// Pausing or resuming a locked vault always succeeds, sets the flag and changes nothing
/// else; a settled vault refuses.
pub proof fn law_pause(v: Vault, paused: bool)
    ensures
        v.status == ReleaseStatus::Locked ==> v.pause_set(paused) == Ok::<Vault, VaultError>(
            Vault { is_paused: paused, ..v },
        ),
        v.status != ReleaseStatus::Locked ==> v.pause_set(paused) == Err::<Vault, VaultError>(
            refusal(v.status),
        ),
{
}

/// The check-in interval of a locked vault can be set to exactly the intervals the
/// bounds admit (non-zero, from `min` to `max`), shorter or longer than the current one;
/// nothing else changes.
pub proof fn law_update_check_in_interval(v: Vault, interval: u64, bounds: IntervalBounds)
    ensures
        v.interval_updated(interval, bounds) is Ok <==> v.status == ReleaseStatus::Locked
            && interval > 0 && bounds.min <= interval && interval <= bounds.max,
        v.status != ReleaseStatus::Locked ==> v.interval_updated(interval, bounds) == Err::<
            Vault,
            VaultError,
        >(refusal(v.status)),
        v.status == ReleaseStatus::Locked && !(interval > 0 && bounds.min <= interval && interval
            <= bounds.max) ==> v.interval_updated(interval, bounds) == Err::<Vault, VaultError>(
            VaultError::InvalidInterval,
        ),
        v.interval_updated(interval, bounds) is Ok ==> v.interval_updated(interval, bounds)
            == Ok::<Vault, VaultError>(Vault { check_in_interval: interval, ..v }),
{
}

/// The metadata of a locked vault can be set to any bytes of at most 256 bytes, and the
/// custom metadata to any of at most 2048; nothing else changes.
pub proof fn law_metadata(v: Vault, data: Vec<u8>)
    ensures
        v.metadata_set(data) is Ok <==> v.status == ReleaseStatus::Locked && data@.len() <= 256,
        v.metadata_set(data) is Ok ==> v.metadata_set(data) == Ok::<Vault, VaultError>(
            Vault { metadata: data, ..v },
        ),
        v.status == ReleaseStatus::Locked && data@.len() > 256 ==> v.metadata_set(data) == Err::<
            Vault,
            VaultError,
        >(VaultError::MetadataTooLong),
        v.custom_metadata_set(data) is Ok <==> v.status == ReleaseStatus::Locked && data@.len()
            <= 2048,
        v.custom_metadata_set(data) is Ok ==> v.custom_metadata_set(data) == Ok::<
            Vault,
            VaultError,
        >(Vault { custom_metadata: data, ..v }),
        v.status == ReleaseStatus::Locked && data@.len() > 2048 ==> v.custom_metadata_set(data)
            == Err::<Vault, VaultError>(VaultError::MetadataTooLong),
        v.status != ReleaseStatus::Locked ==> v.metadata_set(data) == Err::<Vault, VaultError>(
            refusal(v.status),
        ) && v.custom_metadata_set(data) == Err::<Vault, VaultError>(refusal(v.status)),
{
}

/// A locked vault joins an inheritance chain under any other vault; it may not be its
/// own parent.
pub proof fn law_parent(v: Vault, vault_id: u64, parent_id: u64)
    ensures
        v.parent_set(vault_id, parent_id) is Ok <==> v.status == ReleaseStatus::Locked
            && parent_id != vault_id,
        v.parent_set(vault_id, parent_id) is Ok ==> v.parent_set(vault_id, parent_id) == Ok::<
            Vault,
            VaultError,
        >(Vault { parent_vault_id: Some(parent_id), ..v }),
        v.status == ReleaseStatus::Locked && parent_id == vault_id ==> v.parent_set(
            vault_id,
            parent_id,
        ) == Err::<Vault, VaultError>(VaultError::InvalidParent),
        v.status != ReleaseStatus::Locked ==> v.parent_set(vault_id, parent_id) == Err::<
            Vault,
            VaultError,
        >(refusal(v.status)),
{
}

/// The split of a locked vault can be replaced by exactly the lists that do not name the
/// owner, name no address twice and sum to 10_000 basis points; the primary beneficiary
/// may well be among them. The new split is the list given, and nothing else changes.
pub proof fn law_set_beneficiaries(v: Vault, entries: Vec<BeneficiaryEntry>)
    ensures
        v.beneficiaries_set(entries) is Ok <==> {
            &&& v.status == ReleaseStatus::Locked
            &&& forall|i: int| 0 <= i < entries@.len() ==> (#[trigger] entries@[i]).address@ != v.owner@
            &&& forall|i: int, j: int|
                0 <= i < j < entries@.len() ==> (#[trigger] entries@[i]).address@ != (
                #[trigger] entries@[j]).address@
            &&& bps_total(entries@) == 10000
        },
        v.beneficiaries_set(entries) is Ok ==> v.beneficiaries_set(entries) == Ok::<
            Vault,
            VaultError,
        >(Vault { beneficiaries: entries, ..v }),
        v.status != ReleaseStatus::Locked ==> v.beneficiaries_set(entries) == Err::<
            Vault,
            VaultError,
        >(refusal(v.status)),
        v.status == ReleaseStatus::Locked && (exists|i: int|
            0 <= i < entries@.len() && (#[trigger] entries@[i]).address@ == v.owner@)
            ==> v.beneficiaries_set(entries) == Err::<Vault, VaultError>(
            VaultError::InvalidBeneficiary,
        ),
{
}

/// An entry can be added to the split of a locked vault exactly when its address is
/// neither the owner's nor already in the split and the split stays within 10_000
/// basis points; the primary beneficiary may well be added. The new split is the old one
/// with the entry appended.
pub proof fn law_add_beneficiary(v: Vault, entry: BeneficiaryEntry)
    ensures
        v.beneficiary_added(entry) is Ok <==> {
            &&& v.status == ReleaseStatus::Locked
            &&& entry.address@ != v.owner@
            &&& forall|i: int|
                0 <= i < v.beneficiaries@.len() ==> (#[trigger] v.beneficiaries@[i]).address@
                    != entry.address@
            &&& bps_total(v.beneficiaries@) + entry.bps <= 10000
        },
        v.beneficiary_added(entry) is Ok ==> v.beneficiary_added(entry) == Ok::<
            Seq<BeneficiaryEntry>,
            VaultError,
        >(v.beneficiaries@.push(entry)),
        v.status != ReleaseStatus::Locked ==> v.beneficiary_added(entry) == Err::<
            Seq<BeneficiaryEntry>,
            VaultError,
        >(refusal(v.status)),
        v.status == ReleaseStatus::Locked && entry.address@ == v.owner@ ==> v.beneficiary_added(
            entry,
        ) == Err::<Seq<BeneficiaryEntry>, VaultError>(VaultError::InvalidBeneficiary),
{
}

/// Removing an address from the split of a locked vault succeeds exactly when the split
/// names it. The new split is the old one with that address's entry taken out: every
/// other entry stays, in order, and when no address appears twice (as in every
/// well-formed vault) the address no longer appears at all.
pub proof fn law_remove_beneficiary(v: Vault, address: Seq<u8>)
    ensures
        v.beneficiary_removed(address) is Ok <==> v.status == ReleaseStatus::Locked && exists|
            i: int,
        |
            0 <= i < v.beneficiaries@.len() && (#[trigger] v.beneficiaries@[i]).address@ == address,
        v.status != ReleaseStatus::Locked ==> v.beneficiary_removed(address) == Err::<
            Seq<BeneficiaryEntry>,
            VaultError,
        >(refusal(v.status)),
        v.status == ReleaseStatus::Locked && (forall|i: int|
            0 <= i < v.beneficiaries@.len() ==> (#[trigger] v.beneficiaries@[i]).address@
                != address) ==> v.beneficiary_removed(address) == Err::<
            Seq<BeneficiaryEntry>,
            VaultError,
        >(VaultError::BeneficiaryNotFound),
        v.beneficiary_removed(address) is Ok ==> {
            let old_split = v.beneficiaries@;
            let new_split = v.beneficiary_removed(address)->Ok_0;
            exists|k: int|
                {
                    &&& 0 <= k < old_split.len()
                    &&& (#[trigger] old_split[k]).address@ == address
                    &&& new_split.len() == old_split.len() - 1
                    &&& forall|j: int| 0 <= j < k ==> new_split[j] == old_split[j]
                    &&& forall|j: int| k < j < old_split.len() ==> new_split[j - 1] == old_split[j]
                }
        },
        v.beneficiary_removed(address) is Ok && (forall|i: int, j: int|
            0 <= i < j < v.beneficiaries@.len() ==> (#[trigger] v.beneficiaries@[i]).address@ != (
            #[trigger] v.beneficiaries@[j]).address@) ==> forall|j: int|
            0 <= j < v.beneficiary_removed(address)->Ok_0.len() ==> (
            #[trigger] v.beneficiary_removed(address)->Ok_0[j]).address@ != address,
{
    let s = v.beneficiaries@;
    if v.status == ReleaseStatus::Locked && exists|i: int|
        0 <= i < s.len() && (#[trigger] s[i]).address@ == address {
        let k = choose|i: int|
            0 <= i < s.len() && (#[trigger] s[i]).address@ == address && forall|j: int|
                0 <= j < i ==> (#[trigger] s[j]).address@ != address;
        lemma_first_match_exists(s, address);
        let r = s.remove(k);
        assert(v.beneficiary_removed(address)->Ok_0 == r);
        assert forall|j: int| 0 <= j < k implies r[j] == s[j] by {}
        assert forall|j: int| k < j < s.len() implies r[j - 1] == s[j] by {}
        if forall|i: int, j: int|
            0 <= i < j < s.len() ==> (#[trigger] s[i]).address@ != (#[trigger] s[j]).address@ {
            assert forall|j: int| 0 <= j < r.len() implies (#[trigger] r[j]).address@ != address by {
                if j < k {
                    assert(s[j].address@ != s[k].address@);
                } else {
                    assert(r[j] == s[j + 1]);
                    assert(s[k].address@ != s[j + 1].address@);
                }
            }
        }
    }
}

/// When some entry has `address`, a first such entry exists.
proof fn lemma_first_match_exists(s: Seq<BeneficiaryEntry>, address: Seq<u8>)
    requires
        exists|i: int| 0 <= i < s.len() && (#[trigger] s[i]).address@ == address,
    ensures
        exists|i: int|
            0 <= i < s.len() && (#[trigger] s[i]).address@ == address && forall|j: int|
                0 <= j < i ==> (#[trigger] s[j]).address@ != address,
    decreases s.len(),
{
    if s[s.len() - 1].address@ == address && forall|j: int|
        0 <= j < s.len() - 1 ==> (#[trigger] s[j]).address@ != address {
        assert(s[s.len() - 1].address@ == address);
    } else if exists|i: int| 0 <= i < s.len() - 1 && (#[trigger] s[i]).address@ == address {
        let t = s.drop_last();
        let w = choose|i: int| 0 <= i < s.len() - 1 && (#[trigger] s[i]).address@ == address;
        assert(t[w].address@ == address);
        lemma_first_match_exists(t, address);
        let k = choose|i: int|
            0 <= i < t.len() && (#[trigger] t[i]).address@ == address && forall|j: int|
                0 <= j < i ==> (#[trigger] t[j]).address@ != address;
        assert(s[k].address@ == address);
        assert forall|j: int| 0 <= j < k implies (#[trigger] s[j]).address@ != address by {
            assert(t[j] == s[j]);
        }
    } else {
        let w = choose|i: int| 0 <= i < s.len() && (#[trigger] s[i]).address@ == address;
        assert(w == s.len() - 1);
    }
}

/// Each entry of a split but the last receives its basis points' part of the amount,
/// rounded down: `amount * bps / 10_000` lies in `[paid, paid + 1)`. The last receives
/// what the others leave.
pub proof fn law_split_is_proportional(
    events: Seq<ReleaseEvent>,
    vault_id: u64,
    entries: Seq<BeneficiaryEntry>,
    amount: int,
)
    requires
        is_split_of(events, vault_id, entries, amount),
        entries.len() > 0,
    ensures
        forall|i: int|
            0 <= i < events.len() - 1 ==> {
                &&& (#[trigger] events[i]).amount * 10000 <= amount * entries[i].bps
                &&& amount * entries[i].bps < (events[i].amount + 1) * 10000
            },
        events[events.len() - 1].amount == amount - shares_total(
            entries.take(entries.len() - 1),
            amount,
        ),
{
    assert forall|i: int| 0 <= i < events.len() - 1 implies {
        &&& (#[trigger] events[i]).amount * 10000 <= amount * entries[i].bps
        &&& amount * entries[i].bps < (events[i].amount + 1) * 10000
    } by {
        let x = amount * entries[i].bps;
        vstd::arithmetic::div_mod::lemma_fundamental_div_mod(x, 10000);
        assert(events[i].amount == x / 10000);
    }
}

/// A vault expires exactly one check-in interval after its last check-in: it is not
/// expired at any earlier time and is expired from then on; before that, the time left
/// is what remains of the interval (capped at the largest `u64`).
pub proof fn law_expiry(v: Vault, now: int)
    ensures
        now < v.last_check_in + v.check_in_interval ==> !v.expired_at(now),
        now >= v.last_check_in + v.check_in_interval ==> v.expired_at(now) && v.time_left(now)
            == 0,
        now < v.last_check_in + v.check_in_interval && v.last_check_in + v.check_in_interval - now
            <= u64::MAX ==> v.time_left(now) == v.last_check_in + v.check_in_interval - now,
        v.expired_at(now) ==> v.expired_at(now + 1),
{
}

/// A vault is listed under its owner, and under its primary beneficiary until it is
/// cancelled.
pub proof fn law_index_keys(v: Vault)
    ensures
        v.owner_key() == Some(v.owner@),
        v.status != ReleaseStatus::Cancelled ==> v.beneficiary_key() == Some(v.beneficiary@),
        v.status == ReleaseStatus::Cancelled ==> v.beneficiary_key() is None,
{
}

/// Every installment but the last is the total divided by the number of installments,
/// rounded down; the last takes the rest, so the installments pay exactly the total.
pub proof fn law_installments(s: VestingSchedule)
    requires
        s.wf(),
    ensures
        forall|k: int|
            0 <= k < s.num_installments - 1 ==> {
                &&& #[trigger] s.installment(k) * s.num_installments <= s.total_amount
                &&& s.total_amount < (s.installment(k) + 1) * s.num_installments
            },
        s.installment(s.num_installments - 1) == s.total_amount - (s.num_installments - 1)
            * s.installment(0),
        s.paid_through(s.num_installments as nat) == s.total_amount,
{
    lemma_installments_pay_total(s);
    let n = s.num_installments as int;
    let t = s.total_amount as int;
    vstd::arithmetic::div_mod::lemma_fundamental_div_mod(t, n);
    if n == 1 {
        assert((n - 1) * s.installment(0) == 0) by (nonlinear_arith)
            requires
                n == 1,
        ;
        assert(s.installment(n - 1) == t - (n - 1) * s.base_installment());
        assert((n - 1) * s.base_installment() == 0) by (nonlinear_arith)
            requires
                n == 1,
        ;
    } else {
        assert(s.installment(0) == s.base_installment());
        assert(s.installment(n - 1) == t - (n - 1) * s.base_installment());
    }
    assert forall|k: int| 0 <= k < n - 1 implies {
        &&& #[trigger] s.installment(k) * s.num_installments <= s.total_amount
        &&& s.total_amount < (s.installment(k) + 1) * s.num_installments
    } by {
        let q = t / n;
        assert(s.installment(k) == q);
        assert(q * n <= t && t < (q + 1) * n) by (nonlinear_arith)
            requires
                t == n * q + t % n,
                0 <= t % n < n,
        ;
    }
}

} // verus!
