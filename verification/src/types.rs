use vstd::prelude::*;

use crate::account::AccountId;

verus! {

/// Warning threshold in seconds. If the time left before a vault expires is
/// below this value, an expiry ping reports it.
pub const EXPIRY_WARNING_THRESHOLD: u64 = 86_400;

/// Maximum length, in bytes, of a vault's metadata string.
pub const MAX_METADATA_LEN: u32 = 256;

/// Maximum length of a vault name.
pub const MAX_NAME_LEN: u32 = 64;

/// Maximum length of a vault description.
pub const MAX_DESCRIPTION_LEN: u32 = 512;

/// Maximum length of vault notes.
pub const MAX_NOTES_LEN: u32 = 1024;

/// Maximum length, in bytes, of a vault's custom metadata (2 KiB).
pub const MAX_CUSTOM_METADATA_LEN: u32 = 2048;

/// Seconds between two ledgers closing.
pub const LEDGER_CLOSE_SECONDS: u64 = 5;

/// The least number of ledgers a vault's stored entry is kept alive for.
pub const VAULT_TTL_LEDGERS: u32 = 200_000;

/// The whole of a vault's funds, in basis points.
pub const TOTAL_BPS: u32 = 10_000;

/// Keys under which the contract keeps its state.
#[derive(Clone, Debug, PartialEq, Eq)]
pub enum DataKey {
    Vault(u64),
    OwnerVaults(AccountId),
    BeneficiaryVaults(AccountId),
    VaultCount,
    TokenAddress,
    Admin,
    Paused,
    PendingAdmin,
    MinCheckInInterval,
    MaxCheckInInterval,
    Version,
    VestingSchedule(u64),
    TokenWhitelist(AccountId),
    VaultMetadata(u64),
    ParentVault(u64),
}

/// Where a vault stands in its life: still waiting, paid out, or withdrawn by its owner.
#[derive(Clone, Copy, Debug, PartialEq, Eq, Structural)]
pub enum ReleaseStatus {
    Locked,
    Released,
    Cancelled,
}

/// What makes a vault's funds releasable.
#[derive(Clone, Debug, PartialEq, Eq)]
pub enum ReleaseCondition {
    OnExpiry,
    OnProof(u32),
    Tranche(Vec<(u64, u32)>),
}

/// One payment made when a vault is released.
#[derive(Clone, Debug, PartialEq, Eq)]
pub struct ReleaseEvent {
    pub vault_id: u64,
    pub beneficiary: AccountId,
    pub amount: i128,
}

/// A single beneficiary entry: an address and its share in basis points.
/// All entries of a vault's beneficiaries must sum to 10_000 bps (100%).
#[derive(Clone, Debug, PartialEq, Eq)]
pub struct BeneficiaryEntry {
    pub address: AccountId,
    pub bps: u32,
}

/// The ways a vault operation can be refused.
#[derive(Clone, Copy, Debug, PartialEq, Eq, Structural)]
pub enum VaultError {
    /// The caller is not the vault's owner.
    NotOwner,
    /// An amount was zero or negative.
    InvalidAmount,
    /// The vault's check-in deadline has not passed yet.
    NotExpired,
    /// The vault has already been released.
    AlreadyReleased,
    /// The vault has been cancelled.
    AlreadyCancelled,
    /// A beneficiary is the owner, or is otherwise not acceptable.
    InvalidBeneficiary,
    /// A beneficiary appears twice.
    DuplicateBeneficiary,
    /// No beneficiary entry has the given address.
    BeneficiaryNotFound,
    /// Basis points do not add up as required.
    InvalidBps,
    /// A check-in or vesting interval of zero.
    InvalidInterval,
    /// A vesting schedule with no installments.
    InvalidInstallments,
    /// A deposit would overflow the vault balance.
    BalanceOverflow,
    /// A withdrawal exceeds the vault balance.
    InsufficientBalance,
    /// Metadata longer than its limit.
    MetadataTooLong,
    /// No further vault identifier can be issued.
    VaultCountOverflow,
    /// Every installment of a vesting schedule has been claimed.
    VestingComplete,
    /// The next installment of a vesting schedule is not claimable yet.
    InstallmentNotDue,
    /// The vault is paused.
    VaultPaused,
    /// The whole contract is paused.
    ContractPaused,
    /// The caller is not the admin, or no admin is set.
    NotAdmin,
    /// The caller is not the proposed admin, or none is proposed.
    NotPendingAdmin,
    /// The admin is already set.
    AlreadyInitialized,
    /// A vault may not be its own parent.
    InvalidParent,
    /// The token is neither the default token nor whitelisted.
    TokenNotWhitelisted,
}

/// The check-in intervals that the contract accepts, from `min` to `max` seconds.
#[derive(Clone, Copy, Debug, PartialEq, Eq, Structural)]
pub struct IntervalBounds {
    pub min: u64,
    pub max: u64,
}

impl IntervalBounds {
    /// Whether `interval` is an acceptable check-in interval: not zero and within bounds.
    pub open spec fn admits(&self, interval: u64) -> bool {
        interval > 0 && self.min <= interval && interval <= self.max
    }

    /// The bounds in force while none has been configured: every non-zero interval.
    pub fn unbounded() -> (r: IntervalBounds)
        ensures
            r == (IntervalBounds { min: 1, max: u64::MAX }),
    {
        IntervalBounds { min: 1, max: u64::MAX }
    }

    /// Whether `interval` is an acceptable check-in interval.
    pub fn allows(&self, interval: u64) -> (r: bool)
        ensures
            r == self.admits(interval),
    {
        interval > 0 && self.min <= interval && interval <= self.max
    }

    /// The bounds with a new minimum, which must be positive and at most the maximum.
    pub fn with_min(&self, min: u64) -> (r: Result<IntervalBounds, VaultError>)
        ensures
            min == 0 || min > self.max ==> r == Err::<IntervalBounds, VaultError>(
                VaultError::InvalidInterval,
            ),
            min > 0 && min <= self.max ==> r == Ok::<IntervalBounds, VaultError>(
                IntervalBounds { min, max: self.max },
            ),
    {
        if min == 0 || min > self.max {
            Err(VaultError::InvalidInterval)
        } else {
            Ok(IntervalBounds { min, max: self.max })
        }
    }

    /// The bounds with a new maximum, which must be at least the minimum.
    pub fn with_max(&self, max: u64) -> (r: Result<IntervalBounds, VaultError>)
        ensures
            max < self.min ==> r == Err::<IntervalBounds, VaultError>(VaultError::InvalidInterval),
            max >= self.min ==> r == Ok::<IntervalBounds, VaultError>(
                IntervalBounds { min: self.min, max },
            ),
    {
        if max < self.min {
            Err(VaultError::InvalidInterval)
        } else {
            Ok(IntervalBounds { min: self.min, max })
        }
    }
}

/// Ledgers that a vault's stored entry is kept alive for: twice the ledgers that its
/// check-in interval spans, at least `VAULT_TTL_LEDGERS`, and at most `max_ttl`.
pub open spec fn ttl_ledgers_for(check_in_interval: u64, max_ttl: u32) -> int {
    let wanted = 2 * (check_in_interval / LEDGER_CLOSE_SECONDS) as int;
    let floor = if wanted < VAULT_TTL_LEDGERS { VAULT_TTL_LEDGERS as int } else { wanted };
    if floor > max_ttl { max_ttl as int } else { floor }
}

/// Ledgers that a vault's stored entry is kept alive for, given the ledger's largest
/// allowed lifetime `max_ttl`.
pub fn vault_ttl_ledgers(check_in_interval: u64, max_ttl: u32) -> (r: u32)
    ensures
        r == ttl_ledgers_for(check_in_interval, max_ttl),
{
    let wanted = (check_in_interval / LEDGER_CLOSE_SECONDS) * 2;
    let floor = if wanted < VAULT_TTL_LEDGERS as u64 { VAULT_TTL_LEDGERS as u64 } else { wanted };
    if floor > max_ttl as u64 {
        max_ttl
    } else {
        floor as u32
    }
}

/// The identifier given to the next vault, when `count` vaults exist: identifiers start at 1.
pub fn next_vault_id(count: u64) -> (r: Result<u64, VaultError>)
    ensures
        count < u64::MAX ==> r == Ok::<u64, VaultError>((count + 1) as u64),
        count == u64::MAX ==> r == Err::<u64, VaultError>(VaultError::VaultCountOverflow),
{
    if count == u64::MAX {
        Err(VaultError::VaultCountOverflow)
    } else {
        Ok(count + 1)
    }
}

} // verus!
