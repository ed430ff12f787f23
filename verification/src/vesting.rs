use vstd::prelude::*;

use vstd::arithmetic::div_mod::lemma_fundamental_div_mod;

use crate::types::VaultError;

verus! {

/// A vesting schedule attached to a vault.
/// Funds are released in `num_installments` equal tranches, each separated by `interval`
/// seconds. The first installment becomes claimable at `start_time`.
#[derive(Clone, Copy, Debug, PartialEq, Eq, Structural)]
pub struct VestingSchedule {
    /// Unix timestamp when the first installment becomes claimable.
    pub start_time: u64,
    /// Seconds between consecutive installments.
    pub interval: u64,
    /// Total number of installments.
    pub num_installments: u32,
    /// Number of installments already claimed.
    pub claimed_installments: u32,
    /// Total amount to vest (in stroops). Each installment = total_amount / num_installments,
    /// with the last installment absorbing any remainder.
    pub total_amount: i128,
}

impl VestingSchedule {
    /// What every operation keeps: at least one installment, a non-zero interval, a
    /// total that is not negative, and no more installments claimed than there are.
    pub open spec fn wf(&self) -> bool {
        &&& self.num_installments > 0
        &&& self.interval > 0
        &&& self.total_amount >= 0
        &&& self.claimed_installments <= self.num_installments
    }

    /// The amount of every installment but the last.
    pub open spec fn base_installment(&self) -> int {
        (self.total_amount as int) / (self.num_installments as int)
    }

    /// The amount of installment `k` (counting from zero): the base amount, and for the
    /// last installment also the remainder of the division.
    pub open spec fn installment(&self, k: int) -> int {
        if k == self.num_installments - 1 {
            self.total_amount - (self.num_installments - 1) * self.base_installment()
        } else {
            self.base_installment()
        }
    }

    /// The time at which installment `k` (counting from zero) becomes claimable.
    pub open spec fn unlock_time(&self, k: int) -> int {
        self.start_time + k * self.interval
    }

    /// How many installments are claimable, claimed or not, at time `now`.
    pub open spec fn unlocked_at(&self, now: int) -> int {
        if now < self.start_time {
            0
        } else if (now - self.start_time) / (self.interval as int) + 1 >= self.num_installments {
            self.num_installments as int
        } else {
            (now - self.start_time) / (self.interval as int) + 1
        }
    }

    /// The amount paid by the first `k` installments.
    pub open spec fn paid_through(&self, k: nat) -> int
        decreases k,
    {
        if k == 0 {
            0
        } else {
            self.paid_through((k - 1) as nat) + self.installment(k - 1)
        }
    }

    /// Sets up a schedule that nothing has been claimed from yet. The interval and the
    /// number of installments must be positive, and the total may not be negative.
    pub fn new(start_time: u64, interval: u64, num_installments: u32, total_amount: i128) -> (r:
        Result<VestingSchedule, VaultError>)
        ensures
            interval == 0 ==> r == Err::<VestingSchedule, VaultError>(VaultError::InvalidInterval),
            interval != 0 && num_installments == 0 ==> r == Err::<VestingSchedule, VaultError>(
                VaultError::InvalidInstallments,
            ),
            interval != 0 && num_installments != 0 && total_amount < 0 ==> r == Err::<
                VestingSchedule,
                VaultError,
            >(VaultError::InvalidAmount),
            r is Ok <==> interval != 0 && num_installments != 0 && total_amount >= 0,
            r matches Ok(s) ==> s == (VestingSchedule {
                start_time,
                interval,
                num_installments,
                claimed_installments: 0,
                total_amount,
            }) && s.wf(),
    {
        if interval == 0 {
            return Err(VaultError::InvalidInterval);
        }
        if num_installments == 0 {
            return Err(VaultError::InvalidInstallments);
        }
        if total_amount < 0 {
            return Err(VaultError::InvalidAmount);
        }
        Ok(VestingSchedule {
            start_time,
            interval,
            num_installments,
            claimed_installments: 0,
            total_amount,
        })
    }

    /// Whether the schedule satisfies `wf`.
    pub fn is_well_formed(&self) -> (r: bool)
        ensures
            r == self.wf(),
    {
        self.num_installments > 0 && self.interval > 0 && self.total_amount >= 0
            && self.claimed_installments <= self.num_installments
    }

    /// The amount of installment `k` (counting from zero).
    pub fn installment_amount(&self, k: u32) -> (r: i128)
        requires
            self.wf(),
            k < self.num_installments,
        ensures
            r == self.installment(k as int),
            r >= 0,
    {
        proof {
            lemma_base_installment(*self);
        }
        let n = self.num_installments as u128;
        let base = (self.total_amount as u128) / n;
        if k == self.num_installments - 1 {
            self.total_amount - ((n - 1) * base) as i128
        } else {
            base as i128
        }
    }

    /// How many installments are claimable, claimed or not, at time `now`.
    pub fn unlocked_installments(&self, now: u64) -> (r: u32)
        requires
            self.wf(),
        ensures
            r == self.unlocked_at(now as int),
            r <= self.num_installments,
    {
        if now < self.start_time {
            0
        } else {
            let elapsed = (now - self.start_time) / self.interval;
            if elapsed >= (self.num_installments - 1) as u64 {
                self.num_installments
            } else {
                (elapsed + 1) as u32
            }
        }
    }

    /// Claims the next installment at time `now` and returns its amount.
    pub fn claim_installment(&mut self, now: u64) -> (r: Result<i128, VaultError>)
        requires
            old(self).wf(),
        ensures
            old(self).claimed_installments == old(self).num_installments ==> r == Err::<
                i128,
                VaultError,
            >(VaultError::VestingComplete),
            old(self).claimed_installments < old(self).num_installments && old(self).unlocked_at(
                now as int,
            ) <= old(self).claimed_installments ==> r == Err::<i128, VaultError>(
                VaultError::InstallmentNotDue,
            ),
            r is Ok <==> old(self).claimed_installments < old(self).unlocked_at(now as int),
            r is Err ==> *final(self) == *old(self),
            r matches Ok(amount) ==> {
                &&& amount == old(self).installment(old(self).claimed_installments as int)
                &&& *final(self) == (VestingSchedule {
                    claimed_installments: (old(self).claimed_installments + 1) as u32,
                    ..*old(self)
                })
                &&& old(self).paid_through(final(self).claimed_installments as nat)
                    == old(self).paid_through(old(self).claimed_installments as nat) + amount
            },
            final(self).wf(),
    {
        if self.claimed_installments == self.num_installments {
            return Err(VaultError::VestingComplete);
        }
        if self.unlocked_installments(now) <= self.claimed_installments {
            return Err(VaultError::InstallmentNotDue);
        }
        let amount = self.installment_amount(self.claimed_installments);
        self.claimed_installments = self.claimed_installments + 1;
        Ok(amount)
    }
}

/// The base installment is non-negative and `n` of them fit in the total.
proof fn lemma_base_installment(s: VestingSchedule)
    requires
        s.wf(),
    ensures
        s.base_installment() >= 0,
        s.num_installments * s.base_installment() <= s.total_amount,
        (s.num_installments - 1) * s.base_installment() <= s.total_amount - s.base_installment(),
{
    let n = s.num_installments as int;
    let t = s.total_amount as int;
    lemma_fundamental_div_mod(t, n);
    assert(t / n >= 0) by (nonlinear_arith)
        requires
            t == n * (t / n) + t % n,
            0 <= t % n < n,
            t >= 0,
            n > 0,
    ;
    assert((n - 1) * (t / n) == n * (t / n) - t / n) by (nonlinear_arith);
}

/// Paying all installments of a schedule pays exactly its total amount, and each
/// installment is non-negative.
pub proof fn lemma_installments_pay_total(s: VestingSchedule)
    requires
        s.wf(),
    ensures
        s.paid_through(s.num_installments as nat) == s.total_amount,
        forall|k: int| 0 <= k < s.num_installments ==> #[trigger] s.installment(k) >= 0,
{
    lemma_base_installment(s);
    let n = s.num_installments as nat;
    lemma_paid_through_base(s, (n - 1) as nat);
}

/// Before the last installment, the installments paid add up to a multiple of the base.
proof fn lemma_paid_through_base(s: VestingSchedule, k: nat)
    requires
        s.wf(),
        k < s.num_installments,
    ensures
        s.paid_through(k) == k * s.base_installment(),
    decreases k,
{
    if k > 0 {
        lemma_paid_through_base(s, (k - 1) as nat);
        let b = s.base_installment();
        let j = (k - 1) as nat;
        assert(j * b + b == k * b) by (nonlinear_arith)
            requires
                j == k - 1,
        ;
    } else {
        let b = s.base_installment();
        assert(k * b == 0) by (nonlinear_arith)
            requires
                k == 0,
        ;
    }
}

/// Installment `k` is unlocked at time `now` exactly when its unlock time has come.
pub proof fn lemma_unlocked_iff_due(s: VestingSchedule, now: int, k: int)
    requires
        s.wf(),
        0 <= k < s.num_installments,
    ensures
        k < s.unlocked_at(now) <==> s.unlock_time(k) <= now,
{
    let d = s.interval as int;
    if now >= s.start_time {
        let x = now - s.start_time;
        lemma_fundamental_div_mod(x, d);
        let q = x / d;
        assert(k <= q <==> k * d <= x) by (nonlinear_arith)
            requires
                x == d * q + x % d,
                0 <= x % d < d,
                d > 0,
                k >= 0,
        ;
    } else {
        assert(k * d >= 0) by (nonlinear_arith)
            requires
                k >= 0,
                d > 0,
        ;
    }
}

} // verus!
