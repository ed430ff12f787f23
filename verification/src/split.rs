use vstd::prelude::*;

use vstd::arithmetic::div_mod::{lemma_fundamental_div_mod, lemma_fundamental_div_mod_converse};

use crate::types::{BeneficiaryEntry, ReleaseEvent, TOTAL_BPS};

verus! {

/// Sum of the basis points of `entries`.
pub open spec fn bps_total(entries: Seq<BeneficiaryEntry>) -> int
    decreases entries.len(),
{
    if entries.len() == 0 {
        0
    } else {
        bps_total(entries.drop_last()) + entries.last().bps
    }
}

/// The part of `balance` that `bps` basis points stand for, rounded down.
pub open spec fn share_of(balance: int, bps: int) -> int {
    balance * bps / 10000
}

/// Sum of the rounded-down shares of `balance` that `entries` stand for.
pub open spec fn shares_total(entries: Seq<BeneficiaryEntry>, balance: int) -> int
    decreases entries.len(),
{
    if entries.len() == 0 {
        0
    } else {
        shares_total(entries.drop_last(), balance) + share_of(balance, entries.last().bps as int)
    }
}

/// What entry `i` of a non-empty split of `balance` receives: its rounded-down share,
/// except the last entry, which receives all that the others leave.
pub open spec fn split_amount(entries: Seq<BeneficiaryEntry>, balance: int, i: int) -> int {
    if i == entries.len() - 1 {
        balance - shares_total(entries.take(i), balance)
    } else {
        share_of(balance, entries[i].bps as int)
    }
}

/// Sum of the amounts of a sequence of payments.
pub open spec fn amounts_total(events: Seq<ReleaseEvent>) -> int
    decreases events.len(),
{
    if events.len() == 0 {
        0
    } else {
        amounts_total(events.drop_last()) + events.last().amount
    }
}

/// `events` pays `balance` out of vault `vault_id` to `entries`, entry by entry, as
/// `split_amount` says.
pub open spec fn is_split_of(
    events: Seq<ReleaseEvent>,
    vault_id: u64,
    entries: Seq<BeneficiaryEntry>,
    balance: int,
) -> bool {
    &&& events.len() == entries.len()
    &&& forall|i: int|
        0 <= i < events.len() ==> {
            &&& (#[trigger] events[i]).vault_id == vault_id
            &&& events[i].beneficiary@ == entries[i].address@
            &&& events[i].amount == split_amount(entries, balance, i)
        }
}

proof fn lemma_bps_total_nonneg(entries: Seq<BeneficiaryEntry>)
    ensures
        bps_total(entries) >= 0,
    decreases entries.len(),
{
    if entries.len() > 0 {
        lemma_bps_total_nonneg(entries.drop_last());
    }
}

/// Dropping entries from the end never raises the total of basis points.
proof fn lemma_bps_total_prefix(entries: Seq<BeneficiaryEntry>, k: int)
    requires
        0 <= k <= entries.len(),
    ensures
        bps_total(entries.take(k)) <= bps_total(entries),
        bps_total(entries.take(k)) >= 0,
    decreases entries.len(),
{
    lemma_bps_total_nonneg(entries.take(k));
    if k < entries.len() {
        assert(entries.drop_last().take(k) =~= entries.take(k));
        lemma_bps_total_prefix(entries.drop_last(), k);
    } else {
        assert(entries.take(k) =~= entries);
    }
}

/// The total of a concatenation is the sum of the totals.
pub proof fn lemma_bps_total_concat(a: Seq<BeneficiaryEntry>, b: Seq<BeneficiaryEntry>)
    ensures
        bps_total(a + b) == bps_total(a) + bps_total(b),
    decreases b.len(),
{
    if b.len() > 0 {
        assert((a + b).drop_last() =~= a + b.drop_last());
        lemma_bps_total_concat(a, b.drop_last());
    } else {
        assert(a + b =~= a);
    }
}

/// Removing an entry takes its basis points off the total.
pub proof fn lemma_bps_total_remove(entries: Seq<BeneficiaryEntry>, i: int)
    requires
        0 <= i < entries.len(),
    ensures
        bps_total(entries.remove(i)) == bps_total(entries) - entries[i].bps,
        bps_total(entries.remove(i)) <= bps_total(entries),
{
    let front = entries.take(i);
    let back = entries.skip(i + 1);
    assert(entries.remove(i) =~= front + back);
    assert(entries =~= (front + seq![entries[i]]) + back);
    lemma_bps_total_concat(front, back);
    lemma_bps_total_concat(front + seq![entries[i]], back);
    lemma_bps_total_concat(front, seq![entries[i]]);
    let single = seq![entries[i]];
    assert(single.drop_last() =~= Seq::<BeneficiaryEntry>::empty());
    assert(bps_total(single.drop_last()) == 0);
    assert(bps_total(single) == entries[i].bps);
}

proof fn lemma_share_bounds(balance: int, bps: int)
    requires
        balance >= 0,
        bps >= 0,
    ensures
        share_of(balance, bps) >= 0,
        share_of(balance, bps) * 10000 <= balance * bps,
{
    assert(balance * bps >= 0) by (nonlinear_arith)
        requires
            balance >= 0,
            bps >= 0,
    ;
    lemma_fundamental_div_mod(balance * bps, 10000);
}

/// The shares of a prefix never add up to more than the basis points they stand for allow.
proof fn lemma_shares_total_bound(entries: Seq<BeneficiaryEntry>, balance: int)
    requires
        balance >= 0,
    ensures
        shares_total(entries, balance) >= 0,
        shares_total(entries, balance) * 10000 <= balance * bps_total(entries),
    decreases entries.len(),
{
    if entries.len() > 0 {
        let rest = entries.drop_last();
        let b = entries.last().bps as int;
        lemma_shares_total_bound(rest, balance);
        lemma_share_bounds(balance, b);
        let s = shares_total(rest, balance);
        let t = bps_total(rest);
        let x = share_of(balance, b);
        assert((s + x) * 10000 <= balance * (t + b)) by (nonlinear_arith)
            requires
                s * 10000 <= balance * t,
                x * 10000 <= balance * b,
        ;
    }
}

/// The shares of the entries before `k` add up to at most `balance`, when the whole
/// split stands for at most 10_000 basis points.
proof fn lemma_prefix_shares_within_balance(entries: Seq<BeneficiaryEntry>, balance: int, k: int)
    requires
        balance >= 0,
        0 <= k <= entries.len(),
        bps_total(entries) <= 10000,
    ensures
        0 <= shares_total(entries.take(k), balance) <= balance,
{
    lemma_bps_total_prefix(entries, k);
    lemma_shares_total_bound(entries.take(k), balance);
    let s = shares_total(entries.take(k), balance);
    let t = bps_total(entries.take(k));
    assert(s <= balance) by (nonlinear_arith)
        requires
            s * 10000 <= balance * t,
            t <= 10000,
            balance >= 0,
    ;
}

/// A split pays every entry a non-negative amount and pays out exactly `balance`,
/// whenever the entries stand for at most 10_000 basis points in all.
pub proof fn lemma_split_pays_out_balance(
    events: Seq<ReleaseEvent>,
    vault_id: u64,
    entries: Seq<BeneficiaryEntry>,
    balance: int,
)
    requires
        entries.len() > 0,
        balance >= 0,
        bps_total(entries) <= 10000,
        is_split_of(events, vault_id, entries, balance),
    ensures
        amounts_total(events) == balance,
        forall|i: int| 0 <= i < events.len() ==> (#[trigger] events[i]).amount >= 0,
{
    let n = entries.len() as int;
    lemma_prefix_total(events, vault_id, entries, balance, n - 1);
    assert(events.take(n) =~= events);
    assert(events.take(n).drop_last() =~= events.take(n - 1));
    lemma_prefix_shares_within_balance(entries, balance, n - 1);
    assert forall|i: int| 0 <= i < events.len() implies (#[trigger] events[i]).amount >= 0 by {
        if i < n - 1 {
            lemma_share_bounds(balance, entries[i].bps as int);
        }
    }
}

/// The first `k` payments of a split add up to the shares of the first `k` entries.
proof fn lemma_prefix_total(
    events: Seq<ReleaseEvent>,
    vault_id: u64,
    entries: Seq<BeneficiaryEntry>,
    balance: int,
    k: int,
)
    requires
        0 <= k < entries.len(),
        is_split_of(events, vault_id, entries, balance),
    ensures
        amounts_total(events.take(k)) == shares_total(entries.take(k), balance),
    decreases k,
{
    if k > 0 {
        lemma_prefix_total(events, vault_id, entries, balance, k - 1);
        assert(events.take(k).drop_last() =~= events.take(k - 1));
        assert(entries.take(k).drop_last() =~= entries.take(k - 1));
        assert(events[k - 1].amount == split_amount(entries, balance, k - 1));
    } else {
        assert(events.take(0) =~= Seq::<ReleaseEvent>::empty());
        assert(entries.take(0) =~= Seq::<BeneficiaryEntry>::empty());
    }
}

/// Sum of the basis points of `entries`.
pub fn total_bps(entries: &Vec<BeneficiaryEntry>) -> (r: u128)
    ensures
        r == bps_total(entries@),
        r <= entries@.len() * 0xffff_ffff,
{
    let n = entries.len();
    let mut acc: u128 = 0;
    let mut i: usize = 0;
    while i < n
        invariant
            n == entries@.len(),
            i <= n,
            acc == bps_total(entries@.take(i as int)),
            acc <= i * 0xffff_ffffu128,
        decreases n - i,
    {
        assert(entries@.take(i + 1).drop_last() =~= entries@.take(i as int));
        acc = acc + entries[i].bps as u128;
        i = i + 1;
    }
    assert(entries@.take(n as int) =~= entries@);
    acc
}

/// The part of `balance` that `bps` basis points stand for, rounded down, computed
/// without overflow for every non-negative balance.
pub fn share(balance: i128, bps: u32) -> (r: i128)
    requires
        balance >= 0,
        bps <= TOTAL_BPS,
    ensures
        r == share_of(balance as int, bps as int),
        0 <= r <= balance,
{
    let b = balance as u128;
    let q = b / 10000;
    let rem = b % 10000;
    let p = bps as u128;
    assert(rem * p <= 10000 * 10000) by (nonlinear_arith)
        requires
            rem < 10000,
            p <= 10000,
    ;
    let t = rem * p;
    let q2 = t / 10000;
    assert(q * p <= q * 10000) by (nonlinear_arith)
        requires
            p <= 10000,
    ;
    assert(q * 10000 <= b) by {
        lemma_fundamental_div_mod(b as int, 10000);
    }
    let result = q * p + q2;
    proof {
        let bi = b as int;
        let pi = bps as int;
        lemma_fundamental_div_mod(bi, 10000);
        lemma_fundamental_div_mod(t as int, 10000);
        let r2 = (t as int) % 10000;
        assert(bi * pi == (q as int * pi + q2 as int) * 10000 + r2) by (nonlinear_arith)
            requires
                bi == 10000 * (q as int) + rem as int,
                t as int == rem as int * pi,
                t as int == 10000 * (q2 as int) + r2,
        ;
        lemma_fundamental_div_mod_converse(bi * pi, 10000, q as int * pi + q2 as int, r2);
        lemma_share_bounds(bi, pi);
        assert(share_of(bi, pi) <= bi) by (nonlinear_arith)
            requires
                share_of(bi, pi) * 10000 <= bi * pi,
                pi <= 10000,
                bi >= 0,
        ;
    }
    result as i128
}

/// Pays `balance` out of vault `vault_id` to `entries`: each entry receives its
/// rounded-down share, and the last entry also receives the rounding remainder.
pub fn split_release(vault_id: u64, entries: &Vec<BeneficiaryEntry>, balance: i128) -> (r: Vec<
    ReleaseEvent,
>)
    requires
        entries@.len() > 0,
        balance >= 0,
        bps_total(entries@) <= 10000,
    ensures
        is_split_of(r@, vault_id, entries@, balance as int),
        amounts_total(r@) == balance,
{
    let n = entries.len();
    let mut events: Vec<ReleaseEvent> = Vec::new();
    let mut paid: i128 = 0;
    let mut i: usize = 0;
    while i + 1 < n
        invariant
            n == entries@.len(),
            n > 0,
            i + 1 <= n,
            balance >= 0,
            bps_total(entries@) <= 10000,
            events@.len() == i,
            paid == shares_total(entries@.take(i as int), balance as int),
            forall|j: int|
                0 <= j < i ==> {
                    &&& (#[trigger] events@[j]).vault_id == vault_id
                    &&& events@[j].beneficiary@ == entries@[j].address@
                    &&& events@[j].amount == share_of(balance as int, entries@[j].bps as int)
                },
        decreases n - i,
    {
        proof {
            lemma_bps_total_prefix(entries@, (i + 1) as int);
            assert(entries@.take(i + 1).drop_last() =~= entries@.take(i as int));
            lemma_bps_total_nonneg(entries@.take(i as int));
            lemma_prefix_shares_within_balance(entries@, balance as int, (i + 1) as int);
        }
        let amount = share(balance, entries[i].bps);
        paid = paid + amount;
        events.push(
            ReleaseEvent { vault_id, beneficiary: entries[i].address.duplicate(), amount },
        );
        i = i + 1;
    }
    proof {
        lemma_prefix_shares_within_balance(entries@, balance as int, (n - 1) as int);
    }
    let last = balance - paid;
    events.push(ReleaseEvent { vault_id, beneficiary: entries[n - 1].address.duplicate(), amount: last });
    proof {
        assert forall|j: int| 0 <= j < events@.len() implies {
            &&& (#[trigger] events@[j]).vault_id == vault_id
            &&& events@[j].beneficiary@ == entries@[j].address@
            &&& events@[j].amount == split_amount(entries@, balance as int, j)
        } by {}
        lemma_split_pays_out_balance(events@, vault_id, entries@, balance as int);
    }
    events
}

} // verus!
