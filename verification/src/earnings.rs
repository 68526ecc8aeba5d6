//! The earnings ledger: an append-only history of per-task earnings and
//! the sums derived from it.
//!
//! The derived figures are tied to the history exactly: the total is
//! the sum over confirmed and paid records, the pending figure the sum
//! over pending records, and the daily figure the sum over records
//! whose timestamp falls on the given day. Sums saturate at the largest
//! representable amount.

use vstd::prelude::*;
use crate::money::Money;
use crate::protocol::{EarningsDetail, EarningStatus};
use crate::textutil::{spec_contains, str_contains};

verus! {

/// One earned amount, bound to the task and device that earned it.
#[derive(Debug, Clone, PartialEq)]
pub struct EarningRecord {
    pub timestamp: u64,
    pub task_id: String,
    pub gpu_model: String,
    pub gpu_seconds: u64,
    pub rate_per_hour: Money,
    pub amount: Money,
    pub status: EarningStatus,
}

impl EarningRecord {
    /// An owned copy, equal to the original.
    pub fn duplicate(&self) -> (r: Self)
        ensures
            r == *self,
    {
        EarningRecord {
            timestamp: self.timestamp,
            task_id: self.task_id.clone(),
            gpu_model: self.gpu_model.clone(),
            gpu_seconds: self.gpu_seconds,
            rate_per_hour: self.rate_per_hour,
            amount: self.amount,
            status: self.status,
        }
    }

    /// The hourly rate a device model earns, in microdollars: a base of
    /// one cent per hour scaled by the model's class.
    pub fn calculate_rate(gpu_model: &str) -> (r: Money)
        ensures
            r.micro_usd == spec_rate_for_model(gpu_model@),
    {
        if str_contains(gpu_model, "4090") {
            Money::from_micro_usd(25000)
        } else if str_contains(gpu_model, "3090") {
            Money::from_micro_usd(18000)
        } else if str_contains(gpu_model, "A100") {
            Money::from_micro_usd(50000)
        } else if str_contains(gpu_model, "H100") {
            Money::from_micro_usd(80000)
        } else {
            Money::from_micro_usd(10000)
        }
    }

    /// A pending record for a finished task: the amount is the rate
    /// times the hours worked.
    pub fn from_task_result(
        task_id: &str,
        gpu_model: &str,
        gpu_seconds: u64,
        completed_at: u64,
    ) -> (r: EarningRecord)
        ensures
            r.timestamp == completed_at,
            r.task_id@ == task_id@,
            r.gpu_model@ == gpu_model@,
            r.gpu_seconds == gpu_seconds,
            r.rate_per_hour.micro_usd == spec_rate_for_model(gpu_model@),
            r.amount.micro_usd == sat_cap(
                spec_rate_for_model(gpu_model@) * gpu_seconds / 3600,
            ),
            r.status is Pending,
    {
        let rate = Self::calculate_rate(gpu_model);
        proof {
            vstd::arithmetic::mul::lemma_mul_upper_bound(
                rate.micro_usd as int,
                u64::MAX as int,
                gpu_seconds as int,
                u64::MAX as int,
            );
        }
        let amount_wide: u128 = (rate.micro_usd as u128) * (gpu_seconds as u128) / 3600;
        let amount: u64 = if amount_wide > u64::MAX as u128 {
            u64::MAX
        } else {
            amount_wide as u64
        };
        EarningRecord {
            timestamp: completed_at,
            task_id: task_id.to_owned(),
            gpu_model: gpu_model.to_owned(),
            gpu_seconds,
            rate_per_hour: rate,
            amount: Money::from_micro_usd(amount),
            status: EarningStatus::Pending,
        }
    }
}

/// The hourly rate for a device model, in microdollars.
pub open spec fn spec_rate_for_model(model: Seq<char>) -> int {
    if spec_contains(model, "4090"@) { 25000int }
    else if spec_contains(model, "3090"@) { 18000int }
    else if spec_contains(model, "A100"@) { 50000int }
    else if spec_contains(model, "H100"@) { 80000int }
    else { 10000int }
}

/// A sum capped at the largest representable amount.
pub open spec fn sat_cap(x: int) -> int {
    vstd::math::min(x, u64::MAX as int)
}

/// The day a timestamp falls on, counted in whole days since the epoch.
pub open spec fn day_of(ts: u64) -> int {
    ts as int / 86400
}

/// The sum of the amounts of the confirmed and paid records.
pub open spec fn spec_total(h: Seq<EarningRecord>) -> int
    decreases h.len(),
{
    if h.len() == 0 {
        0
    } else {
        spec_total(h.drop_last()) + (
        if h.last().status is Confirmed || h.last().status is Paid {
            h.last().amount.micro_usd as int
        } else {
            0
        })
    }
}

/// The sum of the amounts of the pending records.
pub open spec fn spec_pending(h: Seq<EarningRecord>) -> int
    decreases h.len(),
{
    if h.len() == 0 {
        0
    } else {
        spec_pending(h.drop_last()) + (
        if h.last().status is Pending {
            h.last().amount.micro_usd as int
        } else {
            0
        })
    }
}

/// The sum of the amounts of the records earned on the given day.
pub open spec fn spec_today(h: Seq<EarningRecord>, now: u64) -> int
    decreases h.len(),
{
    if h.len() == 0 {
        0
    } else {
        spec_today(h.drop_last(), now) + (
        if day_of(h.last().timestamp) == day_of(now) {
            h.last().amount.micro_usd as int
        } else {
            0
        })
    }
}

/// The three derived figures and the full history.
#[derive(Debug, Clone, PartialEq)]
pub struct EarningsData {
    pub total_earnings: Money,
    pub today_earnings: Money,
    pub pending_earnings: Money,
    pub history: Vec<EarningRecord>,
}

/// The first record of a task in the history, or the history's length
/// when the task has none.
pub open spec fn find_record(h: Seq<EarningRecord>, task_id: Seq<char>) -> int
    decreases h.len(),
{
    if h.len() == 0 {
        0
    } else if h.first().task_id@ == task_id {
        0
    } else {
        1 + find_record(h.drop_first(), task_id)
    }
}

/// What confirming a task does to the history: the first record of the
/// task, if it exists and is pending, becomes confirmed; nothing else
/// changes.
pub open spec fn confirmed_outcome(
    h: Seq<EarningRecord>,
    task_id: Seq<char>,
    after: Seq<EarningRecord>,
) -> bool {
    let i = find_record(h, task_id);
    if i < h.len() && h[i].status is Pending {
        after == h.update(i, (EarningRecord { status: EarningStatus::Confirmed, ..h[i] }))
    } else {
        after == h
    }
}

/// A record index is never negative.
pub proof fn lemma_find_record_nonneg(h: Seq<EarningRecord>, task_id: Seq<char>)
    ensures
        find_record(h, task_id) >= 0,
    decreases h.len(),
{
    if h.len() > 0 && h.first().task_id@ != task_id {
        lemma_find_record_nonneg(h.drop_first(), task_id);
    }
}

/// The append-only ledger.
#[derive(Debug)]
pub struct EarningsTracker {
    pub records: Vec<EarningRecord>,
}

impl EarningsTracker {
    /// An empty ledger.
    pub fn new() -> (r: Self)
        ensures
            r.records@.len() == 0,
    {
        EarningsTracker { records: Vec::new() }
    }

    /// Appends one record.
    pub fn add_earnings(&mut self, record: EarningRecord)
        ensures
            final(self).records@ == old(self).records@.push(record),
    {
        self.records.push(record);
    }

    /// Records an authoritative earnings entry from the platform as a
    /// pending record dated now.
    pub fn record_earnings(&mut self, task_id: &str, earnings: &EarningsDetail, now: u64)
        ensures
            final(self).records@.len() == old(self).records@.len() + 1,
            final(self).records@.drop_last() == old(self).records@,
            final(self).records@.last().task_id@ == task_id@,
            final(self).records@.last().timestamp == now,
            final(self).records@.last().gpu_seconds == earnings.gpu_seconds,
            final(self).records@.last().rate_per_hour == earnings.rate_usd_per_hour,
            final(self).records@.last().amount == earnings.final_amount_usd,
            final(self).records@.last().status is Pending,
    {
        let record = EarningRecord {
            timestamp: now,
            task_id: task_id.to_owned(),
            gpu_model: String::new(),
            gpu_seconds: earnings.gpu_seconds,
            rate_per_hour: earnings.rate_usd_per_hour,
            amount: earnings.final_amount_usd,
            status: EarningStatus::Pending,
        };
        self.records.push(record);
        proof {
            assert(final(self).records@.drop_last() =~= old(self).records@);
        }
    }

    /// Marks the first record of a task as confirmed, if it exists and
    /// is still pending; otherwise changes nothing.
    pub fn confirm_earnings(&mut self, task_id: &str)
        ensures
            confirmed_outcome(old(self).records@, task_id@, final(self).records@),
    {
        let ghost h = self.records@;
        let n = self.records.len();
        let mut i: usize = 0;
        proof {
            assert(h.skip(0) =~= h);
            lemma_find_record_nonneg(h, task_id@);
        }
        while i < n
            invariant
                h == old(self).records@,
                n == self.records@.len(),
                self.records@ == h,
                i <= n,
                find_record(h, task_id@) >= i,
                find_record(h, task_id@) == i + find_record(h.skip(i as int), task_id@),
            decreases n - i,
        {
            proof {
                assert(h.skip(i as int).first() == h[i as int]);
                assert(h.skip(i as int).drop_first() =~= h.skip(i + 1));
                lemma_find_record_nonneg(h.skip(i + 1), task_id@);
                lemma_find_record_nonneg(h.skip(i as int), task_id@);
            }
            if crate::json::str_eq(self.records[i].task_id.as_str(), task_id) {
                if matches!(self.records[i].status, EarningStatus::Pending) {
                    let updated = EarningRecord {
                        status: EarningStatus::Confirmed,
                        ..self.records[i].duplicate()
                    };
                    self.records.set(i, updated);
                    proof {
                        assert(find_record(h, task_id@) == i as int);
                        assert(self.records@ =~= h.update(
                            i as int,
                            EarningRecord { status: EarningStatus::Confirmed, ..h[i as int] },
                        ));
                        assert(self.records@ == h.update(
                            find_record(h, task_id@),
                            (EarningRecord {
                                status: EarningStatus::Confirmed,
                                ..h[find_record(h, task_id@)]
                            }),
                        ));
                        assert(confirmed_outcome(h, task_id@, self.records@));
                    }
                } else {
                    proof {
                        assert(find_record(h, task_id@) == i as int);
                        assert(!(h[find_record(h, task_id@)].status is Pending));
                        assert(self.records@ == h);
                        assert(confirmed_outcome(h, task_id@, self.records@));
                    }
                }
                return ;
            }
            i = i + 1;
        }
        proof {
            assert(h.skip(n as int) =~= Seq::<EarningRecord>::empty());
            assert(find_record(h, task_id@) == n as int);
            assert(confirmed_outcome(h, task_id@, self.records@));
        }
    }

    /// The derived figures for the given moment, with the full history:
    /// total over confirmed and paid, pending over pending, daily over
    /// the records of the day, each capped at the largest amount.
    pub fn get_data(&self, now: u64) -> (r: EarningsData)
        ensures
            r.history@ == self.records@,
            r.total_earnings.micro_usd == sat_cap(spec_total(self.records@)),
            r.pending_earnings.micro_usd == sat_cap(spec_pending(self.records@)),
            r.today_earnings.micro_usd == sat_cap(spec_today(self.records@, now)),
    {
        let ghost h = self.records@;
        let n = self.records.len();
        let mut total: u64 = 0;
        let mut pending: u64 = 0;
        let mut today: u64 = 0;
        let mut history: Vec<EarningRecord> = Vec::new();
        let mut i: usize = 0;
        while i < n
            invariant
                n == self.records@.len(),
                self.records@ == h,
                i <= n,
                history@ == h.take(i as int),
                total == sat_cap(spec_total(h.take(i as int))),
                pending == sat_cap(spec_pending(h.take(i as int))),
                today == sat_cap(spec_today(h.take(i as int), now)),
                spec_total(h.take(i as int)) >= 0,
                spec_pending(h.take(i as int)) >= 0,
                spec_today(h.take(i as int), now) >= 0,
            decreases n - i,
        {
            let rec = self.records[i].duplicate();
            proof {
                assert(h.take(i + 1).drop_last() =~= h.take(i as int));
                assert(h.take(i + 1).last() == h[i as int]);
            }
            match rec.status {
                EarningStatus::Confirmed => {
                    total = total.saturating_add(rec.amount.micro_usd);
                },
                EarningStatus::Paid => {
                    total = total.saturating_add(rec.amount.micro_usd);
                },
                EarningStatus::Pending => {
                    pending = pending.saturating_add(rec.amount.micro_usd);
                },
            }
            if rec.timestamp / 86400 == now / 86400 {
                today = today.saturating_add(rec.amount.micro_usd);
            }
            history.push(rec);
            proof {
                assert(history@ =~= h.take(i + 1));
            }
            i = i + 1;
        }
        proof {
            assert(h.take(n as int) =~= h);
        }
        EarningsData {
            total_earnings: Money::from_micro_usd(total),
            today_earnings: Money::from_micro_usd(today),
            pending_earnings: Money::from_micro_usd(pending),
            history,
        }
    }

    /// The newest `limit` records, newest first.
    pub fn get_recent(&self, limit: usize) -> (r: Vec<EarningRecord>)
        ensures
            r@.len() == vstd::math::min(limit as int, self.records@.len() as int),
            forall|i: int|
                0 <= i < r@.len() ==> #[trigger] r@[i] == self.records@[self.records@.len() - 1
                    - i],
    {
        let n = self.records.len();
        let count = if limit <= n {
            limit
        } else {
            n
        };
        let mut out: Vec<EarningRecord> = Vec::new();
        let mut i: usize = 0;
        while i < count
            invariant
                n == self.records@.len(),
                count <= n,
                i <= count,
                out@.len() == i,
                forall|q: int|
                    0 <= q < i ==> #[trigger] out@[q] == self.records@[self.records@.len() - 1
                        - q],
            decreases count - i,
        {
            let rec = self.records[n - 1 - i].duplicate();
            out.push(rec);
            i = i + 1;
        }
        out
    }
}

impl Default for EarningsTracker {
    fn default() -> (r: Self)
        ensures
            r.records@.len() == 0,
    {
        EarningsTracker { records: Vec::new() }
    }
}

} // verus!
