//! The telemetry monitor: a bounded ring of timestamped snapshots and
//! the predicates derived from them.
//!
//! A background sampler (outside the library) takes one snapshot per
//! interval and pushes it here; the ring keeps the newest snapshots up
//! to its capacity.

use vstd::prelude::*;
use crate::hal::cap_u32;
use crate::protocol::GPUStatus;

verus! {

broadcast use vstd::seq::group_seq_axioms;

/// How many snapshots the ring keeps by default.
pub const MONITOR_DEFAULT_CAPACITY: usize = 1000;

/// The temperature above which a device counts as overheating, in
/// tenths of a degree.
pub const OVERHEAT_DECI_C: u32 = 800;

/// The utilization below which a device counts as idle, in permille.
pub const IDLE_PERMILLE: u32 = 100;

/// One moment's telemetry across all devices.
#[derive(Debug, Clone, PartialEq)]
pub struct GPUSnapshot {
    pub timestamp: u64,
    pub statuses: Vec<GPUStatus>,
}

/// A running figure capped at the largest `u64`.
pub open spec fn sat64(x: int) -> int {
    vstd::math::min(x, u64::MAX as int)
}

/// The utilization sum over one snapshot's statuses, saturating.
pub open spec fn sum_util(ss: Seq<GPUStatus>) -> int
    decreases ss.len(),
{
    if ss.len() == 0 {
        0
    } else {
        sat64(sum_util(ss.drop_last()) + ss.last().utilization_permille)
    }
}

/// The utilization sum over a run of snapshots, saturating.
pub open spec fn snaps_util_sum(h: Seq<GPUSnapshot>) -> int
    decreases h.len(),
{
    if h.len() == 0 {
        0
    } else {
        sat64(snaps_util_sum(h.drop_last()) + sum_util(h.last().statuses@))
    }
}

/// How many device statuses a run of snapshots holds, saturating.
pub open spec fn snaps_status_count(h: Seq<GPUSnapshot>) -> int
    decreases h.len(),
{
    if h.len() == 0 {
        0
    } else {
        sat64(snaps_status_count(h.drop_last()) + h.last().statuses@.len())
    }
}

/// The saturating sums stay within the accumulator's range.
pub proof fn lemma_snap_sums(h: Seq<GPUSnapshot>)
    ensures
        0 <= snaps_util_sum(h) <= u64::MAX,
        0 <= snaps_status_count(h) <= u64::MAX,
    decreases h.len(),
{
    if h.len() > 0 {
        lemma_snap_sums(h.drop_last());
        lemma_sum_util_nonneg(h.last().statuses@);
    }
}

/// A snapshot's own utilization sum stays within range.
pub proof fn lemma_sum_util_nonneg(ss: Seq<GPUStatus>)
    ensures
        0 <= sum_util(ss) <= u64::MAX,
    decreases ss.len(),
{
    if ss.len() > 0 {
        lemma_sum_util_nonneg(ss.drop_last());
    }
}

/// The bounded ring of snapshots.
#[derive(Debug)]
pub struct GPUMonitor {
    pub history: Vec<GPUSnapshot>,
    pub max_history_size: usize,
}

impl GPUMonitor {
    /// An empty monitor with the default capacity.
    pub fn new() -> (r: Self)
        ensures
            r.history@.len() == 0,
            r.max_history_size == MONITOR_DEFAULT_CAPACITY,
    {
        GPUMonitor { history: Vec::new(), max_history_size: MONITOR_DEFAULT_CAPACITY }
    }

    /// Appends one snapshot, dropping the oldest entries beyond the
    /// capacity: afterwards the ring holds exactly the newest snapshots
    /// of everything pushed so far.
    pub fn push_snapshot(&mut self, snap: GPUSnapshot)
        ensures
            ({
                let all = old(self).history@.push(snap);
                let cut = if all.len() <= old(self).max_history_size as int {
                    0int
                } else {
                    all.len() - old(self).max_history_size
                };
                final(self).history@ == all.skip(cut)
            }),
            final(self).max_history_size == old(self).max_history_size,
    {
        let ghost all = self.history@.push(snap);
        self.history.push(snap);
        proof {
            assert(self.history@ =~= all.skip(0));
        }
        while self.history.len() > self.max_history_size
            invariant
                self.max_history_size == old(self).max_history_size,
                all == old(self).history@.push(snap),
                all.len() >= self.history@.len(),
                self.history@.len() >= vstd::math::min(
                    all.len() as int,
                    self.max_history_size as int,
                ),
                self.history@ == all.skip(all.len() - self.history@.len()),
            decreases self.history@.len(),
        {
            self.history.remove(0);
            proof {
                let d = all.len() - self.history@.len();
                assert(self.history@ =~= all.skip(d));
            }
        }
    }

    /// The newest snapshot, if any.
    pub fn latest(&self) -> (r: Option<&GPUSnapshot>)
        ensures
            match r {
                Some(s) => self.history@.len() > 0 && *s == self.history@.last(),
                None => self.history@.len() == 0,
            },
    {
        if self.history.len() > 0 {
            Some(&self.history[self.history.len() - 1])
        } else {
            None
        }
    }

    /// The average utilization, in permille, over the newest `last_n`
    /// snapshots; zero when they hold no status at all. The underlying
    /// sums saturate rather than wrap.
    pub fn average_utilization(&self, last_n: usize) -> (r: u32)
        ensures
            ({
                let h = self.history@;
                let cut = if h.len() <= last_n as int {
                    0int
                } else {
                    h.len() - last_n
                };
                let tail = h.skip(cut);
                if snaps_status_count(tail) == 0 {
                    r == 0
                } else {
                    r == cap_u32(snaps_util_sum(tail) / snaps_status_count(tail))
                }
            }),
    {
        let n = self.history.len();
        let start = if n <= last_n {
            0
        } else {
            n - last_n
        };
        let ghost tail = self.history@.skip(start as int);
        let mut total: u64 = 0;
        let mut count: u64 = 0;
        let mut i: usize = start;
        proof {
            assert(tail.take(0) =~= Seq::<GPUSnapshot>::empty());
        }
        while i < n
            invariant
                n == self.history@.len(),
                start <= i <= n,
                tail == self.history@.skip(start as int),
                total == snaps_util_sum(tail.take(i - start)),
                count == snaps_status_count(tail.take(i - start)),
            decreases n - i,
        {
            proof {
                assert(tail.take(i - start + 1).drop_last() =~= tail.take(i - start));
                assert(tail.take(i - start + 1).last() == tail[i - start]);
                assert(tail[i - start] == self.history@[i as int]);
            }
            let snap = &self.history[i];
            let m = snap.statuses.len();
            let ghost ss = snap.statuses@;
            let mut local: u64 = 0;
            let mut j: usize = 0;
            proof {
                assert(ss.take(0) =~= Seq::<GPUStatus>::empty());
            }
            while j < m
                invariant
                    m == ss.len(),
                    j <= m,
                    ss == snap.statuses@,
                    local == sum_util(ss.take(j as int)),
                decreases m - j,
            {
                proof {
                    assert(ss.take(j + 1).drop_last() =~= ss.take(j as int));
                    assert(ss.take(j + 1).last() == ss[j as int]);
                    lemma_sum_util_nonneg(ss.take(j as int));
                }
                local = local.saturating_add(snap.statuses[j].utilization_permille as u64);
                j = j + 1;
            }
            proof {
                assert(ss.take(m as int) =~= ss);
                lemma_sum_util_nonneg(ss);
                lemma_snap_sums(tail.take(i - start));
            }
            total = total.saturating_add(local);
            count = count.saturating_add(m as u64);
            i = i + 1;
        }
        proof {
            assert(tail.take(n - start) =~= tail);
        }
        if count == 0 {
            return 0;
        }
        let avg: u64 = total / count;
        if avg > u32::MAX as u64 {
            u32::MAX
        } else {
            avg as u32
        }
    }

    /// The newest `limit` snapshots, newest first.
    pub fn get_history(&self, limit: usize) -> (r: Vec<GPUSnapshot>)
        ensures
            r@.len() == vstd::math::min(limit as int, self.history@.len() as int),
            forall|i: int|
                0 <= i < r@.len() ==> (#[trigger] r@[i]).timestamp == self.history@[
                    self.history@.len() - 1 - i].timestamp && r@[i].statuses@ == self.history@[
                    self.history@.len() - 1 - i].statuses@,
    {
        let n = self.history.len();
        let count = if limit <= n {
            limit
        } else {
            n
        };
        let mut out: Vec<GPUSnapshot> = Vec::new();
        let mut i: usize = 0;
        while i < count
            invariant
                n == self.history@.len(),
                count <= n,
                i <= count,
                out@.len() == i,
                forall|q: int|
                    0 <= q < i ==> (#[trigger] out@[q]).timestamp == self.history@[
                        self.history@.len() - 1 - q].timestamp && out@[q].statuses@
                        == self.history@[self.history@.len() - 1 - q].statuses@,
            decreases count - i,
        {
            let snap = &self.history[n - 1 - i];
            let copied = GPUSnapshot {
                timestamp: snap.timestamp,
                statuses: duplicate_statuses(&snap.statuses),
            };
            out.push(copied);
            i = i + 1;
        }
        out
    }
}

/// An owned copy of a status vector.
pub fn duplicate_statuses(v: &Vec<GPUStatus>) -> (r: Vec<GPUStatus>)
    ensures
        r@ == v@,
{
    let mut out: Vec<GPUStatus> = Vec::new();
    let n = v.len();
    for i in 0..n
        invariant
            n == v@.len(),
            out@ == v@.subrange(0, i as int),
    {
        let s = &v[i];
        let copied = GPUStatus {
            index: s.index,
            utilization_permille: s.utilization_permille,
            memory_used_bytes: s.memory_used_bytes,
            memory_total_bytes: s.memory_total_bytes,
            temperature_deci_c: s.temperature_deci_c,
            power_mw: s.power_mw,
            fan_speed_permille: s.fan_speed_permille,
        };
        out.push(copied);
        proof {
            assert(v@.subrange(0, i + 1) =~= v@.subrange(0, i as int).push(v@[i as int]));
            assert(copied == v@[i as int]);
        }
    }
    proof {
        assert(v@.subrange(0, n as int) =~= v@);
    }
    out
}

/// Whether any device in a snapshot runs hot.
pub fn is_any_overheating(statuses: &Vec<GPUStatus>) -> (r: bool)
    ensures
        r == exists|i: int|
            0 <= i < statuses@.len() && (#[trigger] statuses@[i]).temperature_deci_c
                > OVERHEAT_DECI_C,
{
    let n = statuses.len();
    for i in 0..n
        invariant
            n == statuses@.len(),
            forall|j: int|
                0 <= j < i ==> (#[trigger] statuses@[j]).temperature_deci_c <= OVERHEAT_DECI_C,
    {
        if statuses[i].temperature_deci_c > OVERHEAT_DECI_C {
            return true;
        }
    }
    false
}

/// Whether every device in a nonempty snapshot is idle.
pub fn are_all_idle(statuses: &Vec<GPUStatus>) -> (r: bool)
    ensures
        r == (statuses@.len() > 0 && forall|i: int|
            0 <= i < statuses@.len() ==> (#[trigger] statuses@[i]).utilization_permille
                < IDLE_PERMILLE),
{
    let n = statuses.len();
    if n == 0 {
        return false;
    }
    for i in 0..n
        invariant
            n == statuses@.len(),
            forall|j: int|
                0 <= j < i ==> (#[trigger] statuses@[j]).utilization_permille < IDLE_PERMILLE,
    {
        if statuses[i].utilization_permille >= IDLE_PERMILLE {
            return false;
        }
    }
    true
}

} // verus!
