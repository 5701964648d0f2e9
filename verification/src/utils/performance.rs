//! Memory use as reported by the application.
use vstd::prelude::*;

verus! {

/// How fast operations ran on average.
#[derive(Debug, Clone, Copy, PartialEq, Eq, Structural)]
pub enum PerformanceRating {
    Excellent,
    Good,
    Fair,
    Poor,
}

/// `x + y` wrapped around at 2^64, as `u64::wrapping_add` adds.
pub open spec fn wrapped_sum(x: u64, y: u64) -> u64 {
    if x + y > u64::MAX {
        (x + y - 0x1_0000_0000_0000_0000) as u64
    } else {
        (x + y) as u64
    }
}

/// How many operations were timed and their total time in milliseconds; both wrap
/// around at 2^64, as the atomic additions that keep them in a running program do.
#[derive(Debug, Clone, Copy)]
pub struct OperationTotals {
    pub operation_count: u64,
    pub total_duration_ms: u64,
}

impl OperationTotals {
    /// No operation timed yet.
    pub fn new() -> (r: OperationTotals)
        ensures
            r.operation_count == 0,
            r.total_duration_ms == 0,
    {
        OperationTotals { operation_count: 0, total_duration_ms: 0 }
    }

    /// Counts one more operation that took `duration_ms` milliseconds.
    pub fn record(&mut self, duration_ms: u64)
        ensures
            final(self).operation_count == wrapped_sum(old(self).operation_count, 1),
            final(self).total_duration_ms == wrapped_sum(old(self).total_duration_ms, duration_ms),
    {
        self.operation_count = self.operation_count.wrapping_add(1);
        self.total_duration_ms = self.total_duration_ms.wrapping_add(duration_ms);
    }
}

/// The last reported memory use and the highest one.
pub struct MemoryTracker {
    peak_memory: u64,
    current_memory: u64,
}

/// A snapshot of a `MemoryTracker`.
#[derive(Debug, Clone)]
pub struct MemoryStats {
    pub current_memory_bytes: u64,
    pub peak_memory_bytes: u64,
}

impl MemoryTracker {
    pub closed spec fn current(&self) -> u64 {
        self.current_memory
    }

    pub closed spec fn peak(&self) -> u64 {
        self.peak_memory
    }

    /// Nothing reported yet.
    pub fn new() -> (r: MemoryTracker)
        ensures
            r.current() == 0,
            r.peak() == 0,
    {
        MemoryTracker { peak_memory: 0, current_memory: 0 }
    }

    /// Reports the memory in use; the peak is the highest use reported.
    pub fn record_memory_usage(&mut self, bytes: u64)
        ensures
            final(self).current() == bytes,
            final(self).peak() == if bytes > old(self).peak() {
                bytes
            } else {
                old(self).peak()
            },
    {
        self.current_memory = bytes;
        let current = self.current_memory;
        let peak = self.peak_memory;
        if current > peak {
            self.peak_memory = current;
        }
    }

    pub fn get_memory_stats(&self) -> (r: MemoryStats)
        ensures
            r.current_memory_bytes == self.current(),
            r.peak_memory_bytes == self.peak(),
    {
        MemoryStats { current_memory_bytes: self.current_memory, peak_memory_bytes: self.peak_memory }
    }
}

impl Default for MemoryTracker {
    fn default() -> (r: MemoryTracker)
        ensures
            r.current() == 0,
            r.peak() == 0,
    {
        MemoryTracker::new()
    }
}

/// The peak after reporting `bs` in order to a new tracker, by the rule of
/// `record_memory_usage`.
pub open spec fn peak_after(bs: Seq<u64>) -> u64
    decreases bs.len(),
{
    if bs.len() == 0 {
        0
    } else {
        let p = peak_after(bs.drop_last());
        if bs.last() > p {
            bs.last()
        } else {
            p
        }
    }
}

/// The peak is the largest use reported: at least every report, and equal to one
/// of them once a report has been made.
pub proof fn lemma_peak_is_max(bs: Seq<u64>)
    ensures
        forall|i: int| 0 <= i < bs.len() ==> peak_after(bs) >= #[trigger] bs[i],
        bs.len() > 0 ==> exists|i: int| 0 <= i < bs.len() && peak_after(bs) == #[trigger] bs[i],
    decreases bs.len(),
{
    if bs.len() > 0 {
        let b = bs.drop_last();
        lemma_peak_is_max(b);
        assert forall|i: int| 0 <= i < bs.len() implies peak_after(bs) >= #[trigger] bs[i] by {
            if i < b.len() {
                assert(b[i] == bs[i]);
            }
        }
        if bs.last() > peak_after(b) || b.len() == 0 {
            assert(peak_after(bs) == bs[bs.len() - 1]);
        } else {
            let j = choose|j: int| 0 <= j < b.len() && peak_after(b) == #[trigger] b[j];
            assert(b[j] == bs[j]);
            assert(peak_after(bs) == bs[j]);
        }
    }
}

proof fn lemma_run_prefix(peaks: Seq<u64>, currents: Seq<u64>, bs: Seq<u64>, k: int)
    requires
        peaks.len() == bs.len() + 1,
        peaks[0] == 0,
        forall|i: int|
            0 <= i < bs.len() ==> #[trigger] peaks[i + 1] == if bs[i] > peaks[i] {
                bs[i]
            } else {
                peaks[i]
            },
        0 <= k <= bs.len(),
    ensures
        peaks[k] == peak_after(bs.take(k)),
    decreases k,
{
    if k > 0 {
        let j = k - 1;
        lemma_run_prefix(peaks, currents, bs, j);
        assert(bs.take(k).drop_last() =~= bs.take(j));
        assert(peaks[j + 1] == if bs[j] > peaks[j] {
            bs[j]
        } else {
            peaks[j]
        });
    } else {
        assert(bs.take(0).len() == 0);
    }
}

/// A run of reports to a new tracker, where `peaks[i]` and `currents[i]` are what
/// the tracker holds after the first `i` reports `bs` (the states that `new` and
/// `record_memory_usage` state), ends with the last report as the current use and
/// the largest report as the peak, never below the current use.
pub proof fn lemma_tracker_run(peaks: Seq<u64>, currents: Seq<u64>, bs: Seq<u64>)
    requires
        peaks.len() == bs.len() + 1,
        currents.len() == bs.len() + 1,
        peaks[0] == 0,
        currents[0] == 0,
        forall|i: int| 0 <= i < bs.len() ==> #[trigger] currents[i + 1] == bs[i],
        forall|i: int|
            0 <= i < bs.len() ==> #[trigger] peaks[i + 1] == if bs[i] > peaks[i] {
                bs[i]
            } else {
                peaks[i]
            },
    ensures
        peaks.last() == peak_after(bs),
        bs.len() > 0 ==> currents.last() == bs.last(),
        forall|i: int| 0 <= i < bs.len() ==> peaks.last() >= #[trigger] bs[i],
        bs.len() > 0 ==> exists|i: int| 0 <= i < bs.len() && peaks.last() == #[trigger] bs[i],
        peaks.last() >= currents.last(),
{
    let n = bs.len() as int;
    lemma_run_prefix(peaks, currents, bs, n);
    assert(bs.take(n) =~= bs);
    lemma_peak_is_max(bs);
    if n > 0 {
        let j = n - 1;
        assert(currents[j + 1] == bs[j]);
        assert(peaks.last() >= bs[j]);
    }
}

} // verus!
