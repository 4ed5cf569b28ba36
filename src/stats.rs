//! Streaming latency statistics: running count, sum, minimum and maximum,
//! event-sequence validation (gaps and out-of-order arrivals) and a bounded
//! window of recent latencies for percentiles and jitter.
//!
//! The model of an aggregator is the sequence of `(event_id, latency)` pairs
//! submitted to it, in submission order, and the capacity of its window;
//! every figure it reports is a function of those two.

use std::collections::VecDeque;
use vstd::prelude::*;

verus! {

/// The latencies of a submission history, in order.
pub open spec fn latencies(h: Seq<(u64, i64)>) -> Seq<i64> {
    h.map_values(|p: (u64, i64)| p.1)
}

/// Sum of the submitted latencies.
pub open spec fn latency_sum(h: Seq<(u64, i64)>) -> int
    decreases h.len(),
{
    if h.len() == 0 {
        0
    } else {
        latency_sum(h.drop_last()) + h.last().1
    }
}

/// Smallest submitted latency; `i64::MAX` before the first submission.
pub open spec fn latency_min(h: Seq<(u64, i64)>) -> i64
    decreases h.len(),
{
    if h.len() == 0 {
        i64::MAX
    } else {
        let m = latency_min(h.drop_last());
        if h.last().1 < m {
            h.last().1
        } else {
            m
        }
    }
}

/// Largest submitted latency; `i64::MIN` before the first submission.
pub open spec fn latency_max(h: Seq<(u64, i64)>) -> i64
    decreases h.len(),
{
    if h.len() == 0 {
        i64::MIN
    } else {
        let m = latency_max(h.drop_last());
        if h.last().1 > m {
            h.last().1
        } else {
            m
        }
    }
}

/// Identifiers skipped between a prior identifier and the next one.
pub open spec fn skipped(prev: u64, id: u64) -> nat {
    if id > prev + 1 {
        (id - prev - 1) as nat
    } else {
        0
    }
}

/// Total number of identifiers skipped over consecutive submissions.
pub open spec fn gap_total(h: Seq<(u64, i64)>) -> nat
    decreases h.len(),
{
    if h.len() <= 1 {
        0
    } else {
        gap_total(h.drop_last()) + skipped(h[h.len() - 2].0, h.last().0)
    }
}

/// Number of submissions whose identifier is smaller than the one before.
pub open spec fn out_of_order_total(h: Seq<(u64, i64)>) -> nat
    decreases h.len(),
{
    if h.len() <= 1 {
        0
    } else {
        out_of_order_total(h.drop_last()) + if h.last().0 < h[h.len() - 2].0 {
            1nat
        } else {
            0nat
        }
    }
}

/// The most recent `cap` latencies (all of them while fewer were submitted),
/// oldest first.
pub open spec fn recent_window(h: Seq<(u64, i64)>, cap: nat) -> Seq<i64> {
    let l = latencies(h);
    if l.len() <= cap {
        l
    } else {
        l.subrange(l.len() - cap, l.len() as int)
    }
}

pub open spec fn saturate(n: nat) -> u64 {
    if n > u64::MAX {
        u64::MAX
    } else {
        n as u64
    }
}

/// `s` is in ascending order.
pub open spec fn sorted_ascending(s: Seq<i64>) -> bool {
    forall|a: int, b: int| 0 <= a < b < s.len() ==> s[a] <= s[b]
}

/// Position of the `pct`-th percentile in a sorted sequence of `len`
/// values: `floor(len * pct / 100)`, clamped to the last position.
pub open spec fn percentile_index(len: nat, pct: nat) -> int {
    let i = (len * pct) / 100;
    if i >= len {
        len - 1
    } else {
        i as int
    }
}

/// The `pct`-th percentile of a sorted sequence; zero when it is empty.
pub open spec fn percentile_of(sorted: Seq<i64>, pct: nat) -> i64 {
    if sorted.len() == 0 {
        0
    } else {
        sorted[percentile_index(sorted.len(), pct)]
    }
}

/// Relies on `slice::sort_unstable`: it sorts the values in place in
/// ascending order, neither adding nor dropping any.
#[verifier::external_body]
fn sort_ascending(v: &mut Vec<i64>)
    ensures
        sorted_ascending(final(v)@),
        final(v)@.to_multiset() == old(v)@.to_multiset(),
{
    v.sort_unstable();
}

/// Index of the `pct`-th percentile among `len` sorted values.
pub fn percentile_position(len: usize, pct: u64) -> (r: usize)
    requires
        len > 0,
        pct <= 100,
    ensures
        r == percentile_index(len as nat, pct as nat),
        r < len,
{
    proof {
        assert(len * pct <= len * 100) by (nonlinear_arith)
            requires
                pct <= 100,
        ;
    }
    let i: u128 = (len as u128) * (pct as u128) / 100;
    if i >= len as u128 {
        len - 1
    } else {
        i as usize
    }
}

/// A point-in-time summary of the statistics. `min` and `max` are zero
/// before the first event; the percentiles are read from `sorted_window`,
/// the recent window in ascending order, and are zero when it is empty.
pub struct Snapshot {
    pub count: u64,
    pub sum: i128,
    pub min: i64,
    pub max: i64,
    pub p50: i64,
    pub p95: i64,
    pub p99: i64,
    pub gap_count: u64,
    pub out_of_order_count: u64,
    pub sorted_window: Vec<i64>,
}

/// Running latency statistics over a stream of events.
#[derive(Clone)]
pub struct LatencyStats {
    count: u64,
    sum: i128,
    min: i64,
    max: i64,
    last_event_id: u64,
    gap_count: u64,
    out_of_order_count: u64,
    window: VecDeque<i64>,
    capacity: usize,
    history: Ghost<Seq<(u64, i64)>>,
}

impl LatencyStats {
    /// The `(event_id, latency)` pairs submitted so far, oldest first.
    pub closed spec fn history(&self) -> Seq<(u64, i64)> {
        self.history@
    }

    /// The configured capacity of the recent-sample window.
    pub closed spec fn window_capacity(&self) -> nat {
        self.capacity as nat
    }

    /// The stored figures agree with the submission history.
    pub closed spec fn wf(&self) -> bool {
        let h = self.history@;
        &&& self.count as nat == h.len()
        &&& self.sum as int == latency_sum(h)
        &&& self.min == latency_min(h)
        &&& self.max == latency_max(h)
        &&& h.len() > 0 ==> self.last_event_id == h.last().0
        &&& self.gap_count == saturate(gap_total(h))
        &&& self.out_of_order_count as nat == out_of_order_total(h)
        &&& self.window@ == recent_window(h, self.capacity as nat)
    }

    /// An aggregator with no submissions whose window keeps the last
    /// `capacity` latencies.
    pub fn new(capacity: usize) -> (r: Self)
        ensures
            r.wf(),
            r.history() == Seq::<(u64, i64)>::empty(),
            r.window_capacity() == capacity,
    {
        let window = VecDeque::with_capacity(capacity);
        proof {
            assert(latencies(Seq::<(u64, i64)>::empty()) =~= Seq::<i64>::empty());
            assert(window@ =~= Seq::<i64>::empty());
        }
        LatencyStats {
            count: 0,
            sum: 0,
            min: i64::MAX,
            max: i64::MIN,
            last_event_id: 0,
            gap_count: 0,
            out_of_order_count: 0,
            window,
            capacity,
            history: Ghost(Seq::empty()),
        }
    }

    /// Records one event: its latency enters the count, sum, minimum,
    /// maximum and recent window, and its identifier is checked against the
    /// previous one for gaps and out-of-order arrival.
    pub fn update(&mut self, event_id: u64, latency: i64)
        requires
            old(self).wf(),
            old(self).history().len() < u64::MAX,
        ensures
            final(self).wf(),
            final(self).history() == old(self).history().push((event_id, latency)),
            final(self).window_capacity() == old(self).window_capacity(),
    {
        let ghost h = self.history@;
        let ghost h2 = h.push((event_id, latency));
        proof {
            assert(h2.drop_last() =~= h);
            lemma_sum_bounds(h);
            lemma_out_of_order_bound(h);
            assert((h.len() + 1) * 0x8000_0000_0000_0000int <= 0x1_0000_0000_0000_0000int
                * 0x8000_0000_0000_0000int) by (nonlinear_arith)
                requires
                    h.len() + 1 <= 0x1_0000_0000_0000_0000int,
            ;
        }
        let prior = self.count > 0;
        let last_id = self.last_event_id;

        self.count = self.count + 1;
        self.sum = self.sum + latency as i128;
        if latency < self.min {
            self.min = latency;
        }
        if latency > self.max {
            self.max = latency;
        }

        if prior {
            if event_id < last_id {
                self.out_of_order_count = self.out_of_order_count + 1;
            } else if event_id > last_id && event_id - last_id > 1 {
                self.gap_count = self.gap_count.saturating_add(event_id - last_id - 1);
            }
        }
        self.last_event_id = event_id;

        self.window.push_back(latency);
        if self.window.len() > self.capacity {
            self.window.pop_front();
        }
        proof {
            let l = latencies(h);
            let l2 = latencies(h2);
            assert(l2 =~= l.push(latency));
            if l2.len() > self.capacity {
                assert(recent_window(h2, self.capacity as nat) =~= recent_window(
                    h,
                    self.capacity as nat,
                ).push(latency).subrange(1, recent_window(h, self.capacity as nat).len() as int + 1));
            } else {
                assert(recent_window(h2, self.capacity as nat) =~= recent_window(
                    h,
                    self.capacity as nat,
                ).push(latency));
            }
        }
        self.history = Ghost(h2);
    }

    /// Summarises the statistics: the running figures, and percentiles taken
    /// from a sorted copy of the recent window.
    pub fn snapshot(&self) -> (r: Snapshot)
        requires
            self.wf(),
        ensures
            r.count == self.history().len(),
            r.sum == latency_sum(self.history()),
            self.history().len() == 0 ==> r.min == 0 && r.max == 0,
            self.history().len() > 0 ==> r.min == latency_min(self.history()) && r.max
                == latency_max(self.history()),
            r.gap_count == saturate(gap_total(self.history())),
            r.out_of_order_count == out_of_order_total(self.history()),
            sorted_ascending(r.sorted_window@),
            r.sorted_window@.to_multiset() == recent_window(
                self.history(),
                self.window_capacity(),
            ).to_multiset(),
            r.p50 == percentile_of(r.sorted_window@, 50),
            r.p95 == percentile_of(r.sorted_window@, 95),
            r.p99 == percentile_of(r.sorted_window@, 99),
    {
        let mut sorted = self.recent_latencies();
        sort_ascending(&mut sorted);
        let n = sorted.len();
        let (p50, p95, p99) = if n == 0 {
            (0, 0, 0)
        } else {
            (
                sorted[percentile_position(n, 50)],
                sorted[percentile_position(n, 95)],
                sorted[percentile_position(n, 99)],
            )
        };
        let (min, max) = if self.count == 0 {
            (0, 0)
        } else {
            (self.min, self.max)
        };
        Snapshot {
            count: self.count,
            sum: self.sum,
            min,
            max,
            p50,
            p95,
            p99,
            gap_count: self.gap_count,
            out_of_order_count: self.out_of_order_count,
            sorted_window: sorted,
        }
    }

    /// The recent window, oldest first.
    pub fn recent_latencies(&self) -> (r: Vec<i64>)
        requires
            self.wf(),
        ensures
            r@ == recent_window(self.history(), self.window_capacity()),
    {
        let mut v: Vec<i64> = Vec::with_capacity(self.window.len());
        let mut k: usize = 0;
        while k < self.window.len()
            invariant
                k <= self.window@.len(),
                v@ == self.window@.subrange(0, k as int),
            decreases self.window@.len() - k,
        {
            v.push(self.window[k]);
            k += 1;
            proof {
                assert(v@ =~= self.window@.subrange(0, k as int));
            }
        }
        proof {
            assert(v@ =~= self.window@);
        }
        v
    }
}

/// After any sequence of submissions, the running minimum is at most, and
/// the running maximum at least, every submitted latency.
pub proof fn lemma_min_max_bound(h: Seq<(u64, i64)>)
    ensures
        forall|k: int| 0 <= k < h.len() ==> latency_min(h) <= #[trigger] h[k].1 <= latency_max(h),
    decreases h.len(),
{
    if h.len() > 0 {
        lemma_min_max_bound(h.drop_last());
        assert forall|k: int| 0 <= k < h.len() implies latency_min(h) <= #[trigger] h[k].1
            <= latency_max(h) by {
            if k < h.len() - 1 {
                assert(h[k] == h.drop_last()[k]);
            }
        }
    }
}

/// The recent window never holds more than its capacity, and once `cap + k`
/// latencies were submitted it holds exactly the last `cap` of them, in
/// submission order.
pub proof fn lemma_window_bounded(h: Seq<(u64, i64)>, cap: nat, k: nat)
    ensures
        recent_window(h, cap).len() <= cap,
        h.len() == cap + k ==> recent_window(h, cap) == latencies(h).subrange(
            k as int,
            h.len() as int,
        ),
{
}

impl LatencyStats {
    /// Number of events recorded.
    pub fn count(&self) -> (r: u64)
        requires
            self.wf(),
        ensures
            r == self.history().len(),
    {
        self.count
    }

    /// Sum of the recorded latencies.
    pub fn sum(&self) -> (r: i128)
        requires
            self.wf(),
        ensures
            r == latency_sum(self.history()),
    {
        self.sum
    }

    /// Smallest recorded latency; `i64::MAX` before the first event.
    pub fn min_latency(&self) -> (r: i64)
        requires
            self.wf(),
        ensures
            r == latency_min(self.history()),
    {
        self.min
    }

    /// Largest recorded latency; `i64::MIN` before the first event.
    pub fn max_latency(&self) -> (r: i64)
        requires
            self.wf(),
        ensures
            r == latency_max(self.history()),
    {
        self.max
    }

    /// Identifiers skipped so far (saturating at `u64::MAX`).
    pub fn gap_count(&self) -> (r: u64)
        requires
            self.wf(),
        ensures
            r == saturate(gap_total(self.history())),
    {
        self.gap_count
    }

    /// Events that arrived with an identifier below the previous one.
    pub fn out_of_order_count(&self) -> (r: u64)
        requires
            self.wf(),
        ensures
            r == out_of_order_total(self.history()),
    {
        self.out_of_order_count
    }

    /// Capacity of the recent window.
    pub fn capacity(&self) -> (r: usize)
        requires
            self.wf(),
        ensures
            r == self.window_capacity(),
    {
        self.capacity
    }
}

/// Strictly increasing identifiers leave nothing out of order, and
/// identifiers that each exceed the previous by exactly one leave no gap.
pub proof fn lemma_increasing_ids(h: Seq<(u64, i64)>)
    ensures
        (forall|k: int| 0 < k < h.len() ==> h[k - 1].0 < #[trigger] h[k].0) ==> out_of_order_total(h)
            == 0,
        (forall|k: int| 0 < k < h.len() ==> #[trigger] h[k].0 == h[k - 1].0 + 1) ==> gap_total(h)
            == 0,
    decreases h.len(),
{
    if h.len() > 1 {
        let t = h.drop_last();
        lemma_increasing_ids(t);
        if forall|k: int| 0 < k < h.len() ==> h[k - 1].0 < #[trigger] h[k].0 {
            assert forall|k: int| 0 < k < t.len() implies t[k - 1].0 < #[trigger] t[k].0 by {
                assert(h[k].0 > h[k - 1].0);
            }
            assert(h[h.len() - 1].0 > h[h.len() - 2].0);
        }
        if forall|k: int| 0 < k < h.len() ==> #[trigger] h[k].0 == h[k - 1].0 + 1 {
            assert forall|k: int| 0 < k < t.len() implies #[trigger] t[k].0 == t[k - 1].0 + 1 by {
                assert(h[k].0 == h[k - 1].0 + 1);
            }
            assert(h[h.len() - 1].0 == h[h.len() - 2].0 + 1);
        }
    }
}

proof fn lemma_sum_bounds(h: Seq<(u64, i64)>)
    ensures
        -(h.len() * 0x8000_0000_0000_0000int) <= latency_sum(h) <= h.len()
            * 0x8000_0000_0000_0000int,
    decreases h.len(),
{
    if h.len() > 0 {
        lemma_sum_bounds(h.drop_last());
    }
}

proof fn lemma_out_of_order_bound(h: Seq<(u64, i64)>)
    ensures
        out_of_order_total(h) <= h.len(),
    decreases h.len(),
{
    if h.len() > 1 {
        lemma_out_of_order_bound(h.drop_last());
    }
}

} // verus!
