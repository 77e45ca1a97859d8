//! Outcome accounting and latency statistics.

use vstd::prelude::*;

use crate::sort::{is_ascending, lemma_sorted_latencies, sort_latencies, sorted_latencies};

verus! {

/// One data point from a single HTTP request.
#[derive(Debug)]
pub struct Measurement {
    /// How long the request took, in milliseconds.
    pub duration_ms: u64,
    /// HTTP status code, or 0 when no response was received.
    pub status: u16,
    /// False on a network error or a non-2xx status.
    pub success: bool,
}

/// Request counters shared by all virtual users.
///
/// Every recorded request increments `total` and exactly one of `success`
/// and `failed`; all three wrap around at `u64::MAX + 1`.
pub struct Counters {
    pub total: u64,
    pub success: u64,
    pub failed: u64,
}

/// `2^64`, the modulus at which the counters wrap.
pub open spec fn counter_modulus() -> int {
    0x1_0000_0000_0000_0000
}

impl Counters {
    /// The counters' invariant: `total` is the number of successes plus the
    /// number of failures, modulo `2^64`.
    pub open spec fn wf(&self) -> bool {
        self.total as int == (self.success as int + self.failed as int) % counter_modulus()
    }

    /// All three counters at zero.
    pub fn new() -> (c: Counters)
        ensures
            c.total == 0,
            c.success == 0,
            c.failed == 0,
            c.wf(),
    {
        Counters { total: 0, success: 0, failed: 0 }
    }

    /// Counts one finished request: `total` and, depending on `success`,
    /// either `success` or `failed` go up by one (wrapping at `2^64`).
    pub fn record(&mut self, success: bool)
        ensures
            final(self).total as int == (old(self).total + 1) % counter_modulus(),
            success ==> final(self).success as int == (old(self).success + 1) % counter_modulus(),
            success ==> final(self).failed == old(self).failed,
            !success ==> final(self).failed as int == (old(self).failed + 1) % counter_modulus(),
            !success ==> final(self).success == old(self).success,
            old(self).wf() ==> final(self).wf(),
    {
        self.total = self.total.wrapping_add(1);
        if success {
            self.success = self.success.wrapping_add(1);
        } else {
            self.failed = self.failed.wrapping_add(1);
        }
    }
}

/// For counts that have not wrapped, the total is exactly the number of
/// successes plus the number of failures.
pub proof fn lemma_counts_add_up(c: Counters)
    requires
        c.wf(),
        (c.success as int) + (c.failed as int) < counter_modulus(),
    ensures
        c.total as int == c.success as int + c.failed as int,
{
}

/// Sum of all samples in `s`.
pub open spec fn latency_sum(s: Seq<u64>) -> int
    decreases s.len(),
{
    if s.len() == 0 {
        0
    } else {
        latency_sum(s.drop_last()) + s.last()
    }
}

/// The index, in the ascending samples, of the `p`-th percentile of `n`
/// samples: `floor(n * p / 100)`.
pub open spec fn percentile_index(n: int, p: int) -> int {
    n * p / 100
}

/// Latency statistics over a non-empty set of samples, in milliseconds.
#[derive(Debug)]
pub struct LatencyStats {
    pub min: u64,
    pub avg: u64,
    pub p50: u64,
    pub p95: u64,
    pub p99: u64,
    pub max: u64,
}

/// What the final report shows: the three counters and, when at least one
/// request completed, its latency statistics.
#[derive(Debug)]
pub struct Report {
    pub total: u64,
    pub success: u64,
    pub failed: u64,
    pub latency: Option<LatencyStats>,
}

/// The statistics of a non-empty sample sequence: extremes and percentiles
/// are read from the ascending rearrangement, the average is the floor of
/// the sum over the count.
pub open spec fn spec_latency_stats(s: Seq<u64>) -> LatencyStats
    recommends
        s.len() > 0,
{
    let sorted = sorted_latencies(s);
    let n = s.len() as int;
    LatencyStats {
        min: sorted[0],
        avg: (latency_sum(s) / n) as u64,
        p50: sorted[percentile_index(n, 50)],
        p95: sorted[percentile_index(n, 95)],
        p99: sorted[percentile_index(n, 99)],
        max: sorted[n - 1],
    }
}

/// The sum of a prefix never exceeds the sum of the whole sequence.
proof fn lemma_prefix_sum_le(s: Seq<u64>, i: int)
    requires
        0 <= i <= s.len(),
    ensures
        latency_sum(s.take(i)) <= latency_sum(s),
        latency_sum(s.take(i)) >= 0,
    decreases s.len(),
{
    if i == s.len() {
        assert(s.take(i) =~= s);
        lemma_sum_nonneg(s);
    } else {
        assert(s.take(i) =~= s.drop_last().take(i));
        lemma_prefix_sum_le(s.drop_last(), i);
    }
}

proof fn lemma_sum_nonneg(s: Seq<u64>)
    ensures
        latency_sum(s) >= 0,
    decreases s.len(),
{
    if s.len() > 0 {
        lemma_sum_nonneg(s.drop_last());
    }
}

/// Sum of all samples, or `None` when it does not fit in a `u64`.
pub fn total_latency(latencies: &Vec<u64>) -> (r: Option<u64>)
    ensures
        r == (if latency_sum(latencies@) <= u64::MAX {
            Some(latency_sum(latencies@) as u64)
        } else {
            None::<u64>
        }),
{
    let mut acc: u64 = 0;
    let mut i: usize = 0;
    while i < latencies.len()
        invariant
            i <= latencies.len(),
            acc == latency_sum(latencies@.take(i as int)),
        decreases latencies.len() - i,
    {
        let x = latencies[i];
        assert(latencies@.take(i + 1).drop_last() =~= latencies@.take(i as int));
        if acc > u64::MAX - x {
            proof {
                lemma_prefix_sum_le(latencies@, i + 1);
            }
            return None;
        }
        acc = acc + x;
        i = i + 1;
    }
    assert(latencies@.take(i as int) =~= latencies@);
    Some(acc)
}

/// `floor(n * p / 100)` computed without overflow.
fn percentile_position(n: usize, p: usize) -> (k: usize)
    requires
        p <= 100,
    ensures
        k == percentile_index(n as int, p as int),
        n > 0 && p < 100 ==> k < n,
        k <= n,
{
    let q = n / 100;
    let r = n % 100;
    proof {
        assert(n == 100 * q + r);
        assert(n * p == 100 * (q * p) + r * p) by (nonlinear_arith)
            requires
                n == 100 * q + r,
        ;
        assert((100 * (q * p) + r * p) / 100 == q * p + (r * p) / 100) by (nonlinear_arith)
            requires
                0 <= r < 100,
                0 <= p <= 100,
                q >= 0,
        ;
        assert(q * p + (r * p) / 100 <= n) by (nonlinear_arith)
            requires
                n == 100 * q + r,
                0 <= r < 100,
                0 <= p <= 100,
                q >= 0,
        ;
        assert(n > 0 && p < 100 ==> q * p + (r * p) / 100 < n) by (nonlinear_arith)
            requires
                n == 100 * q + r,
                0 <= r < 100,
                0 <= p <= 100,
                q >= 0,
        ;
        assert(r * p <= 9900) by (nonlinear_arith)
            requires
                0 <= r < 100,
                0 <= p <= 100,
        ;
        assert(q * p <= n) by (nonlinear_arith)
            requires
                n == 100 * q + r,
                0 <= r,
                0 <= p <= 100,
                q >= 0,
        ;
    }
    q * p + r * p / 100
}

/// The final report: the three counters and, when at least one latency
/// sample was collected, min / avg / p50 / p95 / p99 / max over them.
pub fn compute_report(latencies: Vec<u64>, counters: &Counters) -> (r: Report)
    requires
        latency_sum(latencies@) <= u64::MAX,
    ensures
        r.total == counters.total,
        r.success == counters.success,
        r.failed == counters.failed,
        r.latency == (if latencies@.len() == 0 {
            None::<LatencyStats>
        } else {
            Some(spec_latency_stats(latencies@))
        }),
{
    let latency = if latencies.len() == 0 {
        None
    } else {
        Some(latency_stats(&latencies))
    };
    Report { total: counters.total, success: counters.success, failed: counters.failed, latency }
}

/// Latency statistics of a non-empty sample vector.
pub fn latency_stats(latencies: &Vec<u64>) -> (stats: LatencyStats)
    requires
        latencies@.len() > 0,
        latency_sum(latencies@) <= u64::MAX,
    ensures
        stats == spec_latency_stats(latencies@),
{
    let sum = match total_latency(latencies) {
        Some(sum) => sum,
        None => 0,
    };
    let sorted = sort_latencies(latencies);
    proof {
        lemma_sorted_latencies(latencies@);
    }
    let n = sorted.len();
    let count = n as u64;
    let avg = sum / count;
    proof {
        let total = latency_sum(latencies@);
        lemma_sum_nonneg(latencies@);
        assert(0 <= total / (n as int) <= total) by (nonlinear_arith)
            requires
                total >= 0,
                n >= 1,
        ;
        assert(avg == total / (n as int));
    }
    LatencyStats {
        min: sorted[0],
        avg,
        p50: sorted[percentile_position(n, 50)],
        p95: sorted[percentile_position(n, 95)],
        p99: sorted[percentile_position(n, 99)],
        max: sorted[n - 1],
    }
}

/// Removing the sample at `j` lowers the sum by that sample.
proof fn lemma_sum_remove(s: Seq<u64>, j: int)
    requires
        0 <= j < s.len(),
    ensures
        latency_sum(s) == latency_sum(s.remove(j)) + s[j],
    decreases s.len(),
{
    if j == s.len() - 1 {
        assert(s.remove(j) =~= s.drop_last());
    } else {
        lemma_sum_remove(s.drop_last(), j);
        assert(s.remove(j).drop_last() =~= s.drop_last().remove(j));
        assert(s.remove(j).last() == s.last());
    }
}

/// Two sample sequences holding the same samples have the same sum.
proof fn lemma_sum_permutation(p: Seq<u64>, q: Seq<u64>)
    requires
        p.to_multiset() == q.to_multiset(),
    ensures
        latency_sum(p) == latency_sum(q),
    decreases p.len(),
{
    broadcast use vstd::seq_lib::group_to_multiset_ensures;
    broadcast use vstd::multiset::group_multiset_axioms;

    if p.len() == 0 {
        assert(p.len() == p.to_multiset().len());
        assert(q.len() == q.to_multiset().len());
    } else {
        let x = p.last();
        assert(p.to_multiset().count(x) > 0) by {
            assert(p.contains(x)) by {
                assert(p[p.len() - 1] == x);
            }
        }
        assert(q.contains(x));
        let j = choose|j: int| 0 <= j < q.len() && q[j] == x;
        assert(p.drop_last().push(x) =~= p);
        assert(p.drop_last().to_multiset() =~= p.to_multiset().remove(x));
        assert(q.remove(j).to_multiset() =~= q.to_multiset().remove(x));
        lemma_sum_permutation(p.drop_last(), q.remove(j));
        lemma_sum_remove(q, j);
    }
}

/// The report does not depend on the order in which samples arrived: two
/// sample sequences holding the same samples give the same statistics.
pub proof fn lemma_stats_order_independent(p: Seq<u64>, q: Seq<u64>)
    requires
        p.to_multiset() == q.to_multiset(),
    ensures
        p.len() == q.len(),
        latency_sum(p) == latency_sum(q),
        sorted_latencies(p) == sorted_latencies(q),
        p.len() > 0 ==> spec_latency_stats(p) == spec_latency_stats(q),
{
    broadcast use vstd::seq_lib::group_to_multiset_ensures;

    lemma_sorted_latencies(p);
    lemma_sorted_latencies(q);
    crate::sort::lemma_sorted_unique_ascending(sorted_latencies(p), sorted_latencies(q));
    lemma_sum_permutation(p, q);
}

/// If every sample lies in `[lo, hi]`, the sum lies in `[n * lo, n * hi]`.
proof fn lemma_sum_bounds(s: Seq<u64>, lo: int, hi: int)
    requires
        forall|i: int| 0 <= i < s.len() ==> lo <= #[trigger] s[i] <= hi,
    ensures
        s.len() * lo <= latency_sum(s) <= s.len() * hi,
    decreases s.len(),
{
    if s.len() > 0 {
        let t = s.drop_last();
        assert forall|i: int| 0 <= i < t.len() implies lo <= #[trigger] t[i] <= hi by {
            assert(t[i] == s[i]);
        }
        lemma_sum_bounds(t, lo, hi);
        let n = s.len() as int;
        assert((n - 1) * lo + lo == n * lo && (n - 1) * hi + hi == n * hi) by (nonlinear_arith);
    }
}

/// The report's statistics are consistent: the percentiles are ordered
/// between the minimum and the maximum, the average lies between them too,
/// every sample lies between them, and both extremes are samples.
pub proof fn lemma_latency_stats_ordered(s: Seq<u64>)
    requires
        s.len() > 0,
    ensures
        spec_latency_stats(s).min <= spec_latency_stats(s).p50,
        spec_latency_stats(s).p50 <= spec_latency_stats(s).p95,
        spec_latency_stats(s).p95 <= spec_latency_stats(s).p99,
        spec_latency_stats(s).p99 <= spec_latency_stats(s).max,
        spec_latency_stats(s).min <= spec_latency_stats(s).avg <= spec_latency_stats(s).max,
        forall|i: int|
            0 <= i < s.len() ==> spec_latency_stats(s).min <= #[trigger] s[i]
                <= spec_latency_stats(s).max,
        s.contains(spec_latency_stats(s).min),
        s.contains(spec_latency_stats(s).max),
{
    broadcast use vstd::seq_lib::group_to_multiset_ensures;

    let sorted = sorted_latencies(s);
    lemma_sorted_latencies(s);
    let n = s.len() as int;
    let st = spec_latency_stats(s);
    assert(0 <= percentile_index(n, 50) <= percentile_index(n, 95) <= percentile_index(n, 99)
        < n) by (nonlinear_arith)
        requires
            n >= 1,
    ;
    assert(is_ascending(sorted));
    assert forall|i: int| 0 <= i < s.len() implies st.min <= #[trigger] s[i] <= st.max by {
        assert(s.to_multiset().count(s[i]) > 0);
        assert(sorted.to_multiset().count(s[i]) > 0);
        assert(sorted.contains(s[i]));
        let k = choose|k: int| 0 <= k < sorted.len() && sorted[k] == s[i];
        assert(sorted[0] <= sorted[k]);
        assert(sorted[k] <= sorted[n - 1]);
    }
    assert(sorted.contains(sorted[0]));
    assert(sorted.contains(sorted[n - 1]));
    assert(sorted.to_multiset().count(sorted[0]) > 0);
    assert(sorted.to_multiset().count(sorted[n - 1]) > 0);
    lemma_sum_bounds(s, st.min as int, st.max as int);
    let total = latency_sum(s);
    let lo = st.min as int;
    let hi = st.max as int;
    assert(lo <= total / n <= hi) by (nonlinear_arith)
        requires
            n >= 1,
            n * lo <= total <= n * hi,
    ;
}

} // verus!
