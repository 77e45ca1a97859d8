//! Ascending sort of latency samples (merge sort), proved to yield the
//! unique ascending rearrangement of its input.

use vstd::prelude::*;
use vstd::relations::sorted_by;
use vstd::seq_lib::{lemma_multiset_commutative, lemma_sorted_unique};

verus! {

broadcast use vstd::seq_lib::group_to_multiset_ensures;

/// The order in which latencies are reported: ascending.
pub open spec fn ascending() -> spec_fn(u64, u64) -> bool {
    |x: u64, y: u64| x <= y
}

/// The samples of `s` rearranged in ascending order.
pub open spec fn sorted_latencies(s: Seq<u64>) -> Seq<u64> {
    s.sort_by(ascending())
}

/// `s` is in ascending order.
pub open spec fn is_ascending(s: Seq<u64>) -> bool {
    forall|i: int, j: int| 0 <= i < j < s.len() ==> s[i] <= s[j]
}

proof fn lemma_ascending_sorted_by(s: Seq<u64>)
    ensures
        is_ascending(s) <==> sorted_by(s, ascending()),
{
    if is_ascending(s) {
        assert forall|i: int, j: int| 0 <= i < j < s.len() implies #[trigger] (ascending())(
            s[i],
            s[j],
        ) by {}
    }
    if sorted_by(s, ascending()) {
        assert forall|i: int, j: int| 0 <= i < j < s.len() implies s[i] <= s[j] by {
            assert((ascending())(s[i], s[j]));
        }
    }
}

/// The ascending rearrangement is in ascending order and holds exactly the
/// samples of `s`.
pub proof fn lemma_sorted_latencies(s: Seq<u64>)
    ensures
        is_ascending(sorted_latencies(s)),
        sorted_latencies(s).to_multiset() == s.to_multiset(),
        sorted_latencies(s).len() == s.len(),
{
    s.lemma_sort_by_ensures(ascending());
    lemma_ascending_sorted_by(sorted_latencies(s));
    s.to_multiset_ensures();
    sorted_latencies(s).to_multiset_ensures();
}

/// Two ascending sequences holding the same samples are equal.
pub proof fn lemma_sorted_unique_ascending(x: Seq<u64>, y: Seq<u64>)
    requires
        is_ascending(x),
        is_ascending(y),
        x.to_multiset() == y.to_multiset(),
    ensures
        x == y,
{
    lemma_ascending_sorted_by(x);
    lemma_ascending_sorted_by(y);
    lemma_sorted_unique(x, y, ascending());
}

/// Merges two ascending vectors into one ascending vector that holds the
/// samples of both.
fn merge(left: &Vec<u64>, right: &Vec<u64>) -> (out: Vec<u64>)
    requires
        is_ascending(left@),
        is_ascending(right@),
        left.len() + right.len() <= usize::MAX,
    ensures
        is_ascending(out@),
        out@.to_multiset() == left@.to_multiset().add(right@.to_multiset()),
        out@.len() == left@.len() + right@.len(),
{
    let mut out: Vec<u64> = Vec::new();
    let mut i: usize = 0;
    let mut j: usize = 0;
    while i < left.len() || j < right.len()
        invariant
            is_ascending(left@),
            is_ascending(right@),
            left.len() + right.len() <= usize::MAX,
            i <= left.len(),
            j <= right.len(),
            out@.len() == i + j,
            is_ascending(out@),
            out@.to_multiset() == left@.subrange(0, i as int).to_multiset().add(
                right@.subrange(0, j as int).to_multiset(),
            ),
            out@.len() > 0 && i < left.len() ==> out@.last() <= left@[i as int],
            out@.len() > 0 && j < right.len() ==> out@.last() <= right@[j as int],
        decreases left.len() + right.len() - i - j,
    {
        let take_left = if i < left.len() {
            j >= right.len() || left[i] <= right[j]
        } else {
            false
        };
        let ghost old_out = out@;
        if take_left {
            let x = left[i];
            assert(i + 1 < left.len() ==> x <= left@[i + 1]);
            out.push(x);
            assert(left@.subrange(0, i + 1) =~= left@.subrange(0, i as int).push(x));
            i = i + 1;
        } else {
            let x = right[j];
            assert(j + 1 < right.len() ==> x <= right@[j + 1]);
            out.push(x);
            assert(right@.subrange(0, j + 1) =~= right@.subrange(0, j as int).push(x));
            j = j + 1;
        }
        assert forall|a: int, b: int| 0 <= a < b < out@.len() implies out@[a] <= out@[b] by {
            if b < out@.len() - 1 {
                assert(out@[a] == old_out[a] && out@[b] == old_out[b]);
            } else {
                assert(out@[a] == old_out[a]);
                assert(old_out[a] <= old_out[old_out.len() - 1]);
            }
        }
    }
    assert(left@.subrange(0, left.len() as int) =~= left@);
    assert(right@.subrange(0, right.len() as int) =~= right@);
    out
}

/// Copies `v[lo..hi]` into a new vector.
fn copy_range(v: &Vec<u64>, lo: usize, hi: usize) -> (out: Vec<u64>)
    requires
        lo <= hi <= v.len(),
    ensures
        out@ == v@.subrange(lo as int, hi as int),
{
    let mut out: Vec<u64> = Vec::new();
    let mut k: usize = lo;
    while k < hi
        invariant
            lo <= k <= hi <= v.len(),
            out@ == v@.subrange(lo as int, k as int),
        decreases hi - k,
    {
        out.push(v[k]);
        assert(v@.subrange(lo as int, k + 1) =~= v@.subrange(lo as int, k as int).push(v@[k as int]));
        k = k + 1;
    }
    out
}

/// Merge sort: an ascending vector with exactly the samples of `v`.
fn merge_sort(v: &Vec<u64>) -> (out: Vec<u64>)
    ensures
        is_ascending(out@),
        out@.to_multiset() == v@.to_multiset(),
        out@.len() == v@.len(),
    decreases v.len(),
{
    let n = v.len();
    if n <= 1 {
        let out = copy_range(v, 0, n);
        assert(out@ =~= v@);
        return out;
    }
    let mid = n / 2;
    let lo = copy_range(v, 0, mid);
    let hi = copy_range(v, mid, n);
    let lo_sorted = merge_sort(&lo);
    let hi_sorted = merge_sort(&hi);
    proof {
        assert(v@ =~= lo@ + hi@);
        lemma_multiset_commutative(lo@, hi@);
    }
    merge(&lo_sorted, &hi_sorted)
}

/// Sorts latency samples in ascending order.
pub fn sort_latencies(latencies: &Vec<u64>) -> (sorted: Vec<u64>)
    ensures
        sorted@ == sorted_latencies(latencies@),
{
    let sorted = merge_sort(latencies);
    proof {
        lemma_sorted_latencies(latencies@);
        lemma_ascending_sorted_by(sorted@);
        lemma_ascending_sorted_by(sorted_latencies(latencies@));
        lemma_sorted_unique(sorted@, sorted_latencies(latencies@), ascending());
    }
    sorted
}

} // verus!
