//! Summary statistics over observed resource samples.
//!
//! Samples arrive as plain non-negative integers (microcores for CPU,
//! bytes for memory). The summary is min, max, arithmetic mean, and the
//! nearest-rank percentiles p50, p95 and p99, where the rank is the
//! ceiling of `p / 100 * (n - 1)`.

use vstd::prelude::*;
use vstd::arithmetic::div_mod::lemma_div_is_ordered;
use crate::quantity::{ceil_div, nat_min};

verus! {

/// The five-number-plus-mean summary of one sample set.
#[derive(Clone, Copy, Debug, PartialEq, Eq, Structural)]
pub struct UsageStats {
    pub min: u64,
    pub max: u64,
    pub avg: u64,
    pub p50: u64,
    pub p95: u64,
    pub p99: u64,
}

/// The all-zero summary that stands for an empty sample set.
pub open spec fn zero_stats() -> UsageStats {
    UsageStats { min: 0, max: 0, avg: 0, p50: 0, p95: 0, p99: 0 }
}

pub open spec fn sorted_ascending(s: Seq<u64>) -> bool {
    forall|i: int, j: int| 0 <= i < j < s.len() ==> s[i] <= s[j]
}

/// The ascending rearrangement of a sample sequence.
pub open spec fn sort_of(s: Seq<u64>) -> Seq<u64> {
    s.sort_by(|a: u64, b: u64| a <= b)
}

/// The nearest-rank index for percentile `p` over `n` samples: the ceiling
/// of `p * (n - 1) / 100`, clamped to the last index.
pub open spec fn percentile_rank(p: nat, n: nat) -> nat
    recommends
        n >= 1,
{
    nat_min(ceil_div((p * (n - 1)) as nat, 100), (n - 1) as nat)
}

/// The nearest-rank percentile of an ascending sequence; zero when empty.
pub open spec fn percentile_of_sorted(s: Seq<u64>, p: nat) -> u64 {
    if s.len() == 0 {
        0
    } else {
        s[percentile_rank(p, s.len()) as int]
    }
}

pub open spec fn sum_of(s: Seq<u64>) -> int
    decreases s.len(),
{
    if s.len() == 0 {
        0
    } else {
        sum_of(s.drop_last()) + s.last()
    }
}

/// The arithmetic mean, rounded down.
pub open spec fn mean_of(s: Seq<u64>) -> u64
    recommends
        s.len() >= 1,
{
    (sum_of(s) / (s.len() as int)) as u64
}

/// The summary of a sample sequence: all zero when empty, otherwise the
/// ends, mean and percentiles of its ascending rearrangement.
pub open spec fn stats_of(values: Seq<u64>) -> UsageStats {
    if values.len() == 0 {
        zero_stats()
    } else {
        let ss = sort_of(values);
        UsageStats {
            min: ss[0],
            max: ss[ss.len() - 1],
            avg: mean_of(ss),
            p50: percentile_of_sorted(ss, 50),
            p95: percentile_of_sorted(ss, 95),
            p99: percentile_of_sorted(ss, 99),
        }
    }
}

proof fn lemma_insert_multiset(s: Seq<u64>, i: int, x: u64)
    requires
        0 <= i <= s.len(),
    ensures
        s.insert(i, x).to_multiset() =~= s.to_multiset().insert(x),
{
    broadcast use vstd::seq_lib::group_to_multiset_ensures;
    broadcast use vstd::multiset::group_multiset_axioms;

    let t = s.insert(i, x);
    assert(t.remove(i) =~= s);
    assert(t[i] == x);
    assert(t.remove(i).to_multiset() =~= t.to_multiset().remove(x));
    assert(t.contains(x));
    assert(t.to_multiset().count(x) > 0);
    assert forall|y: u64| t.to_multiset().count(y) == s.to_multiset().insert(x).count(y) by {
        if y == x {
            assert(s.to_multiset().count(x) == t.to_multiset().remove(x).count(x));
        } else {
            assert(s.to_multiset().count(y) == t.to_multiset().remove(x).count(y));
        }
    }
}

/// Two ascending sequences over the same multiset are the same sequence.
proof fn lemma_sorted_unique(a: Seq<u64>, b: Seq<u64>)
    requires
        sorted_ascending(a),
        sorted_ascending(b),
        a.to_multiset() == b.to_multiset(),
    ensures
        a =~= b,
    decreases a.len(),
{
    broadcast use vstd::seq_lib::group_to_multiset_ensures;
    broadcast use vstd::multiset::group_multiset_axioms;

    a.to_multiset_ensures();
    b.to_multiset_ensures();
    if a.len() == 0 {
        assert(b.to_multiset().len() == 0);
        assert(b.len() == 0);
    } else {
        assert(a.to_multiset().len() == b.to_multiset().len());
        assert(b.len() == a.len());
        assert(a.contains(a[0]));
        assert(b.to_multiset().count(a[0]) > 0);
        assert(b.contains(a[0]));
        let ja = choose|j: int| 0 <= j < b.len() && b[j] == a[0];
        assert(b[0] <= a[0]);
        assert(b.contains(b[0]));
        assert(a.to_multiset().count(b[0]) > 0);
        assert(a.contains(b[0]));
        let jb = choose|j: int| 0 <= j < a.len() && a[j] == b[0];
        assert(a[0] <= b[0]);
        assert(a[0] == b[0]);
        let at = a.remove(0);
        let bt = b.remove(0);
        assert(at.to_multiset() =~= a.to_multiset().remove(a[0]));
        assert(bt.to_multiset() =~= b.to_multiset().remove(b[0]));
        assert(sorted_ascending(at)) by {
            assert(forall|i: int| 0 <= i < at.len() ==> at[i] == a[i + 1]);
        }
        assert(sorted_ascending(bt)) by {
            assert(forall|i: int| 0 <= i < bt.len() ==> bt[i] == b[i + 1]);
        }
        lemma_sorted_unique(at, bt);
        assert forall|i: int| 0 <= i < a.len() implies a[i] == b[i] by {
            if i > 0 {
                assert(a[i] == at[i - 1]);
                assert(b[i] == bt[i - 1]);
            }
        }
    }
}

/// Sorts a copy of the samples ascending.
pub fn sort_values(values: &Vec<u64>) -> (r: Vec<u64>)
    ensures
        r@ == sort_of(values@),
        sorted_ascending(r@),
        r@.len() == values@.len(),
{
    proof {
        values@.lemma_sort_by_ensures(|a: u64, b: u64| a <= b);
    }
    let mut out: Vec<u64> = Vec::new();
    let mut k: usize = 0;
    proof {
        assert(out@ =~= values@.subrange(0, 0));
    }
    while k < values.len()
        invariant
            k <= values@.len(),
            sorted_ascending(out@),
            out@.to_multiset() == values@.subrange(0, k as int).to_multiset(),
        decreases values@.len() - k,
    {
        let x = values[k];
        let mut idx: usize = 0;
        while idx < out.len() && out[idx] <= x
            invariant
                idx <= out@.len(),
                forall|i: int| 0 <= i < idx ==> out@[i] <= x,
            decreases out@.len() - idx,
        {
            idx += 1;
        }
        let ghost pre = out@;
        out.insert(idx, x);
        proof {
            broadcast use vstd::seq_lib::group_to_multiset_ensures;

            assert(out@ == pre.insert(idx as int, x));
            assert(sorted_ascending(out@)) by {
                assert(forall|i: int| 0 <= i < idx ==> out@[i] == pre[i]);
                assert(out@[idx as int] == x);
                assert(forall|i: int| idx < i < out@.len() ==> out@[i] == pre[i - 1]);
                assert(forall|i: int| idx <= i < pre.len() ==> pre[i] >= x);
            }
            lemma_insert_multiset(pre, idx as int, x);
            assert(values@.subrange(0, k + 1) =~= values@.subrange(0, k as int).push(x));
            assert(values@.subrange(0, k as int).push(x).to_multiset() =~= values@.subrange(0,
                k as int).to_multiset().insert(x));
        }
        k += 1;
    }
    proof {
        assert(values@.subrange(0, values@.len() as int) =~= values@);
        let ss = sort_of(values@);
        let f = (|a: u64, b: u64| a <= b);
        assert(vstd::relations::sorted_by(ss, f));
        assert forall|i: int, j: int| 0 <= i < j < ss.len() implies ss[i] <= ss[j] by {
            assert(f(ss[i], ss[j]));
        }
        assert(sorted_ascending(ss));
        lemma_sorted_unique(out@, ss);
        out@.to_multiset_ensures();
        values@.to_multiset_ensures();
    }
    out
}

/// The nearest-rank percentile of an ascending sample sequence.
pub fn percentile(sorted_values: &Vec<u64>, pct: u64) -> (r: u64)
    ensures
        r == percentile_of_sorted(sorted_values@, pct as nat),
{
    let n = sorted_values.len();
    if n == 0 {
        return 0;
    }
    proof {
        assert((pct as int) * ((n - 1) as int) + 99 <= u128::MAX as int) by (nonlinear_arith)
            requires
                pct <= u64::MAX,
                0 <= (n - 1) as int <= u64::MAX;
    }
    let wide: u128 = ((pct as u128) * ((n - 1) as u128) + 99) / 100;
    let last: u128 = (n - 1) as u128;
    let idx: usize = if wide < last { wide as usize } else { n - 1 };
    proof {
        assert(wide as int == ((pct as int) * ((n - 1) as int) + 99) / 100);
        assert(idx as nat == percentile_rank(pct as nat, n as nat));
    }
    sorted_values[idx]
}

/// At percentile 100 the nearest-rank rule lands on the last element, at
/// percentile 0 on the first.
pub proof fn lemma_percentile_extremes(s: Seq<u64>)
    requires
        s.len() >= 1,
    ensures
        percentile_of_sorted(s, 100) == s.last(),
        percentile_of_sorted(s, 0) == s.first(),
{
    let n = s.len();
    assert(ceil_div((100 * (n - 1)) as nat, 100) == n - 1) by {
        vstd::arithmetic::div_mod::lemma_fundamental_div_mod_converse(
            100 * ((n - 1) as int) + 99, 100, (n - 1) as int, 99);
    }
    assert(ceil_div((0 * (n - 1)) as nat, 100) == 0);
}

/// The percentile of an ascending sequence is non-decreasing in the
/// percentile.
pub proof fn lemma_percentile_monotone(s: Seq<u64>, p1: nat, p2: nat)
    requires
        sorted_ascending(s),
        s.len() >= 1,
        p1 <= p2,
    ensures
        percentile_of_sorted(s, p1) <= percentile_of_sorted(s, p2),
{
    let n = s.len();
    assert(p1 * (n - 1) <= p2 * (n - 1)) by (nonlinear_arith)
        requires
            p1 <= p2,
            n >= 1;
    lemma_div_is_ordered((p1 * (n - 1) + 99) as int, (p2 * (n - 1) + 99) as int, 100);
    let r1 = percentile_rank(p1, n);
    let r2 = percentile_rank(p2, n);
    assert(r1 <= r2);
    if r1 < r2 {
        assert(s[r1 as int] <= s[r2 as int]);
    }
}

proof fn lemma_sum_bounds(s: Seq<u64>, lo: u64, hi: u64)
    requires
        forall|i: int| 0 <= i < s.len() ==> lo <= #[trigger] s[i] <= hi,
    ensures
        s.len() * lo <= sum_of(s) <= s.len() * hi,
    decreases s.len(),
{
    if s.len() == 0 {
    } else {
        assert(forall|i: int|
            0 <= i < s.len() - 1 ==> lo <= #[trigger] s.drop_last()[i] <= hi);
        lemma_sum_bounds(s.drop_last(), lo, hi);
        assert(lo <= s.last() <= hi);
        assert((s.len() - 1) * lo + lo == s.len() * lo) by (nonlinear_arith);
        assert((s.len() - 1) * hi + hi == s.len() * hi) by (nonlinear_arith);
    }
}

proof fn lemma_mean_bounds(s: Seq<u64>)
    requires
        sorted_ascending(s),
        s.len() >= 1,
    ensures
        s.first() <= mean_of(s) <= s.last(),
{
    let lo = s.first();
    let hi = s.last();
    assert(forall|i: int| 0 <= i < s.len() ==> lo <= #[trigger] s[i] <= hi);
    lemma_sum_bounds(s, lo, hi);
    let n = s.len() as int;
    assert(n * lo / n == lo && n * hi / n == hi) by (nonlinear_arith)
        requires n >= 1;
    lemma_div_is_ordered(n * lo, sum_of(s), n);
    lemma_div_is_ordered(sum_of(s), n * hi, n);
}

/// For every non-empty sample set the summary is ordered:
/// `min <= p50 <= p95 <= p99 <= max` and `min <= avg <= max`.
pub proof fn lemma_stats_ordered(values: Seq<u64>)
    requires
        values.len() >= 1,
    ensures
        stats_of(values).min <= stats_of(values).p50,
        stats_of(values).p50 <= stats_of(values).p95,
        stats_of(values).p95 <= stats_of(values).p99,
        stats_of(values).p99 <= stats_of(values).max,
        stats_of(values).min <= stats_of(values).avg,
        stats_of(values).avg <= stats_of(values).max,
{
    values.lemma_sort_by_ensures(|a: u64, b: u64| a <= b);
    let ss = sort_of(values);
    broadcast use vstd::seq_lib::group_to_multiset_ensures;

    ss.to_multiset_ensures();
    values.to_multiset_ensures();
    assert(ss.to_multiset().len() == values.to_multiset().len());
    assert(ss.len() == values.len());
    let f = (|a: u64, b: u64| a <= b);
    assert(vstd::relations::sorted_by(ss, f));
    assert forall|i: int, j: int| 0 <= i < j < ss.len() implies ss[i] <= ss[j] by {
        assert(f(ss[i], ss[j]));
    }
    assert(sorted_ascending(ss));
    lemma_percentile_monotone(ss, 0, 50);
    lemma_percentile_monotone(ss, 50, 95);
    lemma_percentile_monotone(ss, 95, 99);
    lemma_percentile_monotone(ss, 99, 100);
    lemma_percentile_extremes(ss);
    lemma_mean_bounds(ss);
}

/// Reduces a sample set to its summary statistics; an empty set gives the
/// all-zero summary.
pub fn calculate_stats(values: &Vec<u64>) -> (r: UsageStats)
    ensures
        r == stats_of(values@),
        values@.len() >= 1 ==> r.min <= r.p50 <= r.p95 <= r.p99 <= r.max,
        values@.len() >= 1 ==> r.min <= r.avg <= r.max,
{
    if values.len() == 0 {
        return UsageStats { min: 0, max: 0, avg: 0, p50: 0, p95: 0, p99: 0 };
    }
    let sorted = sort_values(values);
    let n = sorted.len();
    let min = sorted[0];
    let max = sorted[n - 1];
    let mut acc: u128 = 0;
    let mut i: usize = 0;
    while i < n
        invariant
            i <= n,
            n == sorted@.len(),
            acc as int == sum_of(sorted@.subrange(0, i as int)),
            acc <= (i as int) * (u64::MAX as int),
        decreases n - i,
    {
        let ghost pre = sorted@.subrange(0, i as int);
        let ghost post = sorted@.subrange(0, i + 1);
        proof {
            assert(post.drop_last() =~= pre);
            assert(post.last() == sorted@[i as int]);
            assert((i + 1) as int * (u64::MAX as int) == (i as int) * (u64::MAX as int)
                + u64::MAX as int) by (nonlinear_arith);
        }
        acc = acc + (sorted[i] as u128);
        i += 1;
    }
    proof {
        assert(sorted@.subrange(0, n as int) =~= sorted@);
    }
    let avg_wide: u128 = acc / (n as u128);
    proof {
        assert(acc as int / (n as int) <= u64::MAX as int) by (nonlinear_arith)
            requires
                n >= 1,
                acc <= (n as int) * (u64::MAX as int);
        assert(avg_wide as int == acc as int / (n as int));
    }
    let avg = avg_wide as u64;
    let p50 = percentile(&sorted, 50);
    let p95 = percentile(&sorted, 95);
    let p99 = percentile(&sorted, 99);
    proof {
        lemma_stats_ordered(values@);
    }
    UsageStats { min, max, avg, p50, p95, p99 }
}

} // verus!
