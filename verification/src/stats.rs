//! Latency samples and the percentile summary of one run.
//!
//! Percentiles are given in tenths of a percent, so that 99.9% is the integer 999
//! and every rank is computed in exact integer arithmetic.

use vstd::prelude::*;
use vstd::relations::*;
use vstd::seq_lib::*;

verus! {

/// One retained measurement: the latency in nanoseconds, the number of the
/// operation within its worker, and the identifier of the run.
#[derive(Clone, Copy, Debug, PartialEq, Eq, Structural, PartialOrd, Ord)]
pub struct Sample {
    pub latency: u128,
    pub id: u64,
    pub uuid: u128,
}

/// Extremes and percentiles of the latencies of one run.
#[derive(Clone, Copy, Debug, PartialEq, Eq, Structural)]
pub struct SummaryStatistics {
    pub min: u128,
    pub max: u128,
    pub p50th: u128,
    pub p75th: u128,
    pub p90th: u128,
    pub p99th: u128,
    pub p999th: u128,
}

/// The latencies of `samples`, in the order of the samples.
pub open spec fn latencies(samples: Seq<Sample>) -> Seq<u128> {
    samples.map_values(|s: Sample| s.latency)
}

/// The samples of `samples` whose latency is `latency`, in their order.
pub open spec fn with_latency(samples: Seq<Sample>, latency: u128) -> Seq<Sample> {
    samples.filter(|s: Sample| s.latency == latency)
}

/// No sample is followed by one of smaller latency.
pub open spec fn sorted_by_latency(samples: Seq<Sample>) -> bool {
    forall|i: int, j: int| 0 <= i <= j < samples.len() ==> samples[i].latency <= samples[j].latency
}

/// The order on latencies.
pub open spec fn latency_leq() -> spec_fn(u128, u128) -> bool {
    |a: u128, b: u128| a <= b
}

/// The latencies of `samples` in ascending order.
pub open spec fn sorted_latencies(samples: Seq<Sample>) -> Seq<u128> {
    latencies(samples).sort_by(latency_leq())
}

/// The rank, counted from 1, that a percentile selects among `len` values:
/// `len * per_mille / 1000`, rounded up.
pub open spec fn percentile_rank(len: nat, per_mille: nat) -> nat {
    (len * per_mille + 999) / 1000
}

/// The value that a percentile selects from values in ascending order.
pub open spec fn percentile_value(ascending: Seq<u128>, per_mille: nat) -> u128 {
    ascending[percentile_rank(ascending.len(), per_mille) - 1]
}

/// The summary of values in ascending order.
pub open spec fn summary_of_sorted(ascending: Seq<u128>) -> SummaryStatistics {
    SummaryStatistics {
        min: ascending.first(),
        max: ascending.last(),
        p50th: percentile_value(ascending, 500),
        p75th: percentile_value(ascending, 750),
        p90th: percentile_value(ascending, 900),
        p99th: percentile_value(ascending, 990),
        p999th: percentile_value(ascending, 999),
    }
}

/// The summary of a run's samples, whatever their order.
pub open spec fn summary(samples: Seq<Sample>) -> SummaryStatistics {
    summary_of_sorted(sorted_latencies(samples))
}

/// A percentile between 0.1% and 100% of a non-empty set selects a rank within it.
pub proof fn lemma_rank_in_bounds(len: nat, per_mille: nat)
    requires
        len >= 1,
        1 <= per_mille <= 1000,
    ensures
        1 <= percentile_rank(len, per_mille) <= len,
{
    assert(len <= len * per_mille <= 1000 * len) by (nonlinear_arith)
        requires
            len >= 1,
            1 <= per_mille <= 1000,
    ;
}

/// A higher percentile never selects a lower rank.
pub proof fn lemma_rank_monotonic(len: nat, low: nat, high: nat)
    requires
        low <= high,
    ensures
        percentile_rank(len, low) <= percentile_rank(len, high),
{
    assert(len * low <= len * high) by (nonlinear_arith)
        requires
            low <= high,
    ;
}

proof fn lemma_latency_order_is_total()
    ensures
        total_ordering(latency_leq()),
{
}

/// Two sequences with the same elements have, after mapping, the same elements.
proof fn lemma_map_keeps_multiset<A, B>(a: Seq<A>, b: Seq<A>, f: spec_fn(A) -> B)
    requires
        a.to_multiset() == b.to_multiset(),
    ensures
        a.map_values(f).to_multiset() == b.map_values(f).to_multiset(),
    decreases a.len(),
{
    broadcast use group_to_multiset_ensures;

    assert(a.len() == a.to_multiset().len() == b.len());
    if a.len() == 0 {
        assert(a.map_values(f) =~= b.map_values(f));
    } else {
        let x = a.last();
        assert(a.contains(x));
        assert(b.to_multiset().count(x) > 0);
        assert(b.contains(x));
        let i = choose|i: int| 0 <= i < b.len() && b[i] == x;
        let a_rest = a.drop_last();
        let b_rest = b.remove(i);
        assert(a_rest =~= a.remove(a.len() - 1));
        assert(a_rest.to_multiset() == b_rest.to_multiset());
        lemma_map_keeps_multiset(a_rest, b_rest, f);
        assert(a.map_values(f) =~= a_rest.map_values(f).push(f(x)));
        assert(b.map_values(f).remove(i) =~= b_rest.map_values(f));
        assert(b.map_values(f)[i] == f(x));
        assert(b.map_values(f).to_multiset().count(f(x)) > 0);
        assert(b.map_values(f).to_multiset() =~= b_rest.map_values(f).to_multiset().insert(f(x)));
    }
}

/// The latencies of samples sorted by latency are the ascending latencies of
/// any rearrangement of those samples.
proof fn lemma_sorted_samples_give_sorted_latencies(sorted: Seq<Sample>, samples: Seq<Sample>)
    requires
        sorted_by_latency(sorted),
        sorted.to_multiset() == samples.to_multiset(),
    ensures
        latencies(sorted) == sorted_latencies(samples),
{
    let f = |s: Sample| s.latency;
    lemma_latency_order_is_total();
    lemma_map_keeps_multiset(sorted, samples, f);
    latencies(samples).lemma_sort_by_ensures(latency_leq());
    assert(sorted_by(latencies(sorted), latency_leq()));
    lemma_sorted_unique(latencies(sorted), sorted_latencies(samples), latency_leq());
}

/// The summary depends on the latencies alone, not on their order nor on
/// which worker or operation a sample came from.
pub proof fn lemma_summary_depends_on_latencies_only(a: Seq<Sample>, b: Seq<Sample>)
    requires
        latencies(a).to_multiset() == latencies(b).to_multiset(),
    ensures
        summary(a) == summary(b),
{
    lemma_latency_order_is_total();
    latencies(a).lemma_sort_by_ensures(latency_leq());
    latencies(b).lemma_sort_by_ensures(latency_leq());
    lemma_sorted_unique(sorted_latencies(a), sorted_latencies(b), latency_leq());
}

/// The summary of a non-empty run is made of latencies of that run; its
/// minimum and maximum bound every latency, and its entries ascend.
pub proof fn lemma_summary_is_ordered(samples: Seq<Sample>)
    requires
        samples.len() > 0,
    ensures
        forall|i: int|
            0 <= i < samples.len() ==> summary(samples).min <= (#[trigger] samples[i]).latency
                <= summary(samples).max,
        latencies(samples).contains(summary(samples).min),
        latencies(samples).contains(summary(samples).max),
        summary(samples).min <= summary(samples).p50th <= summary(samples).p75th,
        summary(samples).p75th <= summary(samples).p90th <= summary(samples).p99th,
        summary(samples).p99th <= summary(samples).p999th <= summary(samples).max,
{
    broadcast use group_to_multiset_ensures;

    let unsorted = latencies(samples);
    let sorted = sorted_latencies(samples);
    let len = sorted.len();
    lemma_latency_order_is_total();
    unsorted.lemma_sort_by_ensures(latency_leq());
    assert(len == sorted.to_multiset().len() == unsorted.len());
    assert forall|i: int, j: int| 0 <= i <= j < len implies sorted[i] <= sorted[j] by {
        if i < j {
            assert(latency_leq()(sorted[i], sorted[j]));
        }
    }
    lemma_rank_in_bounds(len, 500);
    lemma_rank_in_bounds(len, 750);
    lemma_rank_in_bounds(len, 900);
    lemma_rank_in_bounds(len, 990);
    lemma_rank_in_bounds(len, 999);
    lemma_rank_monotonic(len, 500, 750);
    lemma_rank_monotonic(len, 750, 900);
    lemma_rank_monotonic(len, 900, 990);
    lemma_rank_monotonic(len, 990, 999);
    assert(sorted.contains(sorted[0]));
    assert(sorted.contains(sorted[len - 1]));
    assert(unsorted.to_multiset().count(sorted[0]) > 0);
    assert(unsorted.to_multiset().count(sorted[len - 1]) > 0);
    assert(unsorted.contains(sorted.first()));
    assert(unsorted.contains(sorted.last()));
    assert forall|i: int| 0 <= i < samples.len() implies summary(samples).min <= (
    #[trigger] samples[i]).latency <= summary(samples).max by {
        assert(unsorted[i] == samples[i].latency);
        assert(unsorted.contains(unsorted[i]));
        assert(sorted.to_multiset().count(unsorted[i]) > 0);
        assert(sorted.contains(unsorted[i]));
        let k = choose|k: int| 0 <= k < sorted.len() && sorted[k] == unsorted[i];
        assert(sorted[0] <= sorted[k] <= sorted[len - 1]);
    }
}

/// Sorts the samples by latency with the standard library's stable
/// `sort_by_key`. Trusted: afterwards the samples ascend by latency, they are
/// the samples from before, and samples of equal latency keep their order.
#[verifier::external_body]
fn sort_by_latency(samples: &mut [Sample])
    ensures
        sorted_by_latency(final(samples)@),
        final(samples)@.to_multiset() == old(samples)@.to_multiset(),
        forall|latency: u128| #[trigger]
            with_latency(final(samples)@, latency) == with_latency(old(samples)@, latency),
{
    samples.sort_by_key(|sample| sample.latency);
}

impl SummaryStatistics {
    /// The sample at a percentile, given in tenths of a percent, of samples
    /// that are sorted by latency: the one at rank `percentile_rank`.
    pub fn percentile(samples: &[Sample], per_mille: u64) -> (sample: &Sample)
        requires
            samples@.len() > 0,
            1 <= per_mille <= 1000,
        ensures
            *sample == samples@[percentile_rank(samples@.len(), per_mille as nat) - 1],
    {
        let len: u128 = samples.len() as u128;
        proof {
            lemma_rank_in_bounds(len as nat, per_mille as nat);
            assert(len * per_mille <= 0xffff_ffff_ffff_ffff * 1000) by (nonlinear_arith)
                requires
                    len <= 0xffff_ffff_ffff_ffff,
                    per_mille <= 1000,
            ;
        }
        let rank: u128 = (len * (per_mille as u128) + 999) / 1000;
        let index: usize = (rank - 1) as usize;
        &samples[index]
    }

    /// Sorts the samples by latency and summarises them. An empty run has no
    /// summary.
    pub fn create_from_sample(samples: &mut [Sample]) -> (stats: Option<SummaryStatistics>)
        ensures
            sorted_by_latency(final(samples)@),
            final(samples)@.to_multiset() == old(samples)@.to_multiset(),
            forall|latency: u128| #[trigger]
                with_latency(final(samples)@, latency) == with_latency(old(samples)@, latency),
            stats is None <==> old(samples)@.len() == 0,
            stats matches Some(s) ==> s == summary(old(samples)@),
    {
        sort_by_latency(samples);
        proof {
            broadcast use group_to_multiset_ensures;

            assert(samples@.len() == samples@.to_multiset().len() == old(samples)@.len());
        }
        let len: usize = samples.len();
        if len == 0 {
            return None;
        }
        proof {
            lemma_sorted_samples_give_sorted_latencies(samples@, old(samples)@);
        }
        let min: u128 = samples[0].latency;
        let max: u128 = samples[len - 1].latency;
        let p50th: u128 = Self::percentile(samples, 500).latency;
        let p75th: u128 = Self::percentile(samples, 750).latency;
        let p90th: u128 = Self::percentile(samples, 900).latency;
        let p99th: u128 = Self::percentile(samples, 990).latency;
        let p999th: u128 = Self::percentile(samples, 999).latency;
        proof {
            lemma_rank_in_bounds(len as nat, 500);
            lemma_rank_in_bounds(len as nat, 750);
            lemma_rank_in_bounds(len as nat, 900);
            lemma_rank_in_bounds(len as nat, 990);
            lemma_rank_in_bounds(len as nat, 999);
        }
        Some(SummaryStatistics { min, max, p50th, p75th, p90th, p99th, p999th })
    }
}

} // verus!
