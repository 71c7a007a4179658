//! What precedes and what follows the workers of one run: the run's
//! identifier and the workers' block ranges, and the merging of their samples.

use crate::partition::partition;
use crate::partition::partition_begin;
use crate::partition::partition_end;
use crate::stats::Sample;
use std::ops::Range;
use vstd::prelude::*;

verus! {

/// Whether `id` has the version and the variant of a random identifier:
/// version 4 in bits 76 to 79, variant `10` in bits 62 and 63.
pub open spec fn is_random_id(id: u128) -> bool {
    ((id >> 76) & 0xf) == 4 && ((id >> 62) & 0x3) == 2
}

/// What a run starts from.
pub struct RunPlan {
    /// The identifier that the run's record and samples carry.
    pub run_id: u128,
    /// The block range of each worker, by the worker's number.
    pub ranges: Vec<Range<u64>>,
}

/// Makes an identifier with `uuid::Uuid::new_v4` and hands it out by
/// `as_u128`. Trusted: whatever the identifier, its version is 4 and its
/// variant `10`.
#[verifier::external_body]
fn fresh_run_id() -> (id: u128)
    ensures
        is_random_id(id),
{
    uuid::Uuid::new_v4().as_u128()
}

/// A fresh identifier and the block range of each of `writer_threads`
/// workers that share `total_blocks` blocks.
pub fn plan_run(writer_threads: u64, total_blocks: u64) -> (plan: RunPlan)
    requires
        writer_threads <= usize::MAX,
    ensures
        is_random_id(plan.run_id),
        plan.ranges@.len() == writer_threads,
        forall|id: int|
            0 <= id < writer_threads ==> (#[trigger] plan.ranges@[id]).start == partition_begin(
                id,
                writer_threads as int,
                total_blocks as int,
            ) && plan.ranges@[id].end == partition_end(
                id,
                writer_threads as int,
                total_blocks as int,
            ),
{
    let run_id = fresh_run_id();
    let mut ranges: Vec<Range<u64>> = Vec::new();
    let mut id: u64 = 0;
    while id < writer_threads
        invariant
            id <= writer_threads <= usize::MAX,
            ranges@.len() == id,
            forall|k: int|
                0 <= k < id ==> (#[trigger] ranges@[k]).start == partition_begin(
                    k,
                    writer_threads as int,
                    total_blocks as int,
                ) && ranges@[k].end == partition_end(
                    k,
                    writer_threads as int,
                    total_blocks as int,
                ),
        decreases writer_threads - id,
    {
        ranges.push(partition(id, writer_threads, total_blocks));
        id = id + 1;
    }
    RunPlan { run_id, ranges }
}

/// The samples of all workers in one sequence: each worker's samples in
/// their order, the workers by their number.
pub open spec fn merged(parts: Seq<Vec<Sample>>) -> Seq<Sample> {
    parts.map_values(|part: Vec<Sample>| part@).flatten()
}

/// Merges the samples that the workers of one run have returned.
pub fn merge_samples(parts: Vec<Vec<Sample>>) -> (samples: Vec<Sample>)
    ensures
        samples@ == merged(parts@),
{
    let mut samples: Vec<Sample> = Vec::new();
    let mut i: usize = 0;
    while i < parts.len()
        invariant
            i <= parts@.len(),
            samples@ == merged(parts@.take(i as int)),
        decreases parts@.len() - i,
    {
        let part = &parts[i];
        let mut j: usize = 0;
        while j < part.len()
            invariant
                i < parts@.len(),
                part == parts@[i as int],
                j <= part@.len(),
                samples@ == merged(parts@.take(i as int)) + part@.take(j as int),
            decreases part@.len() - j,
        {
            samples.push(part[j]);
            assert(part@.take(j + 1) =~= part@.take(j as int).push(part@[j as int]));
            j = j + 1;
        }
        proof {
            let view = |part: Vec<Sample>| part@;
            let before = parts@.take(i as int).map_values(view);
            assert(part@.take(j as int) =~= part@);
            assert(parts@.take(i + 1).map_values(view) =~= before.push(part@));
            before.lemma_flatten_push(part@);
        }
        i = i + 1;
    }
    assert(parts@.take(i as int) =~= parts@);
    samples
}

} // verus!
