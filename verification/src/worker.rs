//! One worker's write loop, as the decisions between its clock readings and
//! its writes.
//!
//! The worker's thread reads the clock, spins and writes. In between it asks
//! the worker which block comes next and when, and reports how long the write
//! took; the worker paces the operations, walks its block range in a cycle and
//! keeps a random fraction of the measured latencies.

use crate::limiter::Pacing;
use crate::limiter::RateLimiter;
use crate::limiter::NANOS_PER_SECOND;
use crate::stats::Sample;
use std::ops::Range;
use vstd::prelude::*;

verus! {

/// Bytes written by one operation.
pub const BLOCK_SIZE: u64 = 4096;

/// The number of equally likely outcomes of a retention draw.
pub const RETENTION_DRAWS: u64 = 1000;

/// The greatest draw on which a latency is kept.
pub const RETENTION_THRESHOLD: u64 = 1;

/// Whether a latency is kept, given its retention draw.
pub open spec fn retained(draw: u64) -> bool {
    draw <= RETENTION_THRESHOLD
}

/// The block that a worker with blocks `[begin, end)` writes in its
/// operation number `n`, counted from 0: it walks its range from the start
/// and begins again when it has reached the end. A worker without blocks
/// writes at `begin`.
pub open spec fn nth_block(begin: u64, end: u64, n: nat) -> int {
    if end > begin {
        begin + n % ((end - begin) as nat)
    } else {
        begin as int
    }
}

/// The block that follows `cursor` in the cycle through `[begin, end)`.
pub open spec fn block_after(begin: u64, end: u64, cursor: u64) -> int {
    if cursor + 1 >= end {
        begin as int
    } else {
        cursor + 1
    }
}

/// One write that the worker has scheduled.
#[derive(Clone, Copy, Debug, PartialEq, Eq, Structural)]
pub struct Operation {
    /// The block to write.
    pub block: u64,
    /// Where that block starts on the device, in bytes.
    pub offset_bytes: u64,
    /// When the write may start, and the drift to carry into its latency.
    pub pacing: Pacing,
}

/// What a worker is, to its contracts.
pub struct WorkerModel {
    pub begin: u64,
    pub end: u64,
    /// The block that the next operation writes.
    pub cursor: u64,
    /// The number of operations completed.
    pub operations: u64,
    pub run_id: u128,
    /// The clock reading, in nanoseconds, at which the run is over.
    pub stop_nanos: u128,
    pub limiter: RateLimiter,
    /// The latencies kept so far, oldest first.
    pub samples: Seq<Sample>,
}

impl WorkerModel {
    /// The cursor is where the operations so far have brought it, every block
    /// in reach starts at a byte offset that fits, and the samples are those
    /// of this run's operations so far, in their order.
    pub open spec fn wf(self) -> bool {
        &&& self.cursor == nth_block(self.begin, self.end, self.operations as nat)
        &&& self.begin * BLOCK_SIZE <= u64::MAX
        &&& self.end * BLOCK_SIZE <= u64::MAX
        &&& forall|i: int|
            0 <= i < self.samples.len() ==> (#[trigger] self.samples[i]).uuid == self.run_id
                && self.samples[i].id < self.operations
        &&& forall|i: int, j: int|
            0 <= i < j < self.samples.len() ==> (#[trigger] self.samples[i]).id < (
            #[trigger] self.samples[j]).id
    }

    /// Whether one more operation can be scheduled and counted.
    pub open spec fn has_room(self) -> bool {
        self.limiter.can_advance() && self.operations < u64::MAX
    }

    /// The worker after it has scheduled its next operation.
    pub open spec fn scheduled(self) -> WorkerModel {
        WorkerModel { limiter: self.limiter.advanced(), ..self }
    }

    /// The sample of the operation in progress, had it the given latency.
    pub open spec fn sample(self, latency: u128) -> Sample {
        Sample { latency, id: self.operations, uuid: self.run_id }
    }

    /// The worker after an operation with the given latency and retention
    /// draw: the latency is kept or not, and cursor and count move on.
    pub open spec fn completed(self, latency: u128, draw: u64) -> WorkerModel {
        WorkerModel {
            cursor: block_after(self.begin, self.end, self.cursor) as u64,
            operations: (self.operations + 1) as u64,
            samples: if retained(draw) {
                self.samples.push(self.sample(latency))
            } else {
                self.samples
            },
            ..self
        }
    }
}

/// The state of one worker during a run.
pub struct Worker {
    begin: u64,
    end: u64,
    cursor: u64,
    operations: u64,
    run_id: u128,
    stop_nanos: u128,
    limiter: RateLimiter,
    samples: Vec<Sample>,
}

impl View for Worker {
    type V = WorkerModel;

    closed spec fn view(&self) -> WorkerModel {
        WorkerModel {
            begin: self.begin,
            end: self.end,
            cursor: self.cursor,
            operations: self.operations,
            run_id: self.run_id,
            stop_nanos: self.stop_nanos,
            limiter: self.limiter,
            samples: self.samples@,
        }
    }
}

/// Whether a latency is kept, given its retention draw: on 2 draws out of 1000.
pub fn is_retained(draw: u64) -> (keep: bool)
    ensures
        keep == retained(draw),
{
    draw <= RETENTION_THRESHOLD
}

/// Whether a write of `written` bytes has written its whole block.
pub fn is_full_write(written: usize) -> (full: bool)
    ensures
        full == (written == BLOCK_SIZE),
{
    written as u64 == BLOCK_SIZE
}

/// Draws a number below `bound` with `fastrand::u64`, from the generator of
/// the calling thread. Trusted: the draw lies in `0..bound`, whatever it is.
#[verifier::external_body]
fn random_below(bound: u64) -> (draw: u64)
    requires
        bound > 0,
    ensures
        draw < bound,
{
    fastrand::u64(0..bound)
}

impl Worker {
    /// A worker on the blocks of `range` in the run `run_id`, paced by
    /// `limiter`, which runs for `runtime_seconds` from the clock reading
    /// `now_nanos`. There is none where a block of the range would start
    /// beyond the last byte offset.
    pub fn new(
        range: Range<u64>,
        run_id: u128,
        limiter: RateLimiter,
        now_nanos: u64,
        runtime_seconds: u64,
    ) -> (worker: Option<Worker>)
        ensures
            worker is Some <==> range.start * BLOCK_SIZE <= u64::MAX && range.end * BLOCK_SIZE
                <= u64::MAX,
            worker matches Some(w) ==> w@.wf() && w@ == (WorkerModel {
                begin: range.start,
                end: range.end,
                cursor: range.start,
                operations: 0,
                run_id,
                stop_nanos: (now_nanos + runtime_seconds * NANOS_PER_SECOND) as u128,
                limiter,
                samples: Seq::empty(),
            }),
    {
        if range.start.checked_mul(BLOCK_SIZE).is_none() || range.end.checked_mul(
            BLOCK_SIZE,
        ).is_none() {
            return None;
        }
        let stop_nanos: u128 = (now_nanos as u128) + (runtime_seconds as u128) * NANOS_PER_SECOND;
        let worker = Worker {
            begin: range.start,
            end: range.end,
            cursor: range.start,
            operations: 0,
            run_id,
            stop_nanos,
            limiter,
            samples: Vec::with_capacity(10000),
        };
        proof {
            if range.end > range.start {
                assert(0nat % ((range.end - range.start) as nat) == 0);
            }
        }
        Some(worker)
    }

    /// Whether the run is still on when the clock reads `now_nanos`.
    pub fn is_running(&self, now_nanos: u64) -> (running: bool)
        ensures
            running == (now_nanos < self@.stop_nanos),
    {
        (now_nanos as u128) < self.stop_nanos
    }

    /// Whether `next_operation` and `complete` may be called once more.
    pub fn has_room(&self) -> (room: bool)
        ensures
            room == self@.has_room(),
    {
        self.limiter.has_room() && self.operations < u64::MAX
    }

    /// The number of operations completed.
    pub fn operations(&self) -> (count: u64)
        ensures
            count == self@.operations,
    {
        self.operations
    }

    /// Schedules the next operation, the clock reading `now_nanos`: the block
    /// under the cursor, one spacing after the operation before.
    pub fn next_operation(&mut self, now_nanos: u64) -> (operation: Operation)
        requires
            old(self)@.wf(),
            old(self)@.limiter.can_advance(),
        ensures
            final(self)@ == old(self)@.scheduled(),
            final(self)@.wf(),
            operation.block == nth_block(
                old(self)@.begin,
                old(self)@.end,
                old(self)@.operations as nat,
            ),
            operation.offset_bytes == operation.block * BLOCK_SIZE,
            operation.pacing.deadline_nanos == final(self)@.limiter.deadline_nanos(),
            operation.pacing.drift_nanos == crate::limiter::drift_nanos(
                now_nanos,
                operation.pacing.deadline_nanos,
            ),
    {
        let pacing = self.limiter.run(now_nanos);
        proof {
            lemma_block_in_reach(self.begin, self.end, self.operations as nat);
        }
        Operation { block: self.cursor, offset_bytes: self.cursor * BLOCK_SIZE, pacing }
    }

    /// Completes `operation`, which took `elapsed_nanos` once started, with
    /// the retention draw `draw`.
    pub fn complete_with_draw(&mut self, operation: &Operation, elapsed_nanos: u64, draw: u64)
        requires
            old(self)@.wf(),
            old(self)@.operations < u64::MAX,
        ensures
            final(self)@ == old(self)@.completed(
                (elapsed_nanos + operation.pacing.drift_nanos) as u128,
                draw,
            ),
            final(self)@.wf(),
    {
        let latency = operation.pacing.latency(elapsed_nanos);
        if is_retained(draw) {
            self.samples.push(Sample { latency, id: self.operations, uuid: self.run_id });
        }
        proof {
            lemma_block_in_reach(self.begin, self.end, self.operations as nat);
            lemma_block_after(self.begin, self.end, self.operations as nat);
        }
        self.cursor = if self.cursor + 1 >= self.end {
            self.begin
        } else {
            self.cursor + 1
        };
        self.operations = self.operations + 1;
    }

    /// Completes `operation`, which took `elapsed_nanos` once started, and
    /// keeps its latency or not, by a draw of its own.
    pub fn complete(&mut self, operation: &Operation, elapsed_nanos: u64)
        requires
            old(self)@.wf(),
            old(self)@.operations < u64::MAX,
        ensures
            exists|draw: u64|
                draw < RETENTION_DRAWS && final(self)@ == #[trigger] old(self)@.completed(
                    (elapsed_nanos + operation.pacing.drift_nanos) as u128,
                    draw,
                ),
            final(self)@.wf(),
    {
        let draw = random_below(RETENTION_DRAWS);
        self.complete_with_draw(operation, elapsed_nanos, draw);
    }

    /// The latencies kept, oldest first.
    pub fn into_samples(self) -> (samples: Vec<Sample>)
        ensures
            samples@ == self@.samples,
    {
        self.samples
    }
}

/// A worker's blocks lie in its range, or at its start where the range is empty.
pub proof fn lemma_block_in_reach(begin: u64, end: u64, n: nat)
    ensures
        end > begin ==> begin <= nth_block(begin, end, n) < end,
        end <= begin ==> nth_block(begin, end, n) == begin,
{
}

/// The cycle moves on by one block with every operation.
pub proof fn lemma_block_after(begin: u64, end: u64, n: nat)
    ensures
        nth_block(begin, end, n + 1) == block_after(
            begin,
            end,
            nth_block(begin, end, n) as u64,
        ),
{
    if end > begin {
        let len = (end - begin) as int;
        let m = n as int;
        assert((m + 1) % len == if m % len + 1 == len {
            0
        } else {
            m % len + 1
        }) by (nonlinear_arith)
            requires
                len > 0,
                m >= 0,
        ;
    }
}

/// A worker with blocks walks them in a cycle, whatever its pace: with `n`
/// operations behind it, it stands at block `begin + n % len` inside its
/// range, and completing one more operation brings it to the next block, or
/// from the last block back to the first.
pub proof fn lemma_worker_walks_its_range(worker: WorkerModel, latency: u128, draw: u64)
    requires
        worker.wf(),
        worker.end > worker.begin,
        worker.operations < u64::MAX,
    ensures
        worker.cursor == worker.begin + worker.operations as nat % ((worker.end
            - worker.begin) as nat),
        worker.begin <= worker.cursor < worker.end,
        worker.completed(latency, draw).wf(),
        worker.completed(latency, draw).cursor == if worker.cursor == worker.end - 1 {
            worker.begin as int
        } else {
            worker.cursor + 1
        },
{
    lemma_block_in_reach(worker.begin, worker.end, worker.operations as nat);
    lemma_block_after(worker.begin, worker.end, worker.operations as nat);
}

/// A latency is kept on exactly 2 of the 1000 draws.
pub proof fn lemma_retention_odds()
    ensures
        Set::new(|draw: u64| draw < RETENTION_DRAWS && retained(draw)) =~= set![0u64, 1u64],
        set![0u64, 1u64].len() == 2,
{
    assert(set![0u64, 1u64].len() == 2) by {
        let one = set![0u64];
        assert(one.len() == 1);
        assert(set![0u64, 1u64] =~= one.insert(1u64));
    }
}

} // verus!
