//! The pass that writes the usable part of a device once, front to back,
//! before any run.
//!
//! The pass is a count of writes of 2 MiB each. Its caller performs the
//! writes; the pass says where each goes and adds up what was written.

use vstd::prelude::*;

verus! {

/// Bytes written by one write of the pass.
pub const INIT_BLOCK_SIZE: u64 = 2097152;

/// How far a pass has come.
pub struct InitPass {
    writes: u64,
    done: u64,
}

/// What a pass is, to its contracts.
pub struct InitPassModel {
    /// The number of writes that make up the pass.
    pub writes: u64,
    /// The number of writes done.
    pub done: u64,
}

impl InitPassModel {
    /// No more writes are done than the pass has, and every write starts
    /// and ends at a byte offset that fits.
    pub open spec fn wf(self) -> bool {
        self.done <= self.writes && self.writes * INIT_BLOCK_SIZE <= u64::MAX
    }

    /// The bytes written so far.
    pub open spec fn initialized_bytes(self) -> int {
        self.done * INIT_BLOCK_SIZE
    }

    pub open spec fn finished(self) -> bool {
        self.done == self.writes
    }
}

impl View for InitPass {
    type V = InitPassModel;

    closed spec fn view(&self) -> InitPassModel {
        InitPassModel { writes: self.writes, done: self.done }
    }
}

/// Offsets and totals within a pass fit 64 bits.
proof fn lemma_within_pass(index: u64, writes: u64)
    requires
        index <= writes,
        writes * INIT_BLOCK_SIZE <= u64::MAX,
    ensures
        index * INIT_BLOCK_SIZE <= writes * INIT_BLOCK_SIZE,
{
    assert(index * INIT_BLOCK_SIZE <= writes * INIT_BLOCK_SIZE) by (nonlinear_arith)
        requires
            index <= writes,
    ;
}

impl InitPass {
    /// A pass of `writes` writes, none of them done. There is none where the
    /// pass would reach beyond the last byte offset.
    pub fn new(writes: u64) -> (pass: Option<InitPass>)
        ensures
            pass is Some <==> writes * INIT_BLOCK_SIZE <= u64::MAX,
            pass matches Some(p) ==> p@.wf() && p@ == (InitPassModel { writes, done: 0 }),
    {
        match writes.checked_mul(INIT_BLOCK_SIZE) {
            Some(_) => Some(InitPass { writes, done: 0 }),
            None => None,
        }
    }

    /// The byte offset of the next write, or nothing when the pass is finished.
    pub fn next_offset(&self) -> (offset: Option<u64>)
        requires
            self@.wf(),
        ensures
            offset is None <==> self@.finished(),
            offset matches Some(at) ==> at == self@.done * INIT_BLOCK_SIZE,
    {
        if self.done < self.writes {
            proof {
                lemma_within_pass(self.done, self.writes);
            }
            Some(self.done * INIT_BLOCK_SIZE)
        } else {
            None
        }
    }

    /// Takes note of a write that wrote `written` bytes at the offset last
    /// given. A write of a whole block counts as done; any other is refused
    /// and changes nothing.
    pub fn record(&mut self, written: usize) -> (accepted: bool)
        requires
            old(self)@.wf(),
            !old(self)@.finished(),
        ensures
            final(self)@.wf(),
            accepted == (written == INIT_BLOCK_SIZE),
            final(self)@.writes == old(self)@.writes,
            final(self)@.done == if accepted {
                old(self)@.done + 1
            } else {
                old(self)@.done as int
            },
    {
        if written as u64 == INIT_BLOCK_SIZE {
            self.done = self.done + 1;
            true
        } else {
            false
        }
    }

    /// The bytes written so far.
    pub fn initialized_bytes(&self) -> (bytes: u64)
        requires
            self@.wf(),
        ensures
            bytes == self@.initialized_bytes(),
            self@.finished() ==> bytes == self@.writes * INIT_BLOCK_SIZE,
    {
        proof {
            lemma_within_pass(self.done, self.writes);
        }
        self.done * INIT_BLOCK_SIZE
    }
}

} // verus!
