//! Division of a device's block space among workers.

use std::ops::Range;
use vstd::prelude::*;

verus! {

/// First block of worker `id` when `n` blocks are shared by `participants` workers.
pub open spec fn partition_begin(id: int, participants: int, n: int) -> int {
    id * (n / participants)
}

/// One past the last block of worker `id`; the last worker takes what division leaves over.
pub open spec fn partition_end(id: int, participants: int, n: int) -> int {
    if id == participants - 1 {
        n
    } else {
        (id + 1) * (n / participants)
    }
}

/// Whether `block` lies in the range of worker `id`.
pub open spec fn owns(id: int, participants: int, n: int, block: int) -> bool {
    partition_begin(id, participants, n) <= block < partition_end(id, participants, n)
}

/// The worker in whose range `block` lies.
pub open spec fn owner(block: int, participants: int, n: int) -> int {
    let size = n / participants;
    if size == 0 || block / size >= participants {
        participants - 1
    } else {
        block / size
    }
}

/// The blocks that worker `id` of `participants` owns out of `[0, n)`.
pub fn partition(id: u64, participants: u64, n: u64) -> (range: Range<u64>)
    requires
        participants >= 1,
        id < participants,
    ensures
        range.start == partition_begin(id as int, participants as int, n as int),
        range.end == partition_end(id as int, participants as int, n as int),
        range.start <= range.end <= n,
{
    let block_size: u64 = n / participants;
    assert(id * block_size + block_size == (id + 1) * block_size <= n) by (nonlinear_arith)
        requires
            id < participants,
            block_size == n / participants,
    ;
    let begin: u64 = id * block_size;
    let mut end: u64 = begin + block_size;
    if id == participants - 1 {
        end = n;
    }
    begin..end
}

/// The ranges follow one another without gap or overlap from block 0 to
/// block `n`, and each but the last holds `n / participants` blocks.
pub proof fn lemma_partition_is_contiguous(participants: int, n: int)
    requires
        participants >= 1,
        n >= 0,
    ensures
        partition_begin(0, participants, n) == 0,
        partition_end(participants - 1, participants, n) == n,
        forall|id: int|
            0 <= id < participants - 1 ==> #[trigger] partition_end(id, participants, n)
                == partition_begin(id + 1, participants, n),
        forall|id: int|
            0 <= id < participants - 1 ==> #[trigger] partition_end(id, participants, n)
                - partition_begin(id, participants, n) == n / participants,
        forall|id: int|
            0 <= id < participants ==> 0 <= #[trigger] partition_begin(id, participants, n)
                <= partition_end(id, participants, n) <= n,
{
    let size = n / participants;
    assert forall|id: int| 0 <= id < participants implies 0 <= #[trigger] partition_begin(
        id,
        participants,
        n,
    ) <= partition_end(id, participants, n) <= n by {
        lemma_share_fits(id, participants, n);
    }
    assert forall|id: int| 0 <= id < participants - 1 implies #[trigger] partition_end(
        id,
        participants,
        n,
    ) - partition_begin(id, participants, n) == n / participants by {
        lemma_share_fits(id, participants, n);
    }
}

/// Every block of `[0, n)` lies in the range of exactly one worker, and no
/// range holds anything else: the ranges are pairwise disjoint and their
/// union is `[0, n)`.
pub proof fn lemma_partition_is_complete(participants: int, n: int)
    requires
        participants >= 1,
        n >= 0,
    ensures
        forall|block: int|
            0 <= block < n ==> 0 <= #[trigger] owner(block, participants, n) < participants
                && owns(owner(block, participants, n), participants, n, block),
        forall|id: int, block: int|
            0 <= id < participants && #[trigger] owns(id, participants, n, block) ==> 0 <= block
                < n && id == owner(block, participants, n),
        forall|i: int, j: int, block: int|
            0 <= i < participants && 0 <= j < participants && #[trigger] owns(
                i,
                participants,
                n,
                block,
            ) && #[trigger] owns(j, participants, n, block) ==> i == j,
{
    assert forall|block: int| 0 <= block < n implies 0 <= #[trigger] owner(
        block,
        participants,
        n,
    ) < participants && owns(owner(block, participants, n), participants, n, block) by {
        lemma_owner_owns(block, participants, n);
    }
    assert forall|id: int, block: int|
        0 <= id < participants && #[trigger] owns(id, participants, n, block) implies 0 <= block
        < n && id == owner(block, participants, n) by {
        lemma_owned_by_owner(id, block, participants, n);
    }
    assert forall|i: int, j: int, block: int|
        0 <= i < participants && 0 <= j < participants && #[trigger] owns(
            i,
            participants,
            n,
            block,
        ) && #[trigger] owns(j, participants, n, block) implies i == j by {
        lemma_owned_by_owner(i, block, participants, n);
        lemma_owned_by_owner(j, block, participants, n);
    }
}

/// The equal shares of the workers up to `id` fit into `n` blocks.
proof fn lemma_share_fits(id: int, participants: int, n: int)
    requires
        0 <= id < participants,
        n >= 0,
    ensures
        0 <= id * (n / participants),
        (id + 1) * (n / participants) == id * (n / participants) + n / participants,
        (id + 1) * (n / participants) <= n,
{
    let size = n / participants;
    assert(0 <= id * size && (id + 1) * size == id * size + size && (id + 1) * size <= n)
        by (nonlinear_arith)
        requires
            0 <= id < participants,
            n >= 0,
            size == n / participants,
    ;
}

proof fn lemma_owner_owns(block: int, participants: int, n: int)
    requires
        participants >= 1,
        0 <= block < n,
    ensures
        0 <= owner(block, participants, n) < participants,
        owns(owner(block, participants, n), participants, n, block),
{
    let size = n / participants;
    let last = participants - 1;
    lemma_share_fits(last, participants, n);
    if size == 0 {
        assert(last * size == 0) by (nonlinear_arith)
            requires
                size == 0,
        ;
    } else {
        let q = block / size;
        assert(0 <= q && q * size <= block < (q + 1) * size) by (nonlinear_arith)
            requires
                q == block / size,
                size > 0,
                block >= 0,
        ;
        if q >= participants {
            assert(last * size <= q * size) by (nonlinear_arith)
                requires
                    last <= q,
                    size > 0,
            ;
        }
    }
}

proof fn lemma_owned_by_owner(id: int, block: int, participants: int, n: int)
    requires
        n >= 0,
        0 <= id < participants,
        owns(id, participants, n, block),
    ensures
        0 <= block < n,
        id == owner(block, participants, n),
{
    let size = n / participants;
    lemma_share_fits(id, participants, n);
    if size == 0 {
        assert(id * size == 0 && (id + 1) * size == 0) by (nonlinear_arith)
            requires
                size == 0,
        ;
    } else {
        let q = block / size;
        assert(0 <= q && q * size <= block < (q + 1) * size) by (nonlinear_arith)
            requires
                q == block / size,
                size > 0,
                block >= 0,
        ;
        if id < participants - 1 {
            assert(q == id) by (nonlinear_arith)
                requires
                    q * size <= block < (q + 1) * size,
                    id * size <= block < (id + 1) * size,
                    size > 0,
            ;
        } else {
            assert(q >= id) by (nonlinear_arith)
                requires
                    block < (q + 1) * size,
                    id * size <= block,
                    size > 0,
            ;
        }
    }
}

} // verus!
