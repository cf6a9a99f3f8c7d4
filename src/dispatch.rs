//! Splitting the linear cell index space into dispatches that each stay
//! within the device's work-item limit.
use vstd::prelude::*;

verus! {

/// The largest number of work items one dispatch may hold.
pub const MAX_DISPATCH: usize = 65535;

/// One dispatch: the cells `offset .. offset + count`.
#[derive(Clone, Copy, Debug, PartialEq, Eq, Structural)]
pub struct Chunk {
    pub offset: usize,
    pub count: usize,
}

/// The one past the last cell of a chunk.
pub open spec fn chunk_end(c: Chunk) -> int {
    c.offset + c.count
}

/// Whether `plan` splits the cells `0 .. n` into consecutive chunks of
/// `max` cells each, the last of them possibly shorter, in order.
pub open spec fn is_dispatch_plan(plan: Seq<Chunk>, n: int, max: int) -> bool {
    &&& (plan.len() == 0 <==> n == 0)
    &&& plan.len() > 0 ==> plan[0].offset == 0 && chunk_end(plan.last()) == n
    &&& forall|k: int| 0 <= k < plan.len() ==> 1 <= #[trigger] plan[k].count <= max
    &&& forall|k: int|
        0 <= k < plan.len() - 1 ==> #[trigger] plan[k + 1].offset == chunk_end(plan[k])
            && plan[k].count == max
}

/// The chunks of `plan` before the `k`-th end exactly where the `k`-th
/// begins; all of them end no later than `n`.
pub proof fn lemma_plan_offsets(plan: Seq<Chunk>, n: int, max: int, k: int)
    requires
        is_dispatch_plan(plan, n, max),
        0 <= k < plan.len(),
    ensures
        forall|j: int| 0 <= j < k ==> chunk_end(#[trigger] plan[j]) <= plan[k].offset,
        chunk_end(plan[k]) <= n,
        0 <= plan[k].offset,
    decreases plan.len() - k,
{
    if k + 1 < plan.len() {
        lemma_plan_offsets(plan, n, max, k + 1);
        assert(plan[k + 1].offset == chunk_end(plan[k]));
    }
    lemma_plan_prefix(plan, n, max, k);
}

proof fn lemma_plan_prefix(plan: Seq<Chunk>, n: int, max: int, k: int)
    requires
        is_dispatch_plan(plan, n, max),
        0 <= k < plan.len(),
    ensures
        forall|j: int| 0 <= j < k ==> chunk_end(#[trigger] plan[j]) <= plan[k].offset,
        0 <= plan[k].offset,
    decreases k,
{
    if k > 0 {
        let j = k - 1;
        lemma_plan_prefix(plan, n, max, j);
        assert(plan[j + 1].offset == chunk_end(plan[j]));
        assert(1 <= plan[j].count);
    }
}

/// Every cell below `n` lies in exactly one chunk of a dispatch plan.
pub proof fn lemma_plan_covers_each_cell_once(plan: Seq<Chunk>, n: int, max: int, i: int)
    requires
        is_dispatch_plan(plan, n, max),
        0 <= i < n,
    ensures
        exists|k: int|
            0 <= k < plan.len() && plan[k].offset <= i < chunk_end(#[trigger] plan[k]),
        forall|k1: int, k2: int|
            0 <= k1 < plan.len() && 0 <= k2 < plan.len() && plan[k1].offset <= i < chunk_end(
                #[trigger] plan[k1],
            ) && plan[k2].offset <= i < chunk_end(#[trigger] plan[k2]) ==> k1 == k2,
{
    let w = find_chunk(plan, n, max, i, 0);
    assert(plan[w].offset <= i < chunk_end(plan[w]));
    assert forall|k1: int, k2: int|
        0 <= k1 < plan.len() && 0 <= k2 < plan.len() && plan[k1].offset <= i < chunk_end(
            #[trigger] plan[k1],
        ) && plan[k2].offset <= i < chunk_end(#[trigger] plan[k2]) implies k1 == k2 by {
        if k1 < k2 {
            lemma_plan_offsets(plan, n, max, k2);
        } else if k2 < k1 {
            lemma_plan_offsets(plan, n, max, k1);
        }
    }
}

proof fn find_chunk(plan: Seq<Chunk>, n: int, max: int, i: int, k: int) -> (w: int)
    requires
        is_dispatch_plan(plan, n, max),
        0 <= i < n,
        0 <= k < plan.len(),
        plan[k].offset <= i,
    ensures
        0 <= w < plan.len(),
        plan[w].offset <= i < chunk_end(plan[w]),
    decreases plan.len() - k,
{
    if i < chunk_end(plan[k]) {
        k
    } else {
        assert(plan[k + 1].offset == chunk_end(plan[k]));
        find_chunk(plan, n, max, i, k + 1)
    }
}

/// The dispatch plan for `n` cells with at most `max` cells per dispatch.
pub fn dispatch_chunks(n: usize, max: usize) -> (r: Vec<Chunk>)
    requires
        max >= 1,
    ensures
        is_dispatch_plan(r@, n as int, max as int),
{
    let mut plan: Vec<Chunk> = Vec::new();
    let mut offset: usize = 0;
    while offset < n
        invariant
            offset <= n,
            max >= 1,
            plan@.len() == 0 <==> offset == 0,
            plan@.len() > 0 ==> plan@[0].offset == 0 && chunk_end(plan@.last()) == offset,
            plan@.len() > 0 && plan@.last().count < max ==> offset == n,
            forall|k: int| 0 <= k < plan@.len() ==> 1 <= #[trigger] plan@[k].count <= max,
            forall|k: int|
                0 <= k < plan@.len() - 1 ==> #[trigger] plan@[k + 1].offset == chunk_end(plan@[k])
                    && plan@[k].count == max,
        decreases n - offset,
    {
        let rest = n - offset;
        let count = if rest < max {
            rest
        } else {
            max
        };
        plan.push(Chunk { offset, count });
        offset = offset + count;
    }
    plan
}

} // verus!
