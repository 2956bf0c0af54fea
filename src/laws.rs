//! Properties of the allocator as a whole, over its model.
use vstd::prelude::*;

use crate::allocator::{
    next_matching_type, type_matches, AllocationStep, AllocatorView, BlockRequest,
    MemoryRequirements, MIN_BLOCK_SIZE,
};
use crate::region::{
    align_up_spec, first_fit_from, gap_fits, gap_start, lemma_align_up, region_index, Region,
};

verus! {

/// No two live regions of a block overlap.
pub proof fn lemma_no_overlap(v: AllocatorView, b: int, i: int, j: int)
    requires
        v.wf(),
        0 <= b < v.blocks.len(),
        0 <= i < v.blocks[b].regions.len(),
        0 <= j < v.blocks[b].regions.len(),
        i != j,
    ensures
        ({
            let (ri, rj) = (v.blocks[b].regions[i], v.blocks[b].regions[j]);
            ri.end() <= rj.offset || rj.end() <= ri.offset
        }),
{
    assert(v.blocks[b].wf());
    if i < j {
        assert(v.blocks[b].regions[i].end() <= v.blocks[b].regions[j].offset);
    } else {
        assert(v.blocks[b].regions[j].end() <= v.blocks[b].regions[i].offset);
    }
}

/// The first request made of an allocator with no blocks asks for one block
/// of the first matching memory type, of `max(MIN_BLOCK_SIZE, size)` bytes,
/// and that block takes the request at offset 0.
pub proof fn lemma_first_allocation_sizing(
    v: AllocatorView,
    req: MemoryRequirements,
    flags: u32,
    memory: u64,
)
    requires
        v.wf(),
        v.blocks.len() == 0,
        v.next_id == 1,
        req.size > 0,
        req.alignment > 0,
        next_matching_type(v.memory_types, req.memory_type_bits, flags, 0) is Some,
    ensures
        ({
            let t = next_matching_type(v.memory_types, req.memory_type_bits, flags, 0)->Some_0;
            let size = if req.size > MIN_BLOCK_SIZE { req.size } else { MIN_BLOCK_SIZE };
            let after = v.with_new_block(req, t as u32, memory);
            &&& v.allocate_step(req, flags) == AllocationStep::CreateBlock(
                BlockRequest { memory_type: t as u32, size },
            )
            &&& v.after_allocate(req, flags) == v
            &&& after.blocks.len() == 1
            &&& after.blocks[0].size == size
            &&& after.blocks[0].regions == seq![Region { offset: 0, size: req.size }]
        }),
{
    assert(v.first_block(req, flags) is None);
}

/// A multiple of `a` at or above `x` is at or above `x` rounded up to `a`.
pub proof fn lemma_align_up_least(x: int, a: int, m: int)
    requires
        x >= 0,
        a > 0,
        m >= x,
        m % a == 0,
    ensures
        align_up_spec(x, a) <= m,
{
    lemma_align_up(x, a);
    let u = align_up_spec(x, a);
    if u > m {
        assert(false) by (nonlinear_arith)
            requires m < u, u < m + a, u % a == 0, m % a == 0, a > 0;
    }
}

/// Where gap `g` fits, the search from any earlier gap finds one.
pub proof fn lemma_first_fit_finds(
    regions: Seq<Region>,
    capacity: int,
    size: int,
    alignment: int,
    k: int,
    g: int,
)
    requires
        0 <= k <= g <= regions.len(),
        gap_fits(regions, capacity, size, alignment, g),
    ensures
        first_fit_from(regions, capacity, size, alignment, k) is Some,
    decreases g - k,
{
    if k < g && !gap_fits(regions, capacity, size, alignment, k) {
        lemma_first_fit_finds(regions, capacity, size, alignment, k + 1, g);
    }
}

/// Where block `b` fits a request, the search from any earlier block finds one.
pub proof fn lemma_first_block_finds(
    v: AllocatorView,
    req: MemoryRequirements,
    flags: u32,
    k: int,
    b: int,
)
    requires
        0 <= k <= b < v.blocks.len(),
        v.block_fits(b, req, flags),
    ensures
        v.first_block_from(req, flags, k) matches Some(j) && k <= j < v.blocks.len(),
    decreases b - k,
{
    if k < b && !v.block_fits(k, req, flags) {
        lemma_first_block_finds(v, req, flags, k + 1, b);
    }
}

/// Freeing a region of a block that keeps other regions, then asking again
/// with a matching memory type for no more bytes, at an alignment the freed
/// offset meets, is met from the live blocks: no block is created.
pub proof fn lemma_reuse_after_free(
    v: AllocatorView,
    a: crate::allocator::Allocation,
    req: MemoryRequirements,
    flags: u32,
)
    requires
        v.wf(),
        v.free_result(a) is Ok,
        v.blocks[v.block_index(a.block)->Some_0].regions.len() > 1,
        type_matches(
            v.memory_types,
            v.blocks[v.block_index(a.block)->Some_0].memory_type as int,
            req.memory_type_bits,
            flags,
        ),
        0 < req.size <= v.blocks[v.block_index(a.block)->Some_0].regions[region_index(
            v.blocks[v.block_index(a.block)->Some_0].regions,
            a.region,
        )->Some_0].size,
        req.alignment > 0,
        a.region % req.alignment == 0,
    ensures
        v.after_free(a).first_block(req, flags) is Some,
        v.after_free(a).allocate_step(req, flags) is Placed,
        v.after_free(a).after_allocate(req, flags).blocks.len() == v.blocks.len(),
{
    let b = v.block_index(a.block)->Some_0;
    let regions = v.blocks[b].regions;
    let i = region_index(regions, a.region)->Some_0;
    let w = v.after_free(a);
    let rs = regions.remove(i);
    assert(v.blocks[b].wf());
    assert(w.blocks[b].regions == rs);
    let al = req.alignment as int;
    if i > 0 {
        assert(regions[i - 1].end() <= regions[i].offset);
        lemma_align_up_least(regions[i - 1].end(), al, a.region as int);
        assert(gap_start(rs, i, al) == align_up_spec(regions[i - 1].end(), al));
    }
    assert(gap_start(rs, i, al) <= a.region);
    if i + 1 < regions.len() {
        assert(regions[i].end() <= regions[i + 1].offset);
        assert(rs[i] == regions[i + 1]);
    } else {
        assert(regions[i].end() <= v.blocks[b].size);
    }
    assert(gap_fits(rs, w.blocks[b].size as int, req.size as int, al, i));
    lemma_first_fit_finds(rs, w.blocks[b].size as int, req.size as int, al, 0, i);
    assert(w.block_fits(b, req, flags));
    lemma_first_block_finds(w, req, flags, 0, b);
    assert(w.blocks.len() == v.blocks.len());
}

} // verus!
