//! The allocator: memory-type matching, placement across blocks, and the
//! lifecycle of blocks.
use vstd::prelude::*;

use crate::block::{Block, BlockView};
use crate::region::{first_fit, gap_fits, gap_start, lemma_first_fit_from, place, region_index, Region};

verus! {

/// No block is ever created smaller than this many bytes.
pub const MIN_BLOCK_SIZE: u64 = 32_000_000;

/// A device exposes at most this many memory types; a type filter has one bit
/// for each.
pub const MAX_MEMORY_TYPES: usize = 32;

/// The handle for a placed region: the block's identifier and the region's
/// offset in it.
#[derive(Clone, Copy, Debug, PartialEq, Eq, Structural)]
pub struct Allocation {
    pub block: u64,
    pub region: u64,
}

/// What a resource asks of the memory bound to it: a size in bytes, an
/// alignment, and a mask of the memory types it can live in.
#[derive(Clone, Copy, Debug, PartialEq, Eq, Structural)]
pub struct MemoryRequirements {
    pub size: u64,
    pub alignment: u64,
    pub memory_type_bits: u32,
}

/// A device-memory allocation that the allocator needs before it can go on:
/// `size` bytes of memory type `memory_type`.
#[derive(Clone, Copy, Debug, PartialEq, Eq, Structural)]
pub struct BlockRequest {
    pub memory_type: u32,
    pub size: u64,
}

/// Why an allocation or a free did not take place.
#[derive(Clone, Copy, Debug, PartialEq, Eq, Structural)]
pub enum AllocError {
    /// Every matching memory type refused a new block.
    OutOfDeviceMemory,
    /// No memory type of the device matches the filter and the flags.
    IncompatibleMemoryRequest,
    /// The block or the region of a handle is not live.
    UnknownAllocation,
}

/// Where an allocation stands: done, waiting for device memory, or failed.
#[derive(Clone, Copy, Debug, PartialEq, Eq, Structural)]
pub enum AllocationStep {
    Placed(Allocation),
    CreateBlock(BlockRequest),
    Failed(AllocError),
}

/// The size of the block created for a request of `size` bytes.
pub open spec fn block_size_for(size: u64) -> u64 {
    if size > MIN_BLOCK_SIZE {
        size
    } else {
        MIN_BLOCK_SIZE
    }
}

/// Memory type `t` has every flag of `flags`, and its bit is set in `filter`.
pub open spec fn type_matches(types: Seq<u32>, t: int, filter: u32, flags: u32) -> bool {
    &&& 0 <= t < types.len()
    &&& t < 32
    &&& types[t] & flags == flags
    &&& (filter >> (t as u32)) & 1u32 == 1u32
}

/// The first memory type, from `from` on, that matches.
pub open spec fn next_matching_type(types: Seq<u32>, filter: u32, flags: u32, from: int) -> Option<
    int,
>
    decreases types.len() - from,
{
    if from < 0 || from >= types.len() {
        None
    } else if type_matches(types, from, filter, flags) {
        Some(from)
    } else {
        next_matching_type(types, filter, flags, from + 1)
    }
}

/// The allocator as the contracts see it: the flags of each memory type, the
/// live blocks in the order they were created, and the next block identifier.
pub struct AllocatorView {
    pub memory_types: Seq<u32>,
    pub blocks: Seq<BlockView>,
    pub next_id: u64,
}

impl AllocatorView {
    /// Each live block is well formed and holds at least one region, has a
    /// known memory type, and an identifier below `next_id`; identifiers grow
    /// in creation order.
    pub open spec fn wf(self) -> bool {
        &&& self.memory_types.len() <= MAX_MEMORY_TYPES
        &&& self.next_id >= 1
        &&& forall|i: int|
            0 <= i < self.blocks.len() ==> {
                let b = #[trigger] self.blocks[i];
                &&& b.wf()
                &&& b.regions.len() > 0
                &&& b.memory_type < self.memory_types.len()
                &&& 1 <= b.id < self.next_id
            }
        &&& forall|i: int, j: int|
            0 <= i < j < self.blocks.len() ==> #[trigger] self.blocks[i].id
                < #[trigger] self.blocks[j].id
    }

    /// Block `i` has a matching memory type and a gap for the request.
    pub open spec fn block_fits(self, i: int, req: MemoryRequirements, flags: u32) -> bool {
        &&& type_matches(
            self.memory_types,
            self.blocks[i].memory_type as int,
            req.memory_type_bits,
            flags,
        )
        &&& first_fit(
            self.blocks[i].regions,
            self.blocks[i].size as int,
            req.size as int,
            req.alignment as int,
        ) is Some
    }

    /// The first block, from `i` on and in creation order, that fits the request.
    pub open spec fn first_block_from(self, req: MemoryRequirements, flags: u32, i: int) -> Option<
        int,
    >
        decreases self.blocks.len() - i,
    {
        if i < 0 || i >= self.blocks.len() {
            None
        } else if self.block_fits(i, req, flags) {
            Some(i)
        } else {
            self.first_block_from(req, flags, i + 1)
        }
    }

    /// The first block, in creation order, that fits the request.
    pub open spec fn first_block(self, req: MemoryRequirements, flags: u32) -> Option<int> {
        self.first_block_from(req, flags, 0)
    }

    /// The gap of block `b` that first-fit picks for the request.
    pub open spec fn gap_in(self, b: int, req: MemoryRequirements) -> int {
        first_fit(
            self.blocks[b].regions,
            self.blocks[b].size as int,
            req.size as int,
            req.alignment as int,
        )->Some_0
    }

    /// The offset in block `b` where first-fit places the request.
    pub open spec fn offset_in(self, b: int, req: MemoryRequirements) -> u64 {
        gap_start(self.blocks[b].regions, self.gap_in(b, req), req.alignment as int) as u64
    }

    /// The allocator after the request is placed in block `b`.
    pub open spec fn placed_in(self, b: int, req: MemoryRequirements) -> AllocatorView {
        AllocatorView {
            blocks: self.blocks.update(
                b,
                BlockView {
                    regions: place(
                        self.blocks[b].regions,
                        self.gap_in(b, req),
                        req.size as int,
                        req.alignment as int,
                    ),
                    ..self.blocks[b]
                },
            ),
            ..self
        }
    }

    /// The block to ask for next, trying memory types from `from` on.
    pub open spec fn block_step(self, req: MemoryRequirements, flags: u32, from: int) -> AllocationStep {
        match next_matching_type(self.memory_types, req.memory_type_bits, flags, from) {
            Some(t) => AllocationStep::CreateBlock(
                BlockRequest { memory_type: t as u32, size: block_size_for(req.size) },
            ),
            None => AllocationStep::Failed(AllocError::OutOfDeviceMemory),
        }
    }

    /// What a request gets from the live blocks: a placement in the first
    /// block that fits; else a new block of the first matching type; else a
    /// failure.
    pub open spec fn allocate_step(self, req: MemoryRequirements, flags: u32) -> AllocationStep {
        match self.first_block(req, flags) {
            Some(b) => AllocationStep::Placed(
                Allocation { block: self.blocks[b].id, region: self.offset_in(b, req) },
            ),
            None => if next_matching_type(
                self.memory_types,
                req.memory_type_bits,
                flags,
                0,
            ) is None {
                AllocationStep::Failed(AllocError::IncompatibleMemoryRequest)
            } else if self.next_id == u64::MAX {
                AllocationStep::Failed(AllocError::OutOfDeviceMemory)
            } else {
                self.block_step(req, flags, 0)
            },
        }
    }

    /// The allocator after a request is met from the live blocks, if it can be.
    pub open spec fn after_allocate(self, req: MemoryRequirements, flags: u32) -> AllocatorView {
        match self.first_block(req, flags) {
            Some(b) => self.placed_in(b, req),
            None => self,
        }
    }

    /// The allocator after a new block over `memory` takes the request.
    pub open spec fn with_new_block(
        self,
        req: MemoryRequirements,
        memory_type: u32,
        memory: u64,
    ) -> AllocatorView {
        AllocatorView {
            blocks: self.blocks.push(
                BlockView {
                    id: self.next_id,
                    memory,
                    size: block_size_for(req.size),
                    memory_type,
                    regions: seq![Region { offset: 0, size: req.size }],
                },
            ),
            next_id: (self.next_id + 1) as u64,
            ..self
        }
    }

    /// The index of the live block with identifier `id`, if there is one.
    pub open spec fn block_index(self, id: u64) -> Option<int> {
        if exists|i: int| 0 <= i < self.blocks.len() && #[trigger] self.blocks[i].id == id {
            Some(choose|i: int| 0 <= i < self.blocks.len() && #[trigger] self.blocks[i].id == id)
        } else {
            None
        }
    }

    /// What freeing `a` returns: the handle of the device memory to release
    /// when its block goes, or an error when `a` is not live.
    pub open spec fn free_result(self, a: Allocation) -> Result<Option<u64>, AllocError> {
        match self.block_index(a.block) {
            None => Err(AllocError::UnknownAllocation),
            Some(b) => match region_index(self.blocks[b].regions, a.region) {
                None => Err(AllocError::UnknownAllocation),
                Some(i) => if self.blocks[b].regions.len() == 1 {
                    Ok(Some(self.blocks[b].memory))
                } else {
                    Ok(None)
                },
            },
        }
    }

    /// The allocator after `a` is freed: its region is gone, and its block too
    /// when no region is left in it.
    pub open spec fn after_free(self, a: Allocation) -> AllocatorView {
        match self.block_index(a.block) {
            None => self,
            Some(b) => match region_index(self.blocks[b].regions, a.region) {
                None => self,
                Some(i) => if self.blocks[b].regions.len() == 1 {
                    AllocatorView { blocks: self.blocks.remove(b), ..self }
                } else {
                    AllocatorView {
                        blocks: self.blocks.update(
                            b,
                            BlockView { regions: self.blocks[b].regions.remove(i), ..self.blocks[b] },
                        ),
                        ..self
                    }
                },
            },
        }
    }
}

/// Owns the blocks of device memory and places regions in them.
///
/// The allocator never calls the device. When a request needs a new block it
/// says so, and the caller allocates the device memory and reports back.
#[derive(Debug)]
pub struct Allocator {
    memory_types: Vec<u32>,
    blocks: Vec<Block>,
    next_id: u64,
}

impl View for Allocator {
    type V = AllocatorView;

    closed spec fn view(&self) -> AllocatorView {
        AllocatorView {
            memory_types: self.memory_types@,
            blocks: self.blocks@.map_values(|b: Block| b@),
            next_id: self.next_id,
        }
    }
}

impl Allocator {
    /// An allocator with no blocks over memory types with the given property
    /// flags, indexed as the device indexes them.
    pub fn new(memory_types: Vec<u32>) -> (r: Allocator)
        requires
            memory_types@.len() <= MAX_MEMORY_TYPES,
        ensures
            r@ == (AllocatorView { memory_types: memory_types@, blocks: Seq::empty(), next_id: 1 }),
            r@.wf(),
    {
        let r = Allocator { memory_types, blocks: Vec::new(), next_id: 1 };
        assert(r@.blocks =~= Seq::empty());
        r
    }

    /// The blocks live now.
    pub fn block_count(&self) -> (r: usize)
        ensures
            r == self@.blocks.len(),
    {
        self.blocks.len()
    }

    /// Whether another block can still be given an identifier.
    pub fn can_register_block(&self) -> (r: bool)
        ensures
            r == (self@.next_id < u64::MAX),
    {
        self.next_id < u64::MAX
    }

    fn type_matches(&self, t: u32, filter: u32, flags: u32) -> (r: bool)
        requires
            t < self.memory_types@.len(),
            t < 32,
        ensures
            r == type_matches(self.memory_types@, t as int, filter, flags),
    {
        (self.memory_types[t as usize] & flags) == flags && (filter >> t) & 1u32 == 1u32
    }

    /// The first memory type, from `from` on, whose flags hold `flags` and
    /// whose bit is set in `filter`.
    pub fn next_compatible_type(&self, filter: u32, flags: u32, from: u32) -> (r: Option<u32>)
        requires
            self@.wf(),
        ensures
            match next_matching_type(self@.memory_types, filter, flags, from as int) {
                Some(t) => r == Some(t as u32),
                None => r is None,
            },
    {
        let n = self.memory_types.len() as u32;
        let mut t = from;
        while t < n
            invariant
                self@.wf(),
                n == self@.memory_types.len(),
                from <= t,
                next_matching_type(self@.memory_types, filter, flags, from as int)
                    == next_matching_type(self@.memory_types, filter, flags, t as int),
            decreases n - t,
        {
            if self.type_matches(t, filter, flags) {
                return Some(t);
            }
            t = t + 1;
        }
        None
    }

    /// The memory types, in ascending order, whose flags hold `flags` and
    /// whose bit is set in `filter`.
    pub fn get_compatible_memory_types(&self, filter: u32, flags: u32) -> (r: Vec<u32>)
        requires
            self@.wf(),
        ensures
            forall|i: int, j: int| 0 <= i < j < r@.len() ==> r@[i] < r@[j],
            forall|t: u32| type_matches(self@.memory_types, t as int, filter, flags) <==> r@.contains(t),
    {
        let n = self.memory_types.len() as u32;
        let mut r: Vec<u32> = Vec::new();
        let mut t: u32 = 0;
        while t < n
            invariant
                self@.wf(),
                n == self@.memory_types.len(),
                t <= n,
                forall|i: int, j: int| 0 <= i < j < r@.len() ==> r@[i] < r@[j],
                forall|i: int| 0 <= i < r@.len() ==> r@[i] < t,
                forall|u: u32|
                    u < t ==> (type_matches(self@.memory_types, u as int, filter, flags)
                        <==> r@.contains(u)),
                forall|i: int|
                    0 <= i < r@.len() ==> type_matches(self@.memory_types, r@[i] as int, filter, flags),
            decreases n - t,
        {
            let ghost r0 = r@;
            if self.type_matches(t, filter, flags) {
                r.push(t);
                assert(r@[r@.len() - 1] == t);
            }
            assert forall|u: u32| u < t + 1 implies (type_matches(self@.memory_types, u as int, filter, flags)
                <==> r@.contains(u)) by {
                if r@.contains(u) {
                    let k = choose|k: int| 0 <= k < r@.len() && r@[k] == u;
                    assert(type_matches(self@.memory_types, r@[k] as int, filter, flags));
                }
                if u < t && r0.contains(u) {
                    let k = choose|k: int| 0 <= k < r0.len() && r0[k] == u;
                    assert(r@[k] == u);
                }
            }
            t = t + 1;
        }
        assert forall|u: u32| type_matches(self@.memory_types, u as int, filter, flags) <==> r@.contains(u) by {
            if r@.contains(u) {
                let k = choose|k: int| 0 <= k < r@.len() && r@[k] == u;
                assert(type_matches(self@.memory_types, r@[k] as int, filter, flags));
            }
        }
        r
    }

    /// First-fit placement in block `block`: places a region of `size` bytes
    /// at the first aligned offset where it fits, and returns that offset.
    /// Leaves the allocator as it was when nothing fits there.
    pub fn try_fit_in_block(&mut self, block: usize, size: u64, alignment: u64) -> (r: Option<u64>)
        requires
            old(self)@.wf(),
            block < old(self)@.blocks.len(),
            size > 0,
            alignment > 0,
        ensures
            final(self)@.wf(),
            match first_fit(
                old(self)@.blocks[block as int].regions,
                old(self)@.blocks[block as int].size as int,
                size as int,
                alignment as int,
            ) {
                Some(g) => {
                    &&& r == Some(
                        gap_start(old(self)@.blocks[block as int].regions, g, alignment as int) as u64,
                    )
                    &&& final(self)@ == (AllocatorView {
                        blocks: old(self)@.blocks.update(
                            block as int,
                            BlockView {
                                regions: place(
                                    old(self)@.blocks[block as int].regions,
                                    g,
                                    size as int,
                                    alignment as int,
                                ),
                                ..old(self)@.blocks[block as int]
                            },
                        ),
                        ..old(self)@
                    })
                },
                None => r is None && final(self)@ == old(self)@,
            },
            (r matches Some(offset) ==> offset % alignment == 0),
    {
        let ghost v0 = self@;
        assert(self.blocks@[block as int]@ == v0.blocks[block as int]);
        let r = self.blocks[block].try_fit(size, alignment);
        proof {
            let nb = self.blocks@[block as int]@;
            assert(self@.blocks =~= v0.blocks.update(block as int, nb));
            if r is Some {
                lemma_first_fit_from(v0.blocks[block as int].regions, v0.blocks[block as int].size as int, size as int, alignment as int, 0);
            } else {
                assert(self@.blocks =~= v0.blocks);
            }
            assert forall|i: int| 0 <= i < self@.blocks.len() implies {
                let b = #[trigger] self@.blocks[i];
                &&& b.wf()
                &&& b.regions.len() > 0
                &&& b.memory_type < self@.memory_types.len()
                &&& 1 <= b.id < self@.next_id
            } by {
                assert(v0.blocks[i].wf());
            }
            assert forall|i: int, j: int| 0 <= i < j < self@.blocks.len() implies #[trigger] self@.blocks[i].id
                < #[trigger] self@.blocks[j].id by {
                assert(v0.blocks[i].id < v0.blocks[j].id);
            }
        }
        r
    }

    /// Places a request in the first live block, in creation order, whose
    /// memory type matches and which has a gap for it. When none has, leaves
    /// the allocator as it was and asks for a block of the first matching
    /// memory type, or fails: `IncompatibleMemoryRequest` when no memory type
    /// matches at all, `OutOfDeviceMemory` when no block identifier is left.
    pub fn create_allocation(&mut self, req: MemoryRequirements, flags: u32) -> (r: AllocationStep)
        requires
            old(self)@.wf(),
            req.size > 0,
            req.alignment > 0,
        ensures
            final(self)@.wf(),
            r == old(self)@.allocate_step(req, flags),
            final(self)@ == old(self)@.after_allocate(req, flags),
            (r matches AllocationStep::Placed(a) ==> a.region % req.alignment == 0),
            r is CreateBlock <==> ((forall|i: int|
                0 <= i < old(self)@.blocks.len() ==> !old(self)@.block_fits(i, req, flags))
                && next_matching_type(old(self)@.memory_types, req.memory_type_bits, flags, 0) is Some
                && old(self)@.next_id < u64::MAX),
            final(self)@.blocks.len() == old(self)@.blocks.len(),
    {
        let ghost v0 = self@;
        let n = self.blocks.len();
        let mut i: usize = 0;
        while i < n
            invariant
                self@ == v0,
                v0 == old(self)@,
                v0.wf(),
                n == v0.blocks.len(),
                i <= n,
                req.size > 0,
                req.alignment > 0,
                v0.first_block(req, flags) == v0.first_block_from(req, flags, i as int),
                forall|k: int| 0 <= k < i ==> !v0.block_fits(k, req, flags),
            decreases n - i,
        {
            assert(self.blocks@[i as int]@ == v0.blocks[i as int]);
            let t = self.blocks[i].memory_type;
            if self.type_matches(t, req.memory_type_bits, flags) {
                let id = self.blocks[i].id;
                match self.try_fit_in_block(i, req.size, req.alignment) {
                    Some(offset) => {
                        assert(v0.block_fits(i as int, req, flags));
                        assert(v0.first_block(req, flags) == Some(i as int));
                        return AllocationStep::Placed(Allocation { block: id, region: offset });
                    },
                    None => {},
                }
            }
            i = i + 1;
        }
        assert(v0.first_block_from(req, flags, n as int) is None);
        match self.next_compatible_type(req.memory_type_bits, flags, 0) {
            None => AllocationStep::Failed(AllocError::IncompatibleMemoryRequest),
            Some(t) => {
                if self.next_id == u64::MAX {
                    AllocationStep::Failed(AllocError::OutOfDeviceMemory)
                } else {
                    AllocationStep::CreateBlock(
                        BlockRequest { memory_type: t, size: block_size(req.size) },
                    )
                }
            },
        }
    }

    /// Registers a new block over the device memory `memory`, of memory type
    /// `memory_type` and sized for `req`, and places `req` in it at offset 0.
    pub fn create_block(
        &mut self,
        memory: u64,
        memory_type: u32,
        req: MemoryRequirements,
    ) -> (a: Allocation)
        requires
            old(self)@.wf(),
            memory_type < old(self)@.memory_types.len(),
            old(self)@.next_id < u64::MAX,
            req.size > 0,
            req.alignment > 0,
        ensures
            final(self)@.wf(),
            final(self)@ == old(self)@.with_new_block(req, memory_type, memory),
            a == (Allocation { block: old(self)@.next_id, region: 0 }),
    {
        let ghost v0 = self@;
        let id = self.next_id;
        let mut block = Block::new(id, memory, block_size(req.size), memory_type);
        assert(gap_fits(block.regions@, block.size as int, req.size as int, req.alignment as int, 0));
        let r = block.try_fit(req.size, req.alignment);
        assert(block.regions@ =~= seq![Region { offset: 0, size: req.size }]);
        self.blocks.push(block);
        self.next_id = id + 1;
        proof {
            let v1 = v0.with_new_block(req, memory_type, memory);
            assert(self@.blocks =~= v1.blocks);
            assert forall|i: int| 0 <= i < self@.blocks.len() implies {
                let b = #[trigger] self@.blocks[i];
                &&& b.wf()
                &&& b.regions.len() > 0
                &&& b.memory_type < self@.memory_types.len()
                &&& 1 <= b.id < self@.next_id
            } by {
                if i < v0.blocks.len() {
                    assert(v0.blocks[i].wf());
                }
            }
            assert forall|i: int, j: int| 0 <= i < j < self@.blocks.len() implies #[trigger] self@.blocks[i].id
                < #[trigger] self@.blocks[j].id by {
                if j < v0.blocks.len() {
                    assert(v0.blocks[i].id < v0.blocks[j].id);
                } else {
                    assert(v0.blocks[i].id < v0.next_id);
                }
            }
        }
        Allocation { block: id, region: 0 }
    }

    /// Goes on with a request after the caller tried to allocate the block
    /// asked for by `memory_type`: `memory` is the device memory it got, or
    /// `None` when the device refused. With memory, the request is placed at
    /// offset 0 of a new block over it; without, the next matching memory type
    /// is asked for, and when none is left the request fails with
    /// `OutOfDeviceMemory`.
    pub fn continue_allocation(
        &mut self,
        req: MemoryRequirements,
        flags: u32,
        memory_type: u32,
        memory: Option<u64>,
    ) -> (r: AllocationStep)
        requires
            old(self)@.wf(),
            req.size > 0,
            req.alignment > 0,
            type_matches(old(self)@.memory_types, memory_type as int, req.memory_type_bits, flags),
            old(self)@.next_id < u64::MAX,
        ensures
            final(self)@.wf(),
            match memory {
                Some(m) => {
                    &&& final(self)@ == old(self)@.with_new_block(req, memory_type, m)
                    &&& r == AllocationStep::Placed(Allocation { block: old(self)@.next_id, region: 0 })
                },
                None => {
                    &&& final(self)@ == old(self)@
                    &&& r == old(self)@.block_step(req, flags, memory_type + 1)
                },
            },
            (r matches AllocationStep::Placed(a) ==> a.region % req.alignment == 0),
            final(self)@.blocks.len() == old(self)@.blocks.len() + (if memory is Some { 1int } else { 0int }),
    {
        match memory {
            Some(m) => {
                assert(0u64 % req.alignment == 0) by (nonlinear_arith)
                    requires req.alignment > 0;
                AllocationStep::Placed(self.create_block(m, memory_type, req))
            },
            None => match self.next_compatible_type(req.memory_type_bits, flags, memory_type + 1) {
                Some(t) => AllocationStep::CreateBlock(
                    BlockRequest { memory_type: t, size: block_size(req.size) },
                ),
                None => AllocationStep::Failed(AllocError::OutOfDeviceMemory),
            },
        }
    }

    /// The index of the live block with identifier `id`.
    fn find_block(&self, id: u64) -> (r: Option<usize>)
        requires
            self@.wf(),
        ensures
            match r {
                Some(i) => self@.block_index(id) == Some(i as int),
                None => self@.block_index(id) is None,
            },
    {
        let n = self.blocks.len();
        let mut i: usize = 0;
        while i < n
            invariant
                self@.wf(),
                n == self@.blocks.len(),
                i <= n,
                forall|k: int| 0 <= k < i ==> #[trigger] self@.blocks[k].id != id,
            decreases n - i,
        {
            assert(self.blocks@[i as int]@ == self@.blocks[i as int]);
            if self.blocks[i].id == id {
                proof {
                    let j = choose|j: int| 0 <= j < self@.blocks.len() && #[trigger] self@.blocks[j].id == id;
                    if j < i {
                        assert(self@.blocks[j].id != id);
                    } else if j > i as int {
                        assert(self@.blocks[i as int].id < self@.blocks[j].id);
                    }
                }
                return Some(i);
            }
            i = i + 1;
        }
        None
    }

    /// The device memory of the live block with identifier `block`, for
    /// binding resources to it.
    pub fn memory_of(&self, block: u64) -> (r: Option<u64>)
        requires
            self@.wf(),
        ensures
            match self@.block_index(block) {
                Some(i) => r == Some(self@.blocks[i].memory),
                None => r is None,
            },
    {
        match self.find_block(block) {
            Some(i) => {
                assert(self.blocks@[i as int]@ == self@.blocks[i as int]);
                Some(self.blocks[i].memory)
            },
            None => None,
        }
    }

    /// Drops block `index` from the allocator and returns the handle of its
    /// device memory, for the caller to release.
    pub fn destroy_block(&mut self, index: usize) -> (memory: u64)
        requires
            old(self)@.wf(),
            index < old(self)@.blocks.len(),
        ensures
            final(self)@.wf(),
            final(self)@ == (AllocatorView { blocks: old(self)@.blocks.remove(index as int), ..old(self)@ }),
            memory == old(self)@.blocks[index as int].memory,
    {
        let ghost v0 = self@;
        let block = self.blocks.remove(index);
        proof {
            assert(self@.blocks =~= v0.blocks.remove(index as int));
            assert forall|i: int| 0 <= i < self@.blocks.len() implies {
                let b = #[trigger] self@.blocks[i];
                &&& b.wf()
                &&& b.regions.len() > 0
                &&& b.memory_type < self@.memory_types.len()
                &&& 1 <= b.id < self@.next_id
            } by {
                if i < index {
                    assert(v0.blocks[i].wf());
                } else {
                    assert(v0.blocks[i + 1].wf());
                }
            }
            assert forall|i: int, j: int| 0 <= i < j < self@.blocks.len() implies #[trigger] self@.blocks[i].id
                < #[trigger] self@.blocks[j].id by {
                let i0 = if i < index { i } else { i + 1 };
                let j0 = if j < index { j } else { j + 1 };
                assert(v0.blocks[i0].id < v0.blocks[j0].id);
            }
        }
        block.memory
    }

    /// Frees `a`: removes its region, and its block too when that was the
    /// block's last region, returning then the block's device memory for the
    /// caller to release. Fails with `UnknownAllocation`, changing nothing,
    /// when the block or the region of `a` is not live.
    pub fn destroy_allocation(&mut self, a: &Allocation) -> (r: Result<Option<u64>, AllocError>)
        requires
            old(self)@.wf(),
        ensures
            final(self)@.wf(),
            r == old(self)@.free_result(*a),
            final(self)@ == old(self)@.after_free(*a),
            final(self)@.blocks.len() == old(self)@.blocks.len() - (if r matches Ok(Some(_)) {
                1int
            } else {
                0int
            }),
            final(self)@.blocks.len() < old(self)@.blocks.len() <==> (r is Ok
                && old(self)@.blocks[old(self)@.block_index(a.block)->Some_0].regions.len() == 1),
    {
        let ghost v0 = self@;
        match self.find_block(a.block) {
            None => Err(AllocError::UnknownAllocation),
            Some(bi) => {
                assert(self.blocks@[bi as int]@ == v0.blocks[bi as int]);
                assert(v0.blocks[bi as int].wf());
                if self.blocks[bi].regions.len() == 1 {
                    if self.blocks[bi].regions[0].offset == a.region {
                        assert(region_index(v0.blocks[bi as int].regions, a.region) == Some(0int));
                        let memory = self.destroy_block(bi);
                        Ok(Some(memory))
                    } else {
                        assert(region_index(v0.blocks[bi as int].regions, a.region) is None);
                        Err(AllocError::UnknownAllocation)
                    }
                } else {
                    let removed = self.blocks[bi].remove_region(a.region);
                    proof {
                        let nb = self.blocks@[bi as int]@;
                        assert(self@.blocks =~= v0.blocks.update(bi as int, nb));
                        if !removed {
                            assert(self@.blocks =~= v0.blocks);
                        }
                        assert forall|i: int| 0 <= i < self@.blocks.len() implies {
                            let b = #[trigger] self@.blocks[i];
                            &&& b.wf()
                            &&& b.regions.len() > 0
                            &&& b.memory_type < self@.memory_types.len()
                            &&& 1 <= b.id < self@.next_id
                        } by {
                            assert(v0.blocks[i].wf());
                        }
                        assert forall|i: int, j: int| 0 <= i < j < self@.blocks.len() implies #[trigger] self@.blocks[i].id
                            < #[trigger] self@.blocks[j].id by {
                            assert(v0.blocks[i].id < v0.blocks[j].id);
                        }
                    }
                    if removed {
                        Ok(None)
                    } else {
                        Err(AllocError::UnknownAllocation)
                    }
                }
            },
        }
    }

    /// Drops every block and returns the handles of their device memory, in
    /// creation order, for the caller to release. Handles still held for
    /// regions in them mean nothing afterwards.
    pub fn destroy(&mut self) -> (r: Vec<u64>)
        requires
            old(self)@.wf(),
        ensures
            final(self)@.wf(),
            final(self)@ == (AllocatorView { blocks: Seq::empty(), ..old(self)@ }),
            r@ == old(self)@.blocks.map_values(|b: BlockView| b.memory),
    {
        let ghost v0 = self@;
        let n = self.blocks.len();
        let mut r: Vec<u64> = Vec::new();
        let mut i: usize = 0;
        while i < n
            invariant
                self@ == v0,
                n == v0.blocks.len(),
                i <= n,
                r@ =~= v0.blocks.take(i as int).map_values(|b: BlockView| b.memory),
            decreases n - i,
        {
            assert(self.blocks@[i as int]@ == v0.blocks[i as int]);
            r.push(self.blocks[i].memory);
            assert(v0.blocks.take(i + 1) =~= v0.blocks.take(i as int).push(v0.blocks[i as int]));
            i = i + 1;
        }
        assert(v0.blocks.take(n as int) =~= v0.blocks);
        self.blocks = Vec::new();
        assert(self@.blocks =~= Seq::empty());
        r
    }
}

/// The size of the block created for a request of `size` bytes: the request,
/// but never less than `MIN_BLOCK_SIZE`.
pub fn block_size(size: u64) -> (r: u64)
    ensures
        r == block_size_for(size),
{
    if size > MIN_BLOCK_SIZE {
        size
    } else {
        MIN_BLOCK_SIZE
    }
}

} // verus!
