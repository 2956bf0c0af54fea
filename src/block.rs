//! A block: one device-memory allocation and the regions placed in it.
use vstd::prelude::*;

use crate::region::{
    align_up, first_fit, first_fit_from, gap_fits, gap_start, lemma_offsets_unique, lemma_place_wf,
    lemma_remove_wf, place, region_index, regions_wf, Region,
};

verus! {

/// What a block is, as the contracts see it.
pub struct BlockView {
    pub id: u64,
    pub memory: u64,
    pub size: u64,
    pub memory_type: u32,
    pub regions: Seq<Region>,
}

impl BlockView {
    /// Its regions lie inside it, sorted and apart.
    pub open spec fn wf(self) -> bool {
        regions_wf(self.regions, self.size as int)
    }
}

/// One raw device-memory allocation of `size` bytes of memory type
/// `memory_type`, identified by `id`; `memory` is the device's handle for it.
#[derive(Debug)]
pub struct Block {
    pub id: u64,
    pub memory: u64,
    pub size: u64,
    pub memory_type: u32,
    pub regions: Vec<Region>,
}

impl View for Block {
    type V = BlockView;

    open spec fn view(&self) -> BlockView {
        BlockView {
            id: self.id,
            memory: self.memory,
            size: self.size,
            memory_type: self.memory_type,
            regions: self.regions@,
        }
    }
}

impl Block {
    /// An empty block over the device memory `memory`.
    pub fn new(id: u64, memory: u64, size: u64, memory_type: u32) -> (b: Block)
        ensures
            b@ == (BlockView { id, memory, size, memory_type, regions: Seq::empty() }),
            b@.wf(),
    {
        Block { id, memory, size, memory_type, regions: Vec::new() }
    }

    /// Where gap `g` starts, or `None` when that lies past `u64::MAX`.
    fn gap_offset(&self, g: usize, alignment: u64) -> (r: Option<u64>)
        requires
            self@.wf(),
            g <= self.regions@.len(),
            alignment > 0,
        ensures
            gap_start(self.regions@, g as int, alignment as int) <= u64::MAX ==> r == Some(
                gap_start(self.regions@, g as int, alignment as int) as u64,
            ),
            gap_start(self.regions@, g as int, alignment as int) > u64::MAX ==> r is None,
    {
        if g == 0 {
            Some(0)
        } else {
            let prev = self.regions[g - 1];
            assert(self.regions@[g - 1].end() <= self.size);
            align_up(prev.offset + prev.size, alignment)
        }
    }

    /// First-fit placement: puts a region of `size` bytes in the first gap, in
    /// offset order, where it fits at an offset aligned to `alignment`, and
    /// returns that offset. Leaves the block as it was when no gap fits.
    pub fn try_fit(&mut self, size: u64, alignment: u64) -> (r: Option<u64>)
        requires
            old(self)@.wf(),
            size > 0,
            alignment > 0,
        ensures
            final(self)@.wf(),
            match first_fit(old(self)@.regions, old(self)@.size as int, size as int, alignment as int) {
                Some(g) => {
                    &&& r == Some(gap_start(old(self)@.regions, g, alignment as int) as u64)
                    &&& final(self)@ == (BlockView {
                        regions: place(old(self)@.regions, g, size as int, alignment as int),
                        ..old(self)@
                    })
                },
                None => r is None && final(self)@ == old(self)@,
            },
            (r matches Some(offset) ==> offset % alignment == 0),
    {
        let n = self.regions.len();
        let mut g: usize = 0;
        loop
            invariant
                self@ == old(self)@,
                self@.wf(),
                n == self.regions@.len(),
                g <= n,
                size > 0,
                alignment > 0,
                first_fit(self.regions@, self.size as int, size as int, alignment as int)
                    == first_fit_from(self.regions@, self.size as int, size as int, alignment as int, g as int),
            decreases n - g,
        {
            let limit = if g < n {
                self.regions[g].offset
            } else {
                self.size
            };
            let fits = match self.gap_offset(g, alignment) {
                Some(start) => match start.checked_add(size) {
                    Some(end) => end <= limit,
                    None => false,
                },
                None => false,
            };
            assert(fits == gap_fits(self.regions@, self.size as int, size as int, alignment as int, g as int));
            if fits {
                let start = self.gap_offset(g, alignment).unwrap();
                proof {
                    lemma_place_wf(self.regions@, self.size as int, size as int, alignment as int, g as int);
                }
                self.regions.insert(g, Region { offset: start, size });
                return Some(start);
            }
            if g == n {
                assert(first_fit_from(self.regions@, self.size as int, size as int, alignment as int, n + 1) is None);
                return None;
            }
            g = g + 1;
        }
    }

    /// Removes the region that starts at `offset` and returns true; returns
    /// false, and changes nothing, when no region starts there.
    pub fn remove_region(&mut self, offset: u64) -> (r: bool)
        requires
            old(self)@.wf(),
        ensures
            final(self)@.wf(),
            r == region_index(old(self)@.regions, offset) is Some,
            match region_index(old(self)@.regions, offset) {
                Some(i) => final(self)@ == (BlockView {
                    regions: old(self)@.regions.remove(i),
                    ..old(self)@
                }),
                None => final(self)@ == old(self)@,
            },
    {
        let n = self.regions.len();
        let mut i: usize = 0;
        while i < n
            invariant
                self@ == old(self)@,
                self@.wf(),
                n == self.regions@.len(),
                i <= n,
                forall|k: int| 0 <= k < i ==> #[trigger] self.regions@[k].offset != offset,
            decreases n - i,
        {
            if self.regions[i].offset == offset {
                proof {
                    let j = choose|j: int| 0 <= j < self.regions@.len() && #[trigger] self.regions@[j].offset == offset;
                    lemma_offsets_unique(self.regions@, self.size as int, i as int, j);
                    lemma_remove_wf(self.regions@, self.size as int, i as int);
                }
                self.regions.remove(i);
                return true;
            }
            i = i + 1;
        }
        false
    }
}

} // verus!
