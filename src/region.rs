//! Regions inside a block, alignment, and first-fit placement.
use vstd::prelude::*;

verus! {

/// `x` rounded up to the next multiple of `a`.
pub open spec fn align_up_spec(x: int, a: int) -> int {
    x + ((a - x % a) % a)
}

/// Rounding up to an alignment gives a multiple of it, no smaller than the
/// input and less than one alignment above it.
pub proof fn lemma_align_up(x: int, a: int)
    requires
        x >= 0,
        a > 0,
    ensures
        align_up_spec(x, a) % a == 0,
        align_up_spec(x, a) >= x,
        align_up_spec(x, a) < x + a,
        x % a == 0 ==> align_up_spec(x, a) == x,
{
    let r = x % a;
    assert(0 <= r < a) by (nonlinear_arith)
        requires a > 0, r == x % a;
    assert(x == a * (x / a) + r) by (nonlinear_arith)
        requires a > 0, r == x % a;
    if r == 0 {
        assert((a - r) % a == 0) by (nonlinear_arith)
            requires a > 0, r == 0;
        assert(x % a == 0);
    } else {
        assert((a - r) % a == a - r) by (nonlinear_arith)
            requires a > 0, 0 < r < a;
        let y = x + (a - r);
        assert(y == a * (x / a + 1)) by (nonlinear_arith)
            requires y == x + (a - r), x == a * (x / a) + r;
        assert(y % a == 0) by (nonlinear_arith)
            requires a > 0, y == a * (x / a + 1);
    }
}

/// Rounds `x` up to the next multiple of `alignment`; `None` when that value
/// does not fit in a `u64`.
pub fn align_up(x: u64, alignment: u64) -> (r: Option<u64>)
    requires
        alignment > 0,
    ensures
        align_up_spec(x as int, alignment as int) <= u64::MAX ==> r == Some(
            align_up_spec(x as int, alignment as int) as u64,
        ),
        align_up_spec(x as int, alignment as int) > u64::MAX ==> r is None,
{
    let rem = x % alignment;
    proof {
        lemma_align_up(x as int, alignment as int);
    }
    if rem == 0 {
        Some(x)
    } else {
        assert((alignment - rem) % (alignment as int) == alignment - rem) by (nonlinear_arith)
            requires alignment > 0, 0 < rem < alignment;
        x.checked_add(alignment - rem)
    }
}


/// A placed range `[offset, offset + size)` inside a block.
#[derive(Clone, Copy, Debug, PartialEq, Eq, Structural)]
pub struct Region {
    pub offset: u64,
    pub size: u64,
}

impl Region {
    /// One past the last byte of the region.
    pub open spec fn end(self) -> int {
        self.offset + self.size
    }
}

/// The regions of a block of `capacity` bytes: each non-empty and inside the
/// block, sorted by offset, and no two of them overlapping.
pub open spec fn regions_wf(regions: Seq<Region>, capacity: int) -> bool {
    &&& forall|i: int| 0 <= i < regions.len() ==> #[trigger] regions[i].size > 0
    &&& forall|i: int| 0 <= i < regions.len() ==> #[trigger] regions[i].end() <= capacity
    &&& forall|i: int, j: int|
        0 <= i < j < regions.len() ==> #[trigger] regions[i].end() <= #[trigger] regions[j].offset
}

/// Where a region placed in gap `g` would start. Gap 0 lies before the first
/// region; gap `g > 0` lies after region `g - 1`.
pub open spec fn gap_start(regions: Seq<Region>, g: int, alignment: int) -> int {
    if g == 0 {
        0
    } else {
        align_up_spec(regions[g - 1].end(), alignment)
    }
}

/// Where gap `g` ends: at the next region, or at the end of the block.
pub open spec fn gap_limit(regions: Seq<Region>, g: int, capacity: int) -> int {
    if g < regions.len() {
        regions[g].offset as int
    } else {
        capacity
    }
}

/// Whether `size` bytes fit in gap `g`.
pub open spec fn gap_fits(
    regions: Seq<Region>,
    capacity: int,
    size: int,
    alignment: int,
    g: int,
) -> bool {
    gap_start(regions, g, alignment) + size <= gap_limit(regions, g, capacity)
}

/// The first gap, from gap `g` on, in which `size` bytes fit.
pub open spec fn first_fit_from(
    regions: Seq<Region>,
    capacity: int,
    size: int,
    alignment: int,
    g: int,
) -> Option<int>
    decreases regions.len() + 1 - g,
{
    if g < 0 || g > regions.len() {
        None
    } else if gap_fits(regions, capacity, size, alignment, g) {
        Some(g)
    } else {
        first_fit_from(regions, capacity, size, alignment, g + 1)
    }
}

/// The first gap, in offset order, in which `size` bytes fit.
pub open spec fn first_fit(regions: Seq<Region>, capacity: int, size: int, alignment: int) -> Option<
    int,
> {
    first_fit_from(regions, capacity, size, alignment, 0)
}

/// The regions after a region of `size` bytes is placed in gap `g`.
pub open spec fn place(regions: Seq<Region>, g: int, size: int, alignment: int) -> Seq<Region> {
    regions.insert(g, Region { offset: gap_start(regions, g, alignment) as u64, size: size as u64 })
}

/// The index of the region that starts at `offset`, if there is one.
pub open spec fn region_index(regions: Seq<Region>, offset: u64) -> Option<int> {
    if exists|i: int| 0 <= i < regions.len() && #[trigger] regions[i].offset == offset {
        Some(choose|i: int| 0 <= i < regions.len() && #[trigger] regions[i].offset == offset)
    } else {
        None
    }
}

/// A gap found by the search lies at or after where the search began, and
/// the request fits in it.
pub proof fn lemma_first_fit_from(
    regions: Seq<Region>,
    capacity: int,
    size: int,
    alignment: int,
    g: int,
)
    requires
        0 <= g,
    ensures
        first_fit_from(regions, capacity, size, alignment, g) matches Some(k) ==> g <= k
            <= regions.len() && gap_fits(regions, capacity, size, alignment, k),
    decreases regions.len() + 1 - g,
{
    if g <= regions.len() && !gap_fits(regions, capacity, size, alignment, g) {
        lemma_first_fit_from(regions, capacity, size, alignment, g + 1);
    }
}

/// Placing a region in a gap where it fits keeps the regions well formed,
/// and the new region starts on the alignment.
pub proof fn lemma_place_wf(
    regions: Seq<Region>,
    capacity: int,
    size: int,
    alignment: int,
    g: int,
)
    requires
        regions_wf(regions, capacity),
        capacity <= u64::MAX,
        0 <= g <= regions.len(),
        gap_fits(regions, capacity, size, alignment, g),
        size > 0,
        alignment > 0,
    ensures
        regions_wf(place(regions, g, size, alignment), capacity),
        gap_start(regions, g, alignment) % alignment == 0,
        gap_start(regions, g, alignment) <= u64::MAX,
{
    let start = gap_start(regions, g, alignment);
    let r = Region { offset: start as u64, size: size as u64 };
    let s = place(regions, g, size, alignment);
    if g > 0 {
        lemma_align_up(regions[g - 1].end(), alignment);
        assert(regions[g - 1].offset < regions[g - 1].end());
    } else {
        assert(0int % alignment == 0) by (nonlinear_arith)
            requires alignment > 0;
    }
    assert(start >= 0);
    assert(start + size <= capacity) by {
        if g < regions.len() {
            assert(regions[g].offset <= regions[g].end());
        }
    }
    assert(s[g] == r);
    assert forall|i: int, j: int| 0 <= i < j < s.len() implies #[trigger] s[i].end()
        <= #[trigger] s[j].offset by {
        if j < g {
            assert(s[i] == regions[i] && s[j] == regions[j]);
        } else if j == g {
            assert(s[i] == regions[i]);
            if i < g - 1 {
                assert(regions[i].end() <= regions[g - 1].offset);
            }
        } else if i == g {
            assert(s[j] == regions[j - 1]);
            if j - 1 > g {
                assert(regions[g].end() <= regions[j - 1].offset);
                assert(regions[g].offset <= regions[g].end());
            }
        } else if i < g {
            assert(s[i] == regions[i] && s[j] == regions[j - 1]);
        } else {
            assert(s[i] == regions[i - 1] && s[j] == regions[j - 1]);
        }
    }
    assert forall|i: int| 0 <= i < s.len() implies #[trigger] s[i].size > 0 && s[i].end()
        <= capacity by {
        if i < g {
            assert(s[i] == regions[i]);
        } else if i > g {
            assert(s[i] == regions[i - 1]);
        }
    }
}

/// Removing a region keeps the rest well formed.
pub proof fn lemma_remove_wf(regions: Seq<Region>, capacity: int, i: int)
    requires
        regions_wf(regions, capacity),
        0 <= i < regions.len(),
    ensures
        regions_wf(regions.remove(i), capacity),
{
    let s = regions.remove(i);
    assert forall|a: int, b: int| 0 <= a < b < s.len() implies #[trigger] s[a].end()
        <= #[trigger] s[b].offset by {
        let a0 = if a < i { a } else { a + 1 };
        let b0 = if b < i { b } else { b + 1 };
        assert(s[a] == regions[a0] && s[b] == regions[b0]);
    }
    assert forall|a: int| 0 <= a < s.len() implies #[trigger] s[a].size > 0 && s[a].end()
        <= capacity by {
        let a0 = if a < i { a } else { a + 1 };
        assert(s[a] == regions[a0]);
    }
}

/// In well-formed regions no two start at the same offset.
pub proof fn lemma_offsets_unique(regions: Seq<Region>, capacity: int, i: int, j: int)
    requires
        regions_wf(regions, capacity),
        0 <= i < regions.len(),
        0 <= j < regions.len(),
        regions[i].offset == regions[j].offset,
    ensures
        i == j,
{
    if i < j {
        assert(regions[i].end() <= regions[j].offset);
    } else if j < i {
        assert(regions[j].end() <= regions[i].offset);
    }
}

} // verus!
