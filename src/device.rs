//! Choosing a physical device and its queue families.
use vstd::prelude::*;

verus! {

/// Queue-family capability bits, as the device reports them.
pub const QUEUE_GRAPHICS: u32 = 0x1;
pub const QUEUE_COMPUTE: u32 = 0x2;
pub const QUEUE_TRANSFER: u32 = 0x4;

/// Whether `flags` holds every bit of `bits`.
pub open spec fn has_bits(flags: u32, bits: u32) -> bool {
    flags & bits == bits
}

/// The first index below `n` whose element satisfies `p`.
pub open spec fn first_index<T>(s: Seq<T>, p: spec_fn(T) -> bool, n: int) -> Option<int>
    decreases n,
{
    if n <= 0 {
        None
    } else {
        match first_index(s, p, n - 1) {
            Some(i) => Some(i),
            None => if p(s[n - 1]) {
                Some(n - 1)
            } else {
                None
            },
        }
    }
}

/// The last index below `n` whose element satisfies `p`.
pub open spec fn last_index<T>(s: Seq<T>, p: spec_fn(T) -> bool, n: int) -> Option<int>
    decreases n,
{
    if n <= 0 {
        None
    } else if p(s[n - 1]) {
        Some(n - 1)
    } else {
        last_index(s, p, n - 1)
    }
}

/// One queue family of a physical device: its capability bits, and whether
/// it can present to the window's surface.
#[derive(Clone, Copy, Debug, PartialEq, Eq, Structural)]
pub struct QueueFamily {
    pub flags: u32,
    pub surface_support: bool,
}

/// A device can render to the window when some family does graphics, some
/// does compute, and some graphics family can present.
pub open spec fn spec_supports_rendering(families: Seq<QueueFamily>) -> bool {
    &&& exists|i: int| 0 <= i < families.len() && has_bits(#[trigger] families[i].flags, QUEUE_GRAPHICS)
    &&& exists|i: int| 0 <= i < families.len() && has_bits(#[trigger] families[i].flags, QUEUE_COMPUTE)
    &&& exists|i: int|
        0 <= i < families.len() && #[trigger] families[i].surface_support && has_bits(
            families[i].flags,
            QUEUE_GRAPHICS,
        )
}

/// Whether a device with these queue families can render to the window.
pub fn supports_rendering(families: &Vec<QueueFamily>) -> (r: bool)
    ensures
        r == spec_supports_rendering(families@),
{
    let mut graphics = false;
    let mut compute = false;
    let mut surface = false;
    let mut i: usize = 0;
    while i < families.len()
        invariant
            i <= families@.len(),
            graphics == exists|k: int| 0 <= k < i && has_bits(#[trigger] families@[k].flags, QUEUE_GRAPHICS),
            compute == exists|k: int| 0 <= k < i && has_bits(#[trigger] families@[k].flags, QUEUE_COMPUTE),
            surface == exists|k: int|
                0 <= k < i && #[trigger] families@[k].surface_support && has_bits(
                    families@[k].flags,
                    QUEUE_GRAPHICS,
                ),
        decreases families@.len() - i,
    {
        let f = families[i];
        let g = f.flags & QUEUE_GRAPHICS == QUEUE_GRAPHICS;
        graphics = graphics || g;
        compute = compute || f.flags & QUEUE_COMPUTE == QUEUE_COMPUTE;
        surface = surface || (f.surface_support && g);
        i = i + 1;
    }
    graphics && compute && surface
}

/// The indices, in order, of the devices that can render to the window; each
/// device is given by its queue families.
pub fn get_compatible_devices(devices: &Vec<Vec<QueueFamily>>) -> (r: Vec<usize>)
    ensures
        r@ == Seq::new(devices@.len() as nat, |i: int| i).filter(
            |i: int| spec_supports_rendering(devices@[i]@),
        ).map_values(|i: int| i as usize),
{
    let ghost all = Seq::new(devices@.len() as nat, |i: int| i);
    let ghost keep = |i: int| spec_supports_rendering(devices@[i]@);
    let mut r: Vec<usize> = Vec::new();
    let mut i: usize = 0;
    while i < devices.len()
        invariant
            i <= devices@.len(),
            all == Seq::new(devices@.len() as nat, |i: int| i),
            keep == (|i: int| spec_supports_rendering(devices@[i]@)),
            r@ == all.take(i as int).filter(keep).map_values(|i: int| i as usize),
        decreases devices@.len() - i,
    {
        assert(all.take(i + 1) =~= all.take(i as int).push(i as int));
        reveal(Seq::filter);
        if supports_rendering(&devices[i]) {
            r.push(i);
        }
        proof {
            assert(all.take(i as int).push(i as int).drop_last() =~= all.take(i as int));
        }
        assert(r@ =~= all.take(i + 1).filter(keep).map_values(|i: int| i as usize));
        i = i + 1;
    }
    assert(all.take(devices@.len() as int) =~= all);
    r
}

/// What device selection reads of a physical device: its name, and whether
/// it is a discrete GPU.
#[derive(Debug)]
pub struct DeviceDescription {
    pub name: String,
    pub discrete: bool,
}

/// The device that selection picks: the first named `preferred`; else the
/// first discrete GPU; else the first device.
pub open spec fn spec_select_device(devices: Seq<DeviceDescription>, preferred: Seq<char>) -> int {
    match first_index(devices, |d: DeviceDescription| d.name@ == preferred, devices.len() as int) {
        Some(i) => i,
        None => match first_index(devices, |d: DeviceDescription| d.discrete, devices.len() as int) {
            Some(i) => i,
            None => 0,
        },
    }
}

/// Picks a device among those that can render: the first named `preferred`,
/// else the first discrete GPU, else the first.
pub fn select_physical_device(devices: &Vec<DeviceDescription>, preferred: &String) -> (r: usize)
    requires
        devices@.len() > 0,
    ensures
        r == spec_select_device(devices@, preferred@),
        r < devices@.len(),
{
    let ghost by_name = |d: DeviceDescription| d.name@ == preferred@;
    let ghost by_kind = |d: DeviceDescription| d.discrete;
    let mut i: usize = 0;
    while i < devices.len()
        invariant
            i <= devices@.len(),
            by_name == (|d: DeviceDescription| d.name@ == preferred@),
            first_index(devices@, by_name, i as int) is None,
        decreases devices@.len() - i,
    {
        if devices[i].name == *preferred {
            assert(first_index(devices@, by_name, i + 1) == Some(i as int));
            proof {
                lemma_first_index_stable(devices@, by_name, i + 1, devices@.len() as int);
            }
            return i;
        }
        i = i + 1;
    }
    let mut j: usize = 0;
    while j < devices.len()
        invariant
            j <= devices@.len(),
            by_kind == (|d: DeviceDescription| d.discrete),
            by_name == (|d: DeviceDescription| d.name@ == preferred@),
            first_index(devices@, by_name, devices@.len() as int) is None,
            first_index(devices@, by_kind, j as int) is None,
        decreases devices@.len() - j,
    {
        if devices[j].discrete {
            assert(first_index(devices@, by_kind, j + 1) == Some(j as int));
            proof {
                lemma_first_index_stable(devices@, by_kind, j + 1, devices@.len() as int);
            }
            return j;
        }
        j = j + 1;
    }
    0
}

/// A found index lies inside the prefix searched.
pub proof fn lemma_index_bounds<T>(s: Seq<T>, p: spec_fn(T) -> bool, n: int)
    ensures
        first_index(s, p, n) matches Some(k) ==> 0 <= k < n,
        last_index(s, p, n) matches Some(k) ==> 0 <= k < n,
    decreases n,
{
    if n > 0 {
        lemma_index_bounds(s, p, n - 1);
    }
}

/// Once found in a prefix, the first index stays the first in any longer one.
pub proof fn lemma_first_index_stable<T>(s: Seq<T>, p: spec_fn(T) -> bool, n: int, m: int)
    requires
        first_index(s, p, n) is Some,
        n <= m,
    ensures
        first_index(s, p, m) == first_index(s, p, n),
    decreases m - n,
{
    if n < m {
        lemma_first_index_stable(s, p, n, m - 1);
    }
}

/// The queue families a device's queues come from.
#[derive(Clone, Copy, Debug, PartialEq, Eq, Structural)]
pub struct QueueInfo {
    pub graphics_family: u32,
    pub compute_family: u32,
    pub transfer_family: u32,
}

/// The family the compute queue comes from: the last compute family that
/// does no graphics, if there is one; else the first compute family.
pub open spec fn spec_compute_family(families: Seq<u32>, n: int) -> Option<int> {
    match last_index(
        families,
        |f: u32| has_bits(f, QUEUE_COMPUTE) && !has_bits(f, QUEUE_GRAPHICS),
        n,
    ) {
        Some(i) => Some(i),
        None => first_index(families, |f: u32| has_bits(f, QUEUE_COMPUTE), n),
    }
}

/// The family the transfer queue comes from: the last transfer family that
/// does neither compute nor graphics, if there is one; else the first
/// transfer family.
pub open spec fn spec_transfer_family(families: Seq<u32>, n: int) -> Option<int> {
    match last_index(
        families,
        |f: u32|
            has_bits(f, QUEUE_TRANSFER) && !has_bits(f, QUEUE_COMPUTE) && !has_bits(
                f,
                QUEUE_GRAPHICS,
            ),
        n,
    ) {
        Some(i) => Some(i),
        None => first_index(families, |f: u32| has_bits(f, QUEUE_TRANSFER), n),
    }
}

/// A family index as the device API takes it.
pub open spec fn index_u32(o: Option<int>) -> Option<u32> {
    match o {
        Some(k) => Some(k as u32),
        None => None,
    }
}

impl QueueInfo {
    /// Picks the queue families of a device from their capability bits: the
    /// first graphics family; a compute and a transfer family that prefer
    /// families dedicated to that work. `None` when one of the three kinds
    /// is missing.
    pub fn new(families: &Vec<u32>) -> (r: Option<QueueInfo>)
        requires
            families@.len() <= u32::MAX,
        ensures
            ({
                let n = families@.len() as int;
                let g = first_index(families@, |f: u32| has_bits(f, QUEUE_GRAPHICS), n);
                let c = spec_compute_family(families@, n);
                let t = spec_transfer_family(families@, n);
                match r {
                    Some(q) => g == Some(q.graphics_family as int) && c == Some(
                        q.compute_family as int,
                    ) && t == Some(q.transfer_family as int),
                    None => g is None || c is None || t is None,
                }
            }),
    {
        let ghost gp = |f: u32| has_bits(f, QUEUE_GRAPHICS);
        let ghost cp = |f: u32| has_bits(f, QUEUE_COMPUTE);
        let ghost cd = |f: u32| has_bits(f, QUEUE_COMPUTE) && !has_bits(f, QUEUE_GRAPHICS);
        let ghost tp = |f: u32| has_bits(f, QUEUE_TRANSFER);
        let ghost td = |f: u32|
            has_bits(f, QUEUE_TRANSFER) && !has_bits(f, QUEUE_COMPUTE) && !has_bits(f, QUEUE_GRAPHICS);
        let mut graphics: Option<u32> = None;
        let mut compute: Option<u32> = None;
        let mut transfer: Option<u32> = None;
        let mut i: usize = 0;
        while i < families.len()
            invariant
                i <= families@.len() <= u32::MAX,
                gp == (|f: u32| has_bits(f, QUEUE_GRAPHICS)),
                cp == (|f: u32| has_bits(f, QUEUE_COMPUTE)),
                cd == (|f: u32| has_bits(f, QUEUE_COMPUTE) && !has_bits(f, QUEUE_GRAPHICS)),
                tp == (|f: u32| has_bits(f, QUEUE_TRANSFER)),
                td == (|f: u32|
                    has_bits(f, QUEUE_TRANSFER) && !has_bits(f, QUEUE_COMPUTE) && !has_bits(
                        f,
                        QUEUE_GRAPHICS,
                    )),
                graphics == index_u32(first_index(families@, gp, i as int)),
                compute == index_u32(spec_compute_family(families@, i as int)),
                transfer == index_u32(spec_transfer_family(families@, i as int)),
            decreases families@.len() - i,
        {
            let f = families[i];
            let is_g = f & QUEUE_GRAPHICS == QUEUE_GRAPHICS;
            let is_c = f & QUEUE_COMPUTE == QUEUE_COMPUTE;
            let is_t = f & QUEUE_TRANSFER == QUEUE_TRANSFER;
            if is_g && graphics.is_none() {
                graphics = Some(i as u32);
            }
            if is_c && compute.is_none() {
                compute = Some(i as u32);
            } else if is_c && !is_g {
                compute = Some(i as u32);
            }
            if is_t && transfer.is_none() {
                transfer = Some(i as u32);
            } else if is_t && !is_c && !is_g {
                transfer = Some(i as u32);
            }
            i = i + 1;
        }
        proof {
            let n = families@.len() as int;
            lemma_index_bounds(families@, gp, n);
            lemma_index_bounds(families@, cp, n);
            lemma_index_bounds(families@, cd, n);
            lemma_index_bounds(families@, tp, n);
            lemma_index_bounds(families@, td, n);
        }
        match (graphics, compute, transfer) {
            (Some(g), Some(c), Some(t)) => Some(
                QueueInfo { graphics_family: g, compute_family: c, transfer_family: t },
            ),
            _ => None,
        }
    }
}

/// The queue families to create queues from: the graphics family, the compute
/// family when a dedicated one is wanted and differs, and the transfer family
/// when a dedicated one is wanted and differs from both.
pub fn device_queue_families(
    info: &QueueInfo,
    dedicated_transfer_family: bool,
    dedicated_compute_family: bool,
) -> (r: Vec<u32>)
    ensures
        r@ == seq![info.graphics_family] + (if dedicated_compute_family && info.graphics_family
            != info.compute_family {
            seq![info.compute_family]
        } else {
            Seq::empty()
        }) + (if dedicated_transfer_family && info.transfer_family != info.compute_family
            && info.transfer_family != info.graphics_family {
            seq![info.transfer_family]
        } else {
            Seq::empty()
        }),
{
    let mut r: Vec<u32> = Vec::new();
    r.push(info.graphics_family);
    if dedicated_compute_family && info.graphics_family != info.compute_family {
        r.push(info.compute_family);
    }
    if dedicated_transfer_family && info.transfer_family != info.compute_family
        && info.transfer_family != info.graphics_family {
        r.push(info.transfer_family);
    }
    assert(r@ =~= seq![info.graphics_family] + (if dedicated_compute_family && info.graphics_family
        != info.compute_family {
        seq![info.compute_family]
    } else {
        Seq::empty()
    }) + (if dedicated_transfer_family && info.transfer_family != info.compute_family
        && info.transfer_family != info.graphics_family {
        seq![info.transfer_family]
    } else {
        Seq::empty()
    }));
    r
}

} // verus!
