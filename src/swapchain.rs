//! Choosing the swapchain's formats, image count, extent and present mode.
use vstd::prelude::*;

use crate::device::{first_index, last_index};

verus! {

/// Image formats, as the device API numbers them.
pub const FORMAT_R8G8B8A8_SRGB: i32 = 43;
pub const FORMAT_B8G8R8A8_SRGB: i32 = 50;
pub const FORMAT_D16_UNORM: i32 = 124;
pub const FORMAT_D32_SFLOAT: i32 = 126;
pub const FORMAT_D16_UNORM_S8_UINT: i32 = 128;
pub const FORMAT_D24_UNORM_S8_UINT: i32 = 129;
pub const FORMAT_D32_SFLOAT_S8_UINT: i32 = 130;

/// The sRGB non-linear color space.
pub const COLOR_SPACE_SRGB_NONLINEAR: i32 = 0;

/// Present modes.
pub const PRESENT_MODE_MAILBOX: i32 = 1;
pub const PRESENT_MODE_FIFO: i32 = 2;

/// A surface format: an image format and a color space.
#[derive(Clone, Copy, Debug, PartialEq, Eq, Structural)]
pub struct SurfaceFormat {
    pub format: i32,
    pub color_space: i32,
}

/// The sRGB surface formats, most wanted first.
pub open spec fn srgb_formats() -> Seq<SurfaceFormat> {
    seq![
        SurfaceFormat { format: FORMAT_R8G8B8A8_SRGB, color_space: COLOR_SPACE_SRGB_NONLINEAR },
        SurfaceFormat { format: FORMAT_B8G8R8A8_SRGB, color_space: COLOR_SPACE_SRGB_NONLINEAR },
    ]
}

/// Depth formats with a stencil part, and without, in ascending preference.
pub open spec fn depth_stencil_formats() -> Seq<i32> {
    seq![FORMAT_D16_UNORM_S8_UINT, FORMAT_D24_UNORM_S8_UINT, FORMAT_D32_SFLOAT_S8_UINT]
}

pub open spec fn depth_only_formats() -> Seq<i32> {
    seq![FORMAT_D16_UNORM, FORMAT_D32_SFLOAT]
}

/// The surface format to use: the first sRGB format the surface supports,
/// else the first the surface offers.
pub open spec fn spec_surface_format(supported: Seq<SurfaceFormat>) -> SurfaceFormat {
    match first_index(srgb_formats(), |f: SurfaceFormat| supported.contains(f), 2) {
        Some(i) => srgb_formats()[i],
        None => supported[0],
    }
}

/// The depth format to use: the most preferred supported one with a stencil
/// part; else, when no stencil is needed, the most preferred supported one
/// without.
pub open spec fn spec_depth_format(supported: Seq<i32>, stencil_buffering: bool) -> Option<i32> {
    match last_index(depth_stencil_formats(), |f: i32| supported.contains(f), 3) {
        Some(i) => Some(depth_stencil_formats()[i]),
        None => if stencil_buffering {
            None
        } else {
            match last_index(depth_only_formats(), |f: i32| supported.contains(f), 2) {
                Some(i) => Some(depth_only_formats()[i]),
                None => None,
            }
        },
    }
}

fn contains_format(formats: &Vec<SurfaceFormat>, f: SurfaceFormat) -> (r: bool)
    ensures
        r == formats@.contains(f),
{
    let mut i: usize = 0;
    while i < formats.len()
        invariant
            i <= formats@.len(),
            forall|k: int| 0 <= k < i ==> formats@[k] != f,
        decreases formats@.len() - i,
    {
        if formats[i] == f {
            return true;
        }
        i = i + 1;
    }
    false
}

fn contains_i32(values: &Vec<i32>, v: i32) -> (r: bool)
    ensures
        r == values@.contains(v),
{
    let mut i: usize = 0;
    while i < values.len()
        invariant
            i <= values@.len(),
            forall|k: int| 0 <= k < i ==> values@[k] != v,
        decreases values@.len() - i,
    {
        if values[i] == v {
            return true;
        }
        i = i + 1;
    }
    false
}

/// Picks the surface format: the first sRGB format the surface supports,
/// else the first it offers.
pub fn choose_surface_format(supported: &Vec<SurfaceFormat>) -> (r: SurfaceFormat)
    requires
        supported@.len() > 0,
    ensures
        r == spec_surface_format(supported@),
{
    let ghost p = |f: SurfaceFormat| supported@.contains(f);
    proof {
        reveal_with_fuel(first_index, 3);
    }
    let first = SurfaceFormat { format: FORMAT_R8G8B8A8_SRGB, color_space: COLOR_SPACE_SRGB_NONLINEAR };
    let second = SurfaceFormat { format: FORMAT_B8G8R8A8_SRGB, color_space: COLOR_SPACE_SRGB_NONLINEAR };
    assert(srgb_formats()[0] == first && srgb_formats()[1] == second);
    if contains_format(supported, first) {
        assert(first_index(srgb_formats(), p, 2) == Some(0int));
        first
    } else if contains_format(supported, second) {
        assert(first_index(srgb_formats(), p, 2) == Some(1int));
        second
    } else {
        assert(first_index(srgb_formats(), p, 2) is None);
        supported[0]
    }
}

/// Picks the depth format among those the device supports as depth-stencil
/// attachments: the most preferred with a stencil part; else, when no
/// stencil is needed, the most preferred without. `None` when there is none.
pub fn choose_depth_format(supported: &Vec<i32>, stencil_buffering: bool) -> (r: Option<i32>)
    ensures
        r == spec_depth_format(supported@, stencil_buffering),
{
    let ghost p = |f: i32| supported@.contains(f);
    proof {
        reveal_with_fuel(last_index, 4);
    }
    if contains_i32(supported, FORMAT_D32_SFLOAT_S8_UINT) {
        assert(last_index(depth_stencil_formats(), p, 3) == Some(2int));
        Some(FORMAT_D32_SFLOAT_S8_UINT)
    } else if contains_i32(supported, FORMAT_D24_UNORM_S8_UINT) {
        assert(last_index(depth_stencil_formats(), p, 3) == Some(1int));
        Some(FORMAT_D24_UNORM_S8_UINT)
    } else if contains_i32(supported, FORMAT_D16_UNORM_S8_UINT) {
        assert(last_index(depth_stencil_formats(), p, 3) == Some(0int));
        Some(FORMAT_D16_UNORM_S8_UINT)
    } else {
        assert(last_index(depth_stencil_formats(), p, 3) is None);
        if stencil_buffering {
            None
        } else if contains_i32(supported, FORMAT_D32_SFLOAT) {
            assert(last_index(depth_only_formats(), p, 2) == Some(1int));
            Some(FORMAT_D32_SFLOAT)
        } else if contains_i32(supported, FORMAT_D16_UNORM) {
            assert(last_index(depth_only_formats(), p, 2) == Some(0int));
            Some(FORMAT_D16_UNORM)
        } else {
            assert(last_index(depth_only_formats(), p, 2) is None);
            None
        }
    }
}

/// How many images to ask for: one more than the minimum, unless that goes
/// past a maximum (a maximum of 0 means none).
pub open spec fn spec_image_count(min_image_count: u32, max_image_count: u32) -> int {
    if min_image_count + 1 <= max_image_count || max_image_count == 0 {
        min_image_count + 1
    } else {
        max_image_count as int
    }
}

/// How many swapchain images to ask for.
pub fn image_count(min_image_count: u32, max_image_count: u32) -> (r: u32)
    requires
        min_image_count < u32::MAX,
    ensures
        r == spec_image_count(min_image_count, max_image_count),
{
    if min_image_count + 1 <= max_image_count || max_image_count == 0 {
        min_image_count + 1
    } else {
        max_image_count
    }
}

/// A size in pixels.
#[derive(Clone, Copy, Debug, PartialEq, Eq, Structural)]
pub struct Extent {
    pub width: u32,
    pub height: u32,
}

/// The surface's current extent; a width of `u32::MAX` means the surface
/// leaves it to the swapchain, and then the extent is empty.
pub fn swap_extent(current: Extent) -> (r: Extent)
    ensures
        r == (if current.width != u32::MAX {
            current
        } else {
            Extent { width: 0, height: 0 }
        }),
{
    if current.width != u32::MAX {
        current
    } else {
        Extent { width: 0, height: 0 }
    }
}

/// Mailbox presentation where the surface has it, else FIFO.
pub fn choose_present_mode(supported: &Vec<i32>) -> (r: i32)
    ensures
        r == (if supported@.contains(PRESENT_MODE_MAILBOX) {
            PRESENT_MODE_MAILBOX
        } else {
            PRESENT_MODE_FIFO
        }),
{
    if contains_i32(supported, PRESENT_MODE_MAILBOX) {
        PRESENT_MODE_MAILBOX
    } else {
        PRESENT_MODE_FIFO
    }
}

/// What a surface offers a device.
#[derive(Clone, Copy, Debug, PartialEq, Eq, Structural)]
pub struct SurfaceCapabilities {
    pub min_image_count: u32,
    pub max_image_count: u32,
    pub current_extent: Extent,
    pub current_transform: u32,
}

/// The settings a swapchain is created with.
#[derive(Clone, Copy, Debug, PartialEq, Eq, Structural)]
pub struct SwapchainInfo {
    pub extent: Extent,
    pub present_mode: i32,
    pub transform: u32,
    pub format: i32,
    pub color_space: i32,
    pub depth_format: i32,
    pub min_image_count: u32,
}

impl SwapchainInfo {
    /// The swapchain settings for a surface: its formats, present modes and
    /// capabilities, and the depth formats the device supports. `None` when
    /// no depth format fits.
    pub fn new(
        formats: &Vec<SurfaceFormat>,
        present_modes: &Vec<i32>,
        capabilities: SurfaceCapabilities,
        depth_formats: &Vec<i32>,
        stencil_buffering: bool,
    ) -> (r: Option<SwapchainInfo>)
        requires
            formats@.len() > 0,
            capabilities.min_image_count < u32::MAX,
        ensures
            match spec_depth_format(depth_formats@, stencil_buffering) {
                None => r is None,
                Some(depth) => r == Some(
                    SwapchainInfo {
                        extent: if capabilities.current_extent.width != u32::MAX {
                            capabilities.current_extent
                        } else {
                            Extent { width: 0, height: 0 }
                        },
                        present_mode: if present_modes@.contains(PRESENT_MODE_MAILBOX) {
                            PRESENT_MODE_MAILBOX
                        } else {
                            PRESENT_MODE_FIFO
                        },
                        transform: capabilities.current_transform,
                        format: spec_surface_format(formats@).format,
                        color_space: spec_surface_format(formats@).color_space,
                        depth_format: depth,
                        min_image_count: spec_image_count(
                            capabilities.min_image_count,
                            capabilities.max_image_count,
                        ) as u32,
                    },
                ),
            },
    {
        let format = choose_surface_format(formats);
        match choose_depth_format(depth_formats, stencil_buffering) {
            None => None,
            Some(depth_format) => Some(
                SwapchainInfo {
                    extent: swap_extent(capabilities.current_extent),
                    present_mode: choose_present_mode(present_modes),
                    transform: capabilities.current_transform,
                    format: format.format,
                    color_space: format.color_space,
                    depth_format,
                    min_image_count: image_count(
                        capabilities.min_image_count,
                        capabilities.max_image_count,
                    ),
                },
            ),
        }
    }
}

} // verus!
