//! A sub-allocator for GPU device memory: a few large blocks, carved into
//! aligned, non-overlapping regions by first-fit placement; and the choices a
//! renderer makes when it sets up a device and a swapchain.
use vstd::prelude::*;

pub mod region;
pub mod block;
pub mod allocator;
pub mod laws;
pub mod device;
pub mod swapchain;
pub mod config;
pub mod messages;

pub use allocator::{
    block_size, AllocError, Allocation, AllocationStep, Allocator, BlockRequest,
    MemoryRequirements, MAX_MEMORY_TYPES, MIN_BLOCK_SIZE,
};
pub use block::Block;
pub use config::{FileType, PathManager, RenderConfig};
pub use device::{
    device_queue_families, get_compatible_devices, select_physical_device, supports_rendering,
    DeviceDescription, QueueFamily, QueueInfo,
};
pub use messages::{EngineResult, EngineTask, RenderResult, RenderTask};
pub use region::{align_up, Region};
pub use swapchain::{SurfaceCapabilities, SurfaceFormat, SwapchainInfo};

verus! {

} // verus!
