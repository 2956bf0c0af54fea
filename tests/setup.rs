use omage::swapchain::{
    choose_depth_format, choose_present_mode, choose_surface_format, image_count, swap_extent,
    Extent, FORMAT_B8G8R8A8_SRGB, FORMAT_D16_UNORM, FORMAT_D24_UNORM_S8_UINT, FORMAT_D32_SFLOAT,
    FORMAT_D32_SFLOAT_S8_UINT, FORMAT_R8G8B8A8_SRGB, PRESENT_MODE_FIFO, PRESENT_MODE_MAILBOX,
};
use omage::{
    device_queue_families, get_compatible_devices, select_physical_device, supports_rendering,
    DeviceDescription, EngineTask, FileType, PathManager, QueueFamily, QueueInfo, RenderConfig,
    SurfaceCapabilities, SurfaceFormat, SwapchainInfo,
};

const G: u32 = 0x1;
const C: u32 = 0x2;
const T: u32 = 0x4;

fn family(flags: u32, surface_support: bool) -> QueueFamily {
    QueueFamily { flags, surface_support }
}

#[test]
fn rendering_needs_graphics_compute_and_presenting_graphics() {
    assert!(supports_rendering(&vec![family(G | C | T, true)]));
    assert!(supports_rendering(&vec![family(G, true), family(C, false)]));
    assert!(!supports_rendering(&vec![family(G, false), family(C, true)]));
    assert!(!supports_rendering(&vec![family(G | T, true)]));
    assert!(!supports_rendering(&vec![]));
}

#[test]
fn compatible_devices_keep_their_order() {
    let devices = vec![
        vec![family(G, true)],
        vec![family(G | C, true)],
        vec![family(C, true), family(G, true)],
        vec![],
    ];
    assert_eq!(get_compatible_devices(&devices), vec![1, 2]);
}

fn device(name: &str, discrete: bool) -> DeviceDescription {
    DeviceDescription { name: name.to_string(), discrete }
}

#[test]
fn device_selection_prefers_the_named_then_discrete() {
    let devices = vec![device("llvmpipe", false), device("Radeon", true), device("GeForce", true)];
    assert_eq!(select_physical_device(&devices, &"GeForce".to_string()), 2);
    assert_eq!(select_physical_device(&devices, &String::new()), 1);
    let integrated = vec![device("a", false), device("b", false)];
    assert_eq!(select_physical_device(&integrated, &"c".to_string()), 0);
}

#[test]
fn queue_families_prefer_dedicated_ones() {
    let info = QueueInfo::new(&vec![G | C | T, C | T, T, C]).unwrap();
    assert_eq!(info, QueueInfo { graphics_family: 0, compute_family: 3, transfer_family: 2 });
    let shared = QueueInfo::new(&vec![G | C | T]).unwrap();
    assert_eq!(shared, QueueInfo { graphics_family: 0, compute_family: 0, transfer_family: 0 });
    assert_eq!(QueueInfo::new(&vec![G | C]), None);
    assert_eq!(QueueInfo::new(&vec![]), None);
}

#[test]
fn queue_creation_lists_distinct_dedicated_families() {
    let info = QueueInfo { graphics_family: 0, compute_family: 1, transfer_family: 2 };
    assert_eq!(device_queue_families(&info, false, false), vec![0]);
    assert_eq!(device_queue_families(&info, true, true), vec![0, 1, 2]);
    let shared = QueueInfo { graphics_family: 0, compute_family: 0, transfer_family: 1 };
    assert_eq!(device_queue_families(&shared, true, true), vec![0, 1]);
    assert_eq!(device_queue_families(&shared, false, true), vec![0]);
}

fn srgb(format: i32) -> SurfaceFormat {
    SurfaceFormat { format, color_space: 0 }
}

#[test]
fn surface_format_prefers_srgb() {
    assert_eq!(choose_surface_format(&vec![srgb(44), srgb(FORMAT_B8G8R8A8_SRGB)]), srgb(FORMAT_B8G8R8A8_SRGB));
    assert_eq!(
        choose_surface_format(&vec![srgb(FORMAT_B8G8R8A8_SRGB), srgb(FORMAT_R8G8B8A8_SRGB)]),
        srgb(FORMAT_R8G8B8A8_SRGB)
    );
    let other = SurfaceFormat { format: FORMAT_B8G8R8A8_SRGB, color_space: 3 };
    assert_eq!(choose_surface_format(&vec![srgb(44), other]), srgb(44));
}

#[test]
fn depth_format_prefers_the_largest_with_stencil() {
    let all = vec![FORMAT_D16_UNORM, FORMAT_D32_SFLOAT, FORMAT_D24_UNORM_S8_UINT, FORMAT_D32_SFLOAT_S8_UINT];
    assert_eq!(choose_depth_format(&all, false), Some(FORMAT_D32_SFLOAT_S8_UINT));
    assert_eq!(choose_depth_format(&vec![FORMAT_D24_UNORM_S8_UINT, FORMAT_D32_SFLOAT], false), Some(FORMAT_D24_UNORM_S8_UINT));
    assert_eq!(choose_depth_format(&vec![FORMAT_D16_UNORM, FORMAT_D32_SFLOAT], false), Some(FORMAT_D32_SFLOAT));
    assert_eq!(choose_depth_format(&vec![FORMAT_D16_UNORM], true), None);
    assert_eq!(choose_depth_format(&vec![], false), None);
}

#[test]
fn image_count_extent_and_present_mode() {
    assert_eq!(image_count(2, 0), 3);
    assert_eq!(image_count(2, 8), 3);
    assert_eq!(image_count(2, 2), 2);
    assert_eq!(swap_extent(Extent { width: 800, height: 600 }), Extent { width: 800, height: 600 });
    assert_eq!(swap_extent(Extent { width: u32::MAX, height: u32::MAX }), Extent { width: 0, height: 0 });
    assert_eq!(choose_present_mode(&vec![PRESENT_MODE_FIFO, PRESENT_MODE_MAILBOX]), PRESENT_MODE_MAILBOX);
    assert_eq!(choose_present_mode(&vec![0, 3]), PRESENT_MODE_FIFO);
}

#[test]
fn swapchain_info_gathers_the_choices() {
    let caps = SurfaceCapabilities {
        min_image_count: 2,
        max_image_count: 3,
        current_extent: Extent { width: 640, height: 480 },
        current_transform: 1,
    };
    let info = SwapchainInfo::new(
        &vec![srgb(FORMAT_B8G8R8A8_SRGB)],
        &vec![PRESENT_MODE_FIFO],
        caps,
        &vec![FORMAT_D32_SFLOAT],
        false,
    )
    .unwrap();
    assert_eq!(
        info,
        SwapchainInfo {
            extent: Extent { width: 640, height: 480 },
            present_mode: PRESENT_MODE_FIFO,
            transform: 1,
            format: FORMAT_B8G8R8A8_SRGB,
            color_space: 0,
            depth_format: FORMAT_D32_SFLOAT,
            min_image_count: 3,
        }
    );
    assert_eq!(SwapchainInfo::new(&vec![srgb(44)], &vec![], caps, &vec![FORMAT_D32_SFLOAT], true), None);
}

#[test]
fn paths_by_file_type() {
    let paths = PathManager::new("/home/u/.config/app".to_string(), "/home/u/.cache/app".to_string());
    assert_eq!(paths.get_path("render", FileType::Config), "/home/u/.config/app/render.toml");
    assert_eq!(paths.get_path("shaders", FileType::Cache), "/home/u/.cache/app/shaders.cache");
}

#[test]
fn default_render_config() {
    let config = RenderConfig::default();
    assert!(!config.debugging);
    assert_eq!(config.gpu, "");
    assert_eq!(EngineTask::SetWindowName("x".to_string()), EngineTask::SetWindowName("x".to_string()));
}
