use gpukit::gpu_caps::{
    GpuInfo, QueueFamily, DEVICE_TYPE_DISCRETE, DEVICE_TYPE_VIRTUAL, QUEUE_COMPUTE,
    QUEUE_GRAPHICS, QUEUE_TRANSFER,
};
use gpukit::swapchain_config::{
    advance_frame_index, choose_pre_transform, choose_present_mode, surface_resolution,
    swapchain_image_count, PresentMode, EXTENT_UNDEFINED, TRANSFORM_IDENTITY,
};

fn adapter(device_type: u32, families: Vec<QueueFamily>) -> GpuInfo {
    GpuInfo {
        vendor_id: 0x10de,
        device_id: 0x2206,
        driver_version: 5,
        device_type,
        queue_families: families,
    }
}

#[test]
fn image_count_is_one_more_than_the_minimum() {
    assert_eq!(swapchain_image_count(2, 8), 3);
}

#[test]
fn image_count_clamps_to_a_declared_maximum() {
    assert_eq!(swapchain_image_count(3, 3), 3);
}

#[test]
fn a_zero_maximum_means_unlimited() {
    assert_eq!(swapchain_image_count(5, 0), 6);
}

#[test]
fn resolution_follows_the_surface_when_defined() {
    assert_eq!(surface_resolution(1920, 1080, 640, 480), (1920, 1080));
}

#[test]
fn resolution_falls_back_to_the_request_when_undefined() {
    assert_eq!(surface_resolution(EXTENT_UNDEFINED, 77, 640, 480), (640, 480));
}

#[test]
fn identity_transform_is_preferred_when_supported() {
    assert_eq!(choose_pre_transform(0b101, 0b100), TRANSFORM_IDENTITY);
}

#[test]
fn current_transform_is_kept_otherwise() {
    assert_eq!(choose_pre_transform(0b100, 0b100), 0b100);
}

#[test]
fn mailbox_wins_when_offered() {
    let modes = vec![PresentMode::Fifo, PresentMode::Mailbox, PresentMode::Immediate];
    assert_eq!(choose_present_mode(&modes), PresentMode::Mailbox);
}

#[test]
fn fifo_is_the_fallback_mode() {
    let modes = vec![PresentMode::Immediate, PresentMode::FifoRelaxed];
    assert_eq!(choose_present_mode(&modes), PresentMode::Fifo);
}

#[test]
fn frame_index_advances_and_wraps() {
    assert_eq!(advance_frame_index(0, 3), 1);
    assert_eq!(advance_frame_index(1, 3), 2);
    assert_eq!(advance_frame_index(2, 3), 0);
}

#[test]
fn first_family_covering_the_flags_wins() {
    let gpu = adapter(
        DEVICE_TYPE_DISCRETE,
        vec![
            QueueFamily { queue_flags: QUEUE_TRANSFER, queue_count: 1 },
            QueueFamily { queue_flags: QUEUE_GRAPHICS | QUEUE_COMPUTE, queue_count: 4 },
            QueueFamily { queue_flags: QUEUE_COMPUTE, queue_count: 2 },
        ],
    );
    assert_eq!(gpu.family_type_index(QUEUE_COMPUTE), Some(1));
    assert_eq!(gpu.family_type_index(QUEUE_GRAPHICS | QUEUE_COMPUTE), Some(1));
    assert_eq!(gpu.family_type_index(QUEUE_TRANSFER), Some(0));
}

#[test]
fn no_family_covering_the_flags_yields_none() {
    let gpu = adapter(
        DEVICE_TYPE_DISCRETE,
        vec![QueueFamily { queue_flags: QUEUE_GRAPHICS, queue_count: 1 }],
    );
    assert_eq!(gpu.family_type_index(QUEUE_GRAPHICS | QUEUE_TRANSFER), None);
}

#[test]
fn capability_queries_search_every_family() {
    let gpu = adapter(
        DEVICE_TYPE_DISCRETE,
        vec![
            QueueFamily { queue_flags: QUEUE_GRAPHICS, queue_count: 1 },
            QueueFamily { queue_flags: QUEUE_COMPUTE, queue_count: 1 },
        ],
    );
    assert!(gpu.supports_graphics());
    assert!(gpu.supports_compute());
    assert!(!gpu.supports_transfer());
}

#[test]
fn device_type_queries_match_the_code() {
    let discrete = adapter(DEVICE_TYPE_DISCRETE, Vec::new());
    assert!(discrete.is_discrete());
    assert!(!discrete.is_virtual());
    let virtualized = adapter(DEVICE_TYPE_VIRTUAL, Vec::new());
    assert!(virtualized.is_virtual());
    assert!(!virtualized.is_discrete());
}

#[test]
fn identity_and_queue_counts_read_back() {
    let gpu = adapter(
        DEVICE_TYPE_DISCRETE,
        vec![QueueFamily { queue_flags: QUEUE_GRAPHICS, queue_count: 16 }],
    );
    assert_eq!(gpu.vendor_id(), 0x10de);
    assert_eq!(gpu.device_id(), 0x2206);
    assert_eq!(gpu.driver_version(), 5);
    assert_eq!(gpu.queue_family_count(), 1);
    assert_eq!(gpu.queue_count(0), 16);
}
