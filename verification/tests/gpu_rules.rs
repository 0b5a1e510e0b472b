use scop::gpu::{
    best_device, device_score, memory_type_index, swapchain_extent, swapchain_image_count,
    DeviceKind, Extent,
};

fn extent(width: u32, height: u32) -> Extent {
    Extent { width, height }
}

#[test]
fn discrete_devices_score_highest() {
    assert_eq!(device_score(DeviceKind::Discrete), 5);
    assert_eq!(device_score(DeviceKind::Integrated), 2);
    assert_eq!(device_score(DeviceKind::Virtual), 1);
    assert_eq!(device_score(DeviceKind::Other), 0);
}

#[test]
fn first_of_the_best_devices_is_picked() {
    assert_eq!(best_device(&[]), None);
    assert_eq!(best_device(&[None, None]), None);
    assert_eq!(best_device(&[Some(0), None, Some(0)]), None);
    assert_eq!(best_device(&[Some(2)]), Some(0));
    assert_eq!(best_device(&[Some(1), Some(5), None, Some(5), Some(2)]), Some(1));
    assert_eq!(best_device(&[None, Some(0), Some(1), Some(1)]), Some(2));
    assert_eq!(best_device(&[Some(u32::MAX), Some(u32::MAX)]), Some(0));
}

#[test]
fn memory_type_must_be_accepted_and_have_the_properties() {
    let flags = [0b0001, 0b0111, 0b0110, 0b0111];
    assert_eq!(memory_type_index(0b1111, &flags, 0b0110), Some(1));
    assert_eq!(memory_type_index(0b1101, &flags, 0b0110), Some(2));
    assert_eq!(memory_type_index(0b1001, &flags, 0b0110), Some(3));
    assert_eq!(memory_type_index(0b0001, &flags, 0b0110), None);
    assert_eq!(memory_type_index(0b1111, &flags, 0b1000), None);
    assert_eq!(memory_type_index(0b1111, &flags, 0), Some(0));
    assert_eq!(memory_type_index(0b1111, &[], 0), None);
    let many = [1u32; 32];
    assert_eq!(memory_type_index(1 << 31, &many, 1), Some(31));
    assert_eq!(memory_type_index(u32::MAX, &many, 3), None);
}

#[test]
fn one_image_more_than_the_minimum_unless_over_the_limit() {
    assert_eq!(swapchain_image_count(2, 0), 3);
    assert_eq!(swapchain_image_count(2, 8), 3);
    assert_eq!(swapchain_image_count(2, 3), 3);
    assert_eq!(swapchain_image_count(2, 2), 2);
    assert_eq!(swapchain_image_count(5, 1), 1);
    assert_eq!(swapchain_image_count(0, 0), 1);
    assert_eq!(swapchain_image_count(u32::MAX - 1, 0), u32::MAX);
}

#[test]
fn surface_size_decides_unless_it_is_left_open() {
    let min = extent(100, 200);
    let max = extent(1000, 800);
    assert_eq!(swapchain_extent(extent(640, 480), extent(1, 1), min, max), extent(640, 480));
    assert_eq!(swapchain_extent(extent(5, u32::MAX), extent(1, 1), min, max), extent(5, u32::MAX));
    let open = extent(u32::MAX, u32::MAX);
    assert_eq!(swapchain_extent(open, extent(640, 480), min, max), extent(640, 480));
    assert_eq!(swapchain_extent(open, extent(64, 4800), min, max), extent(100, 800));
    assert_eq!(swapchain_extent(open, extent(6400, 48), min, max), extent(1000, 200));
    assert_eq!(swapchain_extent(open, extent(100, 800), min, max), extent(100, 800));
    assert_eq!(swapchain_extent(extent(u32::MAX, 7), extent(7, 7), min, min), min);
}
