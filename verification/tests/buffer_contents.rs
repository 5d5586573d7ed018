use gpukit::buffer::{BufferResource, ResourceError};
use gpukit::memory::{MemoryType, MEMORY_HOST_VISIBLE};

fn host_visible_table() -> Vec<MemoryType> {
    vec![MemoryType { property_flags: MEMORY_HOST_VISIBLE }]
}

fn buffer(content: usize, allocated: usize) -> BufferResource {
    BufferResource::new(7, content, allocated, 0b1, &host_visible_table(), MEMORY_HOST_VISIBLE)
        .unwrap()
}

#[test]
fn construction_fails_fatally_without_a_compatible_type() {
    let types = vec![MemoryType { property_flags: 0x1 }];
    let r = BufferResource::new(7, 4, 4, 0b1, &types, MEMORY_HOST_VISIBLE);
    assert!(matches!(r, Err(ResourceError::NoCompatibleMemoryType)));
}

#[test]
fn construction_reports_sizes_and_handle() {
    let b = buffer(12, 16);
    assert_eq!(b.content_size(), 12);
    assert_eq!(b.size(), 16);
    assert_eq!(b.handle(), 7);
    assert_eq!(b.memory_type(), 0);
}

#[test]
fn upload_then_copy_data_round_trips_bytes() {
    for n in [0usize, 1, 10, 4096] {
        let data: Vec<u8> = (0..n).map(|i| (i % 251) as u8).collect();
        let mut b = buffer(n, n + 13);
        b.upload(&data);
        assert_eq!(b.copy_data(), data);
    }
}

#[test]
fn upload_words_then_copy_data_words_round_trips() {
    for n in [0usize, 1, 10, 4096] {
        let words: Vec<u32> = (0..n).map(|i| (i as u32).wrapping_mul(2654435761)).collect();
        let mut b = buffer(4 * n, 4 * n);
        b.upload_words(&words);
        assert_eq!(b.copy_data_words(), words);
    }
}

#[test]
fn copy_data_returns_only_the_logical_contents() {
    let mut b = buffer(4, 8);
    b.upload(&[9, 9, 9, 9, 9, 9, 9, 9]);
    assert_eq!(b.copy_data(), vec![9, 9, 9, 9]);
}

#[test]
fn upload_at_writes_at_the_given_offset_only() {
    let mut b = buffer(8, 8);
    b.upload(&[1, 1, 1, 1, 1, 1, 1, 1]);
    b.upload_at(3, &[5, 6]);
    assert_eq!(b.copy_data(), vec![1, 1, 1, 5, 6, 1, 1, 1]);
}

#[test]
fn dense_strided_copy_is_byte_identical_to_upload() {
    let data: Vec<u8> = (0..24).collect();
    let mut by_upload = buffer(24, 32);
    by_upload.upload(&data);
    let mut by_strides = buffer(24, 32);
    by_strides.copy_aligned_to(&data, Some(4), 4);
    assert_eq!(by_upload.copy_data(), by_strides.copy_data());
    // The whole backing matches too, not only the logical contents.
    assert_eq!(by_upload.size(), by_strides.size());
}

#[test]
fn strided_copy_interleaves_elements() {
    let mut b = buffer(8, 8);
    b.copy_aligned_to(&[10, 11, 12, 13], Some(2), 4);
    assert_eq!(b.copy_data(), vec![10, 11, 0, 0, 12, 13, 0, 0]);
}

#[test]
fn strided_copy_default_element_is_one_byte() {
    let mut b = buffer(6, 6);
    b.copy_aligned_to(&[8, 9], None, 3);
    assert_eq!(b.copy_data(), vec![8, 0, 0, 9, 0, 0]);
}

#[test]
fn strided_copy_on_empty_content_copies_nothing() {
    let mut b = buffer(0, 4);
    b.copy_aligned_to(&[], Some(1), 2);
    assert_eq!(b.copy_data(), Vec::<u8>::new());
}

#[test]
fn with_data_populates_in_one_expression() {
    let b = buffer(4, 8).with_data(&[3, 1, 4, 1]);
    assert_eq!(b.copy_data(), vec![3, 1, 4, 1]);
    assert_eq!(b.content_size(), 4);
    assert_eq!(b.size(), 8);
}
