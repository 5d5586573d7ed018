use gpukit::memory::{memory_type_index, MemoryType, MEMORY_DEVICE_LOCAL, MEMORY_HOST_VISIBLE};

fn table(flags: &[u32]) -> Vec<MemoryType> {
    flags.iter().map(|&f| MemoryType { property_flags: f }).collect()
}

#[test]
fn picks_first_index_with_matching_flags() {
    let types = table(&[0x1, 0x3, 0x2, 0x6]);
    // Types 1, 2 and 3 all cover HOST_VISIBLE (0x2); the first wins.
    assert_eq!(memory_type_index(0b1111, &types, MEMORY_HOST_VISIBLE), Some(1));
}

#[test]
fn filter_mask_excludes_earlier_types() {
    let types = table(&[0x2, 0x2, 0x2]);
    // Bits 0 and 1 are masked out of the capability filter.
    assert_eq!(memory_type_index(0b100, &types, MEMORY_HOST_VISIBLE), Some(2));
}

#[test]
fn returned_index_flags_are_a_superset_of_the_request() {
    let types = table(&[0x1, 0x5, 0x7, 0x2]);
    let request = 0x5;
    let r = memory_type_index(0b1111, &types, request);
    assert_eq!(r, Some(1));
    let flags = types[r.unwrap() as usize].property_flags;
    assert_eq!(flags & request, request);
}

#[test]
fn none_when_no_type_covers_the_request() {
    let types = table(&[0x1, 0x4, 0x5]);
    assert_eq!(memory_type_index(0b111, &types, MEMORY_HOST_VISIBLE), None);
}

#[test]
fn none_when_filter_masks_every_candidate() {
    let types = table(&[0x2, 0x2]);
    assert_eq!(memory_type_index(0, &types, MEMORY_HOST_VISIBLE), None);
}

#[test]
fn bit_zero_of_the_filter_admits_type_zero() {
    let types = table(&[MEMORY_DEVICE_LOCAL]);
    assert_eq!(memory_type_index(0b1, &types, MEMORY_DEVICE_LOCAL), Some(0));
}

#[test]
fn empty_table_yields_none() {
    let types = table(&[]);
    assert_eq!(memory_type_index(u32::MAX, &types, 0), None);
}
