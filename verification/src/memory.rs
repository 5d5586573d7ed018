//! Memory-type selection: mapping a capability bitmask and required property
//! flags to a usable memory-type index.

use vstd::prelude::*;

verus! {

/// Property bit of device-local memory.
pub const MEMORY_DEVICE_LOCAL: u32 = 0x1;
/// Property bit of host-visible (mappable) memory.
pub const MEMORY_HOST_VISIBLE: u32 = 0x2;
/// Property bit of host-coherent memory.
pub const MEMORY_HOST_COHERENT: u32 = 0x4;

/// One entry of the device's memory-type table, reduced to the bits the
/// selection logic reads: its property flag bitmask.
#[derive(Clone, Copy, PartialEq, Eq, Structural)]
pub struct MemoryType {
    pub property_flags: u32,
}

/// `flags` offers every capability bit that `required` asks for.
pub open spec fn flags_contain(flags: u32, required: u32) -> bool {
    flags & required == required
}

/// Bit `i` of `filter` is set.
pub open spec fn filter_bit_set(filter: u32, i: u32) -> bool {
    filter & (1u32 << i) != 0
}

/// Memory type `i` is usable: the capability mask admits it and its flags
/// cover everything the caller requires.
pub open spec fn type_usable(filter: u32, types: Seq<MemoryType>, required: u32, i: int) -> bool {
    0 <= i < types.len()
    && filter_bit_set(filter, i as u32)
    && flags_contain(types[i].property_flags, required)
}

/// Returns the first index `i` such that bit `i` is set in `filter` and the
/// type's property flags are a superset of `required`; `None` when no such
/// index exists. Resource construction treats `None` as fatal.
pub fn memory_type_index(filter: u32, types: &Vec<MemoryType>, required: u32) -> (r: Option<u32>)
    requires
        types@.len() <= 32,
    ensures
        match r {
            Some(i) => type_usable(filter, types@, required, i as int)
                && (forall|j: int| 0 <= j < i ==> !type_usable(filter, types@, required, j)),
            None => forall|j: int| !type_usable(filter, types@, required, j),
        },
{
    let n = types.len();
    let mut i: usize = 0;
    while i < n
        invariant
            n == types@.len() <= 32,
            i <= n,
            forall|j: int| 0 <= j < i ==> !type_usable(filter, types@, required, j),
        decreases n - i,
    {
        let bit: u32 = 1u32 << (i as u32);
        if (filter & bit) != 0 && (types[i].property_flags & required) == required {
            return Some(i as u32);
        }
        i = i + 1;
    }
    None
}

/// For every memory-type table and filter mask, an answer meeting
/// `memory_type_index`'s contract returns an index only if that type's flags
/// are a superset of the request, and returns none exactly when no type in
/// the table qualifies.
pub proof fn lemma_memory_type_index_sound(
    filter: u32,
    types: Seq<MemoryType>,
    required: u32,
    r: Option<u32>,
)
    requires
        match r {
            Some(i) => type_usable(filter, types, required, i as int)
                && (forall|j: int| 0 <= j < i ==> !type_usable(filter, types, required, j)),
            None => forall|j: int| !type_usable(filter, types, required, j),
        },
    ensures
        r matches Some(i) ==> flags_contain(types[i as int].property_flags, required),
        (exists|j: int| type_usable(filter, types, required, j)) ==> r is Some,
{
}

} // verus!
