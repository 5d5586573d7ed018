//! Adapter capabilities: the queue-family table and device properties the
//! selection logic reads, and the queue-family searches over them.

use vstd::prelude::*;

use crate::memory::flags_contain;

verus! {

/// Queue-capability bit for graphics work.
pub const QUEUE_GRAPHICS: u32 = 0x1;
/// Queue-capability bit for compute work.
pub const QUEUE_COMPUTE: u32 = 0x2;
/// Queue-capability bit for transfer work.
pub const QUEUE_TRANSFER: u32 = 0x4;

/// Device-type code of a discrete adapter.
pub const DEVICE_TYPE_DISCRETE: u32 = 2;
/// Device-type code of a virtualized adapter.
pub const DEVICE_TYPE_VIRTUAL: u32 = 3;

/// One queue family: its capability bits and how many queues it offers.
#[derive(Clone, Copy, Debug, PartialEq, Eq, Structural)]
pub struct QueueFamily {
    pub queue_flags: u32,
    pub queue_count: u32,
}

/// Queue family `i` covers every requested capability bit.
pub open spec fn family_supports(families: Seq<QueueFamily>, flags: u32, i: int) -> bool {
    0 <= i < families.len() && flags_contain(families[i].queue_flags, flags)
}

/// An adapter as the selection logic sees it: identity, type, and its queue
/// families.
pub struct GpuInfo {
    pub vendor_id: u32,
    pub device_id: u32,
    pub driver_version: u32,
    pub device_type: u32,
    pub queue_families: Vec<QueueFamily>,
}

impl GpuInfo {
    /// The vendor identifier.
    pub fn vendor_id(&self) -> (r: u32)
        ensures
            r == self.vendor_id,
    {
        self.vendor_id
    }

    /// The device identifier.
    pub fn device_id(&self) -> (r: u32)
        ensures
            r == self.device_id,
    {
        self.device_id
    }

    /// The driver's version word.
    pub fn driver_version(&self) -> (r: u32)
        ensures
            r == self.driver_version,
    {
        self.driver_version
    }

    /// Whether the adapter is a discrete device.
    pub fn is_discrete(&self) -> (r: bool)
        ensures
            r == (self.device_type == DEVICE_TYPE_DISCRETE),
    {
        self.device_type == DEVICE_TYPE_DISCRETE
    }

    /// Whether the adapter is a virtualized device.
    pub fn is_virtual(&self) -> (r: bool)
        ensures
            r == (self.device_type == DEVICE_TYPE_VIRTUAL),
    {
        self.device_type == DEVICE_TYPE_VIRTUAL
    }

    /// How many queue families the adapter offers.
    pub fn queue_family_count(&self) -> (r: usize)
        ensures
            r == self.queue_families@.len(),
    {
        self.queue_families.len()
    }

    /// How many queues the given family offers.
    pub fn queue_count(&self, queue_family_index: usize) -> (r: u32)
        requires
            queue_family_index < self.queue_families@.len(),
        ensures
            r == self.queue_families@[queue_family_index as int].queue_count,
    {
        self.queue_families[queue_family_index].queue_count
    }

    /// The first queue family whose capability bits cover every requested
    /// flag; none when no family qualifies.
    pub fn family_type_index(&self, flags: u32) -> (r: Option<u32>)
        requires
            self.queue_families@.len() <= 0xFFFF_FFFF,
        ensures
            match r {
                Some(i) => family_supports(self.queue_families@, flags, i as int) && (forall|
                    j: int,
                |
                    0 <= j < i ==> !family_supports(self.queue_families@, flags, j)),
                None => forall|j: int| !family_supports(self.queue_families@, flags, j),
            },
    {
        let n = self.queue_families.len();
        let mut i: usize = 0;
        while i < n
            invariant
                n == self.queue_families@.len() <= 0xFFFF_FFFF,
                i <= n,
                forall|j: int| 0 <= j < i ==> !family_supports(self.queue_families@, flags, j),
            decreases n - i,
        {
            if self.queue_families[i].queue_flags & flags == flags {
                return Some(i as u32);
            }
            i = i + 1;
        }
        None
    }

    /// Whether some queue family supports graphics work.
    pub fn supports_graphics(&self) -> (r: bool)
        ensures
            r == exists|j: int| family_supports(self.queue_families@, QUEUE_GRAPHICS, j),
    {
        self.supports_flags(QUEUE_GRAPHICS)
    }

    /// Whether some queue family supports compute work.
    pub fn supports_compute(&self) -> (r: bool)
        ensures
            r == exists|j: int| family_supports(self.queue_families@, QUEUE_COMPUTE, j),
    {
        self.supports_flags(QUEUE_COMPUTE)
    }

    /// Whether some queue family supports transfer work.
    pub fn supports_transfer(&self) -> (r: bool)
        ensures
            r == exists|j: int| family_supports(self.queue_families@, QUEUE_TRANSFER, j),
    {
        self.supports_flags(QUEUE_TRANSFER)
    }

    /// Whether some queue family covers every given capability bit.
    pub fn supports_flags(&self, flags: u32) -> (r: bool)
        ensures
            r == exists|j: int| family_supports(self.queue_families@, flags, j),
    {
        let n = self.queue_families.len();
        let mut i: usize = 0;
        while i < n
            invariant
                n == self.queue_families@.len(),
                i <= n,
                forall|j: int| 0 <= j < i ==> !family_supports(self.queue_families@, flags, j),
            decreases n - i,
        {
            if self.queue_families[i].queue_flags & flags == flags {
                proof {
                    assert(family_supports(self.queue_families@, flags, i as int));
                }
                return true;
            }
            i = i + 1;
        }
        false
    }
}

} // verus!
