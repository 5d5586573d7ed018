//! Image resources: a capability interface over image-like resources and the
//! owned two-dimensional image, with its tracked layout.

use vstd::prelude::*;

use crate::memory::{memory_type_index, type_usable, MemoryType, MEMORY_DEVICE_LOCAL};
use crate::buffer::ResourceError;

verus! {

/// Layout code of an image whose contents are undefined.
pub const LAYOUT_UNDEFINED: u32 = 0;
/// Layout code of the general-purpose image layout.
pub const LAYOUT_GENERAL: u32 = 1;
/// Layout code of a color-attachment-optimal image.
pub const LAYOUT_COLOR_ATTACHMENT_OPTIMAL: u32 = 2;
/// Layout code of a transfer-source-optimal image.
pub const LAYOUT_TRANSFER_SRC_OPTIMAL: u32 = 6;
/// Layout code of a transfer-destination-optimal image.
pub const LAYOUT_TRANSFER_DST_OPTIMAL: u32 = 7;
/// Layout code of a presentable image.
pub const LAYOUT_PRESENT_SRC: u32 = 1000001002;

/// What every image-like resource exposes: its extent, format, native
/// handle, view, and a tracked layout that transitions keep current. The two
/// implementations differ only in destruction: the owned image releases its
/// memory, the presented image does not.
pub trait ImageResource {
    /// The image's width in texels.
    spec fn spec_width(&self) -> u32;

    /// The image's height in texels.
    spec fn spec_height(&self) -> u32;

    /// The image's depth in texels.
    spec fn spec_depth(&self) -> u32;

    /// The image's format code.
    spec fn spec_format(&self) -> u32;

    /// The layout the image is tracked to be in.
    spec fn spec_layout(&self) -> u32;

    /// The native image handle.
    spec fn spec_handle(&self) -> u64;

    /// The native image-view handle.
    spec fn spec_view(&self) -> u64;

    fn width(&self) -> (r: u32)
        ensures
            r == self.spec_width(),
    ;

    fn height(&self) -> (r: u32)
        ensures
            r == self.spec_height(),
    ;

    fn depth(&self) -> (r: u32)
        ensures
            r == self.spec_depth(),
    ;

    fn format(&self) -> (r: u32)
        ensures
            r == self.spec_format(),
    ;

    fn layout(&self) -> (r: u32)
        ensures
            r == self.spec_layout(),
    ;

    /// Retracks the image's layout; everything else is untouched.
    fn set_layout(&mut self, layout: u32)
        ensures
            final(self).spec_layout() == layout,
            final(self).spec_width() == old(self).spec_width(),
            final(self).spec_height() == old(self).spec_height(),
            final(self).spec_depth() == old(self).spec_depth(),
            final(self).spec_format() == old(self).spec_format(),
            final(self).spec_handle() == old(self).spec_handle(),
            final(self).spec_view() == old(self).spec_view(),
    ;

    fn handle(&self) -> (r: u64)
        ensures
            r == self.spec_handle(),
    ;

    fn view(&self) -> (r: u64)
        ensures
            r == self.spec_view(),
    ;
}

/// A two-dimensional image that owns its handle, view and memory block
/// together; construction is all-or-nothing.
pub struct Image2DResource {
    image: u64,
    view: u64,
    memory_type: u32,
    layout: u32,
    width: u32,
    height: u32,
    format: u32,
}

impl Image2DResource {
    /// The memory-type index its block was allocated from.
    pub closed spec fn spec_memory_type(&self) -> u32 {
        self.memory_type
    }

    /// The memory-type index its block was allocated from.
    pub fn memory_type(&self) -> (r: u32)
        ensures
            r == self.spec_memory_type(),
    {
        self.memory_type
    }

    /// Builds the resource around a created image handle and view: resolves
    /// a memory type for the driver-reported capability mask, and starts
    /// with the undefined layout. Fails exactly when no memory type is
    /// compatible; nothing partially built is ever returned.
    pub fn new(
        image: u64,
        view: u64,
        width: u32,
        height: u32,
        format: u32,
        type_filter: u32,
        memory_types: &Vec<MemoryType>,
        property_flags: u32,
    ) -> (r: Result<Self, ResourceError>)
        requires
            memory_types@.len() <= 32,
        ensures
            match r {
                Ok(im) => {
                    &&& im.spec_handle() == image
                    &&& im.spec_view() == view
                    &&& im.spec_width() == width
                    &&& im.spec_height() == height
                    &&& im.spec_depth() == 1
                    &&& im.spec_format() == format
                    &&& im.spec_layout() == LAYOUT_UNDEFINED
                    &&& type_usable(
                        type_filter,
                        memory_types@,
                        property_flags,
                        im.spec_memory_type() as int,
                    )
                    &&& forall|j: int|
                        0 <= j < im.spec_memory_type() ==> !type_usable(
                            type_filter,
                            memory_types@,
                            property_flags,
                            j,
                        )
                },
                Err(e) => e == ResourceError::NoCompatibleMemoryType && (forall|j: int|
                    !type_usable(type_filter, memory_types@, property_flags, j)),
            },
    {
        match memory_type_index(type_filter, memory_types, property_flags) {
            Some(idx) => Ok(
                Image2DResource {
                    image,
                    view,
                    memory_type: idx,
                    layout: LAYOUT_UNDEFINED,
                    width,
                    height,
                    format,
                },
            ),
            None => Err(ResourceError::NoCompatibleMemoryType),
        }
    }

    /// Builds a device-local storage image: the memory type must be
    /// device-local.
    pub fn new_device_local_storage_image(
        image: u64,
        view: u64,
        width: u32,
        height: u32,
        format: u32,
        type_filter: u32,
        memory_types: &Vec<MemoryType>,
    ) -> (r: Result<Self, ResourceError>)
        requires
            memory_types@.len() <= 32,
        ensures
            match r {
                Ok(im) => {
                    &&& im.spec_handle() == image
                    &&& im.spec_view() == view
                    &&& im.spec_width() == width
                    &&& im.spec_height() == height
                    &&& im.spec_depth() == 1
                    &&& im.spec_format() == format
                    &&& im.spec_layout() == LAYOUT_UNDEFINED
                    &&& type_usable(
                        type_filter,
                        memory_types@,
                        MEMORY_DEVICE_LOCAL,
                        im.spec_memory_type() as int,
                    )
                    &&& forall|j: int|
                        0 <= j < im.spec_memory_type() ==> !type_usable(
                            type_filter,
                            memory_types@,
                            MEMORY_DEVICE_LOCAL,
                            j,
                        )
                },
                Err(e) => e == ResourceError::NoCompatibleMemoryType && (forall|j: int|
                    !type_usable(type_filter, memory_types@, MEMORY_DEVICE_LOCAL, j)),
            },
    {
        Self::new(
            image,
            view,
            width,
            height,
            format,
            type_filter,
            memory_types,
            MEMORY_DEVICE_LOCAL,
        )
    }
}

impl ImageResource for Image2DResource {
    closed spec fn spec_width(&self) -> u32 {
        self.width
    }

    closed spec fn spec_height(&self) -> u32 {
        self.height
    }

    closed spec fn spec_depth(&self) -> u32 {
        1
    }

    closed spec fn spec_format(&self) -> u32 {
        self.format
    }

    closed spec fn spec_layout(&self) -> u32 {
        self.layout
    }

    closed spec fn spec_handle(&self) -> u64 {
        self.image
    }

    closed spec fn spec_view(&self) -> u64 {
        self.view
    }

    fn width(&self) -> u32 {
        self.width
    }

    fn height(&self) -> u32 {
        self.height
    }

    fn depth(&self) -> u32 {
        1
    }

    fn format(&self) -> u32 {
        self.format
    }

    fn layout(&self) -> u32 {
        self.layout
    }

    fn set_layout(&mut self, layout: u32) {
        self.layout = layout;
    }

    fn handle(&self) -> u64 {
        self.image
    }

    fn view(&self) -> u64 {
        self.view
    }
}

/// An image borrowed from the presentation engine: same capabilities as an
/// owned image, but it owns no memory to release.
pub struct SwapchainImage {
    image: u64,
    view: u64,
    layout: u32,
    format: u32,
    width: u32,
    height: u32,
}

impl SwapchainImage {
    /// Wraps one presented image and its view, tracked at the given layout.
    pub fn new(
        image: u64,
        view: u64,
        layout: u32,
        format: u32,
        width: u32,
        height: u32,
    ) -> (r: Self)
        ensures
            r.spec_handle() == image,
            r.spec_view() == view,
            r.spec_layout() == layout,
            r.spec_format() == format,
            r.spec_width() == width,
            r.spec_height() == height,
            r.spec_depth() == 1,
    {
        SwapchainImage { image, view, layout, format, width, height }
    }
}

impl ImageResource for SwapchainImage {
    closed spec fn spec_width(&self) -> u32 {
        self.width
    }

    closed spec fn spec_height(&self) -> u32 {
        self.height
    }

    closed spec fn spec_depth(&self) -> u32 {
        1
    }

    closed spec fn spec_format(&self) -> u32 {
        self.format
    }

    closed spec fn spec_layout(&self) -> u32 {
        self.layout
    }

    closed spec fn spec_handle(&self) -> u64 {
        self.image
    }

    closed spec fn spec_view(&self) -> u64 {
        self.view
    }

    fn width(&self) -> u32 {
        self.width
    }

    fn height(&self) -> u32 {
        self.height
    }

    fn depth(&self) -> u32 {
        1
    }

    fn format(&self) -> u32 {
        self.format
    }

    fn layout(&self) -> u32 {
        self.layout
    }

    fn set_layout(&mut self, layout: u32) {
        self.layout = layout;
    }

    fn handle(&self) -> u64 {
        self.image
    }

    fn view(&self) -> u64 {
        self.view
    }
}

} // verus!
