//! Swapchain configuration decisions: image count, surface resolution,
//! pre-transform, present mode and frame-index rotation. The queries that
//! feed these decisions are the presentation collaborator's; every choice
//! made from their answers is specified here.

use vstd::prelude::*;

verus! {

/// The identity surface-transform bit.
pub const TRANSFORM_IDENTITY: u32 = 0x1;

/// The surface reports no fixed extent and leaves the size to the caller.
pub const EXTENT_UNDEFINED: u32 = 0xFFFF_FFFF;

/// How presented images are queued.
#[derive(Clone, Copy, Debug, PartialEq, Eq, Structural)]
pub enum PresentMode {
    Immediate,
    Mailbox,
    Fifo,
    FifoRelaxed,
}

/// The number of swapchain images asked for: one more than the surface's
/// minimum, clamped to its maximum when the surface declares one (a maximum
/// of zero means unlimited).
pub fn swapchain_image_count(min_image_count: u32, max_image_count: u32) -> (r: u32)
    requires
        min_image_count < u32::MAX,
    ensures
        r == if max_image_count > 0 && min_image_count + 1 > max_image_count {
            max_image_count as int
        } else {
            min_image_count + 1
        },
{
    let desired = min_image_count + 1;
    if max_image_count > 0 && desired > max_image_count {
        max_image_count
    } else {
        desired
    }
}

/// The swapchain extent: the surface's current extent, unless the surface
/// leaves the width undefined, in which case the caller's requested extent.
pub fn surface_resolution(
    current_width: u32,
    current_height: u32,
    requested_width: u32,
    requested_height: u32,
) -> (r: (u32, u32))
    ensures
        r == if current_width == EXTENT_UNDEFINED {
            (requested_width, requested_height)
        } else {
            (current_width, current_height)
        },
{
    if current_width == EXTENT_UNDEFINED {
        (requested_width, requested_height)
    } else {
        (current_width, current_height)
    }
}

/// The pre-transform the swapchain is created with: identity when the
/// surface supports it, otherwise the surface's current transform.
pub fn choose_pre_transform(supported_transforms: u32, current_transform: u32) -> (r: u32)
    ensures
        r == if supported_transforms & TRANSFORM_IDENTITY != 0 {
            TRANSFORM_IDENTITY as int
        } else {
            current_transform as int
        },
{
    if supported_transforms & TRANSFORM_IDENTITY != 0 {
        TRANSFORM_IDENTITY
    } else {
        current_transform
    }
}

/// Some offered mode is the one given.
pub open spec fn offers_mode(modes: Seq<PresentMode>, mode: PresentMode) -> bool {
    exists|i: int| 0 <= i < modes.len() && modes[i] == mode
}

/// The present mode the swapchain is created with: mailbox when the device
/// offers it, else first-in-first-out, which every device offers.
pub fn choose_present_mode(modes: &Vec<PresentMode>) -> (r: PresentMode)
    ensures
        r == if offers_mode(modes@, PresentMode::Mailbox) {
            PresentMode::Mailbox
        } else {
            PresentMode::Fifo
        },
{
    let n = modes.len();
    let mut i: usize = 0;
    while i < n
        invariant
            n == modes@.len(),
            i <= n,
            forall|k: int| 0 <= k < i ==> modes@[k] != PresentMode::Mailbox,
        decreases n - i,
    {
        if modes[i] == PresentMode::Mailbox {
            return PresentMode::Mailbox;
        }
        i = i + 1;
    }
    PresentMode::Fifo
}

/// The next frame index after presenting: one further, wrapping around the
/// image count.
pub fn advance_frame_index(current_index: u32, image_count: u32) -> (r: u32)
    requires
        image_count > 0,
        current_index < image_count,
    ensures
        r == (current_index + 1) % (image_count as int),
        r < image_count,
{
    (current_index + 1) % image_count
}

} // verus!
