//! Descriptor-binding model: the resource kinds, element counts and pipeline
//! stages that reflection reports and descriptor-set layouts are built from.
//!
//! Kind codes and stage bits are the driver interface's own numeric values, so
//! a layout planned here can be handed to the driver without translation.

use vstd::prelude::*;

verus! {

/// Pipeline-stage bit for vertex shaders.
pub const STAGE_VERTEX: u32 = 0x1;
/// Pipeline-stage bit for fragment shaders.
pub const STAGE_FRAGMENT: u32 = 0x10;
/// Pipeline-stage bit for compute shaders.
pub const STAGE_COMPUTE: u32 = 0x20;

/// The kind of resource a descriptor binding carries.
#[derive(Clone, Copy, Debug, PartialEq, Eq, Structural)]
pub enum DescriptorKind {
    Sampler,
    CombinedImageSampler,
    SampledImage,
    StorageImage,
    UniformTexelBuffer,
    StorageTexelBuffer,
    UniformBuffer,
    StorageBuffer,
    UniformBufferDynamic,
    StorageBufferDynamic,
    InputAttachment,
    InlineUniformBlock,
    AccelerationStructureKhr,
    AccelerationStructureNv,
}

/// The driver's numeric code for each descriptor kind.
pub open spec fn spec_kind_code(kind: DescriptorKind) -> u32 {
    match kind {
        DescriptorKind::Sampler => 0,
        DescriptorKind::CombinedImageSampler => 1,
        DescriptorKind::SampledImage => 2,
        DescriptorKind::StorageImage => 3,
        DescriptorKind::UniformTexelBuffer => 4,
        DescriptorKind::StorageTexelBuffer => 5,
        DescriptorKind::UniformBuffer => 6,
        DescriptorKind::StorageBuffer => 7,
        DescriptorKind::UniformBufferDynamic => 8,
        DescriptorKind::StorageBufferDynamic => 9,
        DescriptorKind::InputAttachment => 10,
        DescriptorKind::InlineUniformBlock => 1000138000,
        DescriptorKind::AccelerationStructureKhr => 1000150000,
        DescriptorKind::AccelerationStructureNv => 1000165000,
    }
}

/// The descriptor kind denoted by a driver code; codes that denote no known
/// kind fall back to `Sampler`, the driver's zero value.
pub open spec fn spec_kind_from_code(code: u32) -> DescriptorKind {
    if code == 0 {
        DescriptorKind::Sampler
    } else if code == 1 {
        DescriptorKind::CombinedImageSampler
    } else if code == 2 {
        DescriptorKind::SampledImage
    } else if code == 3 {
        DescriptorKind::StorageImage
    } else if code == 4 {
        DescriptorKind::UniformTexelBuffer
    } else if code == 5 {
        DescriptorKind::StorageTexelBuffer
    } else if code == 6 {
        DescriptorKind::UniformBuffer
    } else if code == 7 {
        DescriptorKind::StorageBuffer
    } else if code == 8 {
        DescriptorKind::UniformBufferDynamic
    } else if code == 9 {
        DescriptorKind::StorageBufferDynamic
    } else if code == 10 {
        DescriptorKind::InputAttachment
    } else if code == 1000138000 {
        DescriptorKind::InlineUniformBlock
    } else if code == 1000150000 {
        DescriptorKind::AccelerationStructureKhr
    } else if code == 1000165000 {
        DescriptorKind::AccelerationStructureNv
    } else {
        DescriptorKind::Sampler
    }
}

/// Maps a driver code to a descriptor kind.
pub fn kind_from_code(code: u32) -> (r: DescriptorKind)
    ensures
        r == spec_kind_from_code(code),
{
    if code == 0 {
        DescriptorKind::Sampler
    } else if code == 1 {
        DescriptorKind::CombinedImageSampler
    } else if code == 2 {
        DescriptorKind::SampledImage
    } else if code == 3 {
        DescriptorKind::StorageImage
    } else if code == 4 {
        DescriptorKind::UniformTexelBuffer
    } else if code == 5 {
        DescriptorKind::StorageTexelBuffer
    } else if code == 6 {
        DescriptorKind::UniformBuffer
    } else if code == 7 {
        DescriptorKind::StorageBuffer
    } else if code == 8 {
        DescriptorKind::UniformBufferDynamic
    } else if code == 9 {
        DescriptorKind::StorageBufferDynamic
    } else if code == 10 {
        DescriptorKind::InputAttachment
    } else if code == 1000138000 {
        DescriptorKind::InlineUniformBlock
    } else if code == 1000150000 {
        DescriptorKind::AccelerationStructureKhr
    } else if code == 1000165000 {
        DescriptorKind::AccelerationStructureNv
    } else {
        DescriptorKind::Sampler
    }
}

/// Maps a descriptor kind back to the driver's numeric code.
pub fn kind_code(kind: DescriptorKind) -> (r: u32)
    ensures
        r == spec_kind_code(kind),
{
    match kind {
        DescriptorKind::Sampler => 0,
        DescriptorKind::CombinedImageSampler => 1,
        DescriptorKind::SampledImage => 2,
        DescriptorKind::StorageImage => 3,
        DescriptorKind::UniformTexelBuffer => 4,
        DescriptorKind::StorageTexelBuffer => 5,
        DescriptorKind::UniformBuffer => 6,
        DescriptorKind::StorageBuffer => 7,
        DescriptorKind::UniformBufferDynamic => 8,
        DescriptorKind::StorageBufferDynamic => 9,
        DescriptorKind::InputAttachment => 10,
        DescriptorKind::InlineUniformBlock => 1000138000,
        DescriptorKind::AccelerationStructureKhr => 1000150000,
        DescriptorKind::AccelerationStructureNv => 1000165000,
    }
}

/// How many elements a reflected binding declares.
#[derive(Clone, Copy, Debug, PartialEq, Eq, Structural)]
pub enum BindingSlots {
    /// A single resource.
    Single,
    /// A fixed-size array of resources.
    Fixed(u32),
    /// An unbounded ("bindless") array; the layout carries a zero-count
    /// sentinel for it.
    Unbounded,
}

/// The descriptor count a binding contributes to its layout: one for a single
/// resource, the declared size for a fixed array, and zero as the unbounded
/// sentinel.
pub open spec fn spec_slot_count(slots: BindingSlots) -> u32 {
    match slots {
        BindingSlots::Single => 1,
        BindingSlots::Fixed(n) => n,
        BindingSlots::Unbounded => 0,
    }
}

/// Maps declared element slots to the layout's descriptor count.
pub fn slot_count(slots: BindingSlots) -> (r: u32)
    ensures
        r == spec_slot_count(slots),
{
    match slots {
        BindingSlots::Single => 1,
        BindingSlots::Fixed(n) => n,
        BindingSlots::Unbounded => 0,
    }
}

/// One binding of a descriptor-set layout: binding index, resource kind,
/// element count (zero meaning unbounded) and the pipeline stages that see it.
#[derive(Clone, Copy, Debug, PartialEq, Eq, Structural)]
pub struct LayoutBinding {
    pub binding: u32,
    pub kind: DescriptorKind,
    pub count: u32,
    pub stage_flags: u32,
}

/// One binding as reflection reports it: its set and binding indices, the
/// driver code of its resource kind, and its declared element slots.
#[derive(Clone, Copy, Debug, PartialEq, Eq, Structural)]
pub struct ReflectedBinding {
    pub set: u32,
    pub binding: u32,
    pub kind_code: u32,
    pub slots: BindingSlots,
}

/// The layout binding that a reflected binding turns into, targeting the
/// given pipeline stages.
pub open spec fn spec_layout_binding_of(rb: ReflectedBinding, stage_flags: u32) -> LayoutBinding {
    LayoutBinding {
        binding: rb.binding,
        kind: spec_kind_from_code(rb.kind_code),
        count: spec_slot_count(rb.slots),
        stage_flags,
    }
}

/// Turns a reflected binding into the layout binding it declares.
pub fn layout_binding_of(rb: &ReflectedBinding, stage_flags: u32) -> (r: LayoutBinding)
    ensures
        r == spec_layout_binding_of(*rb, stage_flags),
{
    LayoutBinding {
        binding: rb.binding,
        kind: kind_from_code(rb.kind_code),
        count: slot_count(rb.slots),
        stage_flags,
    }
}

/// A push-constant byte range visible to the given pipeline stages.
#[derive(Clone, Copy, Debug, PartialEq, Eq, Structural)]
pub struct PushConstantRange {
    pub offset: u32,
    pub size: u32,
    pub stage_flags: u32,
}

/// A push-constant byte range as reflection reports it, before a pipeline
/// stage is attached.
#[derive(Clone, Copy, Debug, PartialEq, Eq, Structural)]
pub struct PushConstantBlock {
    pub offset: u32,
    pub size: u32,
}

} // verus!
