//! Pipelines: the compute pipeline with its planned descriptor sets and the
//! single-entry descriptor updates, and the graphics pipeline's declarative
//! state value.

use vstd::prelude::*;

use crate::buffer::BufferResource;
use crate::descriptor::DescriptorKind;
use crate::image::ImageResource;
use crate::layout::SetBindings;

verus! {

/// One descriptor update: exactly one entry of one previously allocated
/// (set, binding) slot, ready for the driver to apply.
#[derive(Clone, Copy, Debug, PartialEq, Eq, Structural)]
pub enum DescriptorWrite {
    /// Points the slot at a buffer range.
    Buffer { dst_set: u64, dst_binding: u32, kind: DescriptorKind, buffer: u64, range: u64 },
    /// Points the slot at an image view in a given layout.
    Image { dst_set: u64, dst_binding: u32, kind: DescriptorKind, view: u64, layout: u32 },
}

/// Why a descriptor update is refused.
#[derive(Clone, Copy, Debug, PartialEq, Eq, Structural)]
pub enum BindingError {
    /// The addressed (set, binding) slot was never allocated: binding
    /// updates outside the allocated bounds are a contract violation.
    SlotNotAllocated,
}

/// A compute pipeline: the compiled executable, its layout, and exactly one
/// allocated descriptor set per declared set, exclusively owned. Binding
/// mutation goes only through the pipeline's update operations.
pub struct ComputePipeline {
    pipeline: u64,
    pipeline_layout: u64,
    descriptor_sets: Vec<u64>,
    set_bindings: Vec<SetBindings>,
}

impl ComputePipeline {
    /// The compiled pipeline handle.
    pub closed spec fn spec_handle(&self) -> u64 {
        self.pipeline
    }

    /// The pipeline-layout handle.
    pub closed spec fn spec_layout(&self) -> u64 {
        self.pipeline_layout
    }

    /// The allocated descriptor-set handles, one per declared set.
    pub closed spec fn spec_descriptor_sets(&self) -> Seq<u64> {
        self.descriptor_sets@
    }

    /// The declared bindings, per set.
    pub closed spec fn spec_set_bindings(&self) -> Seq<SetBindings> {
        self.set_bindings@
    }

    /// One descriptor set was allocated per declared set.
    pub open spec fn wf(&self) -> bool {
        self.spec_descriptor_sets().len() == self.spec_set_bindings().len()
    }

    /// The (set, binding) slot was allocated: the set exists and declares
    /// the binding index.
    pub open spec fn slot_allocated(&self, set: int, binding: int) -> bool {
        &&& 0 <= set < self.spec_set_bindings().len()
        &&& exists|b: int|
            0 <= b < self.spec_set_bindings()[set].bindings@.len()
                && self.spec_set_bindings()[set].bindings@[b].binding == binding
    }

    /// Assembles a pipeline from the driver's handles and the plan's
    /// declared sets; one descriptor set per set is required.
    pub fn new(
        pipeline: u64,
        pipeline_layout: u64,
        descriptor_sets: Vec<u64>,
        set_bindings: Vec<SetBindings>,
    ) -> (r: Self)
        requires
            descriptor_sets@.len() == set_bindings@.len(),
        ensures
            r.wf(),
            r.spec_handle() == pipeline,
            r.spec_layout() == pipeline_layout,
            r.spec_descriptor_sets() == descriptor_sets@,
            r.spec_set_bindings() == set_bindings@,
    {
        ComputePipeline { pipeline, pipeline_layout, descriptor_sets, set_bindings }
    }

    /// The compiled pipeline handle.
    pub fn handle(&self) -> (r: u64)
        ensures
            r == self.spec_handle(),
    {
        self.pipeline
    }

    /// The pipeline-layout handle.
    pub fn layout(&self) -> (r: u64)
        ensures
            r == self.spec_layout(),
    {
        self.pipeline_layout
    }

    /// The allocated descriptor-set handles.
    pub fn descriptor_sets(&self) -> (r: &Vec<u64>)
        ensures
            r@ == self.spec_descriptor_sets(),
    {
        &self.descriptor_sets
    }

    /// Decides whether the (set, binding) slot was allocated.
    fn check_slot(&self, set: usize, binding: usize) -> (r: bool)
        ensures
            r == self.slot_allocated(set as int, binding as int),
    {
        if set >= self.set_bindings.len() {
            return false;
        }
        let bs = &self.set_bindings[set].bindings;
        let n = bs.len();
        let mut i: usize = 0;
        while i < n
            invariant
                n == bs@.len(),
                i <= n,
                bs@ == self.spec_set_bindings()[set as int].bindings@,
                set < self.spec_set_bindings().len(),
                forall|b: int| 0 <= b < i ==> bs@[b].binding != binding,
            decreases n - i,
        {
            if bs[i].binding as usize == binding {
                return true;
            }
            i = i + 1;
        }
        false
    }

    /// Writes one storage-buffer descriptor entry into the (set, binding)
    /// slot, covering the buffer's logical content range. Fails exactly when
    /// the slot was never allocated.
    pub fn set_storage_buffer(&mut self, set: usize, binding: usize, buffer: &BufferResource)
        -> (r: Result<DescriptorWrite, BindingError>)
        requires
            old(self).wf(),
        ensures
            *final(self) == *old(self),
            match r {
                Ok(w) => old(self).slot_allocated(set as int, binding as int) && w
                    == (DescriptorWrite::Buffer {
                    dst_set: old(self).spec_descriptor_sets()[set as int],
                    dst_binding: binding as u32,
                    kind: DescriptorKind::StorageBuffer,
                    buffer: buffer.spec_handle(),
                    range: buffer.spec_content_size() as u64,
                }) && set < old(self).spec_descriptor_sets().len(),
                Err(e) => e == BindingError::SlotNotAllocated && !old(self).slot_allocated(
                    set as int,
                    binding as int,
                ),
            },
    {
        if !self.check_slot(set, binding) {
            return Err(BindingError::SlotNotAllocated);
        }
        proof {
            let b = choose|b: int|
                0 <= b < self.spec_set_bindings()[set as int].bindings@.len()
                    && #[trigger] self.spec_set_bindings()[set as int].bindings@[b].binding
                    == binding;
            assert(self.spec_set_bindings()[set as int].bindings@[b].binding <= u32::MAX);
        }
        Ok(
            DescriptorWrite::Buffer {
                dst_set: self.descriptor_sets[set],
                dst_binding: binding as u32,
                kind: DescriptorKind::StorageBuffer,
                buffer: buffer.handle(),
                range: buffer.content_size(),
            },
        )
    }

    /// Writes one storage-image descriptor entry into the (set, binding)
    /// slot, pointing at the image's view in its tracked layout. Fails
    /// exactly when the slot was never allocated.
    pub fn set_storage_image<I: ImageResource>(&mut self, set: usize, binding: usize, image: &I)
        -> (r: Result<DescriptorWrite, BindingError>)
        requires
            old(self).wf(),
        ensures
            *final(self) == *old(self),
            match r {
                Ok(w) => old(self).slot_allocated(set as int, binding as int) && w
                    == (DescriptorWrite::Image {
                    dst_set: old(self).spec_descriptor_sets()[set as int],
                    dst_binding: binding as u32,
                    kind: DescriptorKind::StorageImage,
                    view: image.spec_view(),
                    layout: image.spec_layout(),
                }) && set < old(self).spec_descriptor_sets().len(),
                Err(e) => e == BindingError::SlotNotAllocated && !old(self).slot_allocated(
                    set as int,
                    binding as int,
                ),
            },
    {
        if !self.check_slot(set, binding) {
            return Err(BindingError::SlotNotAllocated);
        }
        proof {
            let b = choose|b: int|
                0 <= b < self.spec_set_bindings()[set as int].bindings@.len()
                    && #[trigger] self.spec_set_bindings()[set as int].bindings@[b].binding
                    == binding;
            assert(self.spec_set_bindings()[set as int].bindings@[b].binding <= u32::MAX);
        }
        Ok(
            DescriptorWrite::Image {
                dst_set: self.descriptor_sets[set],
                dst_binding: binding as u32,
                kind: DescriptorKind::StorageImage,
                view: image.view(),
                layout: image.layout(),
            },
        )
    }

    /// Writes one uniform-buffer descriptor entry into the (set, binding)
    /// slot, covering the buffer's whole backing range. Fails exactly when
    /// the slot was never allocated.
    pub fn set_uniform_buffer(&mut self, set: usize, binding: usize, buffer: &BufferResource)
        -> (r: Result<DescriptorWrite, BindingError>)
        requires
            old(self).wf(),
        ensures
            *final(self) == *old(self),
            match r {
                Ok(w) => old(self).slot_allocated(set as int, binding as int) && w
                    == (DescriptorWrite::Buffer {
                    dst_set: old(self).spec_descriptor_sets()[set as int],
                    dst_binding: binding as u32,
                    kind: DescriptorKind::UniformBuffer,
                    buffer: buffer.spec_handle(),
                    range: buffer.spec_size() as u64,
                }) && set < old(self).spec_descriptor_sets().len(),
                Err(e) => e == BindingError::SlotNotAllocated && !old(self).slot_allocated(
                    set as int,
                    binding as int,
                ),
            },
    {
        if !self.check_slot(set, binding) {
            return Err(BindingError::SlotNotAllocated);
        }
        proof {
            let b = choose|b: int|
                0 <= b < self.spec_set_bindings()[set as int].bindings@.len()
                    && #[trigger] self.spec_set_bindings()[set as int].bindings@[b].binding
                    == binding;
            assert(self.spec_set_bindings()[set as int].bindings@[b].binding <= u32::MAX);
        }
        Ok(
            DescriptorWrite::Buffer {
                dst_set: self.descriptor_sets[set],
                dst_binding: binding as u32,
                kind: DescriptorKind::UniformBuffer,
                buffer: buffer.handle(),
                range: buffer.size(),
            },
        )
    }
}

/// Polygon fill mode of the rasterizer.
#[derive(Clone, Copy, Debug, PartialEq, Eq, Structural)]
pub enum PolygonMode {
    Fill,
    Line,
    Point,
}

/// Winding order that counts as front-facing.
#[derive(Clone, Copy, Debug, PartialEq, Eq, Structural)]
pub enum FrontFace {
    CounterClockwise,
    Clockwise,
}

/// Cull no faces.
pub const CULL_NONE: u32 = 0;
/// Cull front faces.
pub const CULL_FRONT: u32 = 0x1;
/// Cull back faces.
pub const CULL_BACK: u32 = 0x2;

/// Depth-test configuration of a graphics pipeline.
#[derive(Clone, Copy, Debug, PartialEq, Eq, Structural)]
pub struct DepthState {
    pub depth_test_enable: u32,
    pub depth_write_enable: u32,
    pub depth_compare_op: u32,
}

impl Default for DepthState {
    /// Depth testing and writing disabled, comparison zeroed.
    fn default() -> (r: Self)
        ensures
            r.depth_test_enable == 0,
            r.depth_write_enable == 0,
            r.depth_compare_op == 0,
    {
        DepthState { depth_test_enable: 0, depth_write_enable: 0, depth_compare_op: 0 }
    }
}

/// Multisampling configuration of a graphics pipeline.
#[derive(Clone, Copy, Debug, PartialEq, Eq, Structural)]
pub struct MultiSampleState {
    pub sample_shading_enable: u32,
    pub rasterization_samples: u32,
}

/// Rasterizer configuration of a graphics pipeline.
#[derive(Clone, Copy, Debug, PartialEq, Eq, Structural)]
pub struct RasterizerState {
    pub rasterizer_discard_enable: u32,
    pub polygon_mode: PolygonMode,
    pub cull_mode: u32,
    pub front_face: FrontFace,
}

impl Default for RasterizerState {
    /// Rasterization on, filled polygons, back-face culling,
    /// counter-clockwise front faces.
    fn default() -> (r: Self)
        ensures
            r.rasterizer_discard_enable == 0,
            r.polygon_mode == PolygonMode::Fill,
            r.cull_mode == CULL_BACK,
            r.front_face == FrontFace::CounterClockwise,
    {
        RasterizerState {
            rasterizer_discard_enable: 0,
            polygon_mode: PolygonMode::Fill,
            cull_mode: CULL_BACK,
            front_face: FrontFace::CounterClockwise,
        }
    }
}

/// A viewport's extent in pixels.
#[derive(Clone, Copy, Debug, PartialEq, Eq, Structural)]
pub struct Viewport {
    pub width: u32,
    pub height: u32,
}

/// The declarative state a graphics pipeline is configured with: named
/// optional fields, defaulted and validated at point of use.
pub struct GraphicsPipelineState {
    depth_stencil_state: Option<DepthState>,
    multisample_state: Option<MultiSampleState>,
    rasterization_state: Option<RasterizerState>,
    viewports: Vec<Viewport>,
}

impl GraphicsPipelineState {
    /// The configured depth state, if any.
    pub closed spec fn spec_depth_stencil_state(&self) -> Option<DepthState> {
        self.depth_stencil_state
    }

    /// The configured multisample state, if any.
    pub closed spec fn spec_multisample_state(&self) -> Option<MultiSampleState> {
        self.multisample_state
    }

    /// The configured rasterizer state, if any.
    pub closed spec fn spec_rasterization_state(&self) -> Option<RasterizerState> {
        self.rasterization_state
    }

    /// The configured viewports.
    pub closed spec fn spec_viewports(&self) -> Seq<Viewport> {
        self.viewports@
    }

    /// A fresh configuration: nothing set, no viewports.
    pub fn new() -> (r: Self)
        ensures
            r.spec_depth_stencil_state() is None,
            r.spec_multisample_state() is None,
            r.spec_rasterization_state() is None,
            r.spec_viewports() == Seq::<Viewport>::empty(),
    {
        GraphicsPipelineState {
            depth_stencil_state: None,
            multisample_state: None,
            rasterization_state: None,
            viewports: Vec::new(),
        }
    }

    /// Replaces the viewports by one covering the given extent.
    pub fn with_viewport(self, width: u32, height: u32) -> (r: Self)
        ensures
            r.spec_viewports() =~= seq![Viewport { width, height }],
            r.spec_depth_stencil_state() == self.spec_depth_stencil_state(),
            r.spec_multisample_state() == self.spec_multisample_state(),
            r.spec_rasterization_state() == self.spec_rasterization_state(),
    {
        let mut vs: Vec<Viewport> = Vec::new();
        vs.push(Viewport { width, height });
        GraphicsPipelineState { viewports: vs, ..self }
    }

    /// Sets the rasterizer's polygon mode, defaulting the rest of the
    /// rasterizer state first if it was unset.
    pub fn with_polygon_mode(self, mode: PolygonMode) -> (r: Self)
        ensures
            r.spec_rasterization_state() matches Some(rs) && rs.polygon_mode == mode,
            (match self.spec_rasterization_state() {
                Some(prev) => r.spec_rasterization_state() == Some(
                    RasterizerState { polygon_mode: mode, ..prev },
                ),
                None => r.spec_rasterization_state() == Some(
                    RasterizerState { polygon_mode: mode, ..rasterizer_state_default() },
                ),
            }),
            r.spec_depth_stencil_state() == self.spec_depth_stencil_state(),
            r.spec_multisample_state() == self.spec_multisample_state(),
            r.spec_viewports() == self.spec_viewports(),
    {
        let base = match self.rasterization_state {
            Some(rs) => rs,
            None => RasterizerState::default(),
        };
        GraphicsPipelineState {
            rasterization_state: Some(RasterizerState { polygon_mode: mode, ..base }),
            ..self
        }
    }

    /// Enables depth testing, defaulting the rest of the depth state first
    /// if it was unset.
    pub fn with_depth_testing(self) -> (r: Self)
        ensures
            r.spec_depth_stencil_state() matches Some(ds) && ds.depth_test_enable == 1,
            (match self.spec_depth_stencil_state() {
                Some(prev) => r.spec_depth_stencil_state() == Some(
                    DepthState { depth_test_enable: 1, ..prev },
                ),
                None => r.spec_depth_stencil_state() == Some(
                    DepthState { depth_test_enable: 1, ..depth_state_default() },
                ),
            }),
            r.spec_rasterization_state() == self.spec_rasterization_state(),
            r.spec_multisample_state() == self.spec_multisample_state(),
            r.spec_viewports() == self.spec_viewports(),
    {
        let base = match self.depth_stencil_state {
            Some(ds) => ds,
            None => DepthState::default(),
        };
        GraphicsPipelineState {
            depth_stencil_state: Some(DepthState { depth_test_enable: 1, ..base }),
            ..self
        }
    }

    /// Enables depth writing, defaulting the rest of the depth state first
    /// if it was unset.
    pub fn with_depth_writing(self) -> (r: Self)
        ensures
            r.spec_depth_stencil_state() matches Some(ds) && ds.depth_write_enable == 1,
            (match self.spec_depth_stencil_state() {
                Some(prev) => r.spec_depth_stencil_state() == Some(
                    DepthState { depth_write_enable: 1, ..prev },
                ),
                None => r.spec_depth_stencil_state() == Some(
                    DepthState { depth_write_enable: 1, ..depth_state_default() },
                ),
            }),
            r.spec_rasterization_state() == self.spec_rasterization_state(),
            r.spec_multisample_state() == self.spec_multisample_state(),
            r.spec_viewports() == self.spec_viewports(),
    {
        let base = match self.depth_stencil_state {
            Some(ds) => ds,
            None => DepthState::default(),
        };
        GraphicsPipelineState {
            depth_stencil_state: Some(DepthState { depth_write_enable: 1, ..base }),
            ..self
        }
    }
}

/// The value `DepthState::default` returns.
pub open spec fn depth_state_default() -> DepthState {
    DepthState { depth_test_enable: 0, depth_write_enable: 0, depth_compare_op: 0 }
}

/// The value `RasterizerState::default` returns.
pub open spec fn rasterizer_state_default() -> RasterizerState {
    RasterizerState {
        rasterizer_discard_enable: 0,
        polygon_mode: PolygonMode::Fill,
        cull_mode: CULL_BACK,
        front_face: FrontFace::CounterClockwise,
    }
}

} // verus!
