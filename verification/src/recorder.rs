//! Command recording and submission tracking: an ordered, single-use
//! sequence of GPU operations, recorded while the recorder is in its
//! recording state and handed out exactly once by submission.

use vstd::prelude::*;

use crate::buffer::BufferResource;
use crate::descriptor::STAGE_COMPUTE;
use crate::image::ImageResource;
use crate::pipeline::ComputePipeline;

verus! {

/// Where a pipeline binds.
#[derive(Clone, Copy, Debug, PartialEq, Eq, Structural)]
pub enum BindPoint {
    Graphics,
    Compute,
}

/// One recorded GPU operation; operations execute on the device in recorded
/// order.
#[derive(Debug)]
pub enum GpuOp {
    BindPipeline { bind_point: BindPoint, pipeline: u64 },
    BindDescriptorSets { bind_point: BindPoint, layout: u64, sets: Vec<u64> },
    BindVertexBuffers { first_binding: u32, buffers: Vec<u64> },
    DrawVertices { vertex_count: u32, instance_count: u32, first_vertex: u32, first_instance: u32 },
    DispatchCompute { width: u32, height: u32, depth: u32 },
    BufferBarrier {
        buffer: u64,
        size: u64,
        producer: u32,
        consumer: u32,
        source_access: u32,
        destination_access: u32,
    },
    ImageTransition { image: u64, old_layout: u32, new_layout: u32 },
    Blit { source: u64, source_layout: u32, destination: u64, destination_layout: u32 },
    ClearImage { image: u64, red_bits: u32, green_bits: u32, blue_bits: u32, alpha_bits: u32 },
    CopyImageToBuffer { image: u64, image_layout: u32, buffer: u64, width: u32, height: u32, depth: u32 },
    CopyBufferToImage { buffer: u64, image: u64, image_layout: u32, width: u32, height: u32, depth: u32 },
    BeginRenderPass { render_pass: u64, framebuffer: u64, width: u32, height: u32 },
    EndRenderPass,
    PushConstants { layout: u64, stage_flags: u32, offset: u32, bytes: Vec<u8> },
}

/// The recorder's state machine: fresh, recording, ended, or submitted.
/// Recording starts only from `Idle`; submission moves to `Submitted`, and
/// nothing leaves `Submitted`.
#[derive(Clone, Copy, Debug, PartialEq, Eq, Structural)]
pub enum RecorderState {
    Idle,
    Recording,
    Ended,
    Submitted,
}

/// Why a submission is refused.
#[derive(Clone, Copy, Debug, PartialEq, Eq, Structural)]
pub enum SubmitError {
    /// The sequence was already submitted once; it is single-use, and no
    /// further enqueue may happen.
    AlreadySubmitted,
    /// Nothing was recorded: the recorder never left its fresh state.
    NotRecorded,
}

/// A submission succeeds exactly from these recorder states.
pub open spec fn submittable(state: RecorderState) -> bool {
    state == RecorderState::Recording || state == RecorderState::Ended
}

/// The command sequence a successful submission hands over: the recorded
/// operations, surrendered by the recorder exactly once. A completion token
/// owns it until the work is retired.
pub struct SubmittedSequence {
    ops: Vec<GpuOp>,
}

impl SubmittedSequence {
    /// The operations to enqueue, in recorded order.
    pub closed spec fn spec_ops(&self) -> Seq<GpuOp> {
        self.ops@
    }

    /// The operations to enqueue, in recorded order.
    pub fn ops(&self) -> (r: &Vec<GpuOp>)
        ensures
            r@ == self.spec_ops(),
    {
        &self.ops
    }
}

/// A command recorder: an ordered sequence of GPU operations under the
/// single-use state machine `Idle -> Recording -> Ended/Submitted`.
pub struct CommandBuffer {
    state: RecorderState,
    ops: Vec<GpuOp>,
}

impl CommandBuffer {
    /// The recorder's state.
    pub closed spec fn spec_state(&self) -> RecorderState {
        self.state
    }

    /// The operations recorded so far, in order.
    pub closed spec fn spec_ops(&self) -> Seq<GpuOp> {
        self.ops@
    }

    /// The recorder records: it has begun and was not yet ended or
    /// submitted.
    pub open spec fn recording(&self) -> bool {
        self.spec_state() == RecorderState::Recording
    }

    /// The sequence grew by exactly the given operation.
    pub open spec fn appended(&self, prev: &Self, op: GpuOp) -> bool {
        self.spec_ops() == prev.spec_ops().push(op)
    }

    /// A fresh recorder: idle, nothing recorded.
    pub fn new() -> (r: Self)
        ensures
            r.spec_state() == RecorderState::Idle,
            r.spec_ops() == Seq::<GpuOp>::empty(),
    {
        CommandBuffer { state: RecorderState::Idle, ops: Vec::new() }
    }

    /// Starts recording a single-use sequence; only a fresh recorder can
    /// begin.
    pub fn begin(&mut self)
        requires
            old(self).spec_state() == RecorderState::Idle,
        ensures
            final(self).spec_state() == RecorderState::Recording,
            final(self).spec_ops() == old(self).spec_ops(),
    {
        self.state = RecorderState::Recording;
    }

    /// Ends recording; no further operations can be appended.
    pub fn end(&mut self)
        requires
            old(self).recording(),
        ensures
            final(self).spec_state() == RecorderState::Ended,
            final(self).spec_ops() == old(self).spec_ops(),
    {
        self.state = RecorderState::Ended;
    }

    /// Appends a pipeline bind.
    pub fn bind_pipeline(&mut self, bind_point: BindPoint, pipeline: u64)
        requires
            old(self).recording(),
        ensures
            final(self).recording(),
            final(self).appended(old(self), GpuOp::BindPipeline { bind_point, pipeline }),
    {
        self.ops.push(GpuOp::BindPipeline { bind_point, pipeline });
    }

    /// Appends a compute-pipeline bind followed by a bind of all of the
    /// pipeline's descriptor sets.
    pub fn bind_compute_pipeline(&mut self, pipeline: &ComputePipeline)
        requires
            old(self).recording(),
        ensures
            final(self).recording(),
            final(self).spec_ops().len() == old(self).spec_ops().len() + 2,
            final(self).spec_ops().take(old(self).spec_ops().len() as int) == old(self).spec_ops(),
            final(self).spec_ops()[old(self).spec_ops().len() as int] == (GpuOp::BindPipeline {
                bind_point: BindPoint::Compute,
                pipeline: pipeline.spec_handle(),
            }),
            final(self).spec_ops().last() matches GpuOp::BindDescriptorSets {
                bind_point: bp,
                layout,
                sets,
            } && bp == BindPoint::Compute && layout == pipeline.spec_layout() && sets@
                == pipeline.spec_descriptor_sets(),
    {
        self.ops.push(
            GpuOp::BindPipeline { bind_point: BindPoint::Compute, pipeline: pipeline.handle() },
        );
        let sets = copy_handles(pipeline.descriptor_sets());
        self.ops.push(
            GpuOp::BindDescriptorSets {
                bind_point: BindPoint::Compute,
                layout: pipeline.layout(),
                sets,
            },
        );
        proof {
            assert(self.ops@.take(old(self).spec_ops().len() as int) =~= old(self).spec_ops());
        }
    }

    /// Appends a descriptor-set bind starting at set zero.
    pub fn bind_descriptor_sets(&mut self, layout: u64, bind_point: BindPoint, sets: &Vec<u64>)
        requires
            old(self).recording(),
        ensures
            final(self).recording(),
            final(self).spec_ops().len() == old(self).spec_ops().len() + 1,
            final(self).spec_ops().drop_last() == old(self).spec_ops(),
            final(self).spec_ops().last() matches GpuOp::BindDescriptorSets {
                bind_point: bp,
                layout: l,
                sets: s,
            } && bp == bind_point && l == layout && s@ == sets@,
    {
        let copy = copy_handles(sets);
        self.ops.push(GpuOp::BindDescriptorSets { bind_point, layout, sets: copy });
        proof {
            assert(self.ops@.drop_last() =~= old(self).spec_ops());
        }
    }

    /// Appends a vertex-buffer bind.
    pub fn bind_vertex_buffer(&mut self, first_binding: u32, buffers: &Vec<u64>)
        requires
            old(self).recording(),
        ensures
            final(self).recording(),
            final(self).spec_ops().len() == old(self).spec_ops().len() + 1,
            final(self).spec_ops().drop_last() == old(self).spec_ops(),
            final(self).spec_ops().last() matches GpuOp::BindVertexBuffers {
                first_binding: fb,
                buffers: bs,
            } && fb == first_binding && bs@ == buffers@,
    {
        let copy = copy_handles(buffers);
        self.ops.push(GpuOp::BindVertexBuffers { first_binding, buffers: copy });
        proof {
            assert(self.ops@.drop_last() =~= old(self).spec_ops());
        }
    }

    /// Appends a draw.
    pub fn draw_vertices(
        &mut self,
        vertex_count: u32,
        first_vertex: u32,
        instance_count: u32,
        first_instance: u32,
    )
        requires
            old(self).recording(),
        ensures
            final(self).recording(),
            final(self).appended(
                old(self),
                GpuOp::DrawVertices { vertex_count, instance_count, first_vertex, first_instance },
            ),
    {
        self.ops.push(
            GpuOp::DrawVertices { vertex_count, instance_count, first_vertex, first_instance },
        );
    }

    /// Appends a compute dispatch of the given workgroup counts.
    pub fn dispatch_compute(&mut self, width: u32, height: u32, depth: u32)
        requires
            old(self).recording(),
        ensures
            final(self).recording(),
            final(self).appended(old(self), GpuOp::DispatchCompute { width, height, depth }),
    {
        self.ops.push(GpuOp::DispatchCompute { width, height, depth });
    }

    /// Appends a pipeline barrier over the buffer's whole backing range.
    pub fn buffer_resource_barrier(
        &mut self,
        buffer: &BufferResource,
        producer: u32,
        consumer: u32,
        source: u32,
        destination: u32,
    )
        requires
            old(self).recording(),
        ensures
            final(self).recording(),
            final(self).appended(
                old(self),
                GpuOp::BufferBarrier {
                    buffer: buffer.spec_handle(),
                    size: buffer.spec_size() as u64,
                    producer,
                    consumer,
                    source_access: source,
                    destination_access: destination,
                },
            ),
    {
        self.ops.push(
            GpuOp::BufferBarrier {
                buffer: buffer.handle(),
                size: buffer.size(),
                producer,
                consumer,
                source_access: source,
                destination_access: destination,
            },
        );
    }

    /// Appends a layout transition from the image's tracked layout to the
    /// given one, and retracks the image so later barriers are correct.
    pub fn image_resource_transition<I: ImageResource>(&mut self, image: &mut I, layout: u32)
        requires
            old(self).recording(),
        ensures
            final(self).recording(),
            final(self).appended(
                old(self),
                GpuOp::ImageTransition {
                    image: old(image).spec_handle(),
                    old_layout: old(image).spec_layout(),
                    new_layout: layout,
                },
            ),
            final(image).spec_layout() == layout,
            final(image).spec_handle() == old(image).spec_handle(),
            final(image).spec_width() == old(image).spec_width(),
            final(image).spec_height() == old(image).spec_height(),
            final(image).spec_depth() == old(image).spec_depth(),
            final(image).spec_format() == old(image).spec_format(),
            final(image).spec_view() == old(image).spec_view(),
    {
        self.ops.push(
            GpuOp::ImageTransition {
                image: image.handle(),
                old_layout: image.layout(),
                new_layout: layout,
            },
        );
        image.set_layout(layout);
    }

    /// Appends a layout transition of a bare image handle.
    pub fn color_image_transition(&mut self, image: u64, old_layout: u32, new_layout: u32)
        requires
            old(self).recording(),
        ensures
            final(self).recording(),
            final(self).appended(
                old(self),
                GpuOp::ImageTransition { image, old_layout, new_layout },
            ),
    {
        self.ops.push(GpuOp::ImageTransition { image, old_layout, new_layout });
    }

    /// Appends a whole-image blit from source to destination, each in its
    /// tracked layout.
    pub fn blit<I: ImageResource, J: ImageResource>(&mut self, source: &I, destination: &J)
        requires
            old(self).recording(),
        ensures
            final(self).recording(),
            final(self).appended(
                old(self),
                GpuOp::Blit {
                    source: source.spec_handle(),
                    source_layout: source.spec_layout(),
                    destination: destination.spec_handle(),
                    destination_layout: destination.spec_layout(),
                },
            ),
    {
        self.ops.push(
            GpuOp::Blit {
                source: source.handle(),
                source_layout: source.layout(),
                destination: destination.handle(),
                destination_layout: destination.layout(),
            },
        );
    }

    /// Appends a clear of the image to the color whose component bit
    /// patterns are given.
    pub fn clear_image<I: ImageResource>(
        &mut self,
        image: &I,
        red_bits: u32,
        green_bits: u32,
        blue_bits: u32,
        alpha_bits: u32,
    )
        requires
            old(self).recording(),
        ensures
            final(self).recording(),
            final(self).appended(
                old(self),
                GpuOp::ClearImage {
                    image: image.spec_handle(),
                    red_bits,
                    green_bits,
                    blue_bits,
                    alpha_bits,
                },
            ),
    {
        self.ops.push(
            GpuOp::ClearImage { image: image.handle(), red_bits, green_bits, blue_bits, alpha_bits },
        );
    }

    /// Appends a copy of the image's whole extent into the buffer.
    pub fn copy_image_to_buffer<I: ImageResource>(&mut self, image: &I, buffer: &BufferResource)
        requires
            old(self).recording(),
        ensures
            final(self).recording(),
            final(self).appended(
                old(self),
                GpuOp::CopyImageToBuffer {
                    image: image.spec_handle(),
                    image_layout: image.spec_layout(),
                    buffer: buffer.spec_handle(),
                    width: image.spec_width(),
                    height: image.spec_height(),
                    depth: image.spec_depth(),
                },
            ),
    {
        self.ops.push(
            GpuOp::CopyImageToBuffer {
                image: image.handle(),
                image_layout: image.layout(),
                buffer: buffer.handle(),
                width: image.width(),
                height: image.height(),
                depth: image.depth(),
            },
        );
    }

    /// Appends a copy of the buffer into the image's whole extent.
    pub fn copy_buffer_to_image<I: ImageResource>(&mut self, buffer: &BufferResource, image: &I)
        requires
            old(self).recording(),
        ensures
            final(self).recording(),
            final(self).appended(
                old(self),
                GpuOp::CopyBufferToImage {
                    buffer: buffer.spec_handle(),
                    image: image.spec_handle(),
                    image_layout: image.spec_layout(),
                    width: image.spec_width(),
                    height: image.spec_height(),
                    depth: image.spec_depth(),
                },
            ),
    {
        self.ops.push(
            GpuOp::CopyBufferToImage {
                buffer: buffer.handle(),
                image: image.handle(),
                image_layout: image.layout(),
                width: image.width(),
                height: image.height(),
                depth: image.depth(),
            },
        );
    }

    /// Appends a render-pass begin over the given render area.
    pub fn begin_render_pass(&mut self, render_pass: u64, framebuffer: u64, width: u32, height: u32)
        requires
            old(self).recording(),
        ensures
            final(self).recording(),
            final(self).appended(
                old(self),
                GpuOp::BeginRenderPass { render_pass, framebuffer, width, height },
            ),
    {
        self.ops.push(GpuOp::BeginRenderPass { render_pass, framebuffer, width, height });
    }

    /// Appends a render-pass end.
    pub fn end_render_pass(&mut self)
        requires
            old(self).recording(),
        ensures
            final(self).recording(),
            final(self).appended(old(self), GpuOp::EndRenderPass),
    {
        self.ops.push(GpuOp::EndRenderPass);
    }

    /// Appends a push-constant upload of the given bytes to the compute
    /// stage of the pipeline's layout.
    pub fn push_compute_constants(
        &mut self,
        pipeline: &ComputePipeline,
        offset: u32,
        constants: &[u8],
    )
        requires
            old(self).recording(),
        ensures
            final(self).recording(),
            final(self).spec_ops().len() == old(self).spec_ops().len() + 1,
            final(self).spec_ops().drop_last() == old(self).spec_ops(),
            final(self).spec_ops().last() matches GpuOp::PushConstants {
                layout,
                stage_flags,
                offset: o,
                bytes,
            } && layout == pipeline.spec_layout() && stage_flags == STAGE_COMPUTE && o == offset
                && bytes@ == constants@,
    {
        let bytes = copy_bytes(constants);
        self.ops.push(
            GpuOp::PushConstants {
                layout: pipeline.layout(),
                stage_flags: STAGE_COMPUTE,
                offset,
                bytes,
            },
        );
        proof {
            assert(self.ops@.drop_last() =~= old(self).spec_ops());
        }
    }

    /// Submits the recorded sequence: succeeds exactly once, surrendering
    /// the whole sequence for one enqueue and moving the recorder to
    /// `Submitted`. A second submission finds `Submitted`, returns
    /// `AlreadySubmitted` and hands nothing out; a never-begun recorder
    /// returns `NotRecorded`.
    pub fn submit(&mut self) -> (r: Result<SubmittedSequence, SubmitError>)
        ensures
            r is Ok <==> submittable(old(self).spec_state()),
            match r {
                Ok(seq) => final(self).spec_state() == RecorderState::Submitted && seq.spec_ops()
                    == old(self).spec_ops() && final(self).spec_ops() == Seq::<GpuOp>::empty(),
                Err(e) => *final(self) == *old(self) && (match e {
                    SubmitError::AlreadySubmitted => old(self).spec_state()
                        == RecorderState::Submitted,
                    SubmitError::NotRecorded => old(self).spec_state() == RecorderState::Idle,
                }),
            },
    {
        match self.state {
            RecorderState::Idle => Err(SubmitError::NotRecorded),
            RecorderState::Submitted => Err(SubmitError::AlreadySubmitted),
            _ => {
                self.state = RecorderState::Submitted;
                let mut ops: Vec<GpuOp> = Vec::new();
                core::mem::swap(&mut ops, &mut self.ops);
                Ok(SubmittedSequence { ops })
            },
        }
    }
}

/// Copies a handle list.
fn copy_handles(src: &Vec<u64>) -> (r: Vec<u64>)
    ensures
        r@ == src@,
{
    let n = src.len();
    let mut r: Vec<u64> = Vec::new();
    let mut i: usize = 0;
    while i < n
        invariant
            n == src@.len(),
            i <= n,
            r@ == src@.take(i as int),
        decreases n - i,
    {
        r.push(src[i]);
        proof {
            assert(r@ =~= src@.take(i + 1));
        }
        i = i + 1;
    }
    proof {
        assert(src@.take(n as int) =~= src@);
    }
    r
}

/// Copies a byte slice.
fn copy_bytes(src: &[u8]) -> (r: Vec<u8>)
    ensures
        r@ == src@,
{
    let n = src.len();
    let mut r: Vec<u8> = Vec::new();
    let mut i: usize = 0;
    while i < n
        invariant
            n == src@.len(),
            i <= n,
            r@ == src@.take(i as int),
        decreases n - i,
    {
        r.push(src[i]);
        proof {
            assert(r@ =~= src@.take(i + 1));
        }
        i = i + 1;
    }
    proof {
        assert(src@.take(n as int) =~= src@);
    }
    r
}

/// A command sequence cannot be submitted twice: a successful submission
/// leaves the recorder in `Submitted`, and from `Submitted` no submission is
/// ever accepted again, so `submit` then returns `AlreadySubmitted` and
/// performs no further hand-over of the sequence.
pub proof fn lemma_no_double_submission(cb: CommandBuffer)
    requires
        cb.spec_state() == RecorderState::Submitted,
    ensures
        !submittable(cb.spec_state()),
{
}

} // verus!
