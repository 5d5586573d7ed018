use gpukit::buffer::BufferResource;
use gpukit::image::{Image2DResource, ImageResource, LAYOUT_GENERAL, LAYOUT_TRANSFER_SRC_OPTIMAL};
use gpukit::memory::{MemoryType, MEMORY_DEVICE_LOCAL, MEMORY_HOST_VISIBLE};
use gpukit::pipeline::ComputePipeline;
use gpukit::recorder::{BindPoint, CommandBuffer, GpuOp, RecorderState, SubmitError};

fn host_buffer() -> BufferResource {
    let types = vec![MemoryType { property_flags: MEMORY_HOST_VISIBLE }];
    BufferResource::new(40, 16, 32, 0b1, &types, MEMORY_HOST_VISIBLE).unwrap()
}

fn storage_image() -> Image2DResource {
    let types = vec![MemoryType { property_flags: MEMORY_DEVICE_LOCAL }];
    Image2DResource::new_device_local_storage_image(50, 51, 64, 64, 37, 0b1, &types).unwrap()
}

fn pipeline() -> ComputePipeline {
    ComputePipeline::new(90, 91, Vec::new(), Vec::new())
}

#[test]
fn recorded_operations_keep_their_order_and_values() {
    let mut cb = CommandBuffer::new();
    cb.begin();
    cb.bind_pipeline(BindPoint::Compute, 90);
    cb.dispatch_compute(8, 4, 1);
    let seq = cb.submit().unwrap();
    let ops = seq.ops();
    assert_eq!(ops.len(), 2);
    assert!(matches!(
        ops[0],
        GpuOp::BindPipeline { bind_point: BindPoint::Compute, pipeline: 90 }
    ));
    assert!(matches!(
        ops[1],
        GpuOp::DispatchCompute { width: 8, height: 4, depth: 1 }
    ));
}

#[test]
fn a_sequence_cannot_be_submitted_twice() {
    let mut cb = CommandBuffer::new();
    cb.begin();
    cb.dispatch_compute(1, 1, 1);
    let first = cb.submit();
    assert!(first.is_ok());
    // The second attempt must not hand out any sequence to enqueue.
    let second = cb.submit();
    assert_eq!(second.err(), Some(SubmitError::AlreadySubmitted));
    let third = cb.submit();
    assert_eq!(third.err(), Some(SubmitError::AlreadySubmitted));
}

#[test]
fn a_fresh_recorder_cannot_be_submitted() {
    let mut cb = CommandBuffer::new();
    assert_eq!(cb.submit().err(), Some(SubmitError::NotRecorded));
}

#[test]
fn an_ended_sequence_still_submits_once() {
    let mut cb = CommandBuffer::new();
    cb.begin();
    cb.dispatch_compute(2, 2, 2);
    cb.end();
    let seq = cb.submit().unwrap();
    assert_eq!(seq.ops().len(), 1);
    assert_eq!(cb.submit().err(), Some(SubmitError::AlreadySubmitted));
}

#[test]
fn bind_compute_pipeline_records_bind_and_descriptor_sets() {
    let p = ComputePipeline::new(90, 91, vec![100, 101], Vec::new());
    let mut cb = CommandBuffer::new();
    cb.begin();
    cb.bind_compute_pipeline(&p);
    let seq = cb.submit().unwrap();
    let ops = seq.ops();
    assert_eq!(ops.len(), 2);
    assert!(matches!(
        ops[0],
        GpuOp::BindPipeline { bind_point: BindPoint::Compute, pipeline: 90 }
    ));
    match &ops[1] {
        GpuOp::BindDescriptorSets { bind_point, layout, sets } => {
            assert!(matches!(bind_point, BindPoint::Compute));
            assert_eq!(*layout, 91);
            assert_eq!(*sets, vec![100, 101]);
        }
        other => panic!("unexpected operation {:?}", other),
    }
}

#[test]
fn image_transition_records_the_old_layout_and_retracks_the_image() {
    let mut image = storage_image();
    let mut cb = CommandBuffer::new();
    cb.begin();
    cb.image_resource_transition(&mut image, LAYOUT_GENERAL);
    assert_eq!(image.layout(), LAYOUT_GENERAL);
    cb.image_resource_transition(&mut image, LAYOUT_TRANSFER_SRC_OPTIMAL);
    assert_eq!(image.layout(), LAYOUT_TRANSFER_SRC_OPTIMAL);
    let seq = cb.submit().unwrap();
    let ops = seq.ops();
    assert!(matches!(
        ops[0],
        GpuOp::ImageTransition { image: 50, old_layout: 0, new_layout: LAYOUT_GENERAL }
    ));
    assert!(matches!(
        ops[1],
        GpuOp::ImageTransition {
            image: 50,
            old_layout: LAYOUT_GENERAL,
            new_layout: LAYOUT_TRANSFER_SRC_OPTIMAL,
        }
    ));
}

#[test]
fn buffer_barrier_covers_the_whole_backing_range() {
    let buffer = host_buffer();
    let mut cb = CommandBuffer::new();
    cb.begin();
    cb.buffer_resource_barrier(&buffer, 0x1, 0x800, 0x40, 0x20);
    let seq = cb.submit().unwrap();
    assert!(matches!(
        seq.ops()[0],
        GpuOp::BufferBarrier {
            buffer: 40,
            size: 32,
            producer: 0x1,
            consumer: 0x800,
            source_access: 0x40,
            destination_access: 0x20,
        }
    ));
}

#[test]
fn copies_record_the_image_extent_and_layout() {
    let buffer = host_buffer();
    let image = storage_image();
    let mut cb = CommandBuffer::new();
    cb.begin();
    cb.copy_image_to_buffer(&image, &buffer);
    cb.copy_buffer_to_image(&buffer, &image);
    let seq = cb.submit().unwrap();
    assert!(matches!(
        seq.ops()[0],
        GpuOp::CopyImageToBuffer { image: 50, image_layout: 0, buffer: 40, width: 64, height: 64, depth: 1 }
    ));
    assert!(matches!(
        seq.ops()[1],
        GpuOp::CopyBufferToImage { buffer: 40, image: 50, image_layout: 0, width: 64, height: 64, depth: 1 }
    ));
}

#[test]
fn push_constants_record_the_bytes_and_compute_stage() {
    let p = pipeline();
    let mut cb = CommandBuffer::new();
    cb.begin();
    cb.push_compute_constants(&p, 4, &[1, 2, 3]);
    let seq = cb.submit().unwrap();
    match &seq.ops()[0] {
        GpuOp::PushConstants { layout, stage_flags, offset, bytes } => {
            assert_eq!(*layout, 91);
            assert_eq!(*stage_flags, 0x20);
            assert_eq!(*offset, 4);
            assert_eq!(*bytes, vec![1, 2, 3]);
        }
        other => panic!("unexpected operation {:?}", other),
    }
}

#[test]
fn submission_surrenders_the_recorded_sequence() {
    let mut cb = CommandBuffer::new();
    cb.begin();
    cb.draw_vertices(3, 0, 1, 0);
    cb.end_render_pass();
    let seq = cb.submit().unwrap();
    assert_eq!(seq.ops().len(), 2);
    assert!(matches!(seq.ops()[1], GpuOp::EndRenderPass));
}

#[test]
fn recorder_states_are_observable_through_transitions() {
    // Drawing the whole path: Idle -> Recording -> Ended -> Submitted.
    let mut cb = CommandBuffer::new();
    cb.begin();
    cb.begin_render_pass(70, 71, 640, 480);
    cb.bind_vertex_buffer(0, &vec![40]);
    cb.bind_descriptor_sets(91, BindPoint::Graphics, &vec![100]);
    cb.end();
    let seq = cb.submit().unwrap();
    let ops = seq.ops();
    assert!(matches!(
        ops[0],
        GpuOp::BeginRenderPass { render_pass: 70, framebuffer: 71, width: 640, height: 480 }
    ));
    match &ops[1] {
        GpuOp::BindVertexBuffers { first_binding, buffers } => {
            assert_eq!(*first_binding, 0);
            assert_eq!(*buffers, vec![40]);
        }
        other => panic!("unexpected operation {:?}", other),
    }
    match &ops[2] {
        GpuOp::BindDescriptorSets { bind_point, layout, sets } => {
            assert!(matches!(bind_point, BindPoint::Graphics));
            assert_eq!(*layout, 91);
            assert_eq!(*sets, vec![100]);
        }
        other => panic!("unexpected operation {:?}", other),
    }
    // The enum value for a submitted recorder exists and is comparable.
    assert_eq!(RecorderState::Submitted, RecorderState::Submitted);
}
