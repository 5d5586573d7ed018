use gpukit::descriptor::{
    kind_code, kind_from_code, layout_binding_of, slot_count, BindingSlots, DescriptorKind,
    LayoutBinding, PushConstantBlock, ReflectedBinding, STAGE_COMPUTE,
};
use gpukit::layout::{
    flatten_bindings, group_reflected, merge_explicit, plan_compute_pipeline, pool_sizes,
    PlanError, PoolSize, SetBindings,
};

fn rb(set: u32, binding: u32, kind_code: u32, slots: BindingSlots) -> ReflectedBinding {
    ReflectedBinding { set, binding, kind_code, slots }
}

fn lb(binding: u32, kind: DescriptorKind, count: u32) -> LayoutBinding {
    LayoutBinding { binding, kind, count, stage_flags: STAGE_COMPUTE }
}

#[test]
fn kind_codes_round_trip() {
    for code in [0u32, 1, 2, 3, 4, 5, 6, 7, 8, 9, 10, 1000138000, 1000150000, 1000165000] {
        assert_eq!(kind_code(kind_from_code(code)), code);
    }
}

#[test]
fn unknown_kind_code_falls_back_to_sampler() {
    assert_eq!(kind_from_code(99), DescriptorKind::Sampler);
}

#[test]
fn slot_counts_use_the_zero_sentinel_for_unbounded() {
    assert_eq!(slot_count(BindingSlots::Single), 1);
    assert_eq!(slot_count(BindingSlots::Fixed(5)), 5);
    assert_eq!(slot_count(BindingSlots::Unbounded), 0);
}

#[test]
fn conversion_carries_index_kind_count_and_stage() {
    let b = layout_binding_of(&rb(0, 3, 7, BindingSlots::Fixed(4)), STAGE_COMPUTE);
    assert_eq!(b, lb(3, DescriptorKind::StorageBuffer, 4));
}

#[test]
fn grouping_two_sets_keeps_exactly_the_declared_bindings() {
    // Fabricated reflection over sets {0, 1} with known kinds and counts.
    let reflected = vec![
        rb(0, 0, 7, BindingSlots::Single),
        rb(0, 1, 3, BindingSlots::Single),
        rb(1, 0, 6, BindingSlots::Fixed(2)),
        rb(1, 2, 7, BindingSlots::Single),
    ];
    let sets = group_reflected(&reflected, STAGE_COMPUTE);
    assert_eq!(sets.len(), 2);
    assert_eq!(sets[0].set, 0);
    assert_eq!(
        sets[0].bindings,
        vec![lb(0, DescriptorKind::StorageBuffer, 1), lb(1, DescriptorKind::StorageImage, 1)]
    );
    assert_eq!(sets[1].set, 1);
    assert_eq!(
        sets[1].bindings,
        vec![lb(0, DescriptorKind::UniformBuffer, 2), lb(2, DescriptorKind::StorageBuffer, 1)]
    );
}

#[test]
fn pool_totals_group_descriptor_counts_by_kind_across_sets() {
    let reflected = vec![
        rb(0, 0, 7, BindingSlots::Single),
        rb(0, 1, 3, BindingSlots::Single),
        rb(1, 0, 6, BindingSlots::Fixed(2)),
        rb(1, 2, 7, BindingSlots::Fixed(3)),
    ];
    let sets = group_reflected(&reflected, STAGE_COMPUTE);
    let flat = flatten_bindings(&sets);
    let ps = pool_sizes(&flat, 1).unwrap();
    // Storage images: 1; uniform buffers: 2; storage buffers: 1 + 3 = 4.
    assert_eq!(
        ps,
        vec![
            PoolSize { kind: DescriptorKind::StorageImage, count: 1 },
            PoolSize { kind: DescriptorKind::UniformBuffer, count: 2 },
            PoolSize { kind: DescriptorKind::StorageBuffer, count: 4 },
        ]
    );
}

#[test]
fn unbounded_bindings_contribute_the_pool_cap() {
    let flat = vec![lb(0, DescriptorKind::StorageBuffer, 0), lb(1, DescriptorKind::StorageBuffer, 2)];
    let ps = pool_sizes(&flat, 64).unwrap();
    assert_eq!(ps, vec![PoolSize { kind: DescriptorKind::StorageBuffer, count: 66 }]);
}

#[test]
fn pool_sizing_rejects_totals_beyond_the_count_width() {
    let flat = vec![
        lb(0, DescriptorKind::StorageBuffer, u32::MAX),
        lb(1, DescriptorKind::StorageBuffer, 1),
    ];
    assert_eq!(pool_sizes(&flat, 0), Err(PlanError::PoolSizeOverflow));
}

#[test]
fn explicit_bindings_for_a_new_set_appear_verbatim() {
    let reflected = vec![rb(0, 0, 7, BindingSlots::Single)];
    let grouped = group_reflected(&reflected, STAGE_COMPUTE);
    let explicit = vec![SetBindings {
        set: 1,
        bindings: vec![lb(4, DescriptorKind::Sampler, 1), lb(5, DescriptorKind::SampledImage, 2)],
    }];
    let merged = merge_explicit(grouped, &explicit);
    assert_eq!(merged.len(), 2);
    assert_eq!(merged[1].set, 1);
    assert_eq!(merged[1].bindings, explicit[0].bindings);
}

#[test]
fn explicit_bindings_for_an_existing_set_are_appended_not_replaced() {
    let reflected = vec![rb(0, 0, 7, BindingSlots::Single), rb(0, 1, 3, BindingSlots::Single)];
    let grouped = group_reflected(&reflected, STAGE_COMPUTE);
    let explicit = vec![SetBindings { set: 0, bindings: vec![lb(9, DescriptorKind::Sampler, 1)] }];
    let merged = merge_explicit(grouped, &explicit);
    assert_eq!(merged.len(), 1);
    assert_eq!(
        merged[0].bindings,
        vec![
            lb(0, DescriptorKind::StorageBuffer, 1),
            lb(1, DescriptorKind::StorageImage, 1),
            lb(9, DescriptorKind::Sampler, 1),
        ]
    );
}

#[test]
fn plan_assembles_sets_pool_headroom_and_push_constants() {
    let reflected = vec![
        rb(0, 0, 7, BindingSlots::Single),
        rb(1, 0, 6, BindingSlots::Single),
    ];
    let plan = plan_compute_pipeline(
        &reflected,
        None,
        Some(PushConstantBlock { offset: 0, size: 16 }),
        3,
        1,
    )
    .unwrap();
    assert_eq!(plan.set_bindings.len(), 2);
    assert_eq!(plan.set_bindings[0].set, 0);
    assert_eq!(plan.set_bindings[1].set, 1);
    assert_eq!(plan.max_sets, 6);
    assert_eq!(plan.push_constant_ranges.len(), 1);
    assert_eq!(plan.push_constant_ranges[0].offset, 0);
    assert_eq!(plan.push_constant_ranges[0].size, 16);
    assert_eq!(plan.push_constant_ranges[0].stage_flags, STAGE_COMPUTE);
    assert_eq!(
        plan.pool_sizes,
        vec![
            PoolSize { kind: DescriptorKind::UniformBuffer, count: 1 },
            PoolSize { kind: DescriptorKind::StorageBuffer, count: 1 },
        ]
    );
}

#[test]
fn plan_merges_explicit_bindings_into_the_layout() {
    let reflected = vec![rb(0, 0, 7, BindingSlots::Single)];
    let explicit = vec![SetBindings { set: 1, bindings: vec![lb(0, DescriptorKind::Sampler, 1)] }];
    let plan = plan_compute_pipeline(&reflected, Some(&explicit), None, 1, 1).unwrap();
    assert_eq!(plan.set_bindings.len(), 2);
    assert_eq!(plan.set_bindings[1].bindings, explicit[0].bindings);
    assert!(plan.push_constant_ranges.is_empty());
}

#[test]
fn plan_rejects_gapped_set_indices() {
    let reflected = vec![rb(0, 0, 7, BindingSlots::Single), rb(2, 0, 7, BindingSlots::Single)];
    let r = plan_compute_pipeline(&reflected, None, None, 1, 1);
    assert_eq!(r.err(), Some(PlanError::NonDenseSetIndices));
}

#[test]
fn plan_rejects_headroom_beyond_the_count_width() {
    let reflected = vec![rb(0, 0, 7, BindingSlots::Single), rb(1, 0, 7, BindingSlots::Single)];
    let r = plan_compute_pipeline(&reflected, None, None, u32::MAX, 1);
    assert_eq!(r.err(), Some(PlanError::MaxSetsOverflow));
}
