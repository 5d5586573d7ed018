use gpukit::descriptor::{BindingSlots, PushConstantBlock, ReflectedBinding};
use gpukit::shader::{CompilationResult, ShaderReflection};

// A minimal compiled module, assembled by hand: two buffer variables, one
// per set. Set 0, binding 1 is a storage buffer; set 1, binding 0 is a
// uniform buffer.
fn sample_module_words() -> Vec<u32> {
    let mut w: Vec<u32> = Vec::new();
    // Header: magic, version 1.0, generator, id bound, schema.
    w.extend([0x0723_0203, 0x0001_0000, 0, 8, 0]);
    // OpCapability Shader
    w.extend([(2 << 16) | 17, 1]);
    // OpMemoryModel Logical GLSL450
    w.extend([(3 << 16) | 14, 0, 1]);
    // OpDecorate %2 BufferBlock
    w.extend([(3 << 16) | 71, 2, 3]);
    // OpDecorate %4 DescriptorSet 0
    w.extend([(4 << 16) | 71, 4, 34, 0]);
    // OpDecorate %4 Binding 1
    w.extend([(4 << 16) | 71, 4, 33, 1]);
    // OpDecorate %5 Block
    w.extend([(3 << 16) | 71, 5, 2]);
    // OpDecorate %7 DescriptorSet 1
    w.extend([(4 << 16) | 71, 7, 34, 1]);
    // OpDecorate %7 Binding 0
    w.extend([(4 << 16) | 71, 7, 33, 0]);
    // %1 = OpTypeInt 32 0
    w.extend([(4 << 16) | 21, 1, 32, 0]);
    // %2 = OpTypeStruct %1
    w.extend([(3 << 16) | 30, 2, 1]);
    // %3 = OpTypePointer Uniform %2
    w.extend([(4 << 16) | 32, 3, 2, 2]);
    // %4 = OpVariable %3 Uniform
    w.extend([(4 << 16) | 59, 3, 4, 2]);
    // %5 = OpTypeStruct %1
    w.extend([(3 << 16) | 30, 5, 1]);
    // %6 = OpTypePointer Uniform %5
    w.extend([(4 << 16) | 32, 6, 2, 5]);
    // %7 = OpVariable %6 Uniform
    w.extend([(4 << 16) | 59, 6, 7, 2]);
    w
}

// The same plain listing the driver-facing layer derives from the parser's
// answer before handing it to the library.
fn parse_bindings(code: &[u8]) -> Vec<ReflectedBinding> {
    let parsed = rspirv_reflect::Reflection::new_from_spirv(code).unwrap();
    let mut bindings = Vec::new();
    for (set, per_set) in parsed.get_descriptor_sets().unwrap() {
        for (binding, info) in per_set {
            let slots = match info.binding_count {
                rspirv_reflect::BindingCount::One => BindingSlots::Single,
                rspirv_reflect::BindingCount::StaticSized(n) => {
                    BindingSlots::Fixed(u32::try_from(n).unwrap_or(u32::MAX))
                }
                rspirv_reflect::BindingCount::Unbounded => BindingSlots::Unbounded,
            };
            bindings.push(ReflectedBinding { set, binding, kind_code: info.ty.0, slots });
        }
    }
    bindings
}

fn words_to_bytes(words: &[u32]) -> Vec<u8> {
    words.iter().flat_map(|w| w.to_le_bytes()).collect()
}

#[test]
fn the_parser_reports_the_declared_bindings() {
    let bindings = parse_bindings(&words_to_bytes(&sample_module_words()));
    assert_eq!(
        bindings,
        vec![
            ReflectedBinding { set: 0, binding: 1, kind_code: 7, slots: BindingSlots::Single },
            ReflectedBinding { set: 1, binding: 0, kind_code: 6, slots: BindingSlots::Single },
        ]
    );
}

#[test]
fn reflection_groups_parsed_bindings_by_set() {
    let bindings = parse_bindings(&words_to_bytes(&sample_module_words()));
    let reflection = ShaderReflection::new(bindings.clone(), None);
    assert_eq!(*reflection.bindings(), bindings);
    let sets = reflection.descriptor_sets();
    assert_eq!(sets.len(), 2);
    assert_eq!(sets[0].set, 0);
    assert_eq!(sets[0].bindings.len(), 1);
    assert_eq!(sets[0].bindings[0].binding, 1);
    assert_eq!(sets[1].set, 1);
    assert_eq!(sets[1].bindings.len(), 1);
    assert_eq!(sets[1].bindings[0].binding, 0);
}

#[test]
fn reflection_carries_the_push_constant_block() {
    let block = PushConstantBlock { offset: 0, size: 16 };
    let reflection = ShaderReflection::new(Vec::new(), Some(block));
    assert_eq!(reflection.push_constant_ranges(), Some(block));
    let none = ShaderReflection::new(Vec::new(), None);
    assert_eq!(none.push_constant_ranges(), None);
}

#[test]
fn malformed_bytes_are_rejected_at_the_boundary() {
    assert!(rspirv_reflect::Reflection::new_from_spirv(&[1, 2, 3]).is_err());
}

#[test]
fn a_failed_compilation_carries_its_diagnostic() {
    let result = CompilationResult::from_error(String::from("unexpected token"));
    assert!(result.failed());
    assert_eq!(result.error_string(), "unexpected token");
    assert!(!result.has_warnings());
}

#[test]
fn a_successful_compilation_carries_words_and_warnings() {
    let result = CompilationResult::from_spirv(vec![1, 2, 3], 2);
    assert!(!result.failed());
    assert_eq!(result.error_string(), "");
    assert!(result.has_warnings());
    assert_eq!(*result.spirv(), vec![1, 2, 3]);
}

#[test]
fn a_clean_compilation_has_no_warnings() {
    let result = CompilationResult::from_spirv(vec![1], 0);
    assert!(!result.has_warnings());
}
