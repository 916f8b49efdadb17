use ocio::{BitDepth, CPUProcessor, CpuEngine, CpuOp, DynamicProperty, DynamicPropertyType, OpsSummary};

fn summary(is_no_op: bool, crosstalk: bool, id: &str) -> OpsSummary {
    OpsSummary { is_no_op, has_channel_crosstalk: crosstalk, cache_id: id.to_string() }
}

fn op(props: Vec<DynamicProperty>) -> CpuOp {
    CpuOp { dynamic_properties: props }
}

fn prop(t: DynamicPropertyType, dynamic: bool, id: u64) -> DynamicProperty {
    DynamicProperty { property_type: t, is_dynamic: dynamic, id }
}

#[test]
fn new_processor_defaults() {
    let p = CPUProcessor::new();
    assert!(!p.is_no_op());
    assert!(!p.is_identity());
    assert!(p.has_channel_crosstalk());
    assert_eq!(p.get_cache_id(), "");
    assert_eq!(p.get_input_bit_depth(), BitDepth::F32);
    assert_eq!(p.get_output_bit_depth(), BitDepth::F32);
    assert!(!p.is_dynamic());
    assert!(!p.has_dynamic_property(DynamicPropertyType::Exposure));
}

#[test]
fn finalize_identity_with_different_depths_is_not_no_op() {
    let mut p = CPUProcessor::new();
    let engine = CpuEngine { in_bit_depth_op: None, cpu_ops: vec![], out_bit_depth_op: None };
    p.finalize(&summary(true, false, "abc"), engine, BitDepth::UInt8, BitDepth::F32, 5);
    assert!(p.is_identity());
    assert!(!p.is_no_op());
    assert!(!p.has_channel_crosstalk());
    assert_eq!(p.get_input_bit_depth(), BitDepth::UInt8);
    assert_eq!(p.get_output_bit_depth(), BitDepth::F32);
    assert_eq!(p.get_cache_id(), "CPU Processor: from UInt8 to F32 oFlags 5 ops: abc");
}

#[test]
fn finalize_identity_with_same_depths_is_no_op() {
    let mut p = CPUProcessor::new();
    let engine = CpuEngine { in_bit_depth_op: None, cpu_ops: vec![], out_bit_depth_op: None };
    p.finalize(&summary(true, true, ""), engine, BitDepth::F16, BitDepth::F16, 0);
    assert!(p.is_identity());
    assert!(p.is_no_op());
    assert_eq!(p.get_cache_id(), "CPU Processor: from F16 to F16 oFlags 0 ops: ");
}

#[test]
fn dynamic_properties_are_found_in_order() {
    let mut p = CPUProcessor::new();
    let engine = CpuEngine {
        in_bit_depth_op: Some(op(vec![prop(DynamicPropertyType::Gamma, false, 1)])),
        cpu_ops: vec![
            op(vec![]),
            op(vec![prop(DynamicPropertyType::Exposure, true, 2), prop(DynamicPropertyType::Contrast, true, 3)]),
            op(vec![prop(DynamicPropertyType::Exposure, true, 4)]),
        ],
        out_bit_depth_op: Some(op(vec![prop(DynamicPropertyType::Gamma, true, 5)])),
    };
    p.finalize(&summary(false, true, "x"), engine, BitDepth::F32, BitDepth::F32, 1);
    assert!(p.is_dynamic());
    assert!(p.has_dynamic_property(DynamicPropertyType::Exposure));
    assert_eq!(p.get_dynamic_property(DynamicPropertyType::Exposure).id, 2);
    assert_eq!(p.get_dynamic_property(DynamicPropertyType::Contrast).id, 3);
    assert_eq!(p.get_dynamic_property(DynamicPropertyType::Gamma).id, 5);
    assert!(!p.has_dynamic_property(DynamicPropertyType::GradingTone));
}

#[test]
fn non_dynamic_property_does_not_count() {
    let mut p = CPUProcessor::new();
    let engine = CpuEngine {
        in_bit_depth_op: None,
        cpu_ops: vec![op(vec![prop(DynamicPropertyType::Exposure, false, 1)])],
        out_bit_depth_op: None,
    };
    p.finalize(&summary(false, true, "x"), engine, BitDepth::F32, BitDepth::F32, 1);
    assert!(!p.is_dynamic());
    assert!(!p.has_dynamic_property(DynamicPropertyType::Exposure));
}
