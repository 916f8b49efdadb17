use ocio::{Allocation, BitDepth, ColorSpace, ColorSpaceDirection, ReferenceSpaceType, Transform};

#[test]
fn create_gives_defaults() {
    let cs = ColorSpace::create();
    assert_eq!(cs.get_name(), "");
    assert_eq!(cs.get_family(), "");
    assert_eq!(cs.get_equality_group(), "");
    assert_eq!(cs.get_description(), "");
    assert_eq!(cs.get_encoding(), "");
    assert_eq!(cs.get_num_aliases(), 0);
    assert_eq!(cs.get_num_categories(), 0);
    assert_eq!(cs.get_bit_depth(), BitDepth::Unknown);
    assert!(!cs.is_data());
    assert_eq!(cs.get_reference_space_type(), ReferenceSpaceType::Scene);
    assert_eq!(cs.get_allocation(), Allocation::Uniform);
    assert_eq!(cs.get_allocation_num_vars(), 0);
    assert!(cs.get_transform(ColorSpaceDirection::ToReference).is_none());
    assert!(cs.get_transform(ColorSpaceDirection::FromReference).is_none());
}

#[test]
fn create_with_display_reference() {
    let cs = ColorSpace::create_with_reference_space(ReferenceSpaceType::Display);
    assert_eq!(cs.get_reference_space_type(), ReferenceSpaceType::Display);
}

#[test]
fn setters_read_back() {
    let mut cs = ColorSpace::create();
    cs.set_name("lin");
    cs.set_family("family");
    cs.set_equality_group("group");
    cs.set_description("desc");
    cs.set_encoding("scene-linear");
    cs.set_bit_depth(BitDepth::F16);
    cs.set_is_data(true);
    cs.set_allocation(Allocation::Lg2);
    assert_eq!(cs.get_name(), "lin");
    assert_eq!(cs.get_family(), "family");
    assert_eq!(cs.get_equality_group(), "group");
    assert_eq!(cs.get_description(), "desc");
    assert_eq!(cs.get_encoding(), "scene-linear");
    assert_eq!(cs.get_bit_depth(), BitDepth::F16);
    assert!(cs.is_data());
    assert_eq!(cs.get_allocation(), Allocation::Lg2);
}

#[test]
fn aliases_add_skip_name_and_duplicates() {
    let mut cs = ColorSpace::create();
    cs.set_name("lin");
    cs.add_alias("a");
    cs.add_alias("b");
    cs.add_alias("a");
    cs.add_alias("lin");
    assert_eq!(cs.get_num_aliases(), 2);
    assert_eq!(cs.get_alias(0), "a");
    assert_eq!(cs.get_alias(1), "b");
    assert_eq!(cs.get_alias(2), "");
}

#[test]
fn set_name_drops_matching_alias() {
    let mut cs = ColorSpace::create();
    cs.add_alias("a");
    cs.add_alias("b");
    cs.set_name("a");
    assert_eq!(cs.get_num_aliases(), 1);
    assert_eq!(cs.get_alias(0), "b");
    assert_eq!(cs.get_name(), "a");
}

#[test]
fn has_alias_ignores_ascii_case() {
    let mut cs = ColorSpace::create();
    cs.add_alias("ACEScg");
    assert!(cs.has_alias("acescg"));
    assert!(cs.has_alias("ACESCG"));
    assert!(!cs.has_alias("aces"));
}

#[test]
fn remove_and_clear_aliases() {
    let mut cs = ColorSpace::create();
    cs.add_alias("a");
    cs.add_alias("b");
    cs.remove_alias("A");
    assert_eq!(cs.get_num_aliases(), 2);
    cs.remove_alias("a");
    assert_eq!(cs.get_num_aliases(), 1);
    assert_eq!(cs.get_alias(0), "b");
    cs.clear_aliases();
    assert_eq!(cs.get_num_aliases(), 0);
}

#[test]
fn add_then_remove_alias_restores() {
    let mut cs = ColorSpace::create();
    cs.add_alias("x");
    cs.add_alias("y");
    cs.remove_alias("y");
    assert_eq!(cs.get_num_aliases(), 1);
    assert_eq!(cs.get_alias(0), "x");
}

#[test]
fn categories_are_case_insensitive_tokens() {
    let mut cs = ColorSpace::create();
    cs.add_category("file-io");
    cs.add_category("FILE-IO");
    cs.add_category("");
    cs.add_category("working-space");
    assert_eq!(cs.get_num_categories(), 2);
    assert!(cs.has_category("File-IO"));
    assert!(!cs.has_category(""));
    assert_eq!(cs.get_category(0), "file-io");
    assert_eq!(cs.get_category(1), "working-space");
    assert_eq!(cs.get_category(2), "");
    cs.remove_category("WORKING-space");
    assert_eq!(cs.get_num_categories(), 1);
    assert!(!cs.has_category("working-space"));
    cs.clear_categories();
    assert_eq!(cs.get_num_categories(), 0);
}

#[test]
fn allocation_vars_round_trip() {
    let mut cs = ColorSpace::create();
    let vars = [0.0f32.to_bits(), 1.5f32.to_bits()];
    cs.set_allocation_vars(&vars);
    assert_eq!(cs.get_allocation_num_vars(), 2);
    assert_eq!(cs.get_allocation_vars(), vec![0.0f32.to_bits(), 1.5f32.to_bits()]);
}

#[test]
fn transforms_per_direction() {
    let mut cs = ColorSpace::create();
    cs.set_transform(Some(Transform { id: 7, text: "T".to_string() }), ColorSpaceDirection::ToReference);
    let t = cs.get_transform(ColorSpaceDirection::ToReference).unwrap();
    assert_eq!(t.id, 7);
    assert_eq!(t.text, "T");
    assert!(cs.get_transform(ColorSpaceDirection::FromReference).is_none());
    cs.set_transform(None, ColorSpaceDirection::ToReference);
    assert!(cs.get_transform(ColorSpaceDirection::ToReference).is_none());
}

#[test]
fn editable_copy_is_equal_and_independent() {
    let mut cs = ColorSpace::create();
    cs.set_name("lin");
    cs.add_alias("a");
    cs.add_category("c");
    let mut copy = cs.create_editable_copy();
    assert_eq!(copy.get_name(), "lin");
    assert_eq!(copy.get_alias(0), "a");
    assert_eq!(copy.get_category(0), "c");
    copy.set_name("other");
    assert_eq!(cs.get_name(), "lin");
}

#[test]
fn describe_minimal() {
    let mut cs = ColorSpace::create();
    cs.set_name("lin");
    assert_eq!(cs.describe(&vec![]), "<ColorSpace referenceSpaceType=Scene, name=lin, isData=false>");
}

#[test]
fn describe_single_alias() {
    let mut cs = ColorSpace::create_with_reference_space(ReferenceSpaceType::Display);
    cs.set_name("srgb");
    cs.add_alias("sRGB - Display");
    assert_eq!(
        cs.describe(&vec![]),
        "<ColorSpace referenceSpaceType=Display, name=srgb, alias=sRGB - Display, isData=false>"
    );
}

#[test]
fn describe_everything() {
    let mut cs = ColorSpace::create();
    cs.set_name("lin");
    cs.add_alias("a");
    cs.add_alias("b");
    cs.set_family("f");
    cs.set_equality_group("g");
    cs.set_bit_depth(BitDepth::F32);
    cs.set_is_data(true);
    cs.set_allocation(Allocation::Lg2);
    cs.set_allocation_vars(&[0.0f32.to_bits(), 1.0f32.to_bits()]);
    cs.add_category("x");
    cs.add_category("y");
    cs.set_encoding("scene-linear");
    cs.set_description("d");
    cs.set_transform(Some(Transform { id: 1, text: "T1".to_string() }), ColorSpaceDirection::ToReference);
    cs.set_transform(Some(Transform { id: 2, text: "T2".to_string() }), ColorSpaceDirection::FromReference);
    let texts: Vec<String> = cs.get_allocation_vars().iter().map(|b| f32::from_bits(*b).to_string()).collect();
    assert_eq!(
        cs.describe(&texts),
        "<ColorSpace referenceSpaceType=Scene, name=lin, aliases=[a, b], family=f, equalityGroup=g, \
bitDepth=F32, isData=true, allocation=Lg2, vars=0 1, categories=x,y, encoding=scene-linear, description=d,\n    \
lin --> Reference\n        T1,\n    Reference --> lin\n        T2>"
    );
}
