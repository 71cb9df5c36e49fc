use enum_cast::shape::{
    get_enum_variant_infos, Data, Declaration, Fields, ShapeError, Variant, VariantInfo,
};

fn unnamed(name: &str, types: &[&str]) -> Variant {
    Variant {
        name: name.to_string(),
        fields: Fields::Unnamed(types.iter().map(|t| t.to_string()).collect()),
    }
}

fn enumeration(name: &str, variants: Vec<Variant>) -> Declaration {
    Declaration { name: name.to_string(), data: Data::Enum(variants) }
}

fn info(name: &str, payload_type: &str) -> VariantInfo {
    VariantInfo { name: name.to_string(), payload_type: payload_type.to_string() }
}

#[test]
fn validator_lists_variants_in_declaration_order() {
    let big = enumeration(
        "Big",
        vec![unnamed("X", &["i32"]), unnamed("Y", &["String"]), unnamed("Z", &["bool"])],
    );
    assert_eq!(
        get_enum_variant_infos(&big),
        Ok(vec![info("X", "i32"), info("Y", "String"), info("Z", "bool")])
    );
}

#[test]
fn validator_is_deterministic() {
    let small = enumeration("Small", vec![unnamed("A", &["i32"]), unnamed("B", &["String"])]);
    assert_eq!(get_enum_variant_infos(&small), get_enum_variant_infos(&small));
}

#[test]
fn validator_leaves_the_declaration_alone() {
    let small = enumeration("Small", vec![unnamed("A", &["i32"]), unnamed("B", &["String"])]);
    let before = small.clone();
    let _ = get_enum_variant_infos(&small);
    assert_eq!(small, before);
}

#[test]
fn validator_accepts_an_enum_without_variants() {
    let never = enumeration("Never", vec![]);
    assert_eq!(get_enum_variant_infos(&never), Ok(vec![]));
}

#[test]
fn validator_keeps_variants_that_share_a_payload_type() {
    let twice = enumeration("Twice", vec![unnamed("A", &["u8"]), unnamed("B", &["u8"])]);
    assert_eq!(get_enum_variant_infos(&twice), Ok(vec![info("A", "u8"), info("B", "u8")]));
}

#[test]
fn validator_rejects_a_struct() {
    let decl = Declaration { name: "Point".to_string(), data: Data::Struct };
    assert_eq!(get_enum_variant_infos(&decl), Err(ShapeError::NotAnEnum));
}

#[test]
fn validator_rejects_a_union() {
    let decl = Declaration { name: "Bits".to_string(), data: Data::Union };
    assert_eq!(get_enum_variant_infos(&decl), Err(ShapeError::NotAnEnum));
}

#[test]
fn validator_rejects_a_variant_without_fields() {
    let decl = enumeration(
        "Mixed",
        vec![unnamed("A", &["i32"]), Variant { name: "B".to_string(), fields: Fields::Unit }],
    );
    assert_eq!(
        get_enum_variant_infos(&decl),
        Err(ShapeError::InvalidVariantShape { variant: 1 })
    );
}

#[test]
fn validator_rejects_a_variant_with_an_empty_field_list() {
    let decl = enumeration("Mixed", vec![unnamed("A", &[])]);
    assert_eq!(
        get_enum_variant_infos(&decl),
        Err(ShapeError::InvalidVariantShape { variant: 0 })
    );
}

#[test]
fn validator_rejects_a_variant_with_two_fields() {
    let decl = enumeration(
        "Mixed",
        vec![unnamed("A", &["i32"]), unnamed("B", &["u8"]), unnamed("C", &["i32", "bool"])],
    );
    assert_eq!(
        get_enum_variant_infos(&decl),
        Err(ShapeError::InvalidVariantShape { variant: 2 })
    );
}

#[test]
fn validator_rejects_a_variant_with_named_fields() {
    let decl = enumeration(
        "Mixed",
        vec![Variant { name: "A".to_string(), fields: Fields::Named }, unnamed("B", &["u8"])],
    );
    assert_eq!(
        get_enum_variant_infos(&decl),
        Err(ShapeError::InvalidVariantShape { variant: 0 })
    );
}

#[test]
fn validator_reports_the_first_offending_variant() {
    let decl = enumeration(
        "Mixed",
        vec![
            unnamed("A", &["i32"]),
            Variant { name: "B".to_string(), fields: Fields::Unit },
            unnamed("C", &["i32", "bool"]),
            Variant { name: "D".to_string(), fields: Fields::Named },
        ],
    );
    assert_eq!(
        get_enum_variant_infos(&decl),
        Err(ShapeError::InvalidVariantShape { variant: 1 })
    );
}

#[test]
fn diagnostics_name_the_rule_that_was_broken() {
    assert_eq!(ShapeError::NotAnEnum.message(), "EnumCast can only be derived for enums");
    assert_eq!(
        ShapeError::InvalidVariantShape { variant: 3 }.message(),
        "EnumCast can only be derived for enums with a single unnamed field in variants"
    );
}
