use enum_cast::enum_cast::enum_cast_derive;
use enum_cast::enum_variant_ids::enum_variant_ids_derive;
use enum_cast::shape::{
    get_enum_variant_infos, Data, Declaration, Fields, ShapeError, Variant, VariantInfo,
};
use quote::ToTokens;
use syn::DeriveInput;

/// The description of a declaration written as source.
fn declaration(source: &str) -> Declaration {
    let input = syn::parse_str::<DeriveInput>(source).expect("the source is a declaration");
    let data = match &input.data {
        syn::Data::Struct(_) => Data::Struct,
        syn::Data::Union(_) => Data::Union,
        syn::Data::Enum(data_enum) => Data::Enum(
            data_enum
                .variants
                .iter()
                .map(|variant| Variant {
                    name: variant.ident.to_string(),
                    fields: match &variant.fields {
                        syn::Fields::Named(_) => Fields::Named,
                        syn::Fields::Unit => Fields::Unit,
                        syn::Fields::Unnamed(fields) => Fields::Unnamed(
                            fields
                                .unnamed
                                .iter()
                                .map(|field| field.ty.to_token_stream().to_string())
                                .collect(),
                        ),
                    },
                })
                .collect(),
        ),
    };
    Declaration { name: input.ident.to_string(), data }
}

fn impls(text: &str) -> Vec<syn::ItemImpl> {
    let file = syn::parse_str::<syn::File>(text).expect("the derived code is a sequence of items");
    file.items
        .into_iter()
        .map(|item| match item {
            syn::Item::Impl(item) => item,
            other => panic!("not an impl: {}", other.to_token_stream()),
        })
        .collect()
}

fn printed(tokens: impl ToTokens) -> String {
    tokens.to_token_stream().to_string()
}

#[test]
fn variant_infos_of_a_parsed_enum() {
    let decl = declaration("enum Animal { Cat(Cat), Dog(Dog), Capybara(Capybara), Elephant(Elephant) }");
    let infos = get_enum_variant_infos(&decl).unwrap();
    let names: Vec<&str> = infos.iter().map(|info| info.name.as_str()).collect();
    let types: Vec<&str> = infos.iter().map(|info| info.payload_type.as_str()).collect();
    assert_eq!(names, ["Cat", "Dog", "Capybara", "Elephant"]);
    assert_eq!(types, ["Cat", "Dog", "Capybara", "Elephant"]);
}

#[test]
fn a_parsed_struct_is_not_an_enum() {
    for source in ["struct Point { x: i32, y: i32 }", "struct Unit;", "struct Pair(i32, i32);"] {
        let decl = declaration(source);
        assert_eq!(get_enum_variant_infos(&decl), Err(ShapeError::NotAnEnum));
        assert_eq!(enum_cast_derive(&decl), Err(ShapeError::NotAnEnum));
        assert_eq!(enum_variant_ids_derive(&decl), Err(ShapeError::NotAnEnum));
    }
}

#[test]
fn a_parsed_union_is_not_an_enum() {
    let decl = declaration("union Bits { int: u32, float: f32 }");
    assert_eq!(get_enum_variant_infos(&decl), Err(ShapeError::NotAnEnum));
}

#[test]
fn a_parsed_variant_without_fields_has_the_wrong_shape() {
    let decl = declaration("enum Mixed { A(i32), B, C(bool) }");
    assert_eq!(
        get_enum_variant_infos(&decl),
        Err(ShapeError::InvalidVariantShape { variant: 1 })
    );
    let decl = declaration("enum Mixed { A(), B(i32) }");
    assert_eq!(
        get_enum_variant_infos(&decl),
        Err(ShapeError::InvalidVariantShape { variant: 0 })
    );
}

#[test]
fn a_parsed_variant_with_named_or_several_fields_has_the_wrong_shape() {
    let decl = declaration("enum Mixed { A(i32), B(u8), C { c: bool } }");
    assert_eq!(
        get_enum_variant_infos(&decl),
        Err(ShapeError::InvalidVariantShape { variant: 2 })
    );
    let decl = declaration("enum Mixed { A(i32, i32), B { b: bool } }");
    assert_eq!(
        get_enum_variant_infos(&decl),
        Err(ShapeError::InvalidVariantShape { variant: 0 })
    );
}

#[test]
fn payload_types_are_carried_through_as_written() {
    let decl = declaration(
        "enum Wide { Map(std::collections::HashMap<String, Vec<u8>>), Text(&'static str), Pair((u8, bool)) }",
    );
    let infos = get_enum_variant_infos(&decl).unwrap();
    let expected = ["std::collections::HashMap<String, Vec<u8>>", "&'static str", "(u8, bool)"];
    for (info, expected) in infos.iter().zip(expected) {
        let ty = syn::parse_str::<syn::Type>(&info.payload_type).unwrap();
        assert_eq!(printed(ty), printed(syn::parse_str::<syn::Type>(expected).unwrap()));
    }
    let derived = impls(&enum_cast_derive(&decl).unwrap());
    assert_eq!(derived.len(), 5);
    for (item, expected) in derived.iter().zip(expected) {
        let (_, path, _) = item.trait_.as_ref().unwrap();
        let expected = format!("::enum_cast::HasVariant<{}>", expected);
        assert_eq!(printed(path), printed(syn::parse_str::<syn::Path>(&expected).unwrap()));
    }
}

#[test]
fn derived_code_for_a_parsed_enum() {
    let decl = declaration("enum DomesticAnimal { DomesticCat(Cat), DomesticDog(Dog) }");
    let derived = impls(&enum_cast_derive(&decl).unwrap());
    assert_eq!(derived.len(), 4);
    let subject: Vec<String> = derived.iter().map(|item| printed(&item.self_ty)).collect();
    assert_eq!(subject, ["DomesticAnimal"; 4]);
    let traits: Vec<String> = derived
        .iter()
        .map(|item| item.trait_.as_ref().map(|(_, path, _)| printed(path)).unwrap_or_default())
        .collect();
    assert_eq!(
        traits,
        [
            printed(syn::parse_str::<syn::Path>("::enum_cast::HasVariant<Cat>").unwrap()),
            printed(syn::parse_str::<syn::Path>("::enum_cast::HasVariant<Dog>").unwrap()),
            printed(syn::parse_str::<syn::Path>("::enum_cast::IsSubsetOf<Other>").unwrap()),
            String::new(),
        ]
    );
    let methods: Vec<Vec<String>> = derived
        .iter()
        .map(|item| {
            item.items
                .iter()
                .map(|member| match member {
                    syn::ImplItem::Fn(method) => method.sig.ident.to_string(),
                    other => panic!("not a method: {}", other.to_token_stream()),
                })
                .collect()
        })
        .collect();
    assert_eq!(
        methods,
        [["make", "take"], ["make", "take"], ["upcast", "downcast_from"], ["upcast", "downcast"]]
    );
}

#[test]
fn derived_identity_for_a_parsed_enum() {
    let decl = declaration("enum DomesticAnimal { DomesticCat(Cat), DomesticDog(Dog) }");
    let derived = impls(&enum_variant_ids_derive(&decl).unwrap());
    assert_eq!(derived.len(), 1);
    let members: Vec<String> = derived[0]
        .items
        .iter()
        .map(|member| match member {
            syn::ImplItem::Fn(method) => method.sig.ident.to_string(),
            syn::ImplItem::Const(constant) => constant.ident.to_string(),
            other => panic!("neither a method nor a constant: {}", other.to_token_stream()),
        })
        .collect();
    assert_eq!(members, ["VARIANT_TYPE_IDS", "current_variant_id"]);
    match &derived[0].items[0] {
        syn::ImplItem::Const(constant) => match &constant.expr {
            syn::Expr::Reference(reference) => match &*reference.expr {
                syn::Expr::Array(array) => assert_eq!(array.elems.len(), 2),
                other => panic!("not an array: {}", other.to_token_stream()),
            },
            other => panic!("not a reference: {}", other.to_token_stream()),
        },
        other => panic!("not a constant: {}", other.to_token_stream()),
    }
}

#[test]
fn variants_that_share_a_payload_type_each_get_their_implementation() {
    let decl = declaration("enum Twice { A(u8), B(u8) }");
    assert_eq!(
        get_enum_variant_infos(&decl),
        Ok(vec![
            VariantInfo { name: "A".to_string(), payload_type: "u8".to_string() },
            VariantInfo { name: "B".to_string(), payload_type: "u8".to_string() },
        ])
    );
    let derived = impls(&enum_cast_derive(&decl).unwrap());
    assert_eq!(derived.len(), 4);
    let capability = printed(syn::parse_str::<syn::Path>("::enum_cast::HasVariant<u8>").unwrap());
    for item in &derived[..2] {
        assert_eq!(printed(&item.trait_.as_ref().unwrap().1), capability);
    }
}
