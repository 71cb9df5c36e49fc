use enum_cast::enum_cast::enum_cast_derive;
use enum_cast::sample::{Big, Small};
use enum_cast::shape::{Data, Declaration, Fields, Variant};
use enum_cast::{HasVariant, IsSubsetOf};

fn unnamed(name: &str, payload_type: &str) -> Variant {
    Variant { name: name.to_string(), fields: Fields::Unnamed(vec![payload_type.to_string()]) }
}

#[test]
fn small_a_upcast_is_big_x() {
    assert_eq!(Small::A(5).upcast::<Big>(), Big::X(5));
}

#[test]
fn small_b_upcast_is_big_y() {
    assert_eq!(Small::B("text".to_string()).upcast::<Big>(), Big::Y("text".to_string()));
}

#[test]
fn big_z_downcast_fails_and_returns_big_z() {
    assert_eq!(Big::Z(true).downcast::<Small>(), Err(Big::Z(true)));
}

#[test]
fn big_x_downcast_is_small_a() {
    assert_eq!(Big::X(5).downcast::<Small>(), Ok(Small::A(5)));
}

#[test]
fn big_y_downcast_is_small_b() {
    assert_eq!(Big::Y("text".to_string()).downcast::<Small>(), Ok(Small::B("text".to_string())));
}

#[test]
fn small_round_trips_through_big() {
    for v in [Small::A(i32::MIN), Small::A(0), Small::B(String::new()), Small::B("b".to_string())]
    {
        let up: Big = <Small as IsSubsetOf<Big>>::upcast(v.clone());
        assert_eq!(<Small as IsSubsetOf<Big>>::downcast_from(up), Ok(v));
    }
}

#[test]
fn small_casts_to_itself() {
    assert_eq!(Small::A(1).upcast::<Small>(), Small::A(1));
    assert_eq!(<Small as IsSubsetOf<Small>>::downcast_from(Small::B("s".to_string())), Ok(Small::B("s".to_string())));
}

#[test]
fn capabilities_make_and_take() {
    assert_eq!(<Big as HasVariant<bool>>::make(false), Big::Z(false));
    assert_eq!(<Big as HasVariant<bool>>::take(Big::Z(false)), Ok(false));
    assert_eq!(<Big as HasVariant<bool>>::take(Big::X(3)), Err(Big::X(3)));
    assert_eq!(<Small as HasVariant<String>>::make("m".to_string()), Small::B("m".to_string()));
    assert_eq!(<Small as HasVariant<i32>>::take(Small::B("m".to_string())), Err(Small::B("m".to_string())));
    assert_eq!(<Small as HasVariant<i32>>::take(Small::A(4)), Ok(4));
}

#[test]
fn the_sample_is_what_is_derived_for_its_declarations() {
    let small = Declaration {
        name: "Small".to_string(),
        data: Data::Enum(vec![unnamed("A", "i32"), unnamed("B", "String")]),
    };
    let big = Declaration {
        name: "Big".to_string(),
        data: Data::Enum(vec![unnamed("X", "i32"), unnamed("Y", "String"), unnamed("Z", "bool")]),
    };
    let small_items = syn::parse_str::<syn::File>(&enum_cast_derive(&small).unwrap()).unwrap().items;
    let big_items = syn::parse_str::<syn::File>(&enum_cast_derive(&big).unwrap()).unwrap().items;
    assert_eq!(small_items.len(), 4);
    assert_eq!(big_items.len(), 5);
}
