//! The code derived for variant identity, and what it does.
//!
//! The derived code lists the identifier of each variant's payload type and
//! tells the identifier of the active variant's. For a described enum the
//! identifier of a payload type is its text: two payload types are the same
//! exactly when their texts are equal.

use crate::casting::{payload_types, EnumValue};
use crate::shape::{
    get_enum_variant_infos, infos_view, variant_infos, Declaration, ShapeError, VariantInfo,
    VariantInfoSpec,
};
use vstd::prelude::*;

verus! {

/// The identifier of one payload type, made from the type alone.
pub open spec fn type_id_text(payload_type: Seq<char>) -> Seq<char> {
    "::enum_cast::ConstTypeId::of::< "@ + payload_type + " >()"@
}

/// The entries of the identifier list for the first `n` variants, in
/// declaration order.
pub open spec fn type_ids_text(infos: Seq<VariantInfoSpec>, n: int) -> Seq<char>
    decreases n,
{
    if n <= 0 {
        Seq::empty()
    } else {
        type_ids_text(infos, n - 1) + type_id_text(infos[n - 1].payload_type) + ", "@
    }
}

/// The match arm that gives the identifier of one variant's payload type.
pub open spec fn current_id_arm_text(enum_name: Seq<char>, info: VariantInfoSpec) -> Seq<char> {
    enum_name + " :: "@ + info.name + " (_) => "@ + type_id_text(info.payload_type) + ", "@
}

/// The match arms for the first `n` variants, in declaration order.
pub open spec fn current_id_arms_text(
    enum_name: Seq<char>,
    infos: Seq<VariantInfoSpec>,
    n: int,
) -> Seq<char>
    decreases n,
{
    if n <= 0 {
        Seq::empty()
    } else {
        current_id_arms_text(enum_name, infos, n - 1) + current_id_arm_text(
            enum_name,
            infos[n - 1],
        )
    }
}

/// The implementation of `EnumVariantIds`: the list of the payload types'
/// identifiers, and the method that matches on the active variant.
pub open spec fn enum_variant_ids_impl_text(
    enum_name: Seq<char>,
    infos: Seq<VariantInfoSpec>,
) -> Seq<char> {
    "impl ::enum_cast::EnumVariantIds for "@ + enum_name
        + " { const VARIANT_TYPE_IDS: &'static [::enum_cast::ConstTypeId] = &[ "@ + type_ids_text(
        infos,
        infos.len() as int,
    ) + "]; fn current_variant_id(&self) -> ::enum_cast::ConstTypeId { match self { "@
        + current_id_arms_text(enum_name, infos, infos.len() as int) + "} } }"@
}

/// Writes the identifier of one payload type.
fn type_id(payload_type: &str) -> (out: String)
    ensures
        out@ == type_id_text(payload_type@),
{
    let mut out = String::from_str("::enum_cast::ConstTypeId::of::< ");
    out.append(payload_type);
    out.append(" >()");
    out
}

/// Writes the entries of the identifier list: one per variant, in
/// declaration order.
fn type_ids(variant_info: &[VariantInfo]) -> (out: String)
    ensures
        out@ == type_ids_text(infos_view(variant_info@), variant_info@.len() as int),
{
    let ghost infos = infos_view(variant_info@);
    let mut out = String::new();
    let mut i: usize = 0;
    while i < variant_info.len()
        invariant
            i <= variant_info.len(),
            infos == infos_view(variant_info@),
            out@ == type_ids_text(infos, i as int),
        decreases variant_info.len() - i,
    {
        let next = type_id(variant_info[i].payload_type.as_str());
        out.append(next.as_str());
        out.append(", ");
        i += 1;
    }
    out
}

/// Writes the match arm that gives the identifier for one variant.
fn current_id_arm(enum_name: &str, info: &VariantInfo) -> (out: String)
    ensures
        out@ == current_id_arm_text(enum_name@, info@),
{
    let id = type_id(info.payload_type.as_str());
    let mut out = String::from_str(enum_name);
    out.append(" :: ");
    out.append(info.name.as_str());
    out.append(" (_) => ");
    out.append(id.as_str());
    out.append(", ");
    out
}

/// Writes the match arms of `current_variant_id`: one per variant, in
/// declaration order.
fn current_id_arms(enum_name: &str, variant_info: &[VariantInfo]) -> (out: String)
    ensures
        out@ == current_id_arms_text(
            enum_name@,
            infos_view(variant_info@),
            variant_info@.len() as int,
        ),
{
    let ghost infos = infos_view(variant_info@);
    let mut out = String::new();
    let mut i: usize = 0;
    while i < variant_info.len()
        invariant
            i <= variant_info.len(),
            infos == infos_view(variant_info@),
            out@ == current_id_arms_text(enum_name@, infos, i as int),
        decreases variant_info.len() - i,
    {
        let next = current_id_arm(enum_name, &variant_info[i]);
        out.append(next.as_str());
        i += 1;
    }
    out
}

/// Writes the implementation of `EnumVariantIds`: one identifier per
/// variant in declaration order, and one match arm per variant that gives
/// the identifier of its payload type.
pub fn derive_enum_variant_ids_impl(enum_name: &str, variant_info: &[VariantInfo]) -> (out: String)
    ensures
        out@ == enum_variant_ids_impl_text(enum_name@, infos_view(variant_info@)),
{
    let variant_type_ids = type_ids(variant_info);
    let current_variant_id_arms = current_id_arms(enum_name, variant_info);
    let mut out = String::from_str("impl ::enum_cast::EnumVariantIds for ");
    out.append(enum_name);
    out.append(" { const VARIANT_TYPE_IDS: &'static [::enum_cast::ConstTypeId] = &[ ");
    out.append(variant_type_ids.as_str());
    out.append("]; fn current_variant_id(&self) -> ::enum_cast::ConstTypeId { match self { ");
    out.append(current_variant_id_arms.as_str());
    out.append("} } }");
    out
}

/// Derives variant identity for a declaration: validates its shape, then
/// writes the implementation of `EnumVariantIds`. A declaration of the wrong
/// shape gives the validation's error and no code.
pub fn enum_variant_ids_derive(input: &Declaration) -> (r: Result<String, ShapeError>)
    ensures
        match r {
            Ok(expanded) => variant_infos(input@) matches Ok(infos) && expanded@
                == enum_variant_ids_impl_text(input@.name, infos),
            Err(e) => variant_infos(input@) == Err::<Seq<VariantInfoSpec>, ShapeError>(e),
        },
{
    let enum_name = input.name.as_str();
    let variant_info = match get_enum_variant_infos(input) {
        Ok(info) => info,
        Err(err) => {
            return Err(err);
        },
    };
    Ok(derive_enum_variant_ids_impl(enum_name, variant_info.as_slice()))
}

/// The texts of a list of strings, in order.
pub open spec fn texts(strings: Seq<String>) -> Seq<Seq<char>> {
    strings.map_values(|s: String| s@)
}

/// Lists the identifier of each variant's payload type: one entry per
/// variant, in declaration order.
pub fn variant_type_ids(variant_info: &[VariantInfo]) -> (ids: Vec<String>)
    ensures
        texts(ids@) == payload_types(variant_info@),
{
    let mut ids: Vec<String> = Vec::new();
    let mut i: usize = 0;
    while i < variant_info.len()
        invariant
            i <= variant_info.len(),
            ids@.len() == i,
            forall|j: int| 0 <= j < i ==> (#[trigger] ids@[j])@ == variant_info@[j].payload_type@,
        decreases variant_info.len() - i,
    {
        ids.push(variant_info[i].payload_type.clone());
        i += 1;
    }
    assert(texts(ids@) =~= payload_types(variant_info@));
    ids
}

/// The identifier of the payload type of a value's active variant.
pub open spec fn current_id<P>(infos: Seq<VariantInfo>, value: EnumValue<P>) -> Seq<char>
    recommends
        value.variant < infos.len(),
{
    infos[value.variant as int].payload_type@
}

/// Gives the identifier of the payload type of the active variant of
/// `value`.
pub fn current_variant_id<P>(variant_info: &[VariantInfo], value: &EnumValue<P>) -> (id: String)
    requires
        value.variant < variant_info@.len(),
    ensures
        id@ == current_id(variant_info@, *value),
{
    variant_info[value.variant].payload_type.clone()
}

/// Variant identity: the identifier list of an enum has exactly one entry
/// per variant, in declaration order, and the identifier of a value's
/// active variant is the entry at that variant's position.
pub proof fn law_current_id_is_listed<P>(infos: Seq<VariantInfo>, value: EnumValue<P>)
    requires
        value.variant < infos.len(),
    ensures
        payload_types(infos).len() == infos.len(),
        forall|i: int|
            0 <= i < infos.len() ==> payload_types(infos)[i] == (#[trigger] infos[i]).payload_type@,
        current_id(infos, value) == payload_types(infos)[value.variant as int],
{
}

} // verus!
