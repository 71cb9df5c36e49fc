//! The code derived for casting: a capability implementation for every
//! variant, the conversion to and from any enum that offers them all, and
//! the two methods that forward to the conversion.
//!
//! The code is written as source text. What an interpolated name or type is
//! made of is not looked at: it is placed between the fixed parts as it is.

use crate::shape::{
    get_enum_variant_infos, infos_view, variant_infos, Declaration, ShapeError, VariantInfo,
    VariantInfoSpec,
};
use vstd::prelude::*;

verus! {

/// The implementation of `HasVariant` for one variant: `make` wraps the
/// payload in the variant, `take` unwraps it when the variant is the active
/// one and otherwise gives the value back.
pub open spec fn has_variant_impl_text(enum_name: Seq<char>, info: VariantInfoSpec) -> Seq<char> {
    "impl ::enum_cast::HasVariant< "@ + info.payload_type + " > for "@ + enum_name
        + " { fn make(t: "@ + info.payload_type + " ) -> Self { "@ + enum_name + " :: "@ + info.name
        + " (t) } fn take(self) -> Result< "@ + info.payload_type + " , Self> { if let "@
        + enum_name + " :: "@ + info.name + " (v) = self { Ok(v) } else { Err(self) } } }"@
}

/// The bound that asks of the other enum the capability for one payload type.
pub open spec fn bound_text(payload_type: Seq<char>) -> Seq<char> {
    "::enum_cast::HasVariant< "@ + payload_type + " >"@
}

/// The bounds for the first `n` variants, joined by `+`.
pub open spec fn bounds_text(infos: Seq<VariantInfoSpec>, n: int) -> Seq<char>
    decreases n,
{
    if n <= 0 {
        Seq::empty()
    } else if n == 1 {
        bound_text(infos[0].payload_type)
    } else {
        bounds_text(infos, n - 1) + " + "@ + bound_text(infos[n - 1].payload_type)
    }
}

/// The match arm that casts one variant up: its payload is made into a
/// value of the other enum.
pub open spec fn upcast_arm_text(enum_name: Seq<char>, info: VariantInfoSpec) -> Seq<char> {
    enum_name + " :: "@ + info.name + " (v) => Other::make(v), "@
}

/// The match arms for the first `n` variants, in declaration order.
pub open spec fn upcast_arms_text(enum_name: Seq<char>, infos: Seq<VariantInfoSpec>, n: int) -> Seq<
    char,
>
    decreases n,
{
    if n <= 0 {
        Seq::empty()
    } else {
        upcast_arms_text(enum_name, infos, n - 1) + upcast_arm_text(enum_name, infos[n - 1])
    }
}

/// The fallback chain for the variants from position `from` on: an attempt
/// to take the payload type of the variant at `from`, which on success wraps
/// the payload in that variant and on failure goes on with the rest of the
/// chain. After the last variant the chain ends in the failure that hands
/// the value back.
pub open spec fn downcast_chain_text(
    infos: Seq<VariantInfoSpec>,
    enum_name: Seq<char>,
    from: int,
) -> Seq<char>
    decreases infos.len() - from,
{
    if from < 0 || from >= infos.len() {
        "Err(other)"@
    } else {
        "match <Other as ::enum_cast::HasVariant< "@ + infos[from].payload_type
            + " >>::take(other) { Ok(v) => Ok( "@ + enum_name + " :: "@ + infos[from].name
            + " (v)), Err(other) => "@ + downcast_chain_text(infos, enum_name, from + 1) + ", }"@
    }
}

/// The implementation of `IsSubsetOf<Other>` for every `Other` that has the
/// capability for each payload type of the enum.
pub open spec fn is_subset_of_impl_text(enum_name: Seq<char>, infos: Seq<VariantInfoSpec>) -> Seq<
    char,
> {
    "impl<Other: "@ + bounds_text(infos, infos.len() as int)
        + "> ::enum_cast::IsSubsetOf<Other> for "@ + enum_name
        + " { fn upcast(self) -> Other { match self { "@ + upcast_arms_text(
        enum_name,
        infos,
        infos.len() as int,
    ) + "} } fn downcast_from(other: Other) -> Result<Self, Other> { "@ + downcast_chain_text(
        infos,
        enum_name,
        0,
    ) + " } }"@
}

/// The methods `upcast` and `downcast` of the enum itself, which forward to
/// `IsSubsetOf` with the target taken from the call.
pub open spec fn extension_text(enum_name: Seq<char>) -> Seq<char> {
    "impl "@ + enum_name
        + " {\n"@
        + "/// Converts the current enum variant to the equivalent variant in the\n"@
        + "/// target enum. The target enum must be a superset of `Self`.\n"@
        + "fn upcast<Other>(self) -> Other where Self: ::enum_cast::IsSubsetOf<Other>, "@
        + "{ <Self as ::enum_cast::IsSubsetOf<Other>>::upcast(self) }\n"@
        + "/// Attempts to convert the current enum variant to the equivalent variant\n"@
        + "/// in the target enum. The target enum must be a subset of `Self`.\n"@
        + "///\n"@
        + "/// If the current variant cannot be represented in the target enum,\n"@
        + "/// returns the current variant unchanged as `Err(self)`.\n"@
        + "fn downcast<Other>(self) -> Result<Other, Self> where Other: ::enum_cast::IsSubsetOf<Self>, "@
        + "{ <Other as ::enum_cast::IsSubsetOf<Self>>::downcast_from(self) }\n"@
        + "}"@
}

/// The capability implementations for the first `n` variants, one to a line.
pub open spec fn has_variant_impls_text(
    enum_name: Seq<char>,
    infos: Seq<VariantInfoSpec>,
    n: int,
) -> Seq<char>
    decreases n,
{
    if n <= 0 {
        Seq::empty()
    } else {
        has_variant_impls_text(enum_name, infos, n - 1) + has_variant_impl_text(
            enum_name,
            infos[n - 1],
        ) + "\n"@
    }
}

/// Everything derived for casting: the capability implementations, the
/// conversion, and the forwarding methods, in this order.
pub open spec fn enum_cast_text(enum_name: Seq<char>, infos: Seq<VariantInfoSpec>) -> Seq<char> {
    has_variant_impls_text(enum_name, infos, infos.len() as int) + is_subset_of_impl_text(
        enum_name,
        infos,
    ) + "\n"@ + extension_text(enum_name)
}

/// Writes the capability implementation for one variant.
fn has_variant_impl(enum_name: &str, info: &VariantInfo) -> (out: String)
    ensures
        out@ == has_variant_impl_text(enum_name@, info@),
{
    let mut out = String::from_str("impl ::enum_cast::HasVariant< ");
    out.append(info.payload_type.as_str());
    out.append(" > for ");
    out.append(enum_name);
    out.append(" { fn make(t: ");
    out.append(info.payload_type.as_str());
    out.append(" ) -> Self { ");
    out.append(enum_name);
    out.append(" :: ");
    out.append(info.name.as_str());
    out.append(" (t) } fn take(self) -> Result< ");
    out.append(info.payload_type.as_str());
    out.append(" , Self> { if let ");
    out.append(enum_name);
    out.append(" :: ");
    out.append(info.name.as_str());
    out.append(" (v) = self { Ok(v) } else { Err(self) } } }");
    out
}

/// Writes, for each variant, the implementation of the capability of
/// holding its payload type.
pub fn derive_has_variant_impls(enum_name: &str, variant_info: &[VariantInfo]) -> (impls: Vec<
    String,
>)
    ensures
        impls@.len() == variant_info@.len(),
        forall|i: int|
            0 <= i < impls@.len() ==> (#[trigger] impls@[i])@ == has_variant_impl_text(
                enum_name@,
                variant_info@[i]@,
            ),
{
    let mut has_variant_impls: Vec<String> = Vec::new();
    let mut i: usize = 0;
    while i < variant_info.len()
        invariant
            i <= variant_info.len(),
            has_variant_impls@.len() == i,
            forall|j: int|
                0 <= j < i ==> (#[trigger] has_variant_impls@[j])@ == has_variant_impl_text(
                    enum_name@,
                    variant_info@[j]@,
                ),
        decreases variant_info.len() - i,
    {
        has_variant_impls.push(has_variant_impl(enum_name, &variant_info[i]));
        i += 1;
    }
    has_variant_impls
}

/// Writes the bound for one payload type.
fn bound(payload_type: &str) -> (out: String)
    ensures
        out@ == bound_text(payload_type@),
{
    let mut out = String::from_str("::enum_cast::HasVariant< ");
    out.append(payload_type);
    out.append(" >");
    out
}

/// Writes the bounds on the other enum: one per variant, joined by `+`.
fn other_bounds(variant_info: &[VariantInfo]) -> (out: String)
    ensures
        out@ == bounds_text(infos_view(variant_info@), variant_info@.len() as int),
{
    let ghost infos = infos_view(variant_info@);
    let mut out = String::new();
    let mut i: usize = 0;
    while i < variant_info.len()
        invariant
            i <= variant_info.len(),
            infos == infos_view(variant_info@),
            out@ == bounds_text(infos, i as int),
        decreases variant_info.len() - i,
    {
        let next = bound(variant_info[i].payload_type.as_str());
        if i > 0 {
            out.append(" + ");
        }
        out.append(next.as_str());
        assert(out@ =~= bounds_text(infos, i + 1));
        i += 1;
    }
    out
}

/// Writes the match arm that casts one variant up.
fn upcast_arm(enum_name: &str, info: &VariantInfo) -> (out: String)
    ensures
        out@ == upcast_arm_text(enum_name@, info@),
{
    let mut out = String::from_str(enum_name);
    out.append(" :: ");
    out.append(info.name.as_str());
    out.append(" (v) => Other::make(v), ");
    out
}

/// Writes the match arms of the upcast: one per variant, in declaration
/// order.
fn upcast_arms(enum_name: &str, variant_info: &[VariantInfo]) -> (out: String)
    ensures
        out@ == upcast_arms_text(
            enum_name@,
            infos_view(variant_info@),
            variant_info@.len() as int,
        ),
{
    let ghost infos = infos_view(variant_info@);
    let mut out = String::new();
    let mut i: usize = 0;
    while i < variant_info.len()
        invariant
            i <= variant_info.len(),
            infos == infos_view(variant_info@),
            out@ == upcast_arms_text(enum_name@, infos, i as int),
        decreases variant_info.len() - i,
    {
        let next = upcast_arm(enum_name, &variant_info[i]);
        out.append(next.as_str());
        i += 1;
    }
    out
}

/// Writes the conversion between the enum and every other enum that has
/// the capability for each of its payload types: the upcast with one match
/// arm per variant, and the downcast by the fallback chain.
pub fn derive_is_subset_of_impl(enum_name: &str, variant_info: &[VariantInfo]) -> (out: String)
    ensures
        out@ == is_subset_of_impl_text(enum_name@, infos_view(variant_info@)),
{
    let other_bounds = other_bounds(variant_info);
    let upcast_arms = upcast_arms(enum_name, variant_info);
    let downcast_chain = generate_downcast_chain(variant_info, enum_name);
    let mut out = String::from_str("impl<Other: ");
    out.append(other_bounds.as_str());
    out.append("> ::enum_cast::IsSubsetOf<Other> for ");
    out.append(enum_name);
    out.append(" { fn upcast(self) -> Other { match self { ");
    out.append(upcast_arms.as_str());
    out.append("} } fn downcast_from(other: Other) -> Result<Self, Other> { ");
    out.append(downcast_chain.as_str());
    out.append(" } }");
    out
}

/// Writes the fallback chain of the downcast: the payload type of each
/// variant is tried in declaration order, the first that can be taken
/// decides, and when none can the value is handed back. The chain is built
/// from its end: each variant, from the last to the first, wraps what was
/// built for those after it. Without variants the chain is the failure
/// alone.
pub fn generate_downcast_chain(variant_info: &[VariantInfo], enum_name: &str) -> (out: String)
    ensures
        out@ == downcast_chain_text(infos_view(variant_info@), enum_name@, 0),
        variant_info@.len() == 0 ==> out@ == "Err(other)"@,
{
    let ghost infos = infos_view(variant_info@);
    let mut result = String::from_str("Err(other)");
    let mut i: usize = variant_info.len();
    while i > 0
        invariant
            i <= variant_info.len(),
            infos == infos_view(variant_info@),
            result@ == downcast_chain_text(infos, enum_name@, i as int),
        decreases i,
    {
        i -= 1;
        let info = &variant_info[i];
        let mut attempt = String::from_str("match <Other as ::enum_cast::HasVariant< ");
        attempt.append(info.payload_type.as_str());
        attempt.append(" >>::take(other) { Ok(v) => Ok( ");
        attempt.append(enum_name);
        attempt.append(" :: ");
        attempt.append(info.name.as_str());
        attempt.append(" (v)), Err(other) => ");
        attempt.append(result.as_str());
        attempt.append(", }");
        result = attempt;
    }
    result
}

/// Writes the methods `upcast` and `downcast` of the enum itself. They
/// forward to the conversion, `downcast` with the roles of the two enums
/// exchanged, and decide nothing of their own.
pub fn derive_extension(enum_name: &str) -> (out: String)
    ensures
        out@ == extension_text(enum_name@),
{
    let mut out = String::from_str("impl ");
    out.append(enum_name);
    out.append(" {\n");
    out.append("/// Converts the current enum variant to the equivalent variant in the\n");
    out.append("/// target enum. The target enum must be a superset of `Self`.\n");
    out.append("fn upcast<Other>(self) -> Other where Self: ::enum_cast::IsSubsetOf<Other>, ");
    out.append("{ <Self as ::enum_cast::IsSubsetOf<Other>>::upcast(self) }\n");
    out.append("/// Attempts to convert the current enum variant to the equivalent variant\n");
    out.append("/// in the target enum. The target enum must be a subset of `Self`.\n");
    out.append("///\n");
    out.append("/// If the current variant cannot be represented in the target enum,\n");
    out.append("/// returns the current variant unchanged as `Err(self)`.\n");
    out.append("fn downcast<Other>(self) -> Result<Other, Self> where Other: ::enum_cast::IsSubsetOf<Self>, ");
    out.append("{ <Other as ::enum_cast::IsSubsetOf<Self>>::downcast_from(self) }\n");
    out.append("}");
    out
}

/// Derives the casts for a declaration: validates its shape, then writes
/// the capability implementations, the conversion and the forwarding
/// methods. A declaration of the wrong shape gives the validation's error
/// and no code.
pub fn enum_cast_derive(input: &Declaration) -> (r: Result<String, ShapeError>)
    ensures
        match r {
            Ok(expanded) => variant_infos(input@) matches Ok(infos) && expanded@ == enum_cast_text(
                input@.name,
                infos,
            ),
            Err(e) => variant_infos(input@) == Err::<Seq<VariantInfoSpec>, ShapeError>(e),
        },
{
    let enum_name = input.name.as_str();
    let variant_info = match get_enum_variant_infos(input) {
        Ok(info) => info,
        Err(err) => {
            return Err(err);
        },
    };
    let ghost infos = infos_view(variant_info@);
    let has_variant_impls = derive_has_variant_impls(enum_name, variant_info.as_slice());
    let is_subset_impl = derive_is_subset_of_impl(enum_name, variant_info.as_slice());
    let extension_impl = derive_extension(enum_name);

    let mut expanded = String::new();
    let mut i: usize = 0;
    while i < has_variant_impls.len()
        invariant
            i <= has_variant_impls.len(),
            has_variant_impls@.len() == infos.len(),
            infos == infos_view(variant_info@),
            forall|j: int|
                0 <= j < has_variant_impls@.len() ==> (#[trigger] has_variant_impls@[j])@
                    == has_variant_impl_text(enum_name@, variant_info@[j]@),
            expanded@ == has_variant_impls_text(enum_name@, infos, i as int),
        decreases has_variant_impls.len() - i,
    {
        expanded.append(has_variant_impls[i].as_str());
        expanded.append("\n");
        i += 1;
    }
    expanded.append(is_subset_impl.as_str());
    expanded.append("\n");
    expanded.append(extension_impl.as_str());
    Ok(expanded)
}

} // verus!
