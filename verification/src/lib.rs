//! Ergonomic and safe casting between enums with common variants.
//!
//! For an enum whose variants each wrap exactly one payload, three things
//! are derived: for every variant the capability of holding its payload type
//! ([`HasVariant`]), a conversion to and from any other enum that offers all
//! of these capabilities ([`IsSubsetOf`]), and the identifiers of the payload
//! types ([`EnumVariantIds`]).
//!
//! The traits in this file are what the derived code implements. Each says
//! what its methods return over specification functions of its own. An
//! implementation written under Verus defines them and is held to the
//! contracts; derived code, which is plain Rust, leaves them as they stand
//! here, and nothing is then proved of it.
//!
//! The modules do the deriving: [`shape`] describes a declaration and
//! decides whether anything can be derived for it, [`enum_cast`] and
//! [`enum_variant_ids`] write the derived code, and [`casting`] says what
//! that code does, on values described by the position of their variant.
//! [`sample`] holds the derived code for two small enums, verified.

use std::any::TypeId;
use vstd::prelude::*;

pub mod casting;
pub mod enum_cast;
pub mod enum_variant_ids;
pub mod sample;
pub mod shape;

verus! {

/// `std::any::TypeId`: the identifier of a type. Nothing is known of a value
/// of it but whether it equals another.
#[verifier::external_type_specification]
#[verifier::external_body]
pub struct ExTypeId(TypeId);

/// An enum that has a variant wrapping a value of type `T`.
pub trait HasVariant<T> where Self: Sized {
    /// The value in which the variant for `T` wraps `t`.
    open spec fn wrapping(t: T) -> Self {
        arbitrary()
    }

    /// The payload held by the variant that wraps a `T`, when that variant
    /// is the active one.
    open spec fn payload(&self) -> Option<T> {
        arbitrary()
    }

    /// Wraps `t` in the variant for `T`.
    fn make(t: T) -> (e: Self)
        ensures
            e == Self::wrapping(t),
            e.payload() == Some(t),
    ;

    /// Unwraps the payload when the variant for `T` is the active one, and
    /// otherwise hands the value back as it was.
    fn take(self) -> (r: Result<T, Self>)
        ensures
            r == match self.payload() {
                Some(t) => Ok::<T, Self>(t),
                None => Err::<T, Self>(self),
            },
    ;
}

/// `Self` is a subset of `Other`: every variant of `Self` has a counterpart
/// in `Other` that wraps the same payload type.
pub trait IsSubsetOf<Other> where Self: Sized {
    /// The counterpart of a value in `Other`.
    open spec fn counterpart(self) -> Other {
        arbitrary()
    }

    /// The value of `Self` whose variant is tried first among those that
    /// can take the payload of `other`, if there is one.
    open spec fn first_match(other: Other) -> Option<Self> {
        arbitrary()
    }

    /// Converts `Self` to `Other` by casting to the equivalent variant.
    fn upcast(self) -> (other: Other)
        ensures
            other == self.counterpart(),
    ;

    /// Attempts to convert from `Other` to `Self` if the variant matches.
    /// Returns `other` itself if no matching variant is found.
    fn downcast_from(other: Other) -> (r: Result<Self, Other>)
        ensures
            r == match Self::first_match(other) {
                Some(this) => Ok::<Self, Other>(this),
                None => Err::<Self, Other>(other),
            },
    ;
}

/// Provides runtime access to the type ids of enum variants.
pub trait EnumVariantIds {
    /// The type id of each variant's payload, in declaration order.
    open spec fn type_ids() -> Seq<TypeId> {
        arbitrary()
    }

    /// The position of the active variant, in declaration order.
    open spec fn active_variant(&self) -> int {
        arbitrary()
    }

    /// Returns a vector of the type ids of all variants.
    fn variant_type_ids() -> (ids: Vec<TypeId>)
        ensures
            ids@ == Self::type_ids(),
    ;

    /// Returns the type id of the current variant.
    fn current_variant_id(&self) -> (id: TypeId)
        ensures
            0 <= self.active_variant() < Self::type_ids().len(),
            id == Self::type_ids()[self.active_variant()],
    ;
}

} // verus!
