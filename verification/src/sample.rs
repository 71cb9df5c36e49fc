//! An example of derived code: two small enums, and what the derive writes
//! for them, written out and verified.
//!
//! `Small` is a subset of `Big`. The implementations below are the derived
//! ones, with the specification functions added that the traits ask of a
//! verified implementation. They show that derived code meets the traits'
//! contracts, and what those contracts say of casts between the two enums.
//! The module is here to be read and to be tried; it is not meant to be
//! built upon.

use crate::{HasVariant, IsSubsetOf};
use vstd::prelude::*;

verus! {

/// The smaller enum: each of its payload types is one of `Big`'s.
#[derive(Debug, Clone, PartialEq, Eq)]
pub enum Small {
    A(i32),
    B(String),
}

/// The larger enum: it wraps what `Small` wraps, and a `bool`.
#[derive(Debug, Clone, PartialEq, Eq)]
pub enum Big {
    X(i32),
    Y(String),
    Z(bool),
}

impl HasVariant<i32> for Small {
    open spec fn wrapping(t: i32) -> Self {
        Small::A(t)
    }

    open spec fn payload(&self) -> Option<i32> {
        match self {
            Small::A(v) => Some(*v),
            _ => None,
        }
    }

    fn make(t: i32) -> Self {
        Small::A(t)
    }

    fn take(self) -> Result<i32, Self> {
        if let Small::A(v) = self {
            Ok(v)
        } else {
            Err(self)
        }
    }
}

impl HasVariant<String> for Small {
    open spec fn wrapping(t: String) -> Self {
        Small::B(t)
    }

    open spec fn payload(&self) -> Option<String> {
        match self {
            Small::B(v) => Some(*v),
            _ => None,
        }
    }

    fn make(t: String) -> Self {
        Small::B(t)
    }

    fn take(self) -> Result<String, Self> {
        if let Small::B(v) = self {
            Ok(v)
        } else {
            Err(self)
        }
    }
}

impl<Other: HasVariant<i32> + HasVariant<String>> IsSubsetOf<Other> for Small {
    open spec fn counterpart(self) -> Other {
        match self {
            Small::A(v) => <Other as HasVariant<i32>>::wrapping(v),
            Small::B(v) => <Other as HasVariant<String>>::wrapping(v),
        }
    }

    open spec fn first_match(other: Other) -> Option<Self> {
        match <Other as HasVariant<i32>>::payload(&other) {
            Some(v) => Some(Small::A(v)),
            None => match <Other as HasVariant<String>>::payload(&other) {
                Some(v) => Some(Small::B(v)),
                None => None,
            },
        }
    }

    fn upcast(self) -> Other {
        match self {
            Small::A(v) => Other::make(v),
            Small::B(v) => Other::make(v),
        }
    }

    fn downcast_from(other: Other) -> Result<Self, Other> {
        match <Other as HasVariant<i32>>::take(other) {
            Ok(v) => Ok(Small::A(v)),
            Err(other) => match <Other as HasVariant<String>>::take(other) {
                Ok(v) => Ok(Small::B(v)),
                Err(other) => Err(other),
            },
        }
    }
}

impl Small {
    /// Converts the current enum variant to the equivalent variant in the
    /// target enum. The target enum must be a superset of `Self`.
    pub fn upcast<Other>(self) -> (other: Other) where Self: IsSubsetOf<Other>
        ensures
            other == <Self as IsSubsetOf<Other>>::counterpart(self),
    {
        <Self as IsSubsetOf<Other>>::upcast(self)
    }
}

impl HasVariant<i32> for Big {
    open spec fn wrapping(t: i32) -> Self {
        Big::X(t)
    }

    open spec fn payload(&self) -> Option<i32> {
        match self {
            Big::X(v) => Some(*v),
            _ => None,
        }
    }

    fn make(t: i32) -> Self {
        Big::X(t)
    }

    fn take(self) -> Result<i32, Self> {
        if let Big::X(v) = self {
            Ok(v)
        } else {
            Err(self)
        }
    }
}

impl HasVariant<String> for Big {
    open spec fn wrapping(t: String) -> Self {
        Big::Y(t)
    }

    open spec fn payload(&self) -> Option<String> {
        match self {
            Big::Y(v) => Some(*v),
            _ => None,
        }
    }

    fn make(t: String) -> Self {
        Big::Y(t)
    }

    fn take(self) -> Result<String, Self> {
        if let Big::Y(v) = self {
            Ok(v)
        } else {
            Err(self)
        }
    }
}

impl HasVariant<bool> for Big {
    open spec fn wrapping(t: bool) -> Self {
        Big::Z(t)
    }

    open spec fn payload(&self) -> Option<bool> {
        match self {
            Big::Z(v) => Some(*v),
            _ => None,
        }
    }

    fn make(t: bool) -> Self {
        Big::Z(t)
    }

    fn take(self) -> Result<bool, Self> {
        if let Big::Z(v) = self {
            Ok(v)
        } else {
            Err(self)
        }
    }
}

impl Big {
    /// Attempts to convert the current enum variant to the equivalent variant
    /// in the target enum. The target enum must be a subset of `Self`.
    ///
    /// If the current variant cannot be represented in the target enum,
    /// returns the current variant unchanged as `Err(self)`.
    pub fn downcast<Other>(self) -> (r: Result<Other, Self>) where Other: IsSubsetOf<Self>
        ensures
            r == match <Other as IsSubsetOf<Self>>::first_match(self) {
                Some(down) => Ok::<Other, Self>(down),
                None => Err::<Other, Self>(self),
            },
    {
        <Other as IsSubsetOf<Self>>::downcast_from(self)
    }
}

/// A value of `Small` casts up to the variant of `Big` that wraps the same
/// payload type, with the payload it had.
pub proof fn small_casts_up(value: Small)
    ensures
        <Small as IsSubsetOf<Big>>::counterpart(value) == match value {
            Small::A(v) => Big::X(v),
            Small::B(v) => Big::Y(v),
        },
{
}

/// A value of `Big` casts down to the variant of `Small` that wraps the
/// same payload type, with the payload it had, and not at all when its
/// variant is `Z`.
pub proof fn big_casts_down(value: Big)
    ensures
        <Small as IsSubsetOf<Big>>::first_match(value) == match value {
            Big::X(v) => Some(Small::A(v)),
            Big::Y(v) => Some(Small::B(v)),
            Big::Z(_) => None,
        },
{
}

/// Every value of `Small`, cast up to `Big` and back down, is the value it
/// was.
pub proof fn small_round_trips_through_big(value: Small)
    ensures
        <Small as IsSubsetOf<Big>>::first_match(<Small as IsSubsetOf<Big>>::counterpart(value))
            == Some(value),
{
}

} // verus!
