//! What the derived conversions do.
//!
//! An enum is described by its variant infos, and a value of it by the
//! position of its active variant and the payload that variant wraps. The
//! functions here make and take payloads and cast values between two enums
//! exactly as the derived implementations do for the enums themselves: a
//! payload type stands for the capability of holding it, the capability for
//! a payload type belongs to the first-declared variant that wraps it, and a
//! cast only changes the variant a payload sits in.

use crate::shape::VariantInfo;
use vstd::prelude::*;

verus! {

/// A value of a described enum.
#[derive(Debug, Clone, PartialEq, Eq)]
pub struct EnumValue<P> {
    /// Position of the active variant, in declaration order.
    pub variant: usize,
    /// What the active variant wraps.
    pub payload: P,
}

/// The payload type of each variant, in declaration order.
pub open spec fn payload_types(infos: Seq<VariantInfo>) -> Seq<Seq<char>> {
    infos.map_values(|v: VariantInfo| v.payload_type@)
}

/// `i` is the position of the first variant that wraps `ty`.
pub open spec fn is_first_with(types: Seq<Seq<char>>, ty: Seq<char>, i: int) -> bool {
    &&& 0 <= i < types.len()
    &&& types[i] == ty
    &&& forall|j: int| 0 <= j < i ==> #[trigger] types[j] != ty
}

/// The variant that the capability for `ty` belongs to: the first one that
/// wraps `ty`, if there is any.
pub open spec fn variant_for(types: Seq<Seq<char>>, ty: Seq<char>) -> Option<int> {
    if exists|i: int| is_first_with(types, ty, i) {
        Some(choose|i: int| is_first_with(types, ty, i))
    } else {
        None
    }
}

/// Every payload type of `source` is also wrapped by some variant of `target`.
pub open spec fn is_subset(source: Seq<Seq<char>>, target: Seq<Seq<char>>) -> bool {
    forall|i: int| 0 <= i < source.len() ==> variant_for(target, #[trigger] source[i]) is Some
}

/// A payload wrapped in the variant for `ty`.
pub open spec fn made<P>(types: Seq<Seq<char>>, ty: Seq<char>, payload: P) -> EnumValue<P>
    recommends
        variant_for(types, ty) is Some,
{
    EnumValue { variant: variant_for(types, ty).unwrap() as usize, payload }
}

/// The payload of `value` if its active variant is the one for `ty`, and
/// `value` itself if not.
pub open spec fn taken<P>(types: Seq<Seq<char>>, ty: Seq<char>, value: EnumValue<P>) -> Result<
    P,
    EnumValue<P>,
> {
    if variant_for(types, ty) == Some(value.variant as int) {
        Ok(value.payload)
    } else {
        Err(value)
    }
}

/// The value of the target enum that a value of the source enum casts up to.
pub open spec fn upcast_of<P>(
    source: Seq<Seq<char>>,
    target: Seq<Seq<char>>,
    value: EnumValue<P>,
) -> EnumValue<P>
    recommends
        value.variant < source.len(),
        is_subset(source, target),
{
    made(target, source[value.variant as int], value.payload)
}

/// The fallback chain from position `from` on: the payload type of each
/// variant of the enum cast to is tried in declaration order on `other`, the
/// first that can be taken decides, and when none can `other` comes back.
pub open spec fn downcast_chain<P>(
    this: Seq<Seq<char>>,
    other_types: Seq<Seq<char>>,
    other: EnumValue<P>,
    from: int,
) -> Result<EnumValue<P>, EnumValue<P>>
    decreases this.len() - from,
{
    if from < 0 || from >= this.len() {
        Err(other)
    } else {
        match taken(other_types, this[from], other) {
            Ok(payload) => Ok(EnumValue { variant: from as usize, payload }),
            Err(other) => downcast_chain(this, other_types, other, from + 1),
        }
    }
}

/// What a value of another enum casts down to.
pub open spec fn downcast_of<P>(
    this: Seq<Seq<char>>,
    other_types: Seq<Seq<char>>,
    other: EnumValue<P>,
) -> Result<EnumValue<P>, EnumValue<P>> {
    downcast_chain(this, other_types, other, 0)
}

/// At most one position is the first to wrap a payload type.
pub proof fn lemma_first_with_unique(types: Seq<Seq<char>>, ty: Seq<char>, i: int, j: int)
    requires
        is_first_with(types, ty, i),
        is_first_with(types, ty, j),
    ensures
        i == j,
{
    if i < j {
        assert(types[i] != ty);
    } else if j < i {
        assert(types[j] != ty);
    }
}

/// The variant for a payload type is the first position that wraps it.
pub proof fn lemma_variant_for(types: Seq<Seq<char>>, ty: Seq<char>, i: int)
    requires
        is_first_with(types, ty, i),
    ensures
        variant_for(types, ty) == Some(i),
{
    let c = choose|k: int| is_first_with(types, ty, k);
    lemma_first_with_unique(types, ty, i, c);
}

/// A payload type that no variant wraps has no variant.
pub proof fn lemma_variant_for_none(types: Seq<Seq<char>>, ty: Seq<char>)
    requires
        forall|j: int| 0 <= j < types.len() ==> #[trigger] types[j] != ty,
    ensures
        variant_for(types, ty) is None,
{
    if exists|i: int| is_first_with(types, ty, i) {
        let c = choose|k: int| is_first_with(types, ty, k);
        assert(types[c] != ty);
    }
}

/// Looks up the capability for a payload type: the position of the first
/// variant that wraps it.
pub fn has_variant(infos: &[VariantInfo], payload_type: &str) -> (found: Option<usize>)
    ensures
        match found {
            Some(i) => variant_for(payload_types(infos@), payload_type@) == Some(i as int),
            None => variant_for(payload_types(infos@), payload_type@) is None,
        },
        match found {
            Some(i) => is_first_with(payload_types(infos@), payload_type@, i as int),
            None => forall|j: int|
                0 <= j < infos@.len() ==> (#[trigger] infos@[j]).payload_type@ != payload_type@,
        },
{
    let wanted = String::from_str(payload_type);
    let ghost types = payload_types(infos@);
    let mut i: usize = 0;
    while i < infos.len()
        invariant
            i <= infos.len(),
            wanted@ == payload_type@,
            types == payload_types(infos@),
            forall|j: int| 0 <= j < i ==> #[trigger] types[j] != payload_type@,
        decreases infos.len() - i,
    {
        if infos[i].payload_type == wanted {
            proof {
                lemma_variant_for(types, payload_type@, i as int);
            }
            return Some(i);
        }
        i += 1;
    }
    proof {
        lemma_variant_for_none(types, payload_type@);
        assert forall|j: int| 0 <= j < infos@.len() implies (#[trigger] infos@[j]).payload_type@
            != payload_type@ by {
            assert(types[j] != payload_type@);
        }
    }
    None
}

/// Wraps `payload` in the variant for `payload_type`.
pub fn make<P>(infos: &[VariantInfo], payload_type: &str, payload: P) -> (value: EnumValue<P>)
    requires
        variant_for(payload_types(infos@), payload_type@) is Some,
    ensures
        value == made(payload_types(infos@), payload_type@, payload),
        value.variant < infos@.len(),
        infos@[value.variant as int].payload_type@ == payload_type@,
        value.payload == payload,
{
    let found = has_variant(infos, payload_type);
    let variant = found.unwrap();
    proof {
        let types = payload_types(infos@);
        let c = choose|k: int| is_first_with(types, payload_type@, k);
        assert(is_first_with(types, payload_type@, c));
    }
    EnumValue { variant, payload }
}

/// Unwraps the payload of `value` exactly when its active variant is the
/// one for `payload_type`; otherwise hands `value` back unchanged.
pub fn take<P>(infos: &[VariantInfo], payload_type: &str, value: EnumValue<P>) -> (r: Result<
    P,
    EnumValue<P>,
>)
    ensures
        r == taken(payload_types(infos@), payload_type@, value),
        r matches Err(back) ==> back == value,
        r matches Ok(payload) ==> payload == value.payload,
{
    match has_variant(infos, payload_type) {
        Some(i) => {
            if i == value.variant {
                Ok(value.payload)
            } else {
                Err(value)
            }
        },
        None => Err(value),
    }
}

/// Tells whether `target` offers the capability for every payload type of
/// `source`, that is, whether values of `source` can be cast up to it.
pub fn is_subset_of(source: &[VariantInfo], target: &[VariantInfo]) -> (b: bool)
    ensures
        b == is_subset(payload_types(source@), payload_types(target@)),
{
    let ghost s = payload_types(source@);
    let ghost t = payload_types(target@);
    let mut i: usize = 0;
    while i < source.len()
        invariant
            i <= source.len(),
            s == payload_types(source@),
            t == payload_types(target@),
            forall|j: int| 0 <= j < i ==> variant_for(t, #[trigger] s[j]) is Some,
        decreases source.len() - i,
    {
        let found = has_variant(target, source[i].payload_type.as_str());
        if found.is_none() {
            assert(variant_for(t, s[i as int]) is None);
            return false;
        }
        i += 1;
    }
    true
}

/// Casts a value of the enum `source` up to the enum `target`: the payload
/// of the active variant is made into a value of `target`.
pub fn upcast<P>(source: &[VariantInfo], target: &[VariantInfo], value: EnumValue<P>) -> (up:
    EnumValue<P>)
    requires
        value.variant < source@.len(),
        is_subset(payload_types(source@), payload_types(target@)),
    ensures
        up == upcast_of(payload_types(source@), payload_types(target@), value),
        up.payload == value.payload,
        up.variant < target@.len(),
        target@[up.variant as int].payload_type@ == source@[value.variant as int].payload_type@,
{
    let EnumValue { variant, payload } = value;
    assert(payload_types(source@)[variant as int] == source@[variant as int].payload_type@);
    make(target, source[variant].payload_type.as_str(), payload)
}

/// Casts a value `other` of the enum `other_infos` down to the enum `this`,
/// by the fallback chain: the payload type of each variant of `this` is
/// tried on `other` in declaration order, and the first that can be taken
/// decides. When none can be taken, `other` comes back unchanged.
pub fn downcast_from<P>(this: &[VariantInfo], other_infos: &[VariantInfo], other: EnumValue<P>) -> (r:
    Result<EnumValue<P>, EnumValue<P>>)
    ensures
        r == downcast_of(payload_types(this@), payload_types(other_infos@), other),
        r matches Err(back) ==> back == other,
        r matches Ok(down) ==> down.payload == other.payload && down.variant < this@.len(),
        this@.len() == 0 ==> r == Err::<EnumValue<P>, EnumValue<P>>(other),
        match r {
            Ok(down) => {
                &&& taken(
                    payload_types(other_infos@),
                    this@[down.variant as int].payload_type@,
                    other,
                ) is Ok
                &&& forall|j: int|
                    0 <= j < down.variant ==> taken(
                        payload_types(other_infos@),
                        (#[trigger] this@[j]).payload_type@,
                        other,
                    ) is Err
            },
            Err(_) => forall|j: int|
                0 <= j < this@.len() ==> taken(
                    payload_types(other_infos@),
                    (#[trigger] this@[j]).payload_type@,
                    other,
                ) is Err,
        },
{
    let ghost t = payload_types(this@);
    let ghost o = payload_types(other_infos@);
    let mut current = other;
    let mut i: usize = 0;
    while i < this.len()
        invariant
            i <= this.len(),
            t == payload_types(this@),
            o == payload_types(other_infos@),
            current == other,
            downcast_of(t, o, other) == downcast_chain(t, o, other, i as int),
        decreases this.len() - i,
    {
        assert(t[i as int] == this@[i as int].payload_type@);
        match take(other_infos, this[i].payload_type.as_str(), current) {
            Ok(payload) => {
                proof {
                    lemma_downcast_is_first_match(t, o, other, 0);
                    assert forall|j: int| 0 <= j < i implies taken(
                        o,
                        (#[trigger] this@[j]).payload_type@,
                        other,
                    ) is Err by {
                        assert(t[j] == this@[j].payload_type@);
                    }
                }
                return Ok(EnumValue { variant: i, payload });
            },
            Err(back) => {
                current = back;
            },
        }
        i += 1;
    }
    proof {
        lemma_downcast_is_first_match(t, o, other, 0);
        assert forall|j: int| 0 <= j < this@.len() implies taken(
            o,
            (#[trigger] this@[j]).payload_type@,
            other,
        ) is Err by {
            assert(t[j] == this@[j].payload_type@);
        }
    }
    Err(current)
}

/// Casts a value of the enum `this` down to the enum `target`: the same
/// fallback chain as `downcast_from`, with the two enums' roles exchanged.
pub fn downcast<P>(this: &[VariantInfo], target: &[VariantInfo], value: EnumValue<P>) -> (r: Result<
    EnumValue<P>,
    EnumValue<P>,
>)
    ensures
        r == downcast_of(payload_types(target@), payload_types(this@), value),
        r matches Err(back) ==> back == value,
        r matches Ok(down) ==> down.payload == value.payload && down.variant < target@.len(),
{
    downcast_from(target, this, value)
}

/// The fallback chain passes over every position whose payload type cannot
/// be taken.
pub proof fn lemma_chain_passes_over<P>(
    this: Seq<Seq<char>>,
    other_types: Seq<Seq<char>>,
    other: EnumValue<P>,
    from: int,
    to: int,
)
    requires
        0 <= from <= to <= this.len(),
        forall|j: int| from <= j < to ==> taken(other_types, #[trigger] this[j], other) is Err,
    ensures
        downcast_chain(this, other_types, other, from) == downcast_chain(
            this,
            other_types,
            other,
            to,
        ),
    decreases to - from,
{
    if from < to {
        assert(taken(other_types, this[from], other) is Err);
        lemma_chain_passes_over(this, other_types, other, from + 1, to);
    }
}

/// A downcast succeeds with the first variant, in declaration order, whose
/// payload type can be taken from the value, keeps the payload, and fails
/// with the value itself exactly when there is no such variant.
pub proof fn lemma_downcast_is_first_match<P>(
    this: Seq<Seq<char>>,
    other_types: Seq<Seq<char>>,
    other: EnumValue<P>,
    from: int,
)
    requires
        this.len() <= usize::MAX,
        0 <= from <= this.len(),
    ensures
        match downcast_chain(this, other_types, other, from) {
            Ok(down) => {
                &&& from <= down.variant < this.len()
                &&& down.payload == other.payload
                &&& variant_for(other_types, this[down.variant as int]) == Some(
                    other.variant as int,
                )
                &&& forall|j: int|
                    from <= j < down.variant ==> variant_for(other_types, #[trigger] this[j])
                        != Some(other.variant as int)
            },
            Err(back) => {
                &&& back == other
                &&& forall|j: int|
                    from <= j < this.len() ==> variant_for(other_types, #[trigger] this[j])
                        != Some(other.variant as int)
            },
        },
    decreases this.len() - from,
{
    if from < this.len() {
        if taken(other_types, this[from], other) is Err {
            lemma_downcast_is_first_match(this, other_types, other, from + 1);
        }
    }
}

/// Round trip: a value cast up to an enum that offers every payload type of
/// its own enum, and cast back down, is the value it was, payload included.
/// This is stated of the values whose active variant is the first of their
/// enum to wrap its payload type, which is every value where no two variants
/// share a payload type.
pub proof fn law_round_trip<P>(source: Seq<Seq<char>>, target: Seq<Seq<char>>, value: EnumValue<P>)
    requires
        source.len() <= usize::MAX,
        target.len() <= usize::MAX,
        value.variant < source.len(),
        is_subset(source, target),
        variant_for(source, source[value.variant as int]) == Some(value.variant as int),
    ensures
        downcast_of(source, target, upcast_of(source, target, value)) == Ok::<
            EnumValue<P>,
            EnumValue<P>,
        >(value),
{
    let k = value.variant as int;
    let ty = source[k];
    let up = upcast_of(source, target, value);
    let u = variant_for(target, ty).unwrap();
    assert(is_first_with(target, ty, u));
    assert(up.variant == u);
    assert(is_first_with(source, ty, k));
    assert forall|j: int| 0 <= j < k implies taken(target, #[trigger] source[j], up) is Err by {
        if variant_for(target, source[j]) == Some(u) {
            assert(is_first_with(target, source[j], u));
            assert(source[j] == ty);
        }
    }
    lemma_chain_passes_over(source, target, up, 0, k);
    assert(taken(target, source[k], up) == Ok::<P, EnumValue<P>>(value.payload));
}

/// Where no two variants wrap the same payload type, every variant is the
/// first to wrap its own.
pub proof fn lemma_distinct_variants_are_first(types: Seq<Seq<char>>, k: int)
    requires
        types.no_duplicates(),
        0 <= k < types.len(),
    ensures
        variant_for(types, types[k]) == Some(k),
{
    assert(is_first_with(types, types[k], k));
    lemma_variant_for(types, types[k], k);
}

/// Round trip between enums as the language admits them: where no two
/// variants of the source wrap the same payload type, every value of it,
/// cast up to an enum that offers each of its payload types and cast back
/// down, is the value it was.
pub proof fn law_round_trip_of_distinct_payloads<P>(
    source: Seq<Seq<char>>,
    target: Seq<Seq<char>>,
    value: EnumValue<P>,
)
    requires
        source.len() <= usize::MAX,
        target.len() <= usize::MAX,
        source.no_duplicates(),
        value.variant < source.len(),
        is_subset(source, target),
    ensures
        downcast_of(source, target, upcast_of(source, target, value)) == Ok::<
            EnumValue<P>,
            EnumValue<P>,
        >(value),
{
    lemma_distinct_variants_are_first(source, value.variant as int);
    law_round_trip(source, target, value);
}

/// First match wins: where two variants of an enum wrap the same payload
/// type, a downcast to that enum never yields the later-declared one; and
/// when the earlier one is the first to wrap that type, a value whose active
/// variant holds the capability for it always casts down to the earlier one.
pub proof fn law_first_match_wins<P>(
    this: Seq<Seq<char>>,
    other_types: Seq<Seq<char>>,
    other: EnumValue<P>,
    earlier: int,
    later: int,
)
    requires
        this.len() <= usize::MAX,
        0 <= earlier < later < this.len(),
        this[earlier] == this[later],
    ensures
        !(downcast_of(this, other_types, other) matches Ok(down) && down.variant == later),
        variant_for(this, this[earlier]) == Some(earlier) && variant_for(
            other_types,
            this[earlier],
        ) == Some(other.variant as int) ==> downcast_of(this, other_types, other) == Ok::<
            EnumValue<P>,
            EnumValue<P>,
        >(EnumValue { variant: earlier as usize, payload: other.payload }),
{
    lemma_downcast_is_first_match(this, other_types, other, 0);
    if variant_for(this, this[earlier]) == Some(earlier) && variant_for(other_types, this[earlier])
        == Some(other.variant as int) {
        let ty = this[earlier];
        assert(is_first_with(this, ty, earlier));
        assert(is_first_with(other_types, ty, other.variant as int));
        match downcast_of(this, other_types, other) {
            Ok(down) => {
                let d = down.variant as int;
                assert(is_first_with(other_types, this[d], other.variant as int));
                assert(this[d] == ty);
                if d < earlier {
                    assert(this[d] != ty);
                }
            },
            Err(back) => {
                assert(variant_for(other_types, this[earlier]) != Some(other.variant as int));
            },
        }
    }
}

/// An enum without variants takes nothing: every downcast to it fails at
/// once and hands the value back.
pub proof fn law_empty_enum_takes_nothing<P>(
    this: Seq<Seq<char>>,
    other_types: Seq<Seq<char>>,
    other: EnumValue<P>,
)
    requires
        this.len() == 0,
    ensures
        downcast_of(this, other_types, other) == Err::<EnumValue<P>, EnumValue<P>>(other),
{
}

/// A downcast that fails hands back the value it was given.
pub proof fn law_failure_preserves_input<P>(
    this: Seq<Seq<char>>,
    other_types: Seq<Seq<char>>,
    other: EnumValue<P>,
)
    ensures
        downcast_of(this, other_types, other) matches Err(back) ==> back == other,
{
    lemma_failed_chain_returns_input(this, other_types, other, 0);
}

/// From any position on, a chain that fails hands back the value it was
/// given.
pub proof fn lemma_failed_chain_returns_input<P>(
    this: Seq<Seq<char>>,
    other_types: Seq<Seq<char>>,
    other: EnumValue<P>,
    from: int,
)
    ensures
        downcast_chain(this, other_types, other, from) matches Err(back) ==> back == other,
    decreases this.len() - from,
{
    if 0 <= from < this.len() {
        if taken(other_types, this[from], other) is Err {
            lemma_failed_chain_returns_input(this, other_types, other, from + 1);
        }
    }
}

/// An upcast keeps the payload and lands in a variant of the target that
/// wraps the payload type of the value's active variant.
pub proof fn law_upcast_preserves_payload<P>(
    source: Seq<Seq<char>>,
    target: Seq<Seq<char>>,
    value: EnumValue<P>,
)
    requires
        target.len() <= usize::MAX,
        value.variant < source.len(),
        is_subset(source, target),
    ensures
        upcast_of(source, target, value).payload == value.payload,
        upcast_of(source, target, value).variant < target.len(),
        target[upcast_of(source, target, value).variant as int] == source[value.variant as int],
{
    let ty = source[value.variant as int];
    let u = variant_for(target, ty).unwrap();
    assert(is_first_with(target, ty, u));
}

} // verus!
