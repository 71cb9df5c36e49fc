//! The shape of a type declaration, and the rule that decides whether enum
//! casts can be derived for it.

use vstd::prelude::*;

verus! {

/// The fields of one variant.
#[derive(Debug, Clone, PartialEq, Eq)]
pub enum Fields {
    /// `V { a: A, b: B }`. Nothing is derived for such a variant, so nothing
    /// of its fields is kept.
    Named,
    /// `V(A, B)`, with the type of each positional field in order.
    Unnamed(Vec<String>),
    /// `V`
    Unit,
}

/// One variant of an enum declaration.
#[derive(Debug, Clone, PartialEq, Eq)]
pub struct Variant {
    pub name: String,
    pub fields: Fields,
}

/// What kind of item a declaration is.
#[derive(Debug, Clone, PartialEq, Eq)]
pub enum Data {
    Struct,
    /// An enum, with its variants in declaration order.
    Enum(Vec<Variant>),
    Union,
}

/// A type declaration that a derive is applied to.
#[derive(Debug, Clone, PartialEq, Eq)]
pub struct Declaration {
    pub name: String,
    pub data: Data,
}

/// A variant that wraps exactly one payload: its name and the payload's type.
#[derive(Debug, Clone, PartialEq, Eq)]
pub struct VariantInfo {
    pub name: String,
    pub payload_type: String,
}

/// Why nothing can be derived for a declaration.
#[derive(Debug, Clone, Copy, PartialEq, Eq, Structural)]
pub enum ShapeError {
    /// The declaration is not an enum. The whole declaration is at fault.
    NotAnEnum,
    /// The variant at this position does not have exactly one positional
    /// field. Its field list is at fault.
    InvalidVariantShape { variant: usize },
}

/// What a field list is: its kind and, where the fields are positional, the
/// text of each one's type.
pub enum FieldsSpec {
    Named,
    Unnamed(Seq<Seq<char>>),
    Unit,
}

/// What a variant is: the text of its name, and its fields.
pub struct VariantSpec {
    pub name: Seq<char>,
    pub fields: FieldsSpec,
}

/// What kind of item a declaration is and, for an enum, its variants in
/// declaration order.
pub enum DataSpec {
    Struct,
    Enum(Seq<VariantSpec>),
    Union,
}

/// What a declaration is: the text of its name, and its data.
pub struct DeclarationSpec {
    pub name: Seq<char>,
    pub data: DataSpec,
}

/// What a variant info is: the texts of the variant's name and of its
/// payload's type.
pub struct VariantInfoSpec {
    pub name: Seq<char>,
    pub payload_type: Seq<char>,
}

impl View for Fields {
    type V = FieldsSpec;

    open spec fn view(&self) -> FieldsSpec {
        match self {
            Fields::Named => FieldsSpec::Named,
            Fields::Unnamed(types) => FieldsSpec::Unnamed(types@.map_values(|t: String| t@)),
            Fields::Unit => FieldsSpec::Unit,
        }
    }
}

impl View for Variant {
    type V = VariantSpec;

    open spec fn view(&self) -> VariantSpec {
        VariantSpec { name: self.name@, fields: self.fields@ }
    }
}

impl View for Data {
    type V = DataSpec;

    open spec fn view(&self) -> DataSpec {
        match self {
            Data::Struct => DataSpec::Struct,
            Data::Enum(variants) => DataSpec::Enum(variants@.map_values(|v: Variant| v@)),
            Data::Union => DataSpec::Union,
        }
    }
}

impl View for Declaration {
    type V = DeclarationSpec;

    open spec fn view(&self) -> DeclarationSpec {
        DeclarationSpec { name: self.name@, data: self.data@ }
    }
}

impl View for VariantInfo {
    type V = VariantInfoSpec;

    open spec fn view(&self) -> VariantInfoSpec {
        VariantInfoSpec { name: self.name@, payload_type: self.payload_type@ }
    }
}

/// The views of a list of variant infos, in order.
pub open spec fn infos_view(infos: Seq<VariantInfo>) -> Seq<VariantInfoSpec> {
    infos.map_values(|v: VariantInfo| v@)
}

impl FieldsSpec {
    /// Exactly one field, and that one positional.
    pub open spec fn is_single_payload(self) -> bool {
        self matches FieldsSpec::Unnamed(types) && types.len() == 1
    }
}

impl VariantSpec {
    /// The info of a variant with a single payload.
    pub open spec fn info(self) -> VariantInfoSpec
        recommends
            self.fields.is_single_payload(),
    {
        VariantInfoSpec { name: self.name, payload_type: self.fields->Unnamed_0[0] }
    }
}

/// Every variant wraps a single payload.
pub open spec fn all_single_payload(variants: Seq<VariantSpec>) -> bool {
    forall|i: int| 0 <= i < variants.len() ==> (#[trigger] variants[i]).fields.is_single_payload()
}

/// `i` is the position of the first variant that does not wrap a single payload.
pub open spec fn is_first_invalid(variants: Seq<VariantSpec>, i: int) -> bool {
    &&& 0 <= i < variants.len()
    &&& !variants[i].fields.is_single_payload()
    &&& forall|j: int| 0 <= j < i ==> (#[trigger] variants[j]).fields.is_single_payload()
}

/// What validation makes of a declaration: the variant infos in declaration
/// order, or the first fault found. A declaration that is not an enum is
/// rejected before any variant is looked at, and variants are looked at in
/// declaration order.
pub open spec fn variant_infos(decl: DeclarationSpec) -> Result<Seq<VariantInfoSpec>, ShapeError> {
    match decl.data {
        DataSpec::Enum(variants) => {
            if all_single_payload(variants) {
                Ok(variants.map_values(|v: VariantSpec| v.info()))
            } else {
                Err(
                    ShapeError::InvalidVariantShape {
                        variant: (choose|i: int| is_first_invalid(variants, i)) as usize,
                    },
                )
            }
        },
        _ => Err(ShapeError::NotAnEnum),
    }
}

/// At most one position is the first invalid one.
pub proof fn lemma_first_invalid_unique(variants: Seq<VariantSpec>, i: int, j: int)
    requires
        is_first_invalid(variants, i),
        is_first_invalid(variants, j),
    ensures
        i == j,
{
    if i < j {
        assert(variants[i].fields.is_single_payload());
    } else if j < i {
        assert(variants[j].fields.is_single_payload());
    }
}

impl ShapeError {
    /// The text of the diagnostic.
    pub open spec fn message_text(self) -> Seq<char> {
        match self {
            ShapeError::NotAnEnum => "EnumCast can only be derived for enums"@,
            ShapeError::InvalidVariantShape { .. } =>
                "EnumCast can only be derived for enums with a single unnamed field in variants"@,
        }
    }

    /// The human-readable diagnostic for this error.
    pub fn message(&self) -> (text: String)
        ensures
            text@ == self.message_text(),
    {
        match self {
            ShapeError::NotAnEnum => String::from_str("EnumCast can only be derived for enums"),
            ShapeError::InvalidVariantShape { .. } => String::from_str(
                "EnumCast can only be derived for enums with a single unnamed field in variants",
            ),
        }
    }
}

/// Checks that `input` is an enum whose every variant has exactly one
/// positional field, and lists the variants' names and payload types in
/// declaration order.
pub fn get_enum_variant_infos(input: &Declaration) -> (r: Result<Vec<VariantInfo>, ShapeError>)
    ensures
        match r {
            Ok(infos) => variant_infos(input@) == Ok::<Seq<VariantInfoSpec>, ShapeError>(
                infos_view(infos@),
            ),
            Err(e) => variant_infos(input@) == Err::<Seq<VariantInfoSpec>, ShapeError>(e),
        },
        match r {
            Ok(infos) => input@.data matches DataSpec::Enum(variants) && all_single_payload(
                variants,
            ) && infos_view(infos@) == variants.map_values(|v: VariantSpec| v.info()),
            Err(ShapeError::NotAnEnum) => !(input@.data is Enum),
            Err(ShapeError::InvalidVariantShape { variant }) => input@.data matches DataSpec::Enum(
                variants,
            ) && is_first_invalid(variants, variant as int),
        },
{
    let variants = match &input.data {
        Data::Enum(variants) => variants,
        _ => {
            return Err(ShapeError::NotAnEnum);
        },
    };
    let ghost vs = variants@.map_values(|v: Variant| v@);
    let mut variant_info: Vec<VariantInfo> = Vec::new();
    let mut i: usize = 0;
    while i < variants.len()
        invariant
            i <= variants.len(),
            vs == variants@.map_values(|v: Variant| v@),
            input@.data == DataSpec::Enum(vs),
            variant_info@.len() == i,
            forall|j: int| 0 <= j < i ==> (#[trigger] vs[j]).fields.is_single_payload(),
            forall|j: int| 0 <= j < i ==> (#[trigger] variant_info@[j])@ == vs[j].info(),
        decreases variants.len() - i,
    {
        let variant = &variants[i];
        assert(vs[i as int] == variant@);
        let payload_type = match &variant.fields {
            Fields::Unnamed(types) => {
                if types.len() != 1 {
                    proof {
                        lemma_first_invalid_unique(
                            vs,
                            i as int,
                            choose|k: int| is_first_invalid(vs, k),
                        );
                    }
                    return Err(ShapeError::InvalidVariantShape { variant: i });
                }
                types[0].clone()
            },
            Fields::Unit | Fields::Named => {
                proof {
                    lemma_first_invalid_unique(vs, i as int, choose|k: int| is_first_invalid(vs, k));
                }
                return Err(ShapeError::InvalidVariantShape { variant: i });
            },
        };
        variant_info.push(VariantInfo { name: variant.name.clone(), payload_type });
        i += 1;
    }
    assert(infos_view(variant_info@) =~= vs.map_values(|v: VariantSpec| v.info()));
    Ok(variant_info)
}

} // verus!
