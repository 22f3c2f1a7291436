use vstd::prelude::*;
use vstd::string::StringExecFns;
use crate::ids::{ShapeParameterId, string_eq};

verus! {

/// The closed sum of shape kinds: five primitives and eight combinators.
/// Every user-defined shape descends from exactly one core shape of one of
/// these kinds.
#[derive(Clone, Copy, Debug, PartialEq, Eq, Structural)]
pub enum ShapeKind {
    StringKind,
    NumberKind,
    BooleanKind,
    UnknownKind,
    AnyKind,
    ObjectKind,
    ListKind,
    MapKind,
    NullableKind,
    OptionalKind,
    OneOfKind,
    IdentifierKind,
    ReferenceKind,
}

/// Descriptor of one parameter slot a kind exposes, carrying its well-known
/// parameter identifier (for example `$nullableInner`).
#[derive(Clone, Debug, PartialEq, Eq)]
pub struct ShapeParameterDescriptor {
    pub shape_parameter_id: ShapeParameterId,
}

/// The well-known base shape identifier of a kind, as it appears on the wire
/// (`$string`, `$nullable`, ...).
pub open spec fn spec_base_shape_id(kind: ShapeKind) -> Seq<char> {
    match kind {
        ShapeKind::StringKind => "$string"@,
        ShapeKind::NumberKind => "$number"@,
        ShapeKind::BooleanKind => "$boolean"@,
        ShapeKind::UnknownKind => "$unknown"@,
        ShapeKind::AnyKind => "$any"@,
        ShapeKind::ObjectKind => "$object"@,
        ShapeKind::ListKind => "$list"@,
        ShapeKind::MapKind => "$map"@,
        ShapeKind::NullableKind => "$nullable"@,
        ShapeKind::OptionalKind => "$optional"@,
        ShapeKind::OneOfKind => "$oneOf"@,
        ShapeKind::IdentifierKind => "$identifier"@,
        ShapeKind::ReferenceKind => "$reference"@,
    }
}

/// The kind named by a well-known base shape identifier, if any.
pub open spec fn spec_kind_of_base_id(base: Seq<char>) -> Option<ShapeKind> {
    if base == "$string"@ {
        Some(ShapeKind::StringKind)
    } else if base == "$number"@ {
        Some(ShapeKind::NumberKind)
    } else if base == "$boolean"@ {
        Some(ShapeKind::BooleanKind)
    } else if base == "$unknown"@ {
        Some(ShapeKind::UnknownKind)
    } else if base == "$any"@ {
        Some(ShapeKind::AnyKind)
    } else if base == "$object"@ {
        Some(ShapeKind::ObjectKind)
    } else if base == "$list"@ {
        Some(ShapeKind::ListKind)
    } else if base == "$map"@ {
        Some(ShapeKind::MapKind)
    } else if base == "$nullable"@ {
        Some(ShapeKind::NullableKind)
    } else if base == "$optional"@ {
        Some(ShapeKind::OptionalKind)
    } else if base == "$oneOf"@ {
        Some(ShapeKind::OneOfKind)
    } else if base == "$identifier"@ {
        Some(ShapeKind::IdentifierKind)
    } else if base == "$reference"@ {
        Some(ShapeKind::ReferenceKind)
    } else {
        None
    }
}

/// The well-known parameter identifiers a kind declares, in order.
pub open spec fn spec_parameter_ids(kind: ShapeKind) -> Seq<Seq<char>> {
    match kind {
        ShapeKind::NullableKind => seq!["$nullableInner"@],
        ShapeKind::OptionalKind => seq!["$optionalInner"@],
        ShapeKind::ListKind => seq!["$listItem"@],
        ShapeKind::MapKind => seq!["$mapKey"@, "$mapValue"@],
        _ => Seq::empty(),
    }
}

/// The parameter identifier of a unary combinator, if the kind has one.
pub open spec fn spec_primary_parameter_id(kind: ShapeKind) -> Option<Seq<char>> {
    match kind {
        ShapeKind::NullableKind => Some("$nullableInner"@),
        ShapeKind::OptionalKind => Some("$optionalInner"@),
        ShapeKind::ListKind => Some("$listItem"@),
        ShapeKind::MapKind => Some("$mapValue"@),
        _ => None,
    }
}

/// Whether the kind combines other shapes rather than standing on its own.
pub open spec fn spec_is_combinator(kind: ShapeKind) -> bool {
    match kind {
        ShapeKind::NullableKind
        | ShapeKind::OptionalKind
        | ShapeKind::OneOfKind
        | ShapeKind::ListKind
        | ShapeKind::MapKind => true,
        _ => false,
    }
}

impl ShapeKind {
    /// The base shape identifier of this kind, as used on the wire.
    pub fn base_shape_id(&self) -> (r: String)
        ensures
            r@ == spec_base_shape_id(*self),
    {
        match self {
            ShapeKind::StringKind => String::from_str("$string"),
            ShapeKind::NumberKind => String::from_str("$number"),
            ShapeKind::BooleanKind => String::from_str("$boolean"),
            ShapeKind::UnknownKind => String::from_str("$unknown"),
            ShapeKind::AnyKind => String::from_str("$any"),
            ShapeKind::ObjectKind => String::from_str("$object"),
            ShapeKind::ListKind => String::from_str("$list"),
            ShapeKind::MapKind => String::from_str("$map"),
            ShapeKind::NullableKind => String::from_str("$nullable"),
            ShapeKind::OptionalKind => String::from_str("$optional"),
            ShapeKind::OneOfKind => String::from_str("$oneOf"),
            ShapeKind::IdentifierKind => String::from_str("$identifier"),
            ShapeKind::ReferenceKind => String::from_str("$reference"),
        }
    }

    /// The kind a base shape identifier names, if it is one of the
    /// well-known base identifiers.
    pub fn from_base_shape_id(base: &String) -> (r: Option<ShapeKind>)
        ensures
            r == spec_kind_of_base_id(base@),
    {
        if string_eq(base, &String::from_str("$string")) {
            Some(ShapeKind::StringKind)
        } else if string_eq(base, &String::from_str("$number")) {
            Some(ShapeKind::NumberKind)
        } else if string_eq(base, &String::from_str("$boolean")) {
            Some(ShapeKind::BooleanKind)
        } else if string_eq(base, &String::from_str("$unknown")) {
            Some(ShapeKind::UnknownKind)
        } else if string_eq(base, &String::from_str("$any")) {
            Some(ShapeKind::AnyKind)
        } else if string_eq(base, &String::from_str("$object")) {
            Some(ShapeKind::ObjectKind)
        } else if string_eq(base, &String::from_str("$list")) {
            Some(ShapeKind::ListKind)
        } else if string_eq(base, &String::from_str("$map")) {
            Some(ShapeKind::MapKind)
        } else if string_eq(base, &String::from_str("$nullable")) {
            Some(ShapeKind::NullableKind)
        } else if string_eq(base, &String::from_str("$optional")) {
            Some(ShapeKind::OptionalKind)
        } else if string_eq(base, &String::from_str("$oneOf")) {
            Some(ShapeKind::OneOfKind)
        } else if string_eq(base, &String::from_str("$identifier")) {
            Some(ShapeKind::IdentifierKind)
        } else if string_eq(base, &String::from_str("$reference")) {
            Some(ShapeKind::ReferenceKind)
        } else {
            None
        }
    }

    /// The parameter descriptors this kind declares, in declaration order.
    pub fn parameter_descriptors(&self) -> (r: Vec<ShapeParameterDescriptor>)
        ensures
            r@.len() == spec_parameter_ids(*self).len(),
            forall|i: int|
                0 <= i < r@.len() ==> r@[i].shape_parameter_id@ == spec_parameter_ids(*self)[i],
    {
        let mut out: Vec<ShapeParameterDescriptor> = Vec::new();
        match self {
            ShapeKind::NullableKind => {
                out.push(ShapeParameterDescriptor {
                    shape_parameter_id: String::from_str("$nullableInner"),
                });
            }
            ShapeKind::OptionalKind => {
                out.push(ShapeParameterDescriptor {
                    shape_parameter_id: String::from_str("$optionalInner"),
                });
            }
            ShapeKind::ListKind => {
                out.push(ShapeParameterDescriptor {
                    shape_parameter_id: String::from_str("$listItem"),
                });
            }
            ShapeKind::MapKind => {
                out.push(ShapeParameterDescriptor {
                    shape_parameter_id: String::from_str("$mapKey"),
                });
                out.push(ShapeParameterDescriptor {
                    shape_parameter_id: String::from_str("$mapValue"),
                });
            }
            _ => {}
        }
        out
    }

    /// The parameter descriptor of a unary combinator (nullable, optional,
    /// list, map), and `None` for every other kind.
    pub fn primary_parameter_descriptor(&self) -> (r: Option<ShapeParameterDescriptor>)
        ensures
            match r {
                Some(d) => spec_primary_parameter_id(*self) == Some(d.shape_parameter_id@),
                None => spec_primary_parameter_id(*self) is None,
            },
    {
        match self {
            ShapeKind::NullableKind => Some(ShapeParameterDescriptor {
                shape_parameter_id: String::from_str("$nullableInner"),
            }),
            ShapeKind::OptionalKind => Some(ShapeParameterDescriptor {
                shape_parameter_id: String::from_str("$optionalInner"),
            }),
            ShapeKind::ListKind => Some(ShapeParameterDescriptor {
                shape_parameter_id: String::from_str("$listItem"),
            }),
            ShapeKind::MapKind => Some(ShapeParameterDescriptor {
                shape_parameter_id: String::from_str("$mapValue"),
            }),
            _ => None,
        }
    }

    /// Whether this kind is a combinator (nullable, optional, one-of, list,
    /// map).
    pub fn is_combinator(&self) -> (r: bool)
        ensures
            r == spec_is_combinator(*self),
    {
        match self {
            ShapeKind::NullableKind
            | ShapeKind::OptionalKind
            | ShapeKind::OneOfKind
            | ShapeKind::ListKind
            | ShapeKind::MapKind => true,
            _ => false,
        }
    }
}

} // verus!
