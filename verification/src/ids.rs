use vstd::prelude::*;

verus! {

/// Identifier of a user-defined shape. Identifiers are opaque strings: no
/// structure is parsed out of them, they are only compared for equality.
pub type ShapeId = String;

/// Identifier of a named member of an object shape.
pub type FieldId = String;

/// Identifier of a parameter slot that a parameterized shape exposes.
pub type ShapeParameterId = String;

/// String equality, pinned to the views of the two strings.
pub fn string_eq(a: &String, b: &String) -> (r: bool)
    ensures
        r == (a@ == b@),
{
    a.eq(b)
}

} // verus!
