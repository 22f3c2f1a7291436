use vstd::prelude::*;
use crate::ids::{ShapeId, FieldId, ShapeParameterId};
use crate::kinds::ShapeKind;

verus! {

/// A command emitted by the planner. Commands mirror the events by name and
/// are consumed by an external validator; the engine never applies its own
/// commands.
#[derive(Clone, Debug, PartialEq, Eq)]
pub enum ShapeCommand {
    AddShape { shape_id: ShapeId, base_shape_kind: ShapeKind, name: String },
    SetParameterShape {
        shape_id: ShapeId,
        shape_parameter_id: ShapeParameterId,
        provider_shape_id: ShapeId,
    },
    SetFieldShape { field_id: FieldId, shape_id: ShapeId },
    RemoveField { field_id: FieldId },
}

#[verifier::ext_equal]
pub enum ShapeCommandView {
    AddShape { shape_id: Seq<char>, base_shape_kind: ShapeKind, name: Seq<char> },
    SetParameterShape {
        shape_id: Seq<char>,
        shape_parameter_id: Seq<char>,
        provider_shape_id: Seq<char>,
    },
    SetFieldShape { field_id: Seq<char>, shape_id: Seq<char> },
    RemoveField { field_id: Seq<char> },
}

impl View for ShapeCommand {
    type V = ShapeCommandView;

    open spec fn view(&self) -> ShapeCommandView {
        match self {
            ShapeCommand::AddShape { shape_id, base_shape_kind, name } => {
                ShapeCommandView::AddShape {
                    shape_id: shape_id@,
                    base_shape_kind: *base_shape_kind,
                    name: name@,
                }
            },
            ShapeCommand::SetParameterShape {
                shape_id,
                shape_parameter_id,
                provider_shape_id,
            } => ShapeCommandView::SetParameterShape {
                shape_id: shape_id@,
                shape_parameter_id: shape_parameter_id@,
                provider_shape_id: provider_shape_id@,
            },
            ShapeCommand::SetFieldShape { field_id, shape_id } => ShapeCommandView::SetFieldShape {
                field_id: field_id@,
                shape_id: shape_id@,
            },
            ShapeCommand::RemoveField { field_id } => ShapeCommandView::RemoveField {
                field_id: field_id@,
            },
        }
    }
}

impl ShapeCommand {
    /// Command that adds a new shape of a built-in kind.
    pub fn add_shape(shape_id: ShapeId, base_shape_kind: ShapeKind, name: String) -> (r:
        ShapeCommand)
        ensures
            r@ == (ShapeCommandView::AddShape {
                shape_id: shape_id@,
                base_shape_kind,
                name: name@,
            }),
    {
        ShapeCommand::AddShape { shape_id, base_shape_kind, name }
    }

    /// Command that binds a shape into a parameter slot of another shape.
    pub fn set_parameter_shape(
        shape_id: ShapeId,
        shape_parameter_id: ShapeParameterId,
        provider_shape_id: ShapeId,
    ) -> (r: ShapeCommand)
        ensures
            r@ == (ShapeCommandView::SetParameterShape {
                shape_id: shape_id@,
                shape_parameter_id: shape_parameter_id@,
                provider_shape_id: provider_shape_id@,
            }),
    {
        ShapeCommand::SetParameterShape { shape_id, shape_parameter_id, provider_shape_id }
    }

    /// Command that rebinds a field to a shape.
    pub fn set_field_shape(field_id: FieldId, shape_id: ShapeId) -> (r: ShapeCommand)
        ensures
            r@ == (ShapeCommandView::SetFieldShape { field_id: field_id@, shape_id: shape_id@ }),
    {
        ShapeCommand::SetFieldShape { field_id, shape_id }
    }

    /// Command that removes a field.
    pub fn remove_field(field_id: FieldId) -> (r: ShapeCommand)
        ensures
            r@ == (ShapeCommandView::RemoveField { field_id: field_id@ }),
    {
        ShapeCommand::RemoveField { field_id }
    }
}

} // verus!
