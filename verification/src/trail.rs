use vstd::prelude::*;
use crate::ids::{ShapeId, FieldId, ShapeParameterId};

verus! {

/// One step of a trail: which wrapper, field or item position the path
/// passes through. A trail is purely descriptive data and holds no graph
/// references.
#[derive(Clone, Debug, PartialEq, Eq)]
pub enum ShapeTrailPathComponent {
    ObjectTrail { shape_id: ShapeId },
    ObjectFieldTrail {
        field_id: FieldId,
        field_shape_id: ShapeId,
        parent_object_shape_id: ShapeId,
    },
    ListItemTrail { list_shape_id: ShapeId, item_shape_id: ShapeId },
    NullableTrail { shape_id: ShapeId },
    NullableItemTrail { shape_id: ShapeId, inner_shape_id: ShapeId },
    OptionalTrail { shape_id: ShapeId },
    OptionalItemTrail { shape_id: ShapeId, inner_shape_id: ShapeId },
    OneOfTrail { shape_id: ShapeId },
    OneOfItemTrail { one_of_id: ShapeId, parameter_id: ShapeParameterId, item_shape_id: ShapeId },
}

/// A path through a shape tree, rooted at a shape identifier.
#[derive(Clone, Debug, PartialEq, Eq)]
pub struct ShapeTrail {
    pub root_shape_id: ShapeId,
    pub path: Vec<ShapeTrailPathComponent>,
}

pub enum PathComponentView {
    ObjectTrail { shape_id: Seq<char> },
    ObjectFieldTrail {
        field_id: Seq<char>,
        field_shape_id: Seq<char>,
        parent_object_shape_id: Seq<char>,
    },
    ListItemTrail { list_shape_id: Seq<char>, item_shape_id: Seq<char> },
    NullableTrail { shape_id: Seq<char> },
    NullableItemTrail { shape_id: Seq<char>, inner_shape_id: Seq<char> },
    OptionalTrail { shape_id: Seq<char> },
    OptionalItemTrail { shape_id: Seq<char>, inner_shape_id: Seq<char> },
    OneOfTrail { shape_id: Seq<char> },
    OneOfItemTrail {
        one_of_id: Seq<char>,
        parameter_id: Seq<char>,
        item_shape_id: Seq<char>,
    },
}

#[verifier::ext_equal]
pub struct TrailView {
    pub root_shape_id: Seq<char>,
    pub path: Seq<PathComponentView>,
}

impl View for ShapeTrailPathComponent {
    type V = PathComponentView;

    open spec fn view(&self) -> PathComponentView {
        match self {
            ShapeTrailPathComponent::ObjectTrail { shape_id } => PathComponentView::ObjectTrail {
                shape_id: shape_id@,
            },
            ShapeTrailPathComponent::ObjectFieldTrail {
                field_id,
                field_shape_id,
                parent_object_shape_id,
            } => PathComponentView::ObjectFieldTrail {
                field_id: field_id@,
                field_shape_id: field_shape_id@,
                parent_object_shape_id: parent_object_shape_id@,
            },
            ShapeTrailPathComponent::ListItemTrail {
                list_shape_id,
                item_shape_id,
            } => PathComponentView::ListItemTrail {
                list_shape_id: list_shape_id@,
                item_shape_id: item_shape_id@,
            },
            ShapeTrailPathComponent::NullableTrail { shape_id } => PathComponentView::NullableTrail {
                shape_id: shape_id@,
            },
            ShapeTrailPathComponent::NullableItemTrail {
                shape_id,
                inner_shape_id,
            } => PathComponentView::NullableItemTrail {
                shape_id: shape_id@,
                inner_shape_id: inner_shape_id@,
            },
            ShapeTrailPathComponent::OptionalTrail { shape_id } => PathComponentView::OptionalTrail {
                shape_id: shape_id@,
            },
            ShapeTrailPathComponent::OptionalItemTrail {
                shape_id,
                inner_shape_id,
            } => PathComponentView::OptionalItemTrail {
                shape_id: shape_id@,
                inner_shape_id: inner_shape_id@,
            },
            ShapeTrailPathComponent::OneOfTrail { shape_id } => PathComponentView::OneOfTrail {
                shape_id: shape_id@,
            },
            ShapeTrailPathComponent::OneOfItemTrail {
                one_of_id,
                parameter_id,
                item_shape_id,
            } => PathComponentView::OneOfItemTrail {
                one_of_id: one_of_id@,
                parameter_id: parameter_id@,
                item_shape_id: item_shape_id@,
            },
        }
    }
}

impl View for ShapeTrail {
    type V = TrailView;

    open spec fn view(&self) -> TrailView {
        TrailView {
            root_shape_id: self.root_shape_id@,
            path: self.path@.map_values(|c: ShapeTrailPathComponent| c@),
        }
    }
}

/// Whether the trail names a field position: its last component is an
/// `ObjectFieldTrail`.
pub open spec fn spec_is_field(t: TrailView) -> bool {
    t.path.len() > 0 && t.path.last() is ObjectFieldTrail
}

/// The field identifier at the tip of a field trail.
pub open spec fn spec_last_field_id(t: TrailView) -> Option<Seq<char>> {
    if t.path.len() == 0 {
        None
    } else {
        match t.path.last() {
            PathComponentView::ObjectFieldTrail { field_id, .. } => Some(field_id),
            _ => None,
        }
    }
}

impl ShapeTrailPathComponent {
    /// A structural copy of the component.
    pub fn duplicate(&self) -> (r: ShapeTrailPathComponent)
        ensures
            r@ == self@,
    {
        match self {
            ShapeTrailPathComponent::ObjectTrail { shape_id } => {
                ShapeTrailPathComponent::ObjectTrail { shape_id: shape_id.clone() }
            },
            ShapeTrailPathComponent::ObjectFieldTrail {
                field_id,
                field_shape_id,
                parent_object_shape_id,
            } => ShapeTrailPathComponent::ObjectFieldTrail {
                field_id: field_id.clone(),
                field_shape_id: field_shape_id.clone(),
                parent_object_shape_id: parent_object_shape_id.clone(),
            },
            ShapeTrailPathComponent::ListItemTrail {
                list_shape_id,
                item_shape_id,
            } => ShapeTrailPathComponent::ListItemTrail {
                list_shape_id: list_shape_id.clone(),
                item_shape_id: item_shape_id.clone(),
            },
            ShapeTrailPathComponent::NullableTrail { shape_id } => {
                ShapeTrailPathComponent::NullableTrail { shape_id: shape_id.clone() }
            },
            ShapeTrailPathComponent::NullableItemTrail {
                shape_id,
                inner_shape_id,
            } => ShapeTrailPathComponent::NullableItemTrail {
                shape_id: shape_id.clone(),
                inner_shape_id: inner_shape_id.clone(),
            },
            ShapeTrailPathComponent::OptionalTrail { shape_id } => {
                ShapeTrailPathComponent::OptionalTrail { shape_id: shape_id.clone() }
            },
            ShapeTrailPathComponent::OptionalItemTrail {
                shape_id,
                inner_shape_id,
            } => ShapeTrailPathComponent::OptionalItemTrail {
                shape_id: shape_id.clone(),
                inner_shape_id: inner_shape_id.clone(),
            },
            ShapeTrailPathComponent::OneOfTrail { shape_id } => {
                ShapeTrailPathComponent::OneOfTrail { shape_id: shape_id.clone() }
            },
            ShapeTrailPathComponent::OneOfItemTrail {
                one_of_id,
                parameter_id,
                item_shape_id,
            } => ShapeTrailPathComponent::OneOfItemTrail {
                one_of_id: one_of_id.clone(),
                parameter_id: parameter_id.clone(),
                item_shape_id: item_shape_id.clone(),
            },
        }
    }
}

impl ShapeTrail {
    /// A trail that names the root shape itself.
    pub fn new(root_shape_id: ShapeId) -> (r: ShapeTrail)
        ensures
            r@.root_shape_id == root_shape_id@,
            r@.path.len() == 0,
    {
        ShapeTrail { root_shape_id, path: Vec::new() }
    }

    /// A structural copy of the trail.
    pub fn duplicate(&self) -> (r: ShapeTrail)
        ensures
            r@ == self@,
    {
        let mut path: Vec<ShapeTrailPathComponent> = Vec::new();
        let n = self.path.len();
        let mut i: usize = 0;
        while i < n
            invariant
                0 <= i <= n,
                n == self.path.len(),
                path@.len() == i,
                forall|j: int| 0 <= j < i ==> path@[j]@ == self@.path[j],
            decreases n - i,
        {
            path.push(self.path[i].duplicate());
            i = i + 1;
        }
        let r = ShapeTrail { root_shape_id: self.root_shape_id.clone(), path };
        proof {
            assert(r@.path =~= self@.path);
        }
        r
    }

    /// The trail extended by one more component.
    pub fn with_component(&self, component: ShapeTrailPathComponent) -> (r: ShapeTrail)
        ensures
            r@.root_shape_id == self@.root_shape_id,
            r@.path == self@.path.push(component@),
    {
        let mut r = self.duplicate();
        r.path.push(component);
        proof {
            assert(r@.path =~= self@.path.push(component@));
        }
        r
    }

    /// Whether the trail names a field position.
    pub fn is_field(&self) -> (r: bool)
        ensures
            r == spec_is_field(self@),
    {
        if self.path.len() == 0 {
            return false;
        }
        match &self.path[self.path.len() - 1] {
            ShapeTrailPathComponent::ObjectFieldTrail { .. } => true,
            _ => false,
        }
    }

    /// The field identifier at the tip of a field trail.
    pub fn last_field_id(&self) -> (r: Option<&FieldId>)
        ensures
            match r {
                Some(id) => spec_last_field_id(self@) == Some(id@),
                None => spec_last_field_id(self@) is None,
            },
    {
        if self.path.len() == 0 {
            return None;
        }
        match &self.path[self.path.len() - 1] {
            ShapeTrailPathComponent::ObjectFieldTrail { field_id, .. } => Some(field_id),
            _ => None,
        }
    }
}

} // verus!
