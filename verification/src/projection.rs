use vstd::prelude::*;
use crate::ids::{ShapeId, FieldId, ShapeParameterId};
use crate::kinds::ShapeKind;

verus! {

// ---------------------------------------------------------------------------
// Nodes and edges of the shape graph.
// ---------------------------------------------------------------------------

/// The canonical node of a built-in kind; every user shape descends from
/// exactly one core shape.
pub struct CoreShapeNode {
    pub kind: ShapeKind,
}

/// A user-defined shape instance.
pub struct ShapeNode {
    pub shape_id: ShapeId,
}

/// A named member of an object shape. Removal tombstones the node so that
/// its identifier stays taken for the lifetime of the graph.
pub struct FieldNode {
    pub field_id: FieldId,
    pub name: String,
    pub removed: bool,
}

/// A parameter slot a parameterized shape exposes.
pub struct ShapeParameterNode {
    pub parameter_id: ShapeParameterId,
}

/// A provenance marker; inert for every query.
pub struct BatchCommitNode {
    pub batch_id: String,
}

/// A node of the shape graph.
pub enum Node {
    CoreShape(CoreShapeNode),
    Shape(ShapeNode),
    Field(FieldNode),
    ShapeParameter(ShapeParameterNode),
    BatchCommit(BatchCommitNode),
}

/// Payload of a `HasBinding` edge: the shape currently bound into the
/// parameter slot the edge points at.
pub struct HasBindingDescriptor {
    pub shape_id: ShapeId,
}

/// An edge of the shape graph.
pub enum Edge {
    /// Shape -> CoreShape: the shape's canonical ancestor.
    IsDescendantOf,
    /// Field -> Shape: the object shape the field is declared on.
    IsFieldOf,
    /// Shape -> Field: the shape is the type currently bound to the field.
    BelongsTo,
    /// Shape -> ShapeParameter: the parameter is bound to the carried shape.
    HasBinding(HasBindingDescriptor),
}

/// A directed edge together with the indices of its endpoints. Edges are
/// kept in insertion order; iteration order over them is semantically
/// meaningful (it drives choice enumeration).
pub struct GraphEdge {
    pub from: usize,
    pub to: usize,
    pub edge: Edge,
}

/// The shape graph projection: an owned node arena plus an edge list in
/// insertion order. The projection is derived state, only mutated by event
/// application.
pub struct ShapeProjection {
    pub nodes: Vec<Node>,
    pub edges: Vec<GraphEdge>,
}

// ---------------------------------------------------------------------------
// Mathematical model.
// ---------------------------------------------------------------------------

pub enum NodeView {
    CoreShape { kind: ShapeKind },
    Shape { shape_id: Seq<char> },
    Field { field_id: Seq<char>, name: Seq<char>, removed: bool },
    ShapeParameter { parameter_id: Seq<char> },
    BatchCommit { batch_id: Seq<char> },
}

pub enum EdgeKindView {
    IsDescendantOf,
    IsFieldOf,
    BelongsTo,
    HasBinding { shape_id: Seq<char> },
}

pub struct EdgeView {
    pub from: int,
    pub to: int,
    pub edge: EdgeKindView,
}

pub struct ProjectionView {
    pub nodes: Seq<NodeView>,
    pub edges: Seq<EdgeView>,
}

impl View for Node {
    type V = NodeView;

    open spec fn view(&self) -> NodeView {
        match self {
            Node::CoreShape(n) => NodeView::CoreShape { kind: n.kind },
            Node::Shape(n) => NodeView::Shape { shape_id: n.shape_id@ },
            Node::Field(n) => NodeView::Field {
                field_id: n.field_id@,
                name: n.name@,
                removed: n.removed,
            },
            Node::ShapeParameter(n) => NodeView::ShapeParameter { parameter_id: n.parameter_id@ },
            Node::BatchCommit(n) => NodeView::BatchCommit { batch_id: n.batch_id@ },
        }
    }
}

impl View for GraphEdge {
    type V = EdgeView;

    open spec fn view(&self) -> EdgeView {
        EdgeView {
            from: self.from as int,
            to: self.to as int,
            edge: match &self.edge {
                Edge::IsDescendantOf => EdgeKindView::IsDescendantOf,
                Edge::IsFieldOf => EdgeKindView::IsFieldOf,
                Edge::BelongsTo => EdgeKindView::BelongsTo,
                Edge::HasBinding(b) => EdgeKindView::HasBinding { shape_id: b.shape_id@ },
            },
        }
    }
}

impl View for ShapeProjection {
    type V = ProjectionView;

    open spec fn view(&self) -> ProjectionView {
        ProjectionView {
            nodes: self.nodes@.map_values(|n: Node| n@),
            edges: self.edges@.map_values(|e: GraphEdge| e@),
        }
    }
}

// ---------------------------------------------------------------------------
// Node classification helpers.
// ---------------------------------------------------------------------------

pub open spec fn is_shape_with_id(n: NodeView, id: Seq<char>) -> bool {
    match n {
        NodeView::Shape { shape_id } => shape_id == id,
        _ => false,
    }
}

pub open spec fn is_field_with_id(n: NodeView, id: Seq<char>) -> bool {
    match n {
        NodeView::Field { field_id, .. } => field_id == id,
        _ => false,
    }
}

pub open spec fn is_param_with_id(n: NodeView, id: Seq<char>) -> bool {
    match n {
        NodeView::ShapeParameter { parameter_id } => parameter_id == id,
        _ => false,
    }
}

pub open spec fn is_core_with_kind(n: NodeView, kind: ShapeKind) -> bool {
    match n {
        NodeView::CoreShape { kind: k } => k == kind,
        _ => false,
    }
}

/// The identifier a node carries, tagged by its namespace, or `None` for
/// nodes that are not addressed by identifier.
pub open spec fn node_id_key(n: NodeView) -> Option<(int, Seq<char>)> {
    match n {
        NodeView::Shape { shape_id } => Some((0, shape_id)),
        NodeView::Field { field_id, .. } => Some((1, field_id)),
        NodeView::ShapeParameter { parameter_id } => Some((2, parameter_id)),
        _ => None,
    }
}

// ---------------------------------------------------------------------------
// Well-formedness: the graph invariants.
// ---------------------------------------------------------------------------

/// One edge is well-typed: its endpoints exist and match its variant's
/// domain and codomain.
pub open spec fn edge_wf(nodes: Seq<NodeView>, e: EdgeView) -> bool {
    &&& 0 <= e.from < nodes.len()
    &&& 0 <= e.to < nodes.len()
    &&& match e.edge {
        EdgeKindView::IsDescendantOf => nodes[e.from] is Shape && nodes[e.to] is CoreShape,
        EdgeKindView::IsFieldOf => nodes[e.from] is Field && nodes[e.to] is Shape,
        EdgeKindView::BelongsTo => nodes[e.from] is Shape && nodes[e.to] is Field,
        EdgeKindView::HasBinding { .. } => nodes[e.from] is Shape
            && nodes[e.to] is ShapeParameter,
    }
}

impl ProjectionView {
    /// Every edge is well-typed.
    pub open spec fn edges_wf(self) -> bool {
        forall|k: int| 0 <= k < self.edges.len() ==> edge_wf(self.nodes, #[trigger] self.edges[k])
    }

    /// Every shape node has an `IsDescendantOf` edge (its core ancestor).
    pub open spec fn shapes_have_core(self) -> bool {
        forall|i: int|
            0 <= i < self.nodes.len() && #[trigger] self.nodes[i] is Shape ==> exists|k: int|
                0 <= k < self.edges.len() && (#[trigger] self.edges[k]).from == i
                    && self.edges[k].edge is IsDescendantOf
    }

    /// No shape node has two `IsDescendantOf` edges.
    pub open spec fn descendant_unique(self) -> bool {
        forall|k1: int, k2: int|
            #![trigger self.edges[k1], self.edges[k2]]
            0 <= k1 < self.edges.len() && 0 <= k2 < self.edges.len()
                && self.edges[k1].edge is IsDescendantOf && self.edges[k2].edge is IsDescendantOf
                && self.edges[k1].from == self.edges[k2].from ==> k1 == k2
    }

    /// Identifiers are unique within their namespace across the graph.
    pub open spec fn ids_unique(self) -> bool {
        forall|i: int, j: int|
            #![trigger node_id_key(self.nodes[i]), node_id_key(self.nodes[j])]
            0 <= i < self.nodes.len() && 0 <= j < self.nodes.len()
                && node_id_key(self.nodes[i]) is Some
                && node_id_key(self.nodes[i]) == node_id_key(self.nodes[j]) ==> i == j
    }

    /// There is at most one core shape node of each kind.
    pub open spec fn core_kinds_unique(self) -> bool {
        forall|i: int, j: int|
            #![trigger self.nodes[i], self.nodes[j]]
            0 <= i < self.nodes.len() && 0 <= j < self.nodes.len()
                && self.nodes[i] is CoreShape && self.nodes[j] is CoreShape
                && self.nodes[i]->CoreShape_kind == self.nodes[j]->CoreShape_kind ==> i == j
    }

    /// At most one `HasBinding` edge connects a given shape to a given
    /// parameter slot.
    pub open spec fn bindings_unique(self) -> bool {
        forall|k1: int, k2: int|
            #![trigger self.edges[k1], self.edges[k2]]
            0 <= k1 < self.edges.len() && 0 <= k2 < self.edges.len()
                && self.edges[k1].edge is HasBinding && self.edges[k2].edge is HasBinding
                && self.edges[k1].from == self.edges[k2].from
                && self.edges[k1].to == self.edges[k2].to ==> k1 == k2
    }

    /// Every field node has exactly one `IsFieldOf` edge (to its owner).
    pub open spec fn field_owners_wf(self) -> bool {
        &&& forall|i: int|
            0 <= i < self.nodes.len() && #[trigger] self.nodes[i] is Field ==> exists|k: int|
                0 <= k < self.edges.len() && (#[trigger] self.edges[k]).from == i
                    && self.edges[k].edge is IsFieldOf
        &&& forall|k1: int, k2: int|
            #![trigger self.edges[k1], self.edges[k2]]
            0 <= k1 < self.edges.len() && 0 <= k2 < self.edges.len()
                && self.edges[k1].edge is IsFieldOf && self.edges[k2].edge is IsFieldOf
                && self.edges[k1].from == self.edges[k2].from ==> k1 == k2
    }

    /// Every field node has exactly one incoming `BelongsTo` edge (from the
    /// shape that describes its type).
    pub open spec fn field_shapes_wf(self) -> bool {
        &&& forall|i: int|
            0 <= i < self.nodes.len() && #[trigger] self.nodes[i] is Field ==> exists|k: int|
                0 <= k < self.edges.len() && (#[trigger] self.edges[k]).to == i
                    && self.edges[k].edge is BelongsTo
        &&& forall|k1: int, k2: int|
            #![trigger self.edges[k1], self.edges[k2]]
            0 <= k1 < self.edges.len() && 0 <= k2 < self.edges.len()
                && self.edges[k1].edge is BelongsTo && self.edges[k2].edge is BelongsTo
                && self.edges[k1].to == self.edges[k2].to ==> k1 == k2
    }

    /// The graph invariants, maintained by event application and required by
    /// every query.
    pub open spec fn wf(self) -> bool {
        &&& self.edges_wf()
        &&& self.shapes_have_core()
        &&& self.descendant_unique()
        &&& self.ids_unique()
        &&& self.core_kinds_unique()
        &&& self.bindings_unique()
        &&& self.field_owners_wf()
        &&& self.field_shapes_wf()
    }
}

// ---------------------------------------------------------------------------
// Index lookups: first-match searches over the node arena.
// ---------------------------------------------------------------------------

pub open spec fn find_shape_idx_from(nodes: Seq<NodeView>, id: Seq<char>, i: int) -> Option<int>
    decreases nodes.len() - i,
{
    if i < 0 || i >= nodes.len() {
        None
    } else if is_shape_with_id(nodes[i], id) {
        Some(i)
    } else {
        find_shape_idx_from(nodes, id, i + 1)
    }
}

pub open spec fn find_field_idx_from(nodes: Seq<NodeView>, id: Seq<char>, i: int) -> Option<int>
    decreases nodes.len() - i,
{
    if i < 0 || i >= nodes.len() {
        None
    } else if is_field_with_id(nodes[i], id) {
        Some(i)
    } else {
        find_field_idx_from(nodes, id, i + 1)
    }
}

pub open spec fn find_param_idx_from(nodes: Seq<NodeView>, id: Seq<char>, i: int) -> Option<int>
    decreases nodes.len() - i,
{
    if i < 0 || i >= nodes.len() {
        None
    } else if is_param_with_id(nodes[i], id) {
        Some(i)
    } else {
        find_param_idx_from(nodes, id, i + 1)
    }
}

pub open spec fn find_core_idx_from(nodes: Seq<NodeView>, kind: ShapeKind, i: int) -> Option<int>
    decreases nodes.len() - i,
{
    if i < 0 || i >= nodes.len() {
        None
    } else if is_core_with_kind(nodes[i], kind) {
        Some(i)
    } else {
        find_core_idx_from(nodes, kind, i + 1)
    }
}

/// What a successful or failed first-match search over the shape namespace
/// means for the nodes themselves.
pub proof fn lemma_find_shape_ok(nodes: Seq<NodeView>, id: Seq<char>, i: int)
    requires
        0 <= i,
    ensures
        match find_shape_idx_from(nodes, id, i) {
            Some(j) => i <= j < nodes.len() && is_shape_with_id(nodes[j], id) && forall|l: int|
                i <= l < j ==> !is_shape_with_id(#[trigger] nodes[l], id),
            None => forall|l: int|
                i <= l < nodes.len() ==> !is_shape_with_id(#[trigger] nodes[l], id),
        },
    decreases nodes.len() - i,
{
    if i < 0 || i >= nodes.len() {
    } else if is_shape_with_id(nodes[i], id) {
    } else {
        lemma_find_shape_ok(nodes, id, i + 1);
    }
}

/// The field-namespace counterpart of `lemma_find_shape_ok`.
pub proof fn lemma_find_field_ok(nodes: Seq<NodeView>, id: Seq<char>, i: int)
    requires
        0 <= i,
    ensures
        match find_field_idx_from(nodes, id, i) {
            Some(j) => i <= j < nodes.len() && is_field_with_id(nodes[j], id) && forall|l: int|
                i <= l < j ==> !is_field_with_id(#[trigger] nodes[l], id),
            None => forall|l: int|
                i <= l < nodes.len() ==> !is_field_with_id(#[trigger] nodes[l], id),
        },
    decreases nodes.len() - i,
{
    if i < 0 || i >= nodes.len() {
    } else if is_field_with_id(nodes[i], id) {
    } else {
        lemma_find_field_ok(nodes, id, i + 1);
    }
}

/// The parameter-namespace counterpart of `lemma_find_shape_ok`.
pub proof fn lemma_find_param_ok(nodes: Seq<NodeView>, id: Seq<char>, i: int)
    requires
        0 <= i,
    ensures
        match find_param_idx_from(nodes, id, i) {
            Some(j) => i <= j < nodes.len() && is_param_with_id(nodes[j], id) && forall|l: int|
                i <= l < j ==> !is_param_with_id(#[trigger] nodes[l], id),
            None => forall|l: int|
                i <= l < nodes.len() ==> !is_param_with_id(#[trigger] nodes[l], id),
        },
    decreases nodes.len() - i,
{
    if i < 0 || i >= nodes.len() {
    } else if is_param_with_id(nodes[i], id) {
    } else {
        lemma_find_param_ok(nodes, id, i + 1);
    }
}

/// The core-shape counterpart of `lemma_find_shape_ok`.
pub proof fn lemma_find_core_ok(nodes: Seq<NodeView>, kind: ShapeKind, i: int)
    requires
        0 <= i,
    ensures
        match find_core_idx_from(nodes, kind, i) {
            Some(j) => i <= j < nodes.len() && is_core_with_kind(nodes[j], kind) && forall|l: int|
                i <= l < j ==> !is_core_with_kind(#[trigger] nodes[l], kind),
            None => forall|l: int|
                i <= l < nodes.len() ==> !is_core_with_kind(#[trigger] nodes[l], kind),
        },
    decreases nodes.len() - i,
{
    if i < 0 || i >= nodes.len() {
    } else if is_core_with_kind(nodes[i], kind) {
    } else {
        lemma_find_core_ok(nodes, kind, i + 1);
    }
}

impl ProjectionView {
    /// Index of the shape node carrying `id`, if any.
    pub open spec fn shape_idx(self, id: Seq<char>) -> Option<int> {
        find_shape_idx_from(self.nodes, id, 0)
    }

    /// Index of the field node carrying `id` (tombstoned or not), if any.
    pub open spec fn field_idx(self, id: Seq<char>) -> Option<int> {
        find_field_idx_from(self.nodes, id, 0)
    }

    /// Index of the field node carrying `id`, provided it has not been
    /// removed.
    pub open spec fn live_field_idx(self, id: Seq<char>) -> Option<int> {
        match self.field_idx(id) {
            Some(i) => match self.nodes[i] {
                NodeView::Field { removed, .. } => if !removed {
                    Some(i)
                } else {
                    None
                },
                _ => None,
            },
            None => None,
        }
    }

    /// Index of the parameter node carrying `id`, if any.
    pub open spec fn param_idx(self, id: Seq<char>) -> Option<int> {
        find_param_idx_from(self.nodes, id, 0)
    }

    /// Index of the core shape node of `kind`, if any.
    pub open spec fn core_idx(self, kind: ShapeKind) -> Option<int> {
        find_core_idx_from(self.nodes, kind, 0)
    }

    pub open spec fn has_shape(self, id: Seq<char>) -> bool {
        self.shape_idx(id) is Some
    }
}

impl ShapeProjection {
    /// Index of the shape node for a shape identifier.
    pub fn get_shape_node_index(&self, shape_id: &ShapeId) -> (r: Option<usize>)
        ensures
            match r {
                Some(i) => self@.shape_idx(shape_id@) == Some(i as int),
                None => self@.shape_idx(shape_id@) is None,
            },
    {
        let n = self.nodes.len();
        let mut i: usize = 0;
        while i < n
            invariant
                0 <= i <= n,
                n == self.nodes.len(),
                find_shape_idx_from(self@.nodes, shape_id@, 0) == find_shape_idx_from(
                    self@.nodes,
                    shape_id@,
                    i as int,
                ),
            decreases n - i,
        {
            match &self.nodes[i] {
                Node::Shape(s) => {
                    if crate::ids::string_eq(&s.shape_id, shape_id) {
                        return Some(i);
                    }
                }
                _ => {}
            }
            i = i + 1;
        }
        None
    }

    /// Index of the field node for a field identifier, tombstoned or not.
    pub fn get_any_field_node_index(&self, field_id: &FieldId) -> (r: Option<usize>)
        ensures
            match r {
                Some(i) => self@.field_idx(field_id@) == Some(i as int),
                None => self@.field_idx(field_id@) is None,
            },
    {
        let n = self.nodes.len();
        let mut i: usize = 0;
        while i < n
            invariant
                0 <= i <= n,
                n == self.nodes.len(),
                find_field_idx_from(self@.nodes, field_id@, 0) == find_field_idx_from(
                    self@.nodes,
                    field_id@,
                    i as int,
                ),
            decreases n - i,
        {
            match &self.nodes[i] {
                Node::Field(f) => {
                    if crate::ids::string_eq(&f.field_id, field_id) {
                        return Some(i);
                    }
                }
                _ => {}
            }
            i = i + 1;
        }
        None
    }

    /// Index of the field node for a field identifier, unless the field has
    /// been removed.
    pub fn get_field_node_index(&self, field_id: &FieldId) -> (r: Option<usize>)
        ensures
            match r {
                Some(i) => self@.live_field_idx(field_id@) == Some(i as int),
                None => self@.live_field_idx(field_id@) is None,
            },
    {
        proof {
            lemma_find_field_ok(self@.nodes, field_id@, 0);
        }
        match self.get_any_field_node_index(field_id) {
            Some(i) => {
                match &self.nodes[i] {
                    Node::Field(f) => {
                        if f.removed {
                            None
                        } else {
                            Some(i)
                        }
                    }
                    _ => None,
                }
            }
            None => None,
        }
    }

    /// Index of the parameter node for a parameter identifier.
    pub fn get_shape_parameter_node_index(&self, parameter_id: &ShapeParameterId) -> (r: Option<
        usize,
    >)
        ensures
            match r {
                Some(i) => self@.param_idx(parameter_id@) == Some(i as int),
                None => self@.param_idx(parameter_id@) is None,
            },
    {
        let n = self.nodes.len();
        let mut i: usize = 0;
        while i < n
            invariant
                0 <= i <= n,
                n == self.nodes.len(),
                find_param_idx_from(self@.nodes, parameter_id@, 0) == find_param_idx_from(
                    self@.nodes,
                    parameter_id@,
                    i as int,
                ),
            decreases n - i,
        {
            match &self.nodes[i] {
                Node::ShapeParameter(p) => {
                    if crate::ids::string_eq(&p.parameter_id, parameter_id) {
                        return Some(i);
                    }
                }
                _ => {}
            }
            i = i + 1;
        }
        None
    }

    /// Index of the core shape node of a kind.
    pub fn get_core_shape_node_index(&self, kind: ShapeKind) -> (r: Option<usize>)
        ensures
            match r {
                Some(i) => self@.core_idx(kind) == Some(i as int),
                None => self@.core_idx(kind) is None,
            },
    {
        let n = self.nodes.len();
        let mut i: usize = 0;
        while i < n
            invariant
                0 <= i <= n,
                n == self.nodes.len(),
                find_core_idx_from(self@.nodes, kind, 0) == find_core_idx_from(
                    self@.nodes,
                    kind,
                    i as int,
                ),
            decreases n - i,
        {
            match &self.nodes[i] {
                Node::CoreShape(c) => {
                    if c.kind == kind {
                        return Some(i);
                    }
                }
                _ => {}
            }
            i = i + 1;
        }
        None
    }
}

} // verus!
