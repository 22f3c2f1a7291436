use vstd::prelude::*;
use vstd::string::StringExecFns;
use crate::ids::{ShapeId, FieldId, ShapeParameterId};
use crate::kinds::{ShapeKind, spec_kind_of_base_id};
use crate::projection::{
    CoreShapeNode, Edge, EdgeView, EdgeKindView, FieldNode, GraphEdge, HasBindingDescriptor, Node,
    NodeView, ProjectionView, ShapeNode, ShapeParameterNode, ShapeProjection, edge_wf,
    is_core_with_kind, is_shape_with_id, node_id_key, lemma_find_shape_ok, lemma_find_field_ok, lemma_find_param_ok,
    lemma_find_core_ok,
};

verus! {

// ---------------------------------------------------------------------------
// Events: the only way the projection changes.
// ---------------------------------------------------------------------------

/// An event consumed by the projection. Nodes and edges are created by
/// applying events in order; queries never mutate the graph.
pub enum ShapeEvent {
    /// A user shape was added, descending from the core shape that
    /// `base_shape_id` names (`$string`, `$object`, ...).
    ShapeAdded { shape_id: ShapeId, base_shape_id: String, name: String },
    /// A parameter slot was declared on a shape (used by one-of shapes,
    /// whose parameters are user-added).
    ShapeParameterAdded { shape_id: ShapeId, shape_parameter_id: ShapeParameterId, name: String },
    /// The shape `provider_shape_id` was bound into the parameter slot
    /// `consuming_parameter_id` of `shape_id`.
    ShapeParameterShapeSet {
        shape_id: ShapeId,
        consuming_parameter_id: ShapeParameterId,
        provider_shape_id: ShapeId,
    },
    /// A field named `name` was added to the object shape `shape_id`, typed
    /// by `field_shape_id`.
    FieldAdded { field_id: FieldId, shape_id: ShapeId, name: String, field_shape_id: ShapeId },
    /// The field was removed; its node is tombstoned so the identifier stays
    /// taken.
    FieldRemoved { field_id: FieldId },
}

pub enum ShapeEventView {
    ShapeAdded { shape_id: Seq<char>, base_shape_id: Seq<char>, name: Seq<char> },
    ShapeParameterAdded {
        shape_id: Seq<char>,
        shape_parameter_id: Seq<char>,
        name: Seq<char>,
    },
    ShapeParameterShapeSet {
        shape_id: Seq<char>,
        consuming_parameter_id: Seq<char>,
        provider_shape_id: Seq<char>,
    },
    FieldAdded {
        field_id: Seq<char>,
        shape_id: Seq<char>,
        name: Seq<char>,
        field_shape_id: Seq<char>,
    },
    FieldRemoved { field_id: Seq<char> },
}

impl View for ShapeEvent {
    type V = ShapeEventView;

    open spec fn view(&self) -> ShapeEventView {
        match self {
            ShapeEvent::ShapeAdded { shape_id, base_shape_id, name } => ShapeEventView::ShapeAdded {
                shape_id: shape_id@,
                base_shape_id: base_shape_id@,
                name: name@,
            },
            ShapeEvent::ShapeParameterAdded {
                shape_id,
                shape_parameter_id,
                name,
            } => ShapeEventView::ShapeParameterAdded {
                shape_id: shape_id@,
                shape_parameter_id: shape_parameter_id@,
                name: name@,
            },
            ShapeEvent::ShapeParameterShapeSet {
                shape_id,
                consuming_parameter_id,
                provider_shape_id,
            } => ShapeEventView::ShapeParameterShapeSet {
                shape_id: shape_id@,
                consuming_parameter_id: consuming_parameter_id@,
                provider_shape_id: provider_shape_id@,
            },
            ShapeEvent::FieldAdded {
                field_id,
                shape_id,
                name,
                field_shape_id,
            } => ShapeEventView::FieldAdded {
                field_id: field_id@,
                shape_id: shape_id@,
                name: name@,
                field_shape_id: field_shape_id@,
            },
            ShapeEvent::FieldRemoved { field_id } => ShapeEventView::FieldRemoved {
                field_id: field_id@,
            },
        }
    }
}

// ---------------------------------------------------------------------------
// Binding-edge search.
// ---------------------------------------------------------------------------

/// First `HasBinding` edge from node `from` to node `to`, searching from
/// position `k`.
pub open spec fn find_binding_edge_from(edges: Seq<EdgeView>, from: int, to: int, k: int) -> Option<
    int,
>
    decreases edges.len() - k,
{
    if k < 0 || k >= edges.len() {
        None
    } else if edges[k].from == from && edges[k].to == to && edges[k].edge is HasBinding {
        Some(k)
    } else {
        find_binding_edge_from(edges, from, to, k + 1)
    }
}

pub proof fn lemma_find_binding_edge_ok(edges: Seq<EdgeView>, from: int, to: int, k: int)
    requires
        0 <= k,
    ensures
        match find_binding_edge_from(edges, from, to, k) {
            Some(j) => k <= j < edges.len() && edges[j].from == from && edges[j].to == to
                && edges[j].edge is HasBinding,
            None => forall|l: int|
                k <= l < edges.len() ==> !((#[trigger] edges[l]).from == from && edges[l].to == to
                    && edges[l].edge is HasBinding),
        },
    decreases edges.len() - k,
{
    if k < 0 || k >= edges.len() {
    } else if edges[k].from == from && edges[k].to == to && edges[k].edge is HasBinding {
    } else {
        lemma_find_binding_edge_ok(edges, from, to, k + 1);
    }
}

// ---------------------------------------------------------------------------
// Validity and meaning of one event.
// ---------------------------------------------------------------------------

/// Whether the projection accepts the event: referenced nodes exist and new
/// identifiers are unused in their namespace.
pub open spec fn event_valid(p: ProjectionView, e: ShapeEventView) -> bool {
    match e {
        ShapeEventView::ShapeAdded { shape_id, base_shape_id, .. } => {
            &&& p.shape_idx(shape_id) is None
            &&& match spec_kind_of_base_id(base_shape_id) {
                Some(kind) => p.core_idx(kind) is Some,
                None => false,
            }
        },
        ShapeEventView::ShapeParameterAdded { shape_id, shape_parameter_id, .. } => {
            &&& p.param_idx(shape_parameter_id) is None
            &&& p.shape_idx(shape_id) is Some
        },
        ShapeEventView::ShapeParameterShapeSet {
            shape_id,
            consuming_parameter_id,
            provider_shape_id,
        } => {
            &&& p.shape_idx(shape_id) is Some
            &&& p.param_idx(consuming_parameter_id) is Some
            &&& p.shape_idx(provider_shape_id) is Some
        },
        ShapeEventView::FieldAdded { field_id, shape_id, field_shape_id, .. } => {
            &&& p.field_idx(field_id) is None
            &&& p.shape_idx(shape_id) is Some
            &&& p.shape_idx(field_shape_id) is Some
        },
        ShapeEventView::FieldRemoved { field_id } => p.live_field_idx(field_id) is Some,
    }
}

/// The projection after a valid event.
pub open spec fn apply_event_spec(p: ProjectionView, e: ShapeEventView) -> ProjectionView
    recommends
        event_valid(p, e),
{
    match e {
        ShapeEventView::ShapeAdded { shape_id, base_shape_id, .. } => {
            let kind = spec_kind_of_base_id(base_shape_id)->Some_0;
            let core = p.core_idx(kind)->Some_0;
            ProjectionView {
                nodes: p.nodes.push(NodeView::Shape { shape_id }),
                edges: p.edges.push(
                    EdgeView {
                        from: p.nodes.len() as int,
                        to: core,
                        edge: EdgeKindView::IsDescendantOf,
                    },
                ),
            }
        },
        ShapeEventView::ShapeParameterAdded { shape_parameter_id, .. } => ProjectionView {
            nodes: p.nodes.push(NodeView::ShapeParameter { parameter_id: shape_parameter_id }),
            edges: p.edges,
        },
        ShapeEventView::ShapeParameterShapeSet {
            shape_id,
            consuming_parameter_id,
            provider_shape_id,
        } => {
            let s = p.shape_idx(shape_id)->Some_0;
            let pa = p.param_idx(consuming_parameter_id)->Some_0;
            let new_edge = EdgeView {
                from: s,
                to: pa,
                edge: EdgeKindView::HasBinding { shape_id: provider_shape_id },
            };
            match find_binding_edge_from(p.edges, s, pa, 0) {
                Some(k) => ProjectionView { nodes: p.nodes, edges: p.edges.update(k, new_edge) },
                None => ProjectionView { nodes: p.nodes, edges: p.edges.push(new_edge) },
            }
        },
        ShapeEventView::FieldAdded { field_id, shape_id, name, field_shape_id } => {
            let owner = p.shape_idx(shape_id)->Some_0;
            let type_shape = p.shape_idx(field_shape_id)->Some_0;
            let f = p.nodes.len() as int;
            ProjectionView {
                nodes: p.nodes.push(NodeView::Field { field_id, name, removed: false }),
                edges: p.edges.push(
                    EdgeView { from: f, to: owner, edge: EdgeKindView::IsFieldOf },
                ).push(EdgeView { from: type_shape, to: f, edge: EdgeKindView::BelongsTo }),
            }
        },
        ShapeEventView::FieldRemoved { field_id } => {
            let f = p.live_field_idx(field_id)->Some_0;
            let node = p.nodes[f];
            ProjectionView {
                nodes: p.nodes.update(
                    f,
                    NodeView::Field {
                        field_id: node->Field_field_id,
                        name: node->Field_name,
                        removed: true,
                    },
                ),
                edges: p.edges,
            }
        },
    }
}

// ---------------------------------------------------------------------------
// Construction and event application.
// ---------------------------------------------------------------------------

impl ShapeProjection {
    /// An empty projection, seeded with the core shape of every kind and
    /// the well-known parameter slots of the unary combinators.
    pub fn new() -> (r: ShapeProjection)
        ensures
            r@.wf(),
            r@.edges.len() == 0,
            forall|i: int|
                0 <= i < r@.nodes.len() ==> !((#[trigger] r@.nodes[i]) is Shape) && !(r@.nodes[i]
                    is Field),
            forall|kind: ShapeKind| (#[trigger] r@.core_idx(kind)) is Some,
            r@.param_idx("$nullableInner"@) is Some,
            r@.param_idx("$optionalInner"@) is Some,
            r@.param_idx("$listItem"@) is Some,
            r@.param_idx("$mapKey"@) is Some,
            r@.param_idx("$mapValue"@) is Some,
    {
        let mut nodes: Vec<Node> = Vec::new();
        nodes.push(Node::CoreShape(CoreShapeNode { kind: ShapeKind::StringKind }));
        nodes.push(Node::CoreShape(CoreShapeNode { kind: ShapeKind::NumberKind }));
        nodes.push(Node::CoreShape(CoreShapeNode { kind: ShapeKind::BooleanKind }));
        nodes.push(Node::CoreShape(CoreShapeNode { kind: ShapeKind::UnknownKind }));
        nodes.push(Node::CoreShape(CoreShapeNode { kind: ShapeKind::AnyKind }));
        nodes.push(Node::CoreShape(CoreShapeNode { kind: ShapeKind::ObjectKind }));
        nodes.push(Node::CoreShape(CoreShapeNode { kind: ShapeKind::ListKind }));
        nodes.push(Node::CoreShape(CoreShapeNode { kind: ShapeKind::MapKind }));
        nodes.push(Node::CoreShape(CoreShapeNode { kind: ShapeKind::NullableKind }));
        nodes.push(Node::CoreShape(CoreShapeNode { kind: ShapeKind::OptionalKind }));
        nodes.push(Node::CoreShape(CoreShapeNode { kind: ShapeKind::OneOfKind }));
        nodes.push(Node::CoreShape(CoreShapeNode { kind: ShapeKind::IdentifierKind }));
        nodes.push(Node::CoreShape(CoreShapeNode { kind: ShapeKind::ReferenceKind }));
        nodes.push(
            Node::ShapeParameter(
                ShapeParameterNode { parameter_id: String::from_str("$nullableInner") },
            ),
        );
        nodes.push(
            Node::ShapeParameter(
                ShapeParameterNode { parameter_id: String::from_str("$optionalInner") },
            ),
        );
        nodes.push(
            Node::ShapeParameter(ShapeParameterNode { parameter_id: String::from_str("$listItem") }),
        );
        nodes.push(
            Node::ShapeParameter(ShapeParameterNode { parameter_id: String::from_str("$mapKey") }),
        );
        nodes.push(
            Node::ShapeParameter(ShapeParameterNode { parameter_id: String::from_str("$mapValue") }),
        );
        let r = ShapeProjection { nodes, edges: Vec::new() };
        proof {
            reveal_strlit("$nullableInner");
            reveal_strlit("$optionalInner");
            reveal_strlit("$listItem");
            reveal_strlit("$mapKey");
            reveal_strlit("$mapValue");
            assert("$nullableInner"@[1] == 'n' && "$optionalInner"@[1] == 'o');
            assert("$listItem"@[1] == 'l' && "$mapKey"@[1] == 'm' && "$mapValue"@[1] == 'm');
            assert("$mapKey"@.len() == 7 && "$mapValue"@.len() == 9);
            assert("$nullableInner"@.len() == 14 && "$listItem"@.len() == 9);
            assert(r@.edges.len() == 0);
            assert forall|i: int, j: int|
                0 <= i < r@.nodes.len() && 0 <= j < r@.nodes.len() && node_id_key(r@.nodes[i])
                    is Some && node_id_key(r@.nodes[i]) == node_id_key(
                    r@.nodes[j],
                ) implies i == j by {
                assert(r@.nodes[i] == r.nodes@[i]@);
                assert(r@.nodes[j] == r.nodes@[j]@);
            }
            assert(r@.wf());
            assert forall|kind: ShapeKind| (#[trigger] r@.core_idx(kind)) is Some by {
                lemma_find_core_ok(r@.nodes, kind, 0);
                if r@.core_idx(kind) is None {
                    match kind {
                        ShapeKind::StringKind => assert(is_core_with_kind(r@.nodes[0], kind)),
                        ShapeKind::NumberKind => assert(is_core_with_kind(r@.nodes[1], kind)),
                        ShapeKind::BooleanKind => assert(is_core_with_kind(r@.nodes[2], kind)),
                        ShapeKind::UnknownKind => assert(is_core_with_kind(r@.nodes[3], kind)),
                        ShapeKind::AnyKind => assert(is_core_with_kind(r@.nodes[4], kind)),
                        ShapeKind::ObjectKind => assert(is_core_with_kind(r@.nodes[5], kind)),
                        ShapeKind::ListKind => assert(is_core_with_kind(r@.nodes[6], kind)),
                        ShapeKind::MapKind => assert(is_core_with_kind(r@.nodes[7], kind)),
                        ShapeKind::NullableKind => assert(is_core_with_kind(r@.nodes[8], kind)),
                        ShapeKind::OptionalKind => assert(is_core_with_kind(r@.nodes[9], kind)),
                        ShapeKind::OneOfKind => assert(is_core_with_kind(r@.nodes[10], kind)),
                        ShapeKind::IdentifierKind => assert(is_core_with_kind(r@.nodes[11], kind)),
                        ShapeKind::ReferenceKind => assert(is_core_with_kind(r@.nodes[12], kind)),
                    }
                }
            }
            lemma_find_param_ok(r@.nodes, "$nullableInner"@, 0);
            if r@.param_idx("$nullableInner"@) is None {
                assert(crate::projection::is_param_with_id(r@.nodes[13], "$nullableInner"@));
            }
            lemma_find_param_ok(r@.nodes, "$optionalInner"@, 0);
            if r@.param_idx("$optionalInner"@) is None {
                assert(crate::projection::is_param_with_id(r@.nodes[14], "$optionalInner"@));
            }
            lemma_find_param_ok(r@.nodes, "$listItem"@, 0);
            if r@.param_idx("$listItem"@) is None {
                assert(crate::projection::is_param_with_id(r@.nodes[15], "$listItem"@));
            }
            lemma_find_param_ok(r@.nodes, "$mapKey"@, 0);
            if r@.param_idx("$mapKey"@) is None {
                assert(crate::projection::is_param_with_id(r@.nodes[16], "$mapKey"@));
            }
            lemma_find_param_ok(r@.nodes, "$mapValue"@, 0);
            if r@.param_idx("$mapValue"@) is None {
                assert(crate::projection::is_param_with_id(r@.nodes[17], "$mapValue"@));
            }
        }
        r
    }

    /// Applies one event. Returns whether the projection accepted it; a
    /// rejected event leaves the projection unchanged.
    pub fn apply(&mut self, event: ShapeEvent) -> (r: bool)
        requires
            old(self)@.wf(),
        ensures
            final(self)@.wf(),
            r == event_valid(old(self)@, event@),
            r ==> final(self)@ == apply_event_spec(old(self)@, event@),
            !r ==> final(self)@ == old(self)@,
    {
        match event {
            ShapeEvent::ShapeAdded { shape_id, base_shape_id, name } => self.apply_shape_added(
                shape_id,
                base_shape_id,
                name,
            ),
            ShapeEvent::ShapeParameterAdded {
                shape_id,
                shape_parameter_id,
                name,
            } => self.apply_shape_parameter_added(shape_id, shape_parameter_id, name),
            ShapeEvent::ShapeParameterShapeSet {
                shape_id,
                consuming_parameter_id,
                provider_shape_id,
            } => self.apply_shape_parameter_shape_set(
                shape_id,
                consuming_parameter_id,
                provider_shape_id,
            ),
            ShapeEvent::FieldAdded {
                field_id,
                shape_id,
                name,
                field_shape_id,
            } => self.apply_field_added(field_id, shape_id, name, field_shape_id),
            ShapeEvent::FieldRemoved { field_id } => self.apply_field_removed(field_id),
        }
    }

    fn apply_shape_added(&mut self, shape_id: ShapeId, base_shape_id: String, name: String) -> (r:
        bool)
        requires
            old(self)@.wf(),
        ensures
            final(self)@.wf(),
            ({
                let e = ShapeEventView::ShapeAdded {
                    shape_id: shape_id@,
                    base_shape_id: base_shape_id@,
                    name: name@,
                };
                &&& r == event_valid(old(self)@, e)
                &&& (r ==> final(self)@ == apply_event_spec(old(self)@, e))
                &&& (!r ==> final(self)@ == old(self)@)
            }),
    {
        if self.get_shape_node_index(&shape_id).is_some() {
            return false;
        }
        let kind = match ShapeKind::from_base_shape_id(&base_shape_id) {
            Some(k) => k,
            None => {
                return false;
            },
        };
        let core = match self.get_core_shape_node_index(kind) {
            Some(c) => c,
            None => {
                return false;
            },
        };
        let n = self.nodes.len();
        proof {
            lemma_find_core_ok(self@.nodes, kind, 0);
            lemma_find_shape_ok(self@.nodes, shape_id@, 0);
        }
        self.nodes.push(Node::Shape(ShapeNode { shape_id }));
        self.edges.push(GraphEdge { from: n, to: core, edge: Edge::IsDescendantOf });
        proof {
            let oldp = old(self)@;
            let newp = self@;
            let ni = oldp.nodes.len() as int;
            let new_edge = EdgeView {
                from: ni,
                to: core as int,
                edge: EdgeKindView::IsDescendantOf,
            };
            assert(newp.nodes =~= oldp.nodes.push(NodeView::Shape { shape_id: shape_id@ }));
            assert(newp.edges =~= oldp.edges.push(new_edge));
            lemma_wf_after_push_shape(oldp, shape_id@, core as int);
        }
        true
    }

    fn apply_shape_parameter_added(
        &mut self,
        shape_id: ShapeId,
        shape_parameter_id: ShapeParameterId,
        name: String,
    ) -> (r: bool)
        requires
            old(self)@.wf(),
        ensures
            final(self)@.wf(),
            ({
                let e = ShapeEventView::ShapeParameterAdded {
                    shape_id: shape_id@,
                    shape_parameter_id: shape_parameter_id@,
                    name: name@,
                };
                &&& r == event_valid(old(self)@, e)
                &&& (r ==> final(self)@ == apply_event_spec(old(self)@, e))
                &&& (!r ==> final(self)@ == old(self)@)
            }),
    {
        if self.get_shape_parameter_node_index(&shape_parameter_id).is_some() {
            return false;
        }
        if self.get_shape_node_index(&shape_id).is_none() {
            return false;
        }
        proof {
            lemma_find_param_ok(self@.nodes, shape_parameter_id@, 0);
        }
        self.nodes.push(
            Node::ShapeParameter(ShapeParameterNode { parameter_id: shape_parameter_id }),
        );
        proof {
            let oldp = old(self)@;
            let newp = self@;
            assert(newp.nodes =~= oldp.nodes.push(
                NodeView::ShapeParameter { parameter_id: shape_parameter_id@ },
            ));
            assert(newp.edges =~= oldp.edges);
            lemma_wf_after_push_param(oldp, shape_parameter_id@);
        }
        true
    }

    /// First `HasBinding` edge connecting two node indices.
    fn find_binding_edge_index(&self, from: usize, to: usize) -> (r: Option<usize>)
        ensures
            match r {
                Some(k) => find_binding_edge_from(self@.edges, from as int, to as int, 0) == Some(
                    k as int,
                ),
                None => find_binding_edge_from(self@.edges, from as int, to as int, 0) is None,
            },
    {
        let n = self.edges.len();
        let mut k: usize = 0;
        while k < n
            invariant
                0 <= k <= n,
                n == self.edges.len(),
                find_binding_edge_from(self@.edges, from as int, to as int, 0)
                    == find_binding_edge_from(self@.edges, from as int, to as int, k as int),
            decreases n - k,
        {
            let e = &self.edges[k];
            match &e.edge {
                Edge::HasBinding(_) => {
                    if e.from == from && e.to == to {
                        return Some(k);
                    }
                }
                _ => {}
            }
            k = k + 1;
        }
        None
    }

    fn apply_shape_parameter_shape_set(
        &mut self,
        shape_id: ShapeId,
        consuming_parameter_id: ShapeParameterId,
        provider_shape_id: ShapeId,
    ) -> (r: bool)
        requires
            old(self)@.wf(),
        ensures
            final(self)@.wf(),
            ({
                let e = ShapeEventView::ShapeParameterShapeSet {
                    shape_id: shape_id@,
                    consuming_parameter_id: consuming_parameter_id@,
                    provider_shape_id: provider_shape_id@,
                };
                &&& r == event_valid(old(self)@, e)
                &&& (r ==> final(self)@ == apply_event_spec(old(self)@, e))
                &&& (!r ==> final(self)@ == old(self)@)
            }),
    {
        let s = match self.get_shape_node_index(&shape_id) {
            Some(s) => s,
            None => {
                return false;
            },
        };
        let pa = match self.get_shape_parameter_node_index(&consuming_parameter_id) {
            Some(p) => p,
            None => {
                return false;
            },
        };
        if self.get_shape_node_index(&provider_shape_id).is_none() {
            return false;
        }
        proof {
            lemma_find_shape_ok(self@.nodes, shape_id@, 0);
            lemma_find_param_ok(self@.nodes, consuming_parameter_id@, 0);
            lemma_find_binding_edge_ok(self@.edges, s as int, pa as int, 0);
        }
        let new_edge = GraphEdge {
            from: s,
            to: pa,
            edge: Edge::HasBinding(HasBindingDescriptor { shape_id: provider_shape_id }),
        };
        match self.find_binding_edge_index(s, pa) {
            Some(k) => {
                self.edges[k] = new_edge;
                proof {
                    let oldp = old(self)@;
                    let newp = self@;
                    assert(newp.nodes =~= oldp.nodes);
                    assert(newp.edges =~= oldp.edges.update(k as int, new_edge@));
                    lemma_wf_after_binding_update(oldp, k as int, new_edge@);
                }
            },
            None => {
                self.edges.push(new_edge);
                proof {
                    let oldp = old(self)@;
                    let newp = self@;
                    assert(newp.nodes =~= oldp.nodes);
                    assert(newp.edges =~= oldp.edges.push(new_edge@));
                    lemma_wf_after_binding_push(oldp, new_edge@);
                }
            },
        }
        true
    }

    fn apply_field_added(
        &mut self,
        field_id: FieldId,
        shape_id: ShapeId,
        name: String,
        field_shape_id: ShapeId,
    ) -> (r: bool)
        requires
            old(self)@.wf(),
        ensures
            final(self)@.wf(),
            ({
                let e = ShapeEventView::FieldAdded {
                    field_id: field_id@,
                    shape_id: shape_id@,
                    name: name@,
                    field_shape_id: field_shape_id@,
                };
                &&& r == event_valid(old(self)@, e)
                &&& (r ==> final(self)@ == apply_event_spec(old(self)@, e))
                &&& (!r ==> final(self)@ == old(self)@)
            }),
    {
        if self.get_any_field_node_index(&field_id).is_some() {
            return false;
        }
        let owner = match self.get_shape_node_index(&shape_id) {
            Some(i) => i,
            None => {
                return false;
            },
        };
        let type_shape = match self.get_shape_node_index(&field_shape_id) {
            Some(i) => i,
            None => {
                return false;
            },
        };
        proof {
            lemma_find_field_ok(self@.nodes, field_id@, 0);
            lemma_find_shape_ok(self@.nodes, shape_id@, 0);
            lemma_find_shape_ok(self@.nodes, field_shape_id@, 0);
        }
        let f = self.nodes.len();
        self.nodes.push(Node::Field(FieldNode { field_id, name, removed: false }));
        self.edges.push(GraphEdge { from: f, to: owner, edge: Edge::IsFieldOf });
        self.edges.push(GraphEdge { from: type_shape, to: f, edge: Edge::BelongsTo });
        proof {
            let oldp = old(self)@;
            let newp = self@;
            let fi = oldp.nodes.len() as int;
            assert(newp.nodes =~= oldp.nodes.push(
                NodeView::Field { field_id: field_id@, name: name@, removed: false },
            ));
            assert(newp.edges =~= oldp.edges.push(
                EdgeView { from: fi, to: owner as int, edge: EdgeKindView::IsFieldOf },
            ).push(EdgeView { from: type_shape as int, to: fi, edge: EdgeKindView::BelongsTo }));
            lemma_wf_after_push_field(oldp, field_id@, name@, owner as int, type_shape as int);
        }
        true
    }

    fn apply_field_removed(&mut self, field_id: FieldId) -> (r: bool)
        requires
            old(self)@.wf(),
        ensures
            final(self)@.wf(),
            ({
                let e = ShapeEventView::FieldRemoved { field_id: field_id@ };
                &&& r == event_valid(old(self)@, e)
                &&& (r ==> final(self)@ == apply_event_spec(old(self)@, e))
                &&& (!r ==> final(self)@ == old(self)@)
            }),
    {
        let f = match self.get_field_node_index(&field_id) {
            Some(f) => f,
            None => {
                return false;
            },
        };
        proof {
            lemma_find_field_ok(self@.nodes, field_id@, 0);
        }
        let (fid, nm) = match &self.nodes[f] {
            Node::Field(fd) => (fd.field_id.clone(), fd.name.clone()),
            _ => {
                proof {
                    assert(false);
                }
                return false;
            },
        };
        self.nodes[f] = Node::Field(FieldNode { field_id: fid, name: nm, removed: true });
        proof {
            let oldp = old(self)@;
            let newp = self@;
            let node = oldp.nodes[f as int];
            assert(newp.nodes =~= oldp.nodes.update(
                f as int,
                NodeView::Field {
                    field_id: node->Field_field_id,
                    name: node->Field_name,
                    removed: true,
                },
            ));
            assert(newp.edges =~= oldp.edges);
            lemma_wf_after_field_removed(oldp, f as int);
        }
        true
    }
}

// ---------------------------------------------------------------------------
// Well-formedness preservation, one lemma per mutation shape.
// ---------------------------------------------------------------------------

/// Appending a shape node with a fresh identifier, plus its descendant edge
/// to an existing core node, keeps the graph well-formed.
proof fn lemma_wf_after_push_shape(p: ProjectionView, id: Seq<char>, core: int)
    requires
        p.wf(),
        p.shape_idx(id) is None,
        0 <= core < p.nodes.len(),
        p.nodes[core] is CoreShape,
    ensures
        (ProjectionView {
            nodes: p.nodes.push(NodeView::Shape { shape_id: id }),
            edges: p.edges.push(
                EdgeView {
                    from: p.nodes.len() as int,
                    to: core,
                    edge: EdgeKindView::IsDescendantOf,
                },
            ),
        }).wf(),
{
    let n = p.nodes.len() as int;
    let q = ProjectionView {
        nodes: p.nodes.push(NodeView::Shape { shape_id: id }),
        edges: p.edges.push(
            EdgeView { from: n, to: core, edge: EdgeKindView::IsDescendantOf },
        ),
    };
    lemma_find_shape_ok(p.nodes, id, 0);
    assert forall|k: int| 0 <= k < q.edges.len() implies edge_wf(q.nodes, #[trigger] q.edges[k]) by {
        if k < p.edges.len() {
            assert(edge_wf(p.nodes, p.edges[k]));
        }
    }
    assert forall|i: int|
        0 <= i < q.nodes.len() && #[trigger] q.nodes[i] is Shape implies exists|k: int|
        0 <= k < q.edges.len() && (#[trigger] q.edges[k]).from == i && q.edges[k].edge
            is IsDescendantOf by {
        if i < n {
            assert(p.nodes[i] is Shape);
            let k = choose|k: int|
                0 <= k < p.edges.len() && (#[trigger] p.edges[k]).from == i && p.edges[k].edge
                    is IsDescendantOf;
            assert(0 <= k < q.edges.len() && q.edges[k].from == i && q.edges[k].edge
                is IsDescendantOf);
        } else {
            let k = p.edges.len() as int;
            assert(0 <= k < q.edges.len() && q.edges[k].from == i && q.edges[k].edge
                is IsDescendantOf);
        }
    }
    assert forall|k1: int, k2: int|
        0 <= k1 < q.edges.len() && 0 <= k2 < q.edges.len() && (#[trigger] q.edges[k1]).edge
            is IsDescendantOf && (#[trigger] q.edges[k2]).edge is IsDescendantOf
            && q.edges[k1].from == q.edges[k2].from implies k1 == k2 by {
        if k1 < p.edges.len() && k2 < p.edges.len() {
            assert(p.edges[k1] == q.edges[k1] && p.edges[k2] == q.edges[k2]);
        } else if k1 < p.edges.len() {
            assert(edge_wf(p.nodes, p.edges[k1]));
        } else if k2 < p.edges.len() {
            assert(edge_wf(p.nodes, p.edges[k2]));
        }
    }
    assert forall|i: int, j: int|
        0 <= i < q.nodes.len() && 0 <= j < q.nodes.len() && node_id_key(q.nodes[i]) is Some
            && node_id_key(q.nodes[i]) == node_id_key(q.nodes[j]) implies i == j by {
        if i < n && j < n {
            assert(node_id_key(p.nodes[i]) == node_id_key(p.nodes[j]));
        } else if i < n && j == n {
            assert(!is_shape_with_id(p.nodes[i], id));
        } else if i == n && j < n {
            assert(!is_shape_with_id(p.nodes[j], id));
        }
    }
    assert(q.core_kinds_unique());
    assert(q.bindings_unique());
    assert forall|i: int|
        0 <= i < q.nodes.len() && #[trigger] q.nodes[i] is Field implies exists|k: int|
        0 <= k < q.edges.len() && (#[trigger] q.edges[k]).from == i && q.edges[k].edge
            is IsFieldOf by {
        assert(p.nodes[i] is Field);
        let k = choose|k: int|
            0 <= k < p.edges.len() && (#[trigger] p.edges[k]).from == i && p.edges[k].edge
                is IsFieldOf;
        assert(0 <= k < q.edges.len() && q.edges[k].from == i && q.edges[k].edge is IsFieldOf);
    }
    assert forall|i: int|
        0 <= i < q.nodes.len() && #[trigger] q.nodes[i] is Field implies exists|k: int|
        0 <= k < q.edges.len() && (#[trigger] q.edges[k]).to == i && q.edges[k].edge
            is BelongsTo by {
        assert(p.nodes[i] is Field);
        let k = choose|k: int|
            0 <= k < p.edges.len() && (#[trigger] p.edges[k]).to == i && p.edges[k].edge
                is BelongsTo;
        assert(0 <= k < q.edges.len() && q.edges[k].to == i && q.edges[k].edge is BelongsTo);
    }
    assert(q.field_owners_wf());
    assert(q.field_shapes_wf());
}

/// Appending a parameter node with a fresh identifier keeps the graph
/// well-formed.
proof fn lemma_wf_after_push_param(p: ProjectionView, id: Seq<char>)
    requires
        p.wf(),
        p.param_idx(id) is None,
    ensures
        (ProjectionView {
            nodes: p.nodes.push(NodeView::ShapeParameter { parameter_id: id }),
            edges: p.edges,
        }).wf(),
{
    let n = p.nodes.len() as int;
    let q = ProjectionView {
        nodes: p.nodes.push(NodeView::ShapeParameter { parameter_id: id }),
        edges: p.edges,
    };
    lemma_find_param_ok(p.nodes, id, 0);
    assert forall|k: int| 0 <= k < q.edges.len() implies edge_wf(q.nodes, #[trigger] q.edges[k]) by {
        assert(edge_wf(p.nodes, p.edges[k]));
    }
    assert forall|i: int|
        0 <= i < q.nodes.len() && #[trigger] q.nodes[i] is Shape implies exists|k: int|
        0 <= k < q.edges.len() && (#[trigger] q.edges[k]).from == i && q.edges[k].edge
            is IsDescendantOf by {
        assert(p.nodes[i] is Shape);
        let k = choose|k: int|
            0 <= k < p.edges.len() && (#[trigger] p.edges[k]).from == i && p.edges[k].edge
                is IsDescendantOf;
        assert(0 <= k < q.edges.len() && q.edges[k].from == i && q.edges[k].edge
            is IsDescendantOf);
    }
    assert forall|i: int, j: int|
        0 <= i < q.nodes.len() && 0 <= j < q.nodes.len() && node_id_key(q.nodes[i]) is Some
            && node_id_key(q.nodes[i]) == node_id_key(q.nodes[j]) implies i == j by {
        if i < n && j < n {
            assert(node_id_key(p.nodes[i]) == node_id_key(p.nodes[j]));
        } else if i < n && j == n {
            assert(!crate::projection::is_param_with_id(p.nodes[i], id));
        } else if i == n && j < n {
            assert(!crate::projection::is_param_with_id(p.nodes[j], id));
        }
    }
    assert forall|i: int|
        0 <= i < q.nodes.len() && #[trigger] q.nodes[i] is Field implies exists|k: int|
        0 <= k < q.edges.len() && (#[trigger] q.edges[k]).from == i && q.edges[k].edge
            is IsFieldOf by {
        assert(p.nodes[i] is Field);
        let k = choose|k: int|
            0 <= k < p.edges.len() && (#[trigger] p.edges[k]).from == i && p.edges[k].edge
                is IsFieldOf;
        assert(0 <= k < q.edges.len() && q.edges[k].from == i && q.edges[k].edge is IsFieldOf);
    }
    assert forall|i: int|
        0 <= i < q.nodes.len() && #[trigger] q.nodes[i] is Field implies exists|k: int|
        0 <= k < q.edges.len() && (#[trigger] q.edges[k]).to == i && q.edges[k].edge
            is BelongsTo by {
        assert(p.nodes[i] is Field);
        let k = choose|k: int|
            0 <= k < p.edges.len() && (#[trigger] p.edges[k]).to == i && p.edges[k].edge
                is BelongsTo;
        assert(0 <= k < q.edges.len() && q.edges[k].to == i && q.edges[k].edge is BelongsTo);
    }
    assert(q.wf());
}

/// Overwriting the payload of an existing binding edge keeps the graph
/// well-formed.
proof fn lemma_wf_after_binding_update(p: ProjectionView, k: int, e: EdgeView)
    requires
        p.wf(),
        0 <= k < p.edges.len(),
        e.from == p.edges[k].from,
        e.to == p.edges[k].to,
        e.edge is HasBinding,
        p.edges[k].edge is HasBinding,
    ensures
        (ProjectionView { nodes: p.nodes, edges: p.edges.update(k, e) }).wf(),
{
    let q = ProjectionView { nodes: p.nodes, edges: p.edges.update(k, e) };
    assert forall|l: int| 0 <= l < q.edges.len() implies edge_wf(q.nodes, #[trigger] q.edges[l]) by {
        assert(edge_wf(p.nodes, p.edges[l]));
    }
    assert forall|i: int|
        0 <= i < q.nodes.len() && #[trigger] q.nodes[i] is Shape implies exists|l: int|
        0 <= l < q.edges.len() && (#[trigger] q.edges[l]).from == i && q.edges[l].edge
            is IsDescendantOf by {
        assert(p.nodes[i] is Shape);
        let l = choose|l: int|
            0 <= l < p.edges.len() && (#[trigger] p.edges[l]).from == i && p.edges[l].edge
                is IsDescendantOf;
        assert(q.edges[l].from == i && q.edges[l].edge is IsDescendantOf);
    }
    assert forall|i: int|
        0 <= i < q.nodes.len() && #[trigger] q.nodes[i] is Field implies exists|l: int|
        0 <= l < q.edges.len() && (#[trigger] q.edges[l]).from == i && q.edges[l].edge
            is IsFieldOf by {
        assert(p.nodes[i] is Field);
        let l = choose|l: int|
            0 <= l < p.edges.len() && (#[trigger] p.edges[l]).from == i && p.edges[l].edge
                is IsFieldOf;
        assert(q.edges[l].from == i && q.edges[l].edge is IsFieldOf);
    }
    assert forall|i: int|
        0 <= i < q.nodes.len() && #[trigger] q.nodes[i] is Field implies exists|l: int|
        0 <= l < q.edges.len() && (#[trigger] q.edges[l]).to == i && q.edges[l].edge
            is BelongsTo by {
        assert(p.nodes[i] is Field);
        let l = choose|l: int|
            0 <= l < p.edges.len() && (#[trigger] p.edges[l]).to == i && p.edges[l].edge
                is BelongsTo;
        assert(q.edges[l].to == i && q.edges[l].edge is BelongsTo);
    }
    assert(q.wf());
}

/// Appending a binding edge between a shape and a parameter slot that were
/// not yet connected keeps the graph well-formed.
proof fn lemma_wf_after_binding_push(p: ProjectionView, e: EdgeView)
    requires
        p.wf(),
        e.edge is HasBinding,
        0 <= e.from < p.nodes.len(),
        0 <= e.to < p.nodes.len(),
        p.nodes[e.from] is Shape,
        p.nodes[e.to] is ShapeParameter,
        find_binding_edge_from(p.edges, e.from, e.to, 0) is None,
    ensures
        (ProjectionView { nodes: p.nodes, edges: p.edges.push(e) }).wf(),
{
    let q = ProjectionView { nodes: p.nodes, edges: p.edges.push(e) };
    lemma_find_binding_edge_ok(p.edges, e.from, e.to, 0);
    assert forall|l: int| 0 <= l < q.edges.len() implies edge_wf(q.nodes, #[trigger] q.edges[l]) by {
        if l < p.edges.len() {
            assert(edge_wf(p.nodes, p.edges[l]));
        }
    }
    assert forall|i: int|
        0 <= i < q.nodes.len() && #[trigger] q.nodes[i] is Shape implies exists|l: int|
        0 <= l < q.edges.len() && (#[trigger] q.edges[l]).from == i && q.edges[l].edge
            is IsDescendantOf by {
        assert(p.nodes[i] is Shape);
        let l = choose|l: int|
            0 <= l < p.edges.len() && (#[trigger] p.edges[l]).from == i && p.edges[l].edge
                is IsDescendantOf;
        assert(q.edges[l].from == i && q.edges[l].edge is IsDescendantOf);
    }
    assert forall|k1: int, k2: int|
        0 <= k1 < q.edges.len() && 0 <= k2 < q.edges.len() && (#[trigger] q.edges[k1]).edge
            is HasBinding && (#[trigger] q.edges[k2]).edge is HasBinding && q.edges[k1].from
            == q.edges[k2].from && q.edges[k1].to == q.edges[k2].to implies k1 == k2 by {
        if k1 < p.edges.len() && k2 < p.edges.len() {
            assert(p.edges[k1] == q.edges[k1] && p.edges[k2] == q.edges[k2]);
        } else if k1 < p.edges.len() {
            assert(!(p.edges[k1].from == e.from && p.edges[k1].to == e.to && p.edges[k1].edge
                is HasBinding));
        } else if k2 < p.edges.len() {
            assert(!(p.edges[k2].from == e.from && p.edges[k2].to == e.to && p.edges[k2].edge
                is HasBinding));
        }
    }
    assert forall|i: int|
        0 <= i < q.nodes.len() && #[trigger] q.nodes[i] is Field implies exists|l: int|
        0 <= l < q.edges.len() && (#[trigger] q.edges[l]).from == i && q.edges[l].edge
            is IsFieldOf by {
        assert(p.nodes[i] is Field);
        let l = choose|l: int|
            0 <= l < p.edges.len() && (#[trigger] p.edges[l]).from == i && p.edges[l].edge
                is IsFieldOf;
        assert(q.edges[l].from == i && q.edges[l].edge is IsFieldOf);
    }
    assert forall|i: int|
        0 <= i < q.nodes.len() && #[trigger] q.nodes[i] is Field implies exists|l: int|
        0 <= l < q.edges.len() && (#[trigger] q.edges[l]).to == i && q.edges[l].edge
            is BelongsTo by {
        assert(p.nodes[i] is Field);
        let l = choose|l: int|
            0 <= l < p.edges.len() && (#[trigger] p.edges[l]).to == i && p.edges[l].edge
                is BelongsTo;
        assert(q.edges[l].to == i && q.edges[l].edge is BelongsTo);
    }
    assert(q.wf());
}

/// Appending a field node with a fresh identifier, its ownership edge and
/// its type edge keeps the graph well-formed.
proof fn lemma_wf_after_push_field(
    p: ProjectionView,
    id: Seq<char>,
    name: Seq<char>,
    owner: int,
    type_shape: int,
)
    requires
        p.wf(),
        p.field_idx(id) is None,
        0 <= owner < p.nodes.len(),
        0 <= type_shape < p.nodes.len(),
        p.nodes[owner] is Shape,
        p.nodes[type_shape] is Shape,
    ensures
        (ProjectionView {
            nodes: p.nodes.push(NodeView::Field { field_id: id, name, removed: false }),
            edges: p.edges.push(
                EdgeView { from: p.nodes.len() as int, to: owner, edge: EdgeKindView::IsFieldOf },
            ).push(
                EdgeView {
                    from: type_shape,
                    to: p.nodes.len() as int,
                    edge: EdgeKindView::BelongsTo,
                },
            ),
        }).wf(),
{
    let n = p.nodes.len() as int;
    let m = p.edges.len() as int;
    let q = ProjectionView {
        nodes: p.nodes.push(NodeView::Field { field_id: id, name, removed: false }),
        edges: p.edges.push(
            EdgeView { from: n, to: owner, edge: EdgeKindView::IsFieldOf },
        ).push(EdgeView { from: type_shape, to: n, edge: EdgeKindView::BelongsTo }),
    };
    lemma_find_field_ok(p.nodes, id, 0);
    assert forall|k: int| 0 <= k < q.edges.len() implies edge_wf(q.nodes, #[trigger] q.edges[k]) by {
        if k < m {
            assert(edge_wf(p.nodes, p.edges[k]));
        }
    }
    assert forall|i: int|
        0 <= i < q.nodes.len() && #[trigger] q.nodes[i] is Shape implies exists|k: int|
        0 <= k < q.edges.len() && (#[trigger] q.edges[k]).from == i && q.edges[k].edge
            is IsDescendantOf by {
        assert(p.nodes[i] is Shape);
        let k = choose|k: int|
            0 <= k < p.edges.len() && (#[trigger] p.edges[k]).from == i && p.edges[k].edge
                is IsDescendantOf;
        assert(0 <= k < q.edges.len() && q.edges[k].from == i && q.edges[k].edge
            is IsDescendantOf);
    }
    assert forall|k1: int, k2: int|
        0 <= k1 < q.edges.len() && 0 <= k2 < q.edges.len() && (#[trigger] q.edges[k1]).edge
            is IsDescendantOf && (#[trigger] q.edges[k2]).edge is IsDescendantOf
            && q.edges[k1].from == q.edges[k2].from implies k1 == k2 by {
        if k1 < m && k2 < m {
            assert(p.edges[k1] == q.edges[k1] && p.edges[k2] == q.edges[k2]);
        }
    }
    assert forall|i: int, j: int|
        0 <= i < q.nodes.len() && 0 <= j < q.nodes.len() && node_id_key(q.nodes[i]) is Some
            && node_id_key(q.nodes[i]) == node_id_key(q.nodes[j]) implies i == j by {
        if i < n && j < n {
            assert(node_id_key(p.nodes[i]) == node_id_key(p.nodes[j]));
        } else if i < n && j == n {
            assert(!crate::projection::is_field_with_id(p.nodes[i], id));
        } else if i == n && j < n {
            assert(!crate::projection::is_field_with_id(p.nodes[j], id));
        }
    }
    assert forall|i: int|
        0 <= i < q.nodes.len() && #[trigger] q.nodes[i] is Field implies exists|k: int|
        0 <= k < q.edges.len() && (#[trigger] q.edges[k]).from == i && q.edges[k].edge
            is IsFieldOf by {
        if i < n {
            assert(p.nodes[i] is Field);
            let k = choose|k: int|
                0 <= k < p.edges.len() && (#[trigger] p.edges[k]).from == i && p.edges[k].edge
                    is IsFieldOf;
            assert(0 <= k < q.edges.len() && q.edges[k].from == i && q.edges[k].edge
                is IsFieldOf);
        } else {
            assert(0 <= m < q.edges.len() && q.edges[m].from == i && q.edges[m].edge
                is IsFieldOf);
        }
    }
    assert forall|k1: int, k2: int|
        0 <= k1 < q.edges.len() && 0 <= k2 < q.edges.len() && (#[trigger] q.edges[k1]).edge
            is IsFieldOf && (#[trigger] q.edges[k2]).edge is IsFieldOf && q.edges[k1].from
            == q.edges[k2].from implies k1 == k2 by {
        if k1 < m && k2 < m {
            assert(p.edges[k1] == q.edges[k1] && p.edges[k2] == q.edges[k2]);
        } else if k1 < m {
            assert(edge_wf(p.nodes, p.edges[k1]));
        } else if k2 < m {
            assert(edge_wf(p.nodes, p.edges[k2]));
        }
    }
    assert forall|i: int|
        0 <= i < q.nodes.len() && #[trigger] q.nodes[i] is Field implies exists|k: int|
        0 <= k < q.edges.len() && (#[trigger] q.edges[k]).to == i && q.edges[k].edge
            is BelongsTo by {
        if i < n {
            assert(p.nodes[i] is Field);
            let k = choose|k: int|
                0 <= k < p.edges.len() && (#[trigger] p.edges[k]).to == i && p.edges[k].edge
                    is BelongsTo;
            assert(0 <= k < q.edges.len() && q.edges[k].to == i && q.edges[k].edge is BelongsTo);
        } else {
            assert(0 <= m + 1 < q.edges.len() && q.edges[m + 1].to == i && q.edges[m + 1].edge
                is BelongsTo);
        }
    }
    assert forall|k1: int, k2: int|
        0 <= k1 < q.edges.len() && 0 <= k2 < q.edges.len() && (#[trigger] q.edges[k1]).edge
            is BelongsTo && (#[trigger] q.edges[k2]).edge is BelongsTo && q.edges[k1].to
            == q.edges[k2].to implies k1 == k2 by {
        if k1 < m && k2 < m {
            assert(p.edges[k1] == q.edges[k1] && p.edges[k2] == q.edges[k2]);
        } else if k1 < m {
            assert(edge_wf(p.nodes, p.edges[k1]));
        } else if k2 < m {
            assert(edge_wf(p.nodes, p.edges[k2]));
        }
    }
    assert(q.core_kinds_unique());
    assert(q.bindings_unique());
    assert(q.wf());
}

/// Tombstoning a field (flipping its `removed` flag) keeps the graph
/// well-formed.
proof fn lemma_wf_after_field_removed(p: ProjectionView, f: int)
    requires
        p.wf(),
        0 <= f < p.nodes.len(),
        p.nodes[f] is Field,
    ensures
        (ProjectionView {
            nodes: p.nodes.update(
                f,
                NodeView::Field {
                    field_id: p.nodes[f]->Field_field_id,
                    name: p.nodes[f]->Field_name,
                    removed: true,
                },
            ),
            edges: p.edges,
        }).wf(),
{
    let q = ProjectionView {
        nodes: p.nodes.update(
            f,
            NodeView::Field {
                field_id: p.nodes[f]->Field_field_id,
                name: p.nodes[f]->Field_name,
                removed: true,
            },
        ),
        edges: p.edges,
    };
    assert forall|k: int| 0 <= k < q.edges.len() implies edge_wf(q.nodes, #[trigger] q.edges[k]) by {
        assert(edge_wf(p.nodes, p.edges[k]));
    }
    assert forall|i: int|
        0 <= i < q.nodes.len() && #[trigger] q.nodes[i] is Shape implies exists|k: int|
        0 <= k < q.edges.len() && (#[trigger] q.edges[k]).from == i && q.edges[k].edge
            is IsDescendantOf by {
        assert(p.nodes[i] is Shape);
        let k = choose|k: int|
            0 <= k < p.edges.len() && (#[trigger] p.edges[k]).from == i && p.edges[k].edge
                is IsDescendantOf;
        assert(0 <= k < q.edges.len() && q.edges[k].from == i && q.edges[k].edge
            is IsDescendantOf);
    }
    assert forall|i: int, j: int|
        0 <= i < q.nodes.len() && 0 <= j < q.nodes.len() && node_id_key(q.nodes[i]) is Some
            && node_id_key(q.nodes[i]) == node_id_key(q.nodes[j]) implies i == j by {
        assert(node_id_key(q.nodes[i]) == node_id_key(p.nodes[i]));
        assert(node_id_key(q.nodes[j]) == node_id_key(p.nodes[j]));
    }
    assert forall|i: int|
        0 <= i < q.nodes.len() && #[trigger] q.nodes[i] is Field implies exists|k: int|
        0 <= k < q.edges.len() && (#[trigger] q.edges[k]).from == i && q.edges[k].edge
            is IsFieldOf by {
        assert(p.nodes[i] is Field);
        let k = choose|k: int|
            0 <= k < p.edges.len() && (#[trigger] p.edges[k]).from == i && p.edges[k].edge
                is IsFieldOf;
        assert(0 <= k < q.edges.len() && q.edges[k].from == i && q.edges[k].edge is IsFieldOf);
    }
    assert forall|i: int|
        0 <= i < q.nodes.len() && #[trigger] q.nodes[i] is Field implies exists|k: int|
        0 <= k < q.edges.len() && (#[trigger] q.edges[k]).to == i && q.edges[k].edge
            is BelongsTo by {
        assert(p.nodes[i] is Field);
        let k = choose|k: int|
            0 <= k < p.edges.len() && (#[trigger] p.edges[k]).to == i && p.edges[k].edge
                is BelongsTo;
        assert(0 <= k < q.edges.len() && q.edges[k].to == i && q.edges[k].edge is BelongsTo);
    }
    assert(q.wf());
}

} // verus!
