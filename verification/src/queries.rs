use vstd::prelude::*;
use crate::ids::{ShapeId, ShapeParameterId};
use crate::kinds::ShapeKind;
use crate::projection::{
    EdgeView, Node, NodeView, ProjectionView, ShapeProjection, lemma_find_shape_ok,
};
use crate::trail::{PathComponentView, ShapeTrail, ShapeTrailPathComponent, TrailView};

verus! {

/// Read-only queries over a borrowed shape projection.
pub struct ShapeQueries<'a> {
    pub shape_projection: &'a ShapeProjection,
}

/// The shape and core kind a trail position resolves to.
#[derive(Clone, Debug, PartialEq, Eq)]
pub struct ResolvedTrail {
    pub core_shape_kind: ShapeKind,
    pub shape_id: ShapeId,
}

pub struct ResolvedTrailView {
    pub core_shape_kind: ShapeKind,
    pub shape_id: Seq<char>,
}

impl View for ResolvedTrail {
    type V = ResolvedTrailView;

    open spec fn view(&self) -> ResolvedTrailView {
        ResolvedTrailView { core_shape_kind: self.core_shape_kind, shape_id: self.shape_id@ }
    }
}

// ---------------------------------------------------------------------------
// Core-shape resolution.
// ---------------------------------------------------------------------------

/// First `IsDescendantOf` edge leaving node `i`, searching from position `k`.
pub open spec fn find_desc_edge_from(edges: Seq<EdgeView>, i: int, k: int) -> Option<int>
    decreases edges.len() - k,
{
    if k < 0 || k >= edges.len() {
        None
    } else if edges[k].from == i && edges[k].edge is IsDescendantOf {
        Some(k)
    } else {
        find_desc_edge_from(edges, i, k + 1)
    }
}

pub proof fn lemma_find_desc_edge_ok(edges: Seq<EdgeView>, i: int, k: int)
    requires
        0 <= k,
    ensures
        match find_desc_edge_from(edges, i, k) {
            Some(j) => k <= j < edges.len() && edges[j].from == i && edges[j].edge
                is IsDescendantOf,
            None => forall|l: int|
                k <= l < edges.len() ==> !((#[trigger] edges[l]).from == i && edges[l].edge
                    is IsDescendantOf),
        },
    decreases edges.len() - k,
{
    if k < 0 || k >= edges.len() {
    } else if edges[k].from == i && edges[k].edge is IsDescendantOf {
    } else {
        lemma_find_desc_edge_ok(edges, i, k + 1);
    }
}

/// Index of the core ancestor of node `i`: the target of its first
/// `IsDescendantOf` edge.
pub open spec fn spec_ancestor_idx(p: ProjectionView, i: int) -> Option<int> {
    match find_desc_edge_from(p.edges, i, 0) {
        Some(k) => Some(p.edges[k].to),
        None => None,
    }
}

/// The core kind that the shape carrying `id` resolves to, reading the
/// single `IsDescendantOf` hop.
pub open spec fn spec_resolve_to_core(p: ProjectionView, id: Seq<char>) -> Option<ShapeKind> {
    match p.shape_idx(id) {
        Some(i) => match spec_ancestor_idx(p, i) {
            Some(a) => if 0 <= a < p.nodes.len() {
                match p.nodes[a] {
                    NodeView::CoreShape { kind } => Some(kind),
                    _ => None,
                }
            } else {
                None
            },
            None => None,
        },
        None => None,
    }
}

/// In a well-formed graph, every existing shape resolves to a core kind.
pub proof fn lemma_resolve_to_core_some(p: ProjectionView, id: Seq<char>)
    requires
        p.wf(),
        p.has_shape(id),
    ensures
        spec_resolve_to_core(p, id) is Some,
{
    lemma_find_shape_ok(p.nodes, id, 0);
    let i = p.shape_idx(id)->Some_0;
    assert(p.nodes[i] is Shape);
    lemma_find_desc_edge_ok(p.edges, i, 0);
    match find_desc_edge_from(p.edges, i, 0) {
        Some(k) => {
            assert(crate::projection::edge_wf(p.nodes, p.edges[k]));
        },
        None => {
            let k = choose|k: int|
                0 <= k < p.edges.len() && (#[trigger] p.edges[k]).from == i && p.edges[k].edge
                    is IsDescendantOf;
            assert(false);
        },
    }
}

// ---------------------------------------------------------------------------
// Parameter bindings.
// ---------------------------------------------------------------------------

/// The shape bound into the parameter slot `param_id` of the shape carrying
/// `shape_id`, read off the single `HasBinding` edge between them.
pub open spec fn spec_resolve_parameter(
    p: ProjectionView,
    shape_id: Seq<char>,
    param_id: Seq<char>,
) -> Option<Seq<char>> {
    match p.shape_idx(shape_id) {
        Some(s) => match p.param_idx(param_id) {
            Some(pa) => match crate::events::find_binding_edge_from(p.edges, s, pa, 0) {
                Some(k) => match p.edges[k].edge {
                    crate::projection::EdgeKindView::HasBinding { shape_id: bound } => Some(bound),
                    _ => None,
                },
                None => None,
            },
            None => None,
        },
        None => None,
    }
}

/// All `(parameter identifier, bound shape identifier)` pairs carried by
/// `HasBinding` edges leaving node `i`, in insertion order, searching from
/// edge position `k`.
pub open spec fn spec_bindings_from(p: ProjectionView, i: int, k: int) -> Seq<
    (Seq<char>, Seq<char>),
>
    decreases p.edges.len() - k,
{
    if k < 0 || k >= p.edges.len() {
        Seq::empty()
    } else {
        let rest = spec_bindings_from(p, i, k + 1);
        let e = p.edges[k];
        if e.from == i && e.edge is HasBinding && 0 <= e.to < p.nodes.len() && p.nodes[e.to]
            is ShapeParameter {
            seq![(p.nodes[e.to]->ShapeParameter_parameter_id, e.edge->HasBinding_shape_id)] + rest
        } else {
            rest
        }
    }
}

/// The bindings of the shape carrying `id`, in edge insertion order.
pub open spec fn spec_resolve_parameters(p: ProjectionView, id: Seq<char>) -> Seq<
    (Seq<char>, Seq<char>),
> {
    match p.shape_idx(id) {
        Some(i) => spec_bindings_from(p, i, 0),
        None => Seq::empty(),
    }
}

// ---------------------------------------------------------------------------
// The resolve-step dispatch table.
// ---------------------------------------------------------------------------

/// Whether one resolve step is admissible: the component fits the parent's
/// core kind, and every shape the step reads resolves to a core kind. A
/// mismatched component would be a graph invariant violation; so would a
/// step through the kinds the resolver does not support (any, map,
/// identifier, reference).
pub open spec fn step_ok(p: ProjectionView, kind: ShapeKind, comp: PathComponentView) -> bool {
    match kind {
        ShapeKind::ListKind => match comp {
            PathComponentView::ListItemTrail { item_shape_id, .. } => spec_resolve_to_core(
                p,
                item_shape_id,
            ) is Some,
            _ => false,
        },
        ShapeKind::OneOfKind => match comp {
            PathComponentView::OneOfTrail { .. } => true,
            PathComponentView::OneOfItemTrail { item_shape_id, .. } => spec_resolve_to_core(
                p,
                item_shape_id,
            ) is Some,
            _ => false,
        },
        ShapeKind::NullableKind => match comp {
            PathComponentView::NullableTrail { .. } => true,
            PathComponentView::NullableItemTrail { inner_shape_id, .. } => spec_resolve_to_core(
                p,
                inner_shape_id,
            ) is Some,
            _ => false,
        },
        ShapeKind::OptionalKind => match comp {
            PathComponentView::OptionalTrail { .. } => true,
            PathComponentView::OptionalItemTrail { inner_shape_id, .. } => spec_resolve_to_core(
                p,
                inner_shape_id,
            ) is Some,
            _ => false,
        },
        ShapeKind::ObjectKind => match comp {
            PathComponentView::ObjectTrail { .. } => true,
            PathComponentView::ObjectFieldTrail { field_shape_id, .. } => spec_resolve_to_core(
                p,
                field_shape_id,
            ) is Some,
            _ => false,
        },
        ShapeKind::NumberKind | ShapeKind::BooleanKind | ShapeKind::StringKind
            | ShapeKind::UnknownKind => true,
        _ => false,
    }
}

/// One resolve step: where a path component leads from a resolved position.
pub open spec fn step_res(
    p: ProjectionView,
    cur: ResolvedTrailView,
    comp: PathComponentView,
) -> ResolvedTrailView
    recommends
        step_ok(p, cur.core_shape_kind, comp),
{
    match cur.core_shape_kind {
        ShapeKind::ListKind => match comp {
            PathComponentView::ListItemTrail { item_shape_id, .. } => ResolvedTrailView {
                shape_id: item_shape_id,
                core_shape_kind: spec_resolve_to_core(p, item_shape_id)->Some_0,
            },
            _ => cur,
        },
        ShapeKind::OneOfKind => match comp {
            PathComponentView::OneOfTrail { .. } => ResolvedTrailView {
                shape_id: cur.shape_id,
                core_shape_kind: ShapeKind::OneOfKind,
            },
            PathComponentView::OneOfItemTrail { item_shape_id, .. } => ResolvedTrailView {
                shape_id: item_shape_id,
                core_shape_kind: spec_resolve_to_core(p, item_shape_id)->Some_0,
            },
            _ => cur,
        },
        ShapeKind::NullableKind => match comp {
            PathComponentView::NullableTrail { .. } => ResolvedTrailView {
                shape_id: cur.shape_id,
                core_shape_kind: ShapeKind::NullableKind,
            },
            PathComponentView::NullableItemTrail { inner_shape_id, .. } => ResolvedTrailView {
                shape_id: inner_shape_id,
                core_shape_kind: spec_resolve_to_core(p, inner_shape_id)->Some_0,
            },
            _ => cur,
        },
        ShapeKind::OptionalKind => match comp {
            PathComponentView::OptionalTrail { .. } => ResolvedTrailView {
                shape_id: cur.shape_id,
                core_shape_kind: ShapeKind::OptionalKind,
            },
            PathComponentView::OptionalItemTrail { inner_shape_id, .. } => ResolvedTrailView {
                shape_id: inner_shape_id,
                core_shape_kind: spec_resolve_to_core(p, inner_shape_id)->Some_0,
            },
            _ => cur,
        },
        ShapeKind::ObjectKind => match comp {
            PathComponentView::ObjectTrail { shape_id } => ResolvedTrailView {
                shape_id,
                core_shape_kind: ShapeKind::ObjectKind,
            },
            PathComponentView::ObjectFieldTrail { field_shape_id, .. } => ResolvedTrailView {
                shape_id: field_shape_id,
                core_shape_kind: spec_resolve_to_core(p, field_shape_id)->Some_0,
            },
            _ => cur,
        },
        _ => cur,
    }
}

/// Every step of the path from position `i` on is admissible, starting at
/// the resolved position `cur`.
pub open spec fn walk_ok_from(
    p: ProjectionView,
    cur: ResolvedTrailView,
    path: Seq<PathComponentView>,
    i: int,
) -> bool
    decreases path.len() - i,
{
    if i < 0 || i >= path.len() {
        true
    } else {
        step_ok(p, cur.core_shape_kind, path[i]) && walk_ok_from(
            p,
            step_res(p, cur, path[i]),
            path,
            i + 1,
        )
    }
}

/// The resolved position after walking the path from position `i` on.
pub open spec fn walk_from(
    p: ProjectionView,
    cur: ResolvedTrailView,
    path: Seq<PathComponentView>,
    i: int,
) -> ResolvedTrailView
    decreases path.len() - i,
{
    if i < 0 || i >= path.len() {
        cur
    } else {
        walk_from(p, step_res(p, cur, path[i]), path, i + 1)
    }
}

/// The resolved position of a trail's root.
pub open spec fn spec_root_resolved(p: ProjectionView, t: TrailView) -> ResolvedTrailView {
    ResolvedTrailView {
        shape_id: t.root_shape_id,
        core_shape_kind: spec_resolve_to_core(p, t.root_shape_id)->Some_0,
    }
}

/// The trail can be walked from its root: the root shape exists and every
/// step is admissible.
pub open spec fn trail_ok(p: ProjectionView, t: TrailView) -> bool {
    &&& spec_resolve_to_core(p, t.root_shape_id) is Some
    &&& walk_ok_from(p, spec_root_resolved(p, t), t.path, 0)
}

/// The resolved position at the tip of a trail.
pub open spec fn spec_resolve_trail(p: ProjectionView, t: TrailView) -> ResolvedTrailView {
    walk_from(p, spec_root_resolved(p, t), t.path, 0)
}

impl<'a> ShapeQueries<'a> {
    /// Queries over the given projection.
    pub fn new(shape_projection: &'a ShapeProjection) -> (r: Self)
        ensures
            r.shape_projection@ == shape_projection@,
    {
        ShapeQueries { shape_projection }
    }

    /// The core kind the given shape descends from. The descendant chain is
    /// a single hop: deep ancestor chains are not supported.
    pub fn resolve_to_core_shape(&self, shape_id: &ShapeId) -> (r: ShapeKind)
        requires
            self.shape_projection@.wf(),
            self.shape_projection@.has_shape(shape_id@),
        ensures
            Some(r) == spec_resolve_to_core(self.shape_projection@, shape_id@),
    {
        let p = self.shape_projection;
        let ghost pv = p@;
        proof {
            lemma_resolve_to_core_some(pv, shape_id@);
            lemma_find_shape_ok(pv.nodes, shape_id@, 0);
        }
        let shape_node_index = match p.get_shape_node_index(shape_id) {
            Some(i) => i,
            None => {
                proof {
                    assert(false);
                }
                0
            },
        };
        let m = p.edges.len();
        let mut k: usize = 0;
        while k < m
            invariant
                0 <= k <= m,
                m == p.edges.len(),
                p == self.shape_projection,
                pv == p@,
                pv.wf(),
                Some(shape_node_index as int) == pv.shape_idx(shape_id@),
                spec_resolve_to_core(pv, shape_id@) is Some,
                find_desc_edge_from(pv.edges, shape_node_index as int, 0) == find_desc_edge_from(
                    pv.edges,
                    shape_node_index as int,
                    k as int,
                ),
            decreases m - k,
        {
            let e = &p.edges[k];
            match &e.edge {
                crate::projection::Edge::IsDescendantOf => {
                    if e.from == shape_node_index {
                        proof {
                            assert(crate::projection::edge_wf(pv.nodes, pv.edges[k as int]));
                        }
                        proof {
                            assert(find_desc_edge_from(pv.edges, shape_node_index as int, k as int)
                                == Some(k as int));
                            assert(spec_ancestor_idx(pv, shape_node_index as int) == Some(
                                pv.edges[k as int].to,
                            ));
                        }
                        match &p.nodes[e.to] {
                            Node::CoreShape(c) => {
                                proof {
                                    assert(pv.nodes[pv.edges[k as int].to] == (NodeView::CoreShape {
                                        kind: c.kind,
                                    }));
                                }
                                return c.kind;
                            },
                            _ => {
                                proof {
                                    assert(false);
                                }
                            },
                        }
                    }
                },
                _ => {},
            }
            k = k + 1;
        }
        proof {
            lemma_find_desc_edge_ok(pv.edges, shape_node_index as int, 0);
            assert(false);
        }
        ShapeKind::UnknownKind
    }

    /// The shape bound into a parameter slot of a shape. The caller only
    /// passes parameters declared and bound on the shape's kind; an absent
    /// binding would be a graph invariant violation.
    pub fn resolve_parameter_to_shape(
        &self,
        shape_id: &ShapeId,
        shape_parameter_id: &ShapeParameterId,
    ) -> (r: ShapeId)
        requires
            self.shape_projection@.wf(),
            spec_resolve_parameter(self.shape_projection@, shape_id@, shape_parameter_id@)
                is Some,
        ensures
            Some(r@) == spec_resolve_parameter(
                self.shape_projection@,
                shape_id@,
                shape_parameter_id@,
            ),
    {
        let p = self.shape_projection;
        let ghost pv = p@;
        let shape_node_index = match p.get_shape_node_index(shape_id) {
            Some(i) => i,
            None => {
                proof {
                    assert(false);
                }
                0
            },
        };
        let parameter_node_index = match p.get_shape_parameter_node_index(shape_parameter_id) {
            Some(i) => i,
            None => {
                proof {
                    assert(false);
                }
                0
            },
        };
        let m = p.edges.len();
        let mut k: usize = 0;
        while k < m
            invariant
                0 <= k <= m,
                m == p.edges.len(),
                p == self.shape_projection,
                pv == p@,
                Some(shape_node_index as int) == pv.shape_idx(shape_id@),
                Some(parameter_node_index as int) == pv.param_idx(shape_parameter_id@),
                spec_resolve_parameter(pv, shape_id@, shape_parameter_id@) is Some,
                crate::events::find_binding_edge_from(
                    pv.edges,
                    shape_node_index as int,
                    parameter_node_index as int,
                    0,
                ) == crate::events::find_binding_edge_from(
                    pv.edges,
                    shape_node_index as int,
                    parameter_node_index as int,
                    k as int,
                ),
            decreases m - k,
        {
            let e = &p.edges[k];
            match &e.edge {
                crate::projection::Edge::HasBinding(b) => {
                    if e.from == shape_node_index && e.to == parameter_node_index {
                        proof {
                            assert(crate::events::find_binding_edge_from(
                                pv.edges,
                                shape_node_index as int,
                                parameter_node_index as int,
                                k as int,
                            ) == Some(k as int));
                            assert(pv.edges[k as int].edge
                                == (crate::projection::EdgeKindView::HasBinding {
                                shape_id: b.shape_id@,
                            }));
                        }
                        return b.shape_id.clone();
                    }
                },
                _ => {},
            }
            k = k + 1;
        }
        proof {
            assert(false);
        }
        shape_id.clone()
    }

    /// Every `(parameter identifier, bound shape identifier)` pair of the
    /// shape, in edge insertion order.
    pub fn resolve_parameters_to_shapes(&self, shape_id: &ShapeId) -> (r: Vec<
        (ShapeParameterId, ShapeId),
    >)
        requires
            self.shape_projection@.wf(),
            self.shape_projection@.has_shape(shape_id@),
        ensures
            r@.map_values(|pr: (ShapeParameterId, ShapeId)| (pr.0@, pr.1@))
                == spec_resolve_parameters(self.shape_projection@, shape_id@),
    {
        let p = self.shape_projection;
        let ghost pv = p@;
        let shape_node_index = match p.get_shape_node_index(shape_id) {
            Some(i) => i,
            None => {
                proof {
                    assert(false);
                }
                0
            },
        };
        let ghost si = shape_node_index as int;
        let m = p.edges.len();
        let mut out: Vec<(ShapeParameterId, ShapeId)> = Vec::new();
        let mut k: usize = 0;
        while k < m
            invariant
                0 <= k <= m,
                m == p.edges.len(),
                p == self.shape_projection,
                pv == p@,
                pv.wf(),
                Some(si) == pv.shape_idx(shape_id@),
                si == shape_node_index as int,
                out@.map_values(|pr: (ShapeParameterId, ShapeId)| (pr.0@, pr.1@))
                    + spec_bindings_from(pv, si, k as int) == spec_bindings_from(pv, si, 0),
            decreases m - k,
        {
            let ghost out_views_before = out@.map_values(
                |pr: (ShapeParameterId, ShapeId)| (pr.0@, pr.1@),
            );
            let e = &p.edges[k];
            match &e.edge {
                crate::projection::Edge::HasBinding(b) => {
                    if e.from == shape_node_index {
                        proof {
                            assert(crate::projection::edge_wf(pv.nodes, pv.edges[k as int]));
                        }
                        match &p.nodes[e.to] {
                            Node::ShapeParameter(pn) => {
                                out.push((pn.parameter_id.clone(), b.shape_id.clone()));
                            },
                            _ => {
                                proof {
                                    assert(false);
                                }
                            },
                        }
                    }
                },
                _ => {},
            }
            proof {
                let out_views = out@.map_values(|pr: (ShapeParameterId, ShapeId)| (pr.0@, pr.1@));
                let e_v = pv.edges[k as int];
                if e_v.from == si && e_v.edge is HasBinding {
                    assert(out_views =~= out_views_before.push(
                        (
                            pv.nodes[e_v.to]->ShapeParameter_parameter_id,
                            e_v.edge->HasBinding_shape_id,
                        ),
                    ));
                    assert(out_views + spec_bindings_from(pv, si, k as int + 1) =~= out_views_before
                        + spec_bindings_from(pv, si, k as int));
                } else {
                    assert(out_views + spec_bindings_from(pv, si, k as int + 1) =~= out_views
                        + spec_bindings_from(pv, si, k as int));
                }
            }
            k = k + 1;
        }
        proof {
            assert(out@.map_values(|pr: (ShapeParameterId, ShapeId)| (pr.0@, pr.1@))
                + spec_bindings_from(pv, si, m as int) =~= out@.map_values(
                |pr: (ShapeParameterId, ShapeId)| (pr.0@, pr.1@),
            ));
        }
        out
    }
}


// ---------------------------------------------------------------------------
// Choice enumeration.
// ---------------------------------------------------------------------------

/// An alternative reachable at a trail tip: either a terminal core shape or
/// a combinator sentinel. `parent_trail` is the trail the choice was
/// enumerated under; `additional_components` lead from there to the choice.
#[derive(Clone, Debug, PartialEq, Eq)]
pub struct ChoiceOutput {
    pub parent_trail: ShapeTrail,
    pub additional_components: Vec<ShapeTrailPathComponent>,
    pub shape_id: ShapeId,
    pub core_shape_kind: ShapeKind,
}

#[verifier::ext_equal]
pub struct ChoiceView {
    pub parent_trail: TrailView,
    pub additional_components: Seq<PathComponentView>,
    pub shape_id: Seq<char>,
    pub core_shape_kind: ShapeKind,
}

impl View for ChoiceOutput {
    type V = ChoiceView;

    open spec fn view(&self) -> ChoiceView {
        ChoiceView {
            parent_trail: self.parent_trail@,
            additional_components: self.additional_components@.map_values(
                |c: ShapeTrailPathComponent| c@,
            ),
            shape_id: self.shape_id@,
            core_shape_kind: self.core_shape_kind,
        }
    }
}

/// The views of a vector of choices.
pub open spec fn choice_views(v: Seq<ChoiceOutput>) -> Seq<ChoiceView> {
    v.map_values(|c: ChoiceOutput| c@)
}

/// The trail `t` extended by two components.
pub open spec fn spec_trail_extended(
    t: TrailView,
    c1: PathComponentView,
    c2: PathComponentView,
) -> TrailView {
    TrailView { root_shape_id: t.root_shape_id, path: t.path.push(c1).push(c2) }
}

/// Fuel that always suffices to expand a position of a graph whose binding
/// chains are acyclic: one unit per node, plus one.
pub open spec fn choice_fuel(p: ProjectionView) -> nat {
    p.nodes.len() + 1
}

/// The recursive expansion of the shape carrying `id` reaches only bound,
/// existing shapes and bottoms out within `fuel` steps. This is what choice
/// enumeration needs of the graph; it holds of every position of a graph
/// whose wrapper bindings are complete and acyclic.
pub open spec fn expandable(p: ProjectionView, id: Seq<char>, fuel: nat) -> bool
    decreases fuel, 0int,
{
    if fuel == 0 {
        false
    } else {
        match spec_resolve_to_core(p, id) {
            None => false,
            Some(kind) => match kind {
                ShapeKind::NullableKind => match spec_resolve_parameter(
                    p,
                    id,
                    "$nullableInner"@,
                ) {
                    Some(inner) => expandable(p, inner, (fuel - 1) as nat),
                    None => false,
                },
                ShapeKind::OptionalKind => match spec_resolve_parameter(
                    p,
                    id,
                    "$optionalInner"@,
                ) {
                    Some(inner) => expandable(p, inner, (fuel - 1) as nat),
                    None => false,
                },
                ShapeKind::OneOfKind => expandable_all(p, id, 0, (fuel - 1) as nat),
                _ => true,
            },
        }
    }
}

/// Every shape bound into the one-of carrying `id`, from binding position
/// `b` on, is expandable with the given fuel.
pub open spec fn expandable_all(p: ProjectionView, id: Seq<char>, b: int, fuel: nat) -> bool
    decreases fuel, spec_resolve_parameters(p, id).len() - b,
{
    let bs = spec_resolve_parameters(p, id);
    if b < 0 || b >= bs.len() {
        true
    } else {
        expandable(p, bs[b].1, fuel) && expandable_all(p, id, b + 1, fuel)
    }
}

pub proof fn lemma_expandable_all_index(p: ProjectionView, id: Seq<char>, b: int, fuel: nat, l: int)
    requires
        expandable_all(p, id, b, fuel),
        b <= l < spec_resolve_parameters(p, id).len(),
        0 <= b,
    ensures
        expandable(p, spec_resolve_parameters(p, id)[l].1, fuel),
    decreases l - b,
{
    if b < l {
        lemma_expandable_all_index(p, id, b + 1, fuel, l);
    }
}

/// The choices enumerated by expanding the shape carrying `id` at the tip
/// of `t`: sentinels plus recursive expansions for nullable and optional,
/// per-binding expansions for one-of, one terminal choice otherwise.
pub open spec fn spec_choices_from(
    p: ProjectionView,
    t: TrailView,
    id: Seq<char>,
    fuel: nat,
) -> Seq<ChoiceView>
    decreases fuel, 0int,
{
    if fuel == 0 {
        Seq::empty()
    } else {
        match spec_resolve_to_core(p, id) {
            None => Seq::empty(),
            Some(kind) => match kind {
                ShapeKind::NullableKind => match spec_resolve_parameter(
                    p,
                    id,
                    "$nullableInner"@,
                ) {
                    Some(inner) => seq![
                        ChoiceView {
                            parent_trail: t,
                            additional_components: seq![
                                PathComponentView::NullableTrail { shape_id: id },
                            ],
                            shape_id: id,
                            core_shape_kind: kind,
                        },
                    ] + spec_choices_from(
                        p,
                        spec_trail_extended(
                            t,
                            PathComponentView::NullableTrail { shape_id: id },
                            PathComponentView::NullableItemTrail {
                                shape_id: id,
                                inner_shape_id: inner,
                            },
                        ),
                        inner,
                        (fuel - 1) as nat,
                    ),
                    None => Seq::empty(),
                },
                ShapeKind::OptionalKind => match spec_resolve_parameter(
                    p,
                    id,
                    "$optionalInner"@,
                ) {
                    Some(inner) => seq![
                        ChoiceView {
                            parent_trail: t,
                            additional_components: seq![
                                PathComponentView::OptionalTrail { shape_id: id },
                            ],
                            shape_id: id,
                            core_shape_kind: kind,
                        },
                    ] + spec_choices_from(
                        p,
                        spec_trail_extended(
                            t,
                            PathComponentView::OptionalTrail { shape_id: id },
                            PathComponentView::OptionalItemTrail {
                                shape_id: id,
                                inner_shape_id: inner,
                            },
                        ),
                        inner,
                        (fuel - 1) as nat,
                    ),
                    None => Seq::empty(),
                },
                ShapeKind::OneOfKind => spec_oneof_choices(p, t, id, 0, (fuel - 1) as nat),
                _ => seq![
                    ChoiceView {
                        parent_trail: t,
                        additional_components: Seq::empty(),
                        shape_id: id,
                        core_shape_kind: kind,
                    },
                ],
            },
        }
    }
}

/// The concatenated expansions of the one-of's bindings, from binding
/// position `b` on.
pub open spec fn spec_oneof_choices(
    p: ProjectionView,
    t: TrailView,
    id: Seq<char>,
    b: int,
    fuel: nat,
) -> Seq<ChoiceView>
    decreases fuel, spec_resolve_parameters(p, id).len() - b,
{
    let bs = spec_resolve_parameters(p, id);
    if b < 0 || b >= bs.len() {
        Seq::empty()
    } else {
        let ext = spec_trail_extended(
            t,
            PathComponentView::OneOfTrail { shape_id: id },
            PathComponentView::OneOfItemTrail {
                one_of_id: id,
                parameter_id: bs[b].0,
                item_shape_id: bs[b].1,
            },
        );
        spec_choices_from(p, ext, bs[b].1, fuel) + spec_oneof_choices(p, t, id, b + 1, fuel)
    }
}



impl<'a> ShapeQueries<'a> {
    /// One step of the resolve-step dispatch table: where `path_component`
    /// leads, relative to the already-resolved `parent` position.
    fn resolve_trail_to_core_shape_helper(
        &self,
        parent: &ResolvedTrail,
        path_component: &ShapeTrailPathComponent,
    ) -> (r: ResolvedTrail)
        requires
            self.shape_projection@.wf(),
            step_ok(self.shape_projection@, parent@.core_shape_kind, path_component@),
        ensures
            r@ == step_res(self.shape_projection@, parent@, path_component@),
    {
        let ghost g = self.shape_projection@;
        match parent.core_shape_kind {
            ShapeKind::ListKind => match path_component {
                ShapeTrailPathComponent::ListItemTrail { item_shape_id, .. } => {
                    proof {
                        assert(g.has_shape(item_shape_id@));
                    }
                    ResolvedTrail {
                        core_shape_kind: self.resolve_to_core_shape(item_shape_id),
                        shape_id: item_shape_id.clone(),
                    }
                },
                _ => {
                    proof {
                        assert(false);
                    }
                    ResolvedTrail {
                        core_shape_kind: parent.core_shape_kind,
                        shape_id: parent.shape_id.clone(),
                    }
                },
            },
            ShapeKind::OneOfKind => match path_component {
                ShapeTrailPathComponent::OneOfTrail { .. } => ResolvedTrail {
                    core_shape_kind: ShapeKind::OneOfKind,
                    shape_id: parent.shape_id.clone(),
                },
                ShapeTrailPathComponent::OneOfItemTrail { item_shape_id, .. } => {
                    proof {
                        assert(g.has_shape(item_shape_id@));
                    }
                    ResolvedTrail {
                        core_shape_kind: self.resolve_to_core_shape(item_shape_id),
                        shape_id: item_shape_id.clone(),
                    }
                },
                _ => {
                    proof {
                        assert(false);
                    }
                    ResolvedTrail {
                        core_shape_kind: parent.core_shape_kind,
                        shape_id: parent.shape_id.clone(),
                    }
                },
            },
            ShapeKind::NullableKind => match path_component {
                ShapeTrailPathComponent::NullableTrail { .. } => ResolvedTrail {
                    core_shape_kind: ShapeKind::NullableKind,
                    shape_id: parent.shape_id.clone(),
                },
                ShapeTrailPathComponent::NullableItemTrail { inner_shape_id, .. } => {
                    proof {
                        assert(g.has_shape(inner_shape_id@));
                    }
                    ResolvedTrail {
                        core_shape_kind: self.resolve_to_core_shape(inner_shape_id),
                        shape_id: inner_shape_id.clone(),
                    }
                },
                _ => {
                    proof {
                        assert(false);
                    }
                    ResolvedTrail {
                        core_shape_kind: parent.core_shape_kind,
                        shape_id: parent.shape_id.clone(),
                    }
                },
            },
            ShapeKind::OptionalKind => match path_component {
                ShapeTrailPathComponent::OptionalTrail { .. } => ResolvedTrail {
                    core_shape_kind: ShapeKind::OptionalKind,
                    shape_id: parent.shape_id.clone(),
                },
                ShapeTrailPathComponent::OptionalItemTrail { inner_shape_id, .. } => {
                    proof {
                        assert(g.has_shape(inner_shape_id@));
                    }
                    ResolvedTrail {
                        core_shape_kind: self.resolve_to_core_shape(inner_shape_id),
                        shape_id: inner_shape_id.clone(),
                    }
                },
                _ => {
                    proof {
                        assert(false);
                    }
                    ResolvedTrail {
                        core_shape_kind: parent.core_shape_kind,
                        shape_id: parent.shape_id.clone(),
                    }
                },
            },
            ShapeKind::ObjectKind => match path_component {
                ShapeTrailPathComponent::ObjectTrail { shape_id } => ResolvedTrail {
                    core_shape_kind: ShapeKind::ObjectKind,
                    shape_id: shape_id.clone(),
                },
                ShapeTrailPathComponent::ObjectFieldTrail { field_shape_id, .. } => {
                    proof {
                        assert(g.has_shape(field_shape_id@));
                    }
                    ResolvedTrail {
                        core_shape_kind: self.resolve_to_core_shape(field_shape_id),
                        shape_id: field_shape_id.clone(),
                    }
                },
                _ => {
                    proof {
                        assert(false);
                    }
                    ResolvedTrail {
                        core_shape_kind: parent.core_shape_kind,
                        shape_id: parent.shape_id.clone(),
                    }
                },
            },
            ShapeKind::NumberKind => ResolvedTrail {
                core_shape_kind: ShapeKind::NumberKind,
                shape_id: parent.shape_id.clone(),
            },
            ShapeKind::BooleanKind => ResolvedTrail {
                core_shape_kind: ShapeKind::BooleanKind,
                shape_id: parent.shape_id.clone(),
            },
            ShapeKind::StringKind => ResolvedTrail {
                core_shape_kind: ShapeKind::StringKind,
                shape_id: parent.shape_id.clone(),
            },
            ShapeKind::UnknownKind => ResolvedTrail {
                core_shape_kind: ShapeKind::UnknownKind,
                shape_id: parent.shape_id.clone(),
            },
            _ => {
                proof {
                    assert(false);
                }
                ResolvedTrail {
                    core_shape_kind: parent.core_shape_kind,
                    shape_id: parent.shape_id.clone(),
                }
            },
        }
    }

    /// Expands the shape at the tip of `parent_trail` into the flat,
    /// ordered list of choices: sentinel plus recursive expansion for
    /// nullable and optional, per-binding expansion for one-of, one
    /// terminal choice for every other kind.
    fn enumerate_choices(
        &self,
        parent_trail: ShapeTrail,
        shape_id: &ShapeId,
        Ghost(fuel): Ghost<nat>,
    ) -> (r: Vec<ChoiceOutput>)
        requires
            self.shape_projection@.wf(),
            expandable(self.shape_projection@, shape_id@, fuel),
        ensures
            choice_views(r@) == spec_choices_from(
                self.shape_projection@,
                parent_trail@,
                shape_id@,
                fuel,
            ),
        decreases fuel,
    {
        let ghost g = self.shape_projection@;
        let ghost sid = shape_id@;
        let ghost tview = parent_trail@;
        proof {
            assert(g.has_shape(sid));
        }
        let core_shape_kind = self.resolve_to_core_shape(shape_id);
        match core_shape_kind {
            ShapeKind::NullableKind => {
                let descriptor = match core_shape_kind.primary_parameter_descriptor() {
                    Some(d) => d,
                    None => {
                        proof {
                            assert(false);
                        }
                        return Vec::new();
                    },
                };
                let item_shape_id = self.resolve_parameter_to_shape(
                    shape_id,
                    &descriptor.shape_parameter_id,
                );
                let ghost inner = item_shape_id@;
                let mut sentinel_components: Vec<ShapeTrailPathComponent> = Vec::new();
                sentinel_components.push(
                    ShapeTrailPathComponent::NullableTrail { shape_id: shape_id.clone() },
                );
                let mut output: Vec<ChoiceOutput> = Vec::new();
                output.push(
                    ChoiceOutput {
                        parent_trail: parent_trail.duplicate(),
                        additional_components: sentinel_components,
                        shape_id: shape_id.clone(),
                        core_shape_kind,
                    },
                );
                let trail = parent_trail.with_component(
                    ShapeTrailPathComponent::NullableTrail { shape_id: shape_id.clone() },
                ).with_component(
                    ShapeTrailPathComponent::NullableItemTrail {
                        shape_id: shape_id.clone(),
                        inner_shape_id: item_shape_id.clone(),
                    },
                );
                proof {
                    assert(trail@ == spec_trail_extended(
                        tview,
                        PathComponentView::NullableTrail { shape_id: sid },
                        PathComponentView::NullableItemTrail { shape_id: sid, inner_shape_id: inner },
                    ));
                }
                let ghost before = output@;
                let mut rest = self.enumerate_choices(
                    trail,
                    &item_shape_id,
                    Ghost((fuel - 1) as nat),
                );
                let ghost rest_snapshot = rest@;
                output.append(&mut rest);
                proof {
                    assert(choice_views(output@) =~= choice_views(before) + choice_views(
                        rest_snapshot,
                    ));
                    assert(choice_views(before) =~~= seq![
                        ChoiceView {
                            parent_trail: tview,
                            additional_components: seq![
                                PathComponentView::NullableTrail { shape_id: sid },
                            ],
                            shape_id: sid,
                            core_shape_kind: ShapeKind::NullableKind,
                        },
                    ]);
                }
                output
            },
            ShapeKind::OptionalKind => {
                let descriptor = match core_shape_kind.primary_parameter_descriptor() {
                    Some(d) => d,
                    None => {
                        proof {
                            assert(false);
                        }
                        return Vec::new();
                    },
                };
                let item_shape_id = self.resolve_parameter_to_shape(
                    shape_id,
                    &descriptor.shape_parameter_id,
                );
                let ghost inner = item_shape_id@;
                let mut sentinel_components: Vec<ShapeTrailPathComponent> = Vec::new();
                sentinel_components.push(
                    ShapeTrailPathComponent::OptionalTrail { shape_id: shape_id.clone() },
                );
                let mut output: Vec<ChoiceOutput> = Vec::new();
                output.push(
                    ChoiceOutput {
                        parent_trail: parent_trail.duplicate(),
                        additional_components: sentinel_components,
                        shape_id: shape_id.clone(),
                        core_shape_kind,
                    },
                );
                let trail = parent_trail.with_component(
                    ShapeTrailPathComponent::OptionalTrail { shape_id: shape_id.clone() },
                ).with_component(
                    ShapeTrailPathComponent::OptionalItemTrail {
                        shape_id: shape_id.clone(),
                        inner_shape_id: item_shape_id.clone(),
                    },
                );
                proof {
                    assert(trail@ == spec_trail_extended(
                        tview,
                        PathComponentView::OptionalTrail { shape_id: sid },
                        PathComponentView::OptionalItemTrail { shape_id: sid, inner_shape_id: inner },
                    ));
                }
                let ghost before = output@;
                let mut rest = self.enumerate_choices(
                    trail,
                    &item_shape_id,
                    Ghost((fuel - 1) as nat),
                );
                let ghost rest_snapshot = rest@;
                output.append(&mut rest);
                proof {
                    assert(choice_views(output@) =~= choice_views(before) + choice_views(
                        rest_snapshot,
                    ));
                    assert(choice_views(before) =~~= seq![
                        ChoiceView {
                            parent_trail: tview,
                            additional_components: seq![
                                PathComponentView::OptionalTrail { shape_id: sid },
                            ],
                            shape_id: sid,
                            core_shape_kind: ShapeKind::OptionalKind,
                        },
                    ]);
                }
                output
            },
            ShapeKind::OneOfKind => {
                let ghost fuelm1 = (fuel - 1) as nat;
                let bindings = self.resolve_parameters_to_shapes(shape_id);
                let n = bindings.len();
                let mut output: Vec<ChoiceOutput> = Vec::new();
                let mut b: usize = 0;
                while b < n
                    invariant
                        0 <= b <= n,
                        n == bindings.len(),
                        g == self.shape_projection@,
                        g.wf(),
                        tview == parent_trail@,
                        sid == shape_id@,
                        fuelm1 < fuel,
                        bindings@.map_values(|pr: (ShapeParameterId, ShapeId)| (pr.0@, pr.1@))
                            == spec_resolve_parameters(g, sid),
                        expandable_all(g, sid, 0, fuelm1),
                        choice_views(output@) + spec_oneof_choices(g, tview, sid, b as int, fuelm1)
                            == spec_oneof_choices(g, tview, sid, 0, fuelm1),
                    decreases n - b,
                {
                    let ghost before = output@;
                    let pr = &bindings[b];
                    let trail = parent_trail.with_component(
                        ShapeTrailPathComponent::OneOfTrail { shape_id: shape_id.clone() },
                    ).with_component(
                        ShapeTrailPathComponent::OneOfItemTrail {
                            one_of_id: shape_id.clone(),
                            parameter_id: pr.0.clone(),
                            item_shape_id: pr.1.clone(),
                        },
                    );
                    proof {
                        assert(spec_resolve_parameters(g, sid)[b as int] == (pr.0@, pr.1@));
                        lemma_expandable_all_index(g, sid, 0, fuelm1, b as int);
                        assert(trail@ == spec_trail_extended(
                            tview,
                            PathComponentView::OneOfTrail { shape_id: sid },
                            PathComponentView::OneOfItemTrail {
                                one_of_id: sid,
                                parameter_id: pr.0@,
                                item_shape_id: pr.1@,
                            },
                        ));
                    }
                    let mut rest = self.enumerate_choices(trail, &pr.1, Ghost(fuelm1));
                    let ghost rest_snapshot = rest@;
                    output.append(&mut rest);
                    proof {
                        assert(choice_views(output@) =~= choice_views(before) + choice_views(
                            rest_snapshot,
                        ));
                        assert(choice_views(before) + (choice_views(rest_snapshot)
                            + spec_oneof_choices(g, tview, sid, b as int + 1, fuelm1))
                            =~= (choice_views(before) + choice_views(rest_snapshot))
                            + spec_oneof_choices(g, tview, sid, b as int + 1, fuelm1));
                    }
                    b = b + 1;
                }
                proof {
                    assert(spec_oneof_choices(g, tview, sid, n as int, fuelm1) =~= Seq::empty());
                    assert(choice_views(output@) + Seq::empty() =~= choice_views(output@));
                }
                output
            },
            _ => {
                let mut output: Vec<ChoiceOutput> = Vec::new();
                output.push(
                    ChoiceOutput {
                        parent_trail: parent_trail.duplicate(),
                        additional_components: Vec::new(),
                        shape_id: shape_id.clone(),
                        core_shape_kind,
                    },
                );
                proof {
                    assert(choice_views(output@) =~~= seq![
                        ChoiceView {
                            parent_trail: tview,
                            additional_components: Seq::empty(),
                            shape_id: sid,
                            core_shape_kind,
                        },
                    ]);
                }
                output
            },
        }
    }
}

/// Everything `list_trail_choices` needs of the graph and the trail: the
/// trail can be walked, and the shape at its tip (when it exists) expands
/// within the graph's fuel bound.
pub open spec fn trail_choices_ok(p: ProjectionView, t: TrailView) -> bool {
    &&& trail_ok(p, t)
    &&& (p.has_shape(spec_resolve_trail(p, t).shape_id) ==> expandable(
        p,
        spec_resolve_trail(p, t).shape_id,
        choice_fuel(p),
    ))
}

/// The choices at the tip of `t`: empty when the resolved tip names no
/// existing shape, the recursive expansion of the tip's shape otherwise.
/// This is a function of the graph and the trail alone, so enumeration is
/// deterministic: two calls on the same projection and trail return the
/// same list, in the same order.
pub open spec fn spec_list_trail_choices(p: ProjectionView, t: TrailView) -> Seq<ChoiceView> {
    let resolved = spec_resolve_trail(p, t);
    if p.has_shape(resolved.shape_id) {
        spec_choices_from(p, t, resolved.shape_id, choice_fuel(p))
    } else {
        Seq::empty()
    }
}

/// Whether a choice's kind is known (not the unknown primitive).
pub open spec fn choice_known(c: ChoiceView) -> bool {
    !(c.core_shape_kind is UnknownKind)
}

/// The subsequence of `s` whose choices are of known kind, in order.
pub open spec fn known_choices(s: Seq<ChoiceView>) -> Seq<ChoiceView> {
    s.filter(|c: ChoiceView| choice_known(c))
}

impl<'a> ShapeQueries<'a> {
    /// Walks the trail from its root and expands the shape at its tip into
    /// the flat, ordered list of primitive choices and combinator
    /// sentinels. The output is deterministic: it depends on the projection
    /// and the trail alone (including its order), and duplicates are kept.
    pub fn list_trail_choices(&self, shape_trail: &ShapeTrail) -> (r: Vec<ChoiceOutput>)
        requires
            self.shape_projection@.wf(),
            trail_choices_ok(self.shape_projection@, shape_trail@),
        ensures
            choice_views(r@) == spec_list_trail_choices(self.shape_projection@, shape_trail@),
    {
        let p = self.shape_projection;
        let ghost g = p@;
        let ghost tview = shape_trail@;
        proof {
            assert(g.has_shape(tview.root_shape_id));
        }
        let mut resolved = ResolvedTrail {
            shape_id: shape_trail.root_shape_id.clone(),
            core_shape_kind: self.resolve_to_core_shape(&shape_trail.root_shape_id),
        };
        let n = shape_trail.path.len();
        let mut i: usize = 0;
        while i < n
            invariant
                0 <= i <= n,
                n == shape_trail.path.len(),
                p == self.shape_projection,
                g == p@,
                g.wf(),
                tview == shape_trail@,
                walk_ok_from(g, resolved@, tview.path, i as int),
                walk_from(g, resolved@, tview.path, i as int) == spec_resolve_trail(g, tview),
            decreases n - i,
        {
            proof {
                assert(tview.path[i as int] == shape_trail.path@[i as int]@);
            }
            resolved = self.resolve_trail_to_core_shape_helper(&resolved, &shape_trail.path[i]);
            i = i + 1;
        }
        match p.get_shape_node_index(&resolved.shape_id) {
            None => {
                proof {
                    assert(!g.has_shape(spec_resolve_trail(g, tview).shape_id));
                }
                Vec::new()
            },
            Some(_) => {
                proof {
                    assert(g.has_shape(spec_resolve_trail(g, tview).shape_id));
                }
                self.enumerate_choices(
                    shape_trail.duplicate(),
                    &resolved.shape_id,
                    Ghost(choice_fuel(g)),
                )
            },
        }
    }

    /// The trail's choices with every choice of unknown kind removed:
    /// exactly the filtering of `list_trail_choices` by kind.
    pub fn list_known_trail_choices(&self, shape_trail: &ShapeTrail) -> (r: Vec<ChoiceOutput>)
        requires
            self.shape_projection@.wf(),
            trail_choices_ok(self.shape_projection@, shape_trail@),
        ensures
            choice_views(r@) == known_choices(
                spec_list_trail_choices(self.shape_projection@, shape_trail@),
            ),
    {
        let ghost g = self.shape_projection@;
        let ghost all_views = spec_list_trail_choices(g, shape_trail@);
        let all = self.list_trail_choices(shape_trail);
        let n = all.len();
        let mut out: Vec<ChoiceOutput> = Vec::new();
        proof {
            reveal(Seq::filter);
            assert(choice_views(out@) =~= Seq::<ChoiceView>::empty());
            assert(all_views.take(0).len() == 0);
            assert(known_choices(all_views.take(0)) =~= Seq::<ChoiceView>::empty());
        }
        let mut i: usize = 0;
        while i < n
            invariant
                0 <= i <= n,
                n == all.len(),
                choice_views(all@) == all_views,
                choice_views(out@) == known_choices(all_views.take(i as int)),
            decreases n - i,
        {
            let ghost prefix = all_views.take(i as int);
            let ghost out_before = out@;
            let choice = &all[i];
            let keep = match choice.core_shape_kind {
                ShapeKind::UnknownKind => false,
                _ => true,
            };
            if keep {
                out.push(
                    ChoiceOutput {
                        parent_trail: choice.parent_trail.duplicate(),
                        additional_components: duplicate_components(&choice.additional_components),
                        shape_id: choice.shape_id.clone(),
                        core_shape_kind: choice.core_shape_kind,
                    },
                );
            }
            proof {
                reveal(Seq::filter);
                let pred = |c: ChoiceView| choice_known(c);
                let y = all_views[i as int];
                assert(all_views.take(i as int + 1) =~= prefix.push(y));
                assert(prefix.push(y).drop_last() =~= prefix);
                assert(y == all@[i as int]@);
                if keep {
                    assert(known_choices(prefix.push(y)) == known_choices(prefix).push(y));
                    assert(choice_views(out@) =~~= choice_views(out_before).push(y));
                } else {
                    assert(known_choices(prefix.push(y)) == known_choices(prefix));
                }
            }
            i = i + 1;
        }
        proof {
            assert(all_views.take(n as int) =~= all_views);
        }
        out
    }
}

/// A structural copy of a component vector.
fn duplicate_components(v: &Vec<ShapeTrailPathComponent>) -> (r: Vec<ShapeTrailPathComponent>)
    ensures
        r@.map_values(|c: ShapeTrailPathComponent| c@) == v@.map_values(
            |c: ShapeTrailPathComponent| c@,
        ),
{
    let mut out: Vec<ShapeTrailPathComponent> = Vec::new();
    let n = v.len();
    let mut i: usize = 0;
    while i < n
        invariant
            0 <= i <= n,
            n == v.len(),
            out@.len() == i,
            forall|j: int| 0 <= j < i ==> out@[j]@ == v@[j]@,
        decreases n - i,
    {
        out.push(v[i].duplicate());
        i = i + 1;
    }
    proof {
        assert(out@.map_values(|c: ShapeTrailPathComponent| c@) =~= v@.map_values(
            |c: ShapeTrailPathComponent| c@,
        ));
    }
    out
}

impl ChoiceOutput {
    /// The full trail the choice names: the parent trail followed by the
    /// additional components.
    pub fn shape_trail(&self) -> (r: ShapeTrail)
        ensures
            r@.root_shape_id == self@.parent_trail.root_shape_id,
            r@.path == self@.parent_trail.path + self@.additional_components,
    {
        let mut r = self.parent_trail.duplicate();
        let mut additional_components = duplicate_components(&self.additional_components);
        let ghost base = r@.path;
        r.path.append(&mut additional_components);
        proof {
            assert(r@.path =~= self@.parent_trail.path + self@.additional_components);
        }
        r
    }
}



impl<'a> ShapeQueries<'a> {
    /// The shape bound into a parameter slot, or `None` when the shape, the
    /// slot or the binding is absent: the total companion of
    /// `resolve_parameter_to_shape`.
    fn try_resolve_parameter(
        &self,
        shape_id: &ShapeId,
        shape_parameter_id: &ShapeParameterId,
    ) -> (r: Option<ShapeId>)
        ensures
            match r {
                Some(id) => spec_resolve_parameter(
                    self.shape_projection@,
                    shape_id@,
                    shape_parameter_id@,
                ) == Some(id@),
                None => spec_resolve_parameter(
                    self.shape_projection@,
                    shape_id@,
                    shape_parameter_id@,
                ) is None,
            },
    {
        let p = self.shape_projection;
        let ghost pv = p@;
        let shape_node_index = match p.get_shape_node_index(shape_id) {
            Some(i) => i,
            None => {
                return None;
            },
        };
        let parameter_node_index = match p.get_shape_parameter_node_index(shape_parameter_id) {
            Some(i) => i,
            None => {
                return None;
            },
        };
        let m = p.edges.len();
        let mut k: usize = 0;
        while k < m
            invariant
                0 <= k <= m,
                m == p.edges.len(),
                p == self.shape_projection,
                pv == p@,
                Some(shape_node_index as int) == pv.shape_idx(shape_id@),
                Some(parameter_node_index as int) == pv.param_idx(shape_parameter_id@),
                crate::events::find_binding_edge_from(
                    pv.edges,
                    shape_node_index as int,
                    parameter_node_index as int,
                    0,
                ) == crate::events::find_binding_edge_from(
                    pv.edges,
                    shape_node_index as int,
                    parameter_node_index as int,
                    k as int,
                ),
            decreases m - k,
        {
            let e = &p.edges[k];
            match &e.edge {
                crate::projection::Edge::HasBinding(b) => {
                    if e.from == shape_node_index && e.to == parameter_node_index {
                        proof {
                            assert(crate::events::find_binding_edge_from(
                                pv.edges,
                                shape_node_index as int,
                                parameter_node_index as int,
                                k as int,
                            ) == Some(k as int));
                            assert(pv.edges[k as int].edge
                                == (crate::projection::EdgeKindView::HasBinding {
                                shape_id: b.shape_id@,
                            }));
                        }
                        return Some(b.shape_id.clone());
                    }
                },
                _ => {},
            }
            k = k + 1;
        }
        None
    }

    /// Whether the shape expands within `fuel + 1` steps: it exists, every
    /// nullable or optional reached has its inner binding, and the
    /// expansion bottoms out.
    fn check_expandable(&self, shape_id: &ShapeId, fuel: usize) -> (r: bool)
        requires
            self.shape_projection@.wf(),
        ensures
            r == expandable(self.shape_projection@, shape_id@, (fuel + 1) as nat),
        decreases fuel,
    {
        let ghost g = self.shape_projection@;
        proof {
            reveal_with_fuel(expandable, 2);
        }
        if self.shape_projection.get_shape_node_index(shape_id).is_none() {
            return false;
        }
        proof {
            lemma_resolve_to_core_some(g, shape_id@);
        }
        let kind = self.resolve_to_core_shape(shape_id);
        match kind {
            ShapeKind::NullableKind => {
                match self.try_resolve_parameter(shape_id, &String::from_str("$nullableInner")) {
                    Some(inner) => {
                        if fuel == 0 {
                            false
                        } else {
                            self.check_expandable(&inner, fuel - 1)
                        }
                    },
                    None => false,
                }
            },
            ShapeKind::OptionalKind => {
                match self.try_resolve_parameter(shape_id, &String::from_str("$optionalInner")) {
                    Some(inner) => {
                        if fuel == 0 {
                            false
                        } else {
                            self.check_expandable(&inner, fuel - 1)
                        }
                    },
                    None => false,
                }
            },
            ShapeKind::OneOfKind => {
                if fuel == 0 {
                    let ghost bs = spec_resolve_parameters(g, shape_id@);
                    let bindings = self.resolve_parameters_to_shapes(shape_id);
                    proof {
                        assert(bindings@.map_values(
                            |pr: (ShapeParameterId, ShapeId)| (pr.0@, pr.1@),
                        ).len() == bindings@.len());
                        assert(bs.len() == bindings@.len());
                    }
                    if bindings.len() == 0 {
                        proof {
                            assert(expandable_all(g, shape_id@, 0, 0nat));
                        }
                        true
                    } else {
                        proof {
                            assert(!expandable(g, bs[0].1, 0nat));
                            assert(!expandable_all(g, shape_id@, 0, 0nat));
                        }
                        false
                    }
                } else {
                    let ghost sid = shape_id@;
                    let ghost inner_fuel = fuel as nat;
                    let bindings = self.resolve_parameters_to_shapes(shape_id);
                    let n = bindings.len();
                    let mut b: usize = 0;
                    while b < n
                        invariant
                            0 <= b <= n,
                            n == bindings.len(),
                            g == self.shape_projection@,
                            g.wf(),
                            sid == shape_id@,
                            fuel >= 1,
                            inner_fuel == fuel as nat,
                            bindings@.map_values(|pr: (ShapeParameterId, ShapeId)| (pr.0@, pr.1@))
                                == spec_resolve_parameters(g, sid),
                            spec_resolve_to_core(g, sid) == Some(ShapeKind::OneOfKind),
                            expandable_all(g, sid, 0, inner_fuel) <==> expandable_all(
                                g,
                                sid,
                                b as int,
                                inner_fuel,
                            ),
                        decreases n - b,
                    {
                        let pr = &bindings[b];
                        proof {
                            assert(spec_resolve_parameters(g, sid).len() == bindings@.len());
                            assert(spec_resolve_parameters(g, sid)[b as int] == (pr.0@, pr.1@));
                        }
                        if !self.check_expandable(&pr.1, fuel - 1) {
                            proof {
                                assert(!expandable_all(g, sid, b as int, inner_fuel));
                            }
                            return false;
                        }
                        b = b + 1;
                    }
                    proof {
                        assert(spec_resolve_parameters(g, sid).len() == bindings@.len());
                        assert(expandable_all(g, sid, n as int, inner_fuel));
                    }
                    true
                }
            },
            _ => true,
        }
    }
}



impl<'a> ShapeQueries<'a> {
    /// Whether the shape carrying `id` exists and resolves to a core kind.
    pub(crate) fn check_shape_resolves(&self, shape_id: &ShapeId) -> (r: bool)
        requires
            self.shape_projection@.wf(),
        ensures
            r == (spec_resolve_to_core(self.shape_projection@, shape_id@) is Some),
    {
        let ghost g = self.shape_projection@;
        match self.shape_projection.get_shape_node_index(shape_id) {
            Some(_) => {
                proof {
                    lemma_resolve_to_core_some(g, shape_id@);
                }
                true
            },
            None => false,
        }
    }

    /// Whether one resolve step is admissible from the given resolved
    /// position.
    fn check_step(
        &self,
        parent: &ResolvedTrail,
        path_component: &ShapeTrailPathComponent,
    ) -> (r: bool)
        requires
            self.shape_projection@.wf(),
        ensures
            r == step_ok(self.shape_projection@, parent@.core_shape_kind, path_component@),
    {
        match parent.core_shape_kind {
            ShapeKind::ListKind => match path_component {
                ShapeTrailPathComponent::ListItemTrail { item_shape_id, .. } => {
                    self.check_shape_resolves(item_shape_id)
                },
                _ => false,
            },
            ShapeKind::OneOfKind => match path_component {
                ShapeTrailPathComponent::OneOfTrail { .. } => true,
                ShapeTrailPathComponent::OneOfItemTrail { item_shape_id, .. } => {
                    self.check_shape_resolves(item_shape_id)
                },
                _ => false,
            },
            ShapeKind::NullableKind => match path_component {
                ShapeTrailPathComponent::NullableTrail { .. } => true,
                ShapeTrailPathComponent::NullableItemTrail { inner_shape_id, .. } => {
                    self.check_shape_resolves(inner_shape_id)
                },
                _ => false,
            },
            ShapeKind::OptionalKind => match path_component {
                ShapeTrailPathComponent::OptionalTrail { .. } => true,
                ShapeTrailPathComponent::OptionalItemTrail { inner_shape_id, .. } => {
                    self.check_shape_resolves(inner_shape_id)
                },
                _ => false,
            },
            ShapeKind::ObjectKind => match path_component {
                ShapeTrailPathComponent::ObjectTrail { .. } => true,
                ShapeTrailPathComponent::ObjectFieldTrail { field_shape_id, .. } => {
                    self.check_shape_resolves(field_shape_id)
                },
                _ => false,
            },
            ShapeKind::NumberKind | ShapeKind::BooleanKind | ShapeKind::StringKind
                | ShapeKind::UnknownKind => true,
            _ => false,
        }
    }

    /// Whether `list_trail_choices` accepts the trail: the trail can be
    /// walked from its root, and the shape at its tip (when one exists)
    /// expands within the graph's fuel bound. Callers holding an arbitrary
    /// trail can test here before listing choices.
    pub fn supports_trail_choices(&self, shape_trail: &ShapeTrail) -> (r: bool)
        requires
            self.shape_projection@.wf(),
        ensures
            r == trail_choices_ok(self.shape_projection@, shape_trail@),
    {
        let p = self.shape_projection;
        let ghost g = p@;
        let ghost tview = shape_trail@;
        if p.get_shape_node_index(&shape_trail.root_shape_id).is_none() {
            return false;
        }
        proof {
            lemma_resolve_to_core_some(g, tview.root_shape_id);
        }
        let mut resolved = ResolvedTrail {
            shape_id: shape_trail.root_shape_id.clone(),
            core_shape_kind: self.resolve_to_core_shape(&shape_trail.root_shape_id),
        };
        let n = shape_trail.path.len();
        let mut i: usize = 0;
        while i < n
            invariant
                0 <= i <= n,
                n == shape_trail.path.len(),
                p == self.shape_projection,
                g == p@,
                g.wf(),
                tview == shape_trail@,
                spec_resolve_to_core(g, tview.root_shape_id) is Some,
                walk_ok_from(g, spec_root_resolved(g, tview), tview.path, 0) <==> walk_ok_from(
                    g,
                    resolved@,
                    tview.path,
                    i as int,
                ),
                walk_ok_from(g, resolved@, tview.path, i as int) ==> walk_from(
                    g,
                    spec_root_resolved(g, tview),
                    tview.path,
                    0,
                ) == walk_from(g, resolved@, tview.path, i as int),
            decreases n - i,
        {
            proof {
                assert(tview.path[i as int] == shape_trail.path@[i as int]@);
            }
            if !self.check_step(&resolved, &shape_trail.path[i]) {
                return false;
            }
            resolved = self.resolve_trail_to_core_shape_helper(&resolved, &shape_trail.path[i]);
            i = i + 1;
        }
        match p.get_shape_node_index(&resolved.shape_id) {
            None => {
                proof {
                    assert(!g.has_shape(spec_resolve_trail(g, tview).shape_id));
                }
                true
            },
            Some(_) => {
                let fuel = p.nodes.len();
                proof {
                    assert(g.nodes.len() == p.nodes@.len());
                    assert((fuel + 1) as nat == choice_fuel(g));
                }
                self.check_expandable(&resolved.shape_id, fuel)
            },
        }
    }
}


} // verus!
