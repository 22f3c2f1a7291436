use vstd::prelude::*;
use crate::ids::ShapeId;
use crate::kinds::ShapeKind;
use crate::projection::{EdgeView, Node, NodeView, ProjectionView};
use crate::queries::{ShapeQueries, spec_resolve_to_core};
use crate::fields::spec_resolve_field_shape;
use crate::trail::{PathComponentView, ShapeTrail, ShapeTrailPathComponent};

verus! {

/// The distinct, catchable fault raised when trail reconstruction meets a
/// topology it does not support.
#[derive(Clone, Copy, Debug, PartialEq, Eq, Structural)]
pub enum ShapeTrailResolutionError {
    /// Reconstruction passed through a shape of a kind it does not support
    /// at an intermediate position (list, optional, nullable, one-of, map,
    /// identifier, reference, any).
    UnsupportedShapeKind { kind: ShapeKind },
    /// Reconstruction reached a shape parameter node.
    UnsupportedShapeParameter,
}

// ---------------------------------------------------------------------------
// The owner relation.
// ---------------------------------------------------------------------------

/// First `IsFieldOf` edge leaving node `i`, from position `k` on.
pub open spec fn find_isfieldof_edge_from(edges: Seq<EdgeView>, i: int, k: int) -> Option<int>
    decreases edges.len() - k,
{
    if k < 0 || k >= edges.len() {
        None
    } else if edges[k].from == i && edges[k].edge is IsFieldOf {
        Some(k)
    } else {
        find_isfieldof_edge_from(edges, i, k + 1)
    }
}

/// First `BelongsTo` edge leaving node `i`, from position `k` on.
pub open spec fn find_belongsto_edge_from(edges: Seq<EdgeView>, i: int, k: int) -> Option<int>
    decreases edges.len() - k,
{
    if k < 0 || k >= edges.len() {
        None
    } else if edges[k].from == i && edges[k].edge is BelongsTo {
        Some(k)
    } else {
        find_belongsto_edge_from(edges, i, k + 1)
    }
}

/// First `HasBinding` edge whose payload names the shape carrying `id`,
/// from position `k` on.
pub open spec fn find_binding_payload_edge(edges: Seq<EdgeView>, id: Seq<char>, k: int) -> Option<
    int,
>
    decreases edges.len() - k,
{
    if k < 0 || k >= edges.len() {
        None
    } else if (match edges[k].edge {
        crate::projection::EdgeKindView::HasBinding { shape_id } => shape_id == id,
        _ => false,
    }) {
        Some(k)
    } else {
        find_binding_payload_edge(edges, id, k + 1)
    }
}

/// The declaring parent of a node: for a field, its object shape; for a
/// shape that is the type of a field, the field; for a shape bound into a
/// parameter slot, the parameterized shape that binds it.
pub open spec fn spec_owner_idx(p: ProjectionView, i: int) -> Option<int> {
    if !(0 <= i < p.nodes.len()) {
        None
    } else {
        match p.nodes[i] {
            NodeView::Field { .. } => match find_isfieldof_edge_from(p.edges, i, 0) {
                Some(k) => Some(p.edges[k].to),
                None => None,
            },
            NodeView::Shape { shape_id } => match find_belongsto_edge_from(p.edges, i, 0) {
                Some(k) => Some(p.edges[k].to),
                None => match find_binding_payload_edge(p.edges, shape_id, 0) {
                    Some(k) => Some(p.edges[k].from),
                    None => None,
                },
            },
            _ => None,
        }
    }
}

// ---------------------------------------------------------------------------
// The reverse walk.
// ---------------------------------------------------------------------------

/// The node a mixed identifier resolves to: shapes first, then live
/// fields, then parameter slots.
pub open spec fn spec_node_by_id(p: ProjectionView, id: Seq<char>) -> Option<int> {
    match p.shape_idx(id) {
        Some(i) => Some(i),
        None => match p.live_field_idx(id) {
            Some(i) => Some(i),
            None => p.param_idx(id),
        },
    }
}

/// What a reverse walk produces.
pub enum ReverseWalkOutcome {
    /// The walk ended at a root; `rev_components` holds the components in
    /// tip-to-root order.
    Done { root: Option<Seq<char>>, rev_components: Seq<PathComponentView> },
    /// The walk met an unsupported topology.
    Fault { error: ShapeTrailResolutionError },
    /// The walk ran against a broken graph or out of fuel; a well-formed
    /// graph whose ownership chains are acyclic never produces this.
    Stuck,
}

/// Fuel that always suffices to walk an acyclic ownership chain: one unit
/// per node, plus one.
pub open spec fn walk_fuel(p: ProjectionView) -> nat {
    p.nodes.len() + 1
}

/// The reverse walk: from the current node, follow owner links towards the
/// root, accumulating components in reverse order.
pub open spec fn spec_reverse_walk(
    p: ProjectionView,
    cur: Option<int>,
    root: Option<Seq<char>>,
    acc: Seq<PathComponentView>,
    fuel: nat,
) -> ReverseWalkOutcome
    decreases fuel,
{
    match cur {
        None => ReverseWalkOutcome::Done { root, rev_components: acc },
        Some(i) => {
            if fuel == 0 {
                ReverseWalkOutcome::Stuck
            } else if !(0 <= i < p.nodes.len()) {
                ReverseWalkOutcome::Stuck
            } else {
                match p.nodes[i] {
                    NodeView::Shape { shape_id } => match spec_resolve_to_core(p, shape_id) {
                        None => ReverseWalkOutcome::Stuck,
                        Some(kind) => match kind {
                            ShapeKind::ObjectKind => spec_reverse_walk(
                                p,
                                spec_owner_idx(p, i),
                                Some(shape_id),
                                acc.push(PathComponentView::ObjectTrail { shape_id }),
                                (fuel - 1) as nat,
                            ),
                            ShapeKind::BooleanKind | ShapeKind::StringKind | ShapeKind::NumberKind
                                | ShapeKind::UnknownKind => spec_reverse_walk(
                                p,
                                spec_owner_idx(p, i),
                                Some(shape_id),
                                acc,
                                (fuel - 1) as nat,
                            ),
                            _ => ReverseWalkOutcome::Fault {
                                error: ShapeTrailResolutionError::UnsupportedShapeKind { kind },
                            },
                        },
                    },
                    NodeView::Field { field_id, .. } => match spec_resolve_field_shape(
                        p,
                        field_id,
                    ) {
                        None => ReverseWalkOutcome::Stuck,
                        Some(field_shape_id) => match spec_owner_idx(p, i) {
                            Some(j) => if 0 <= j < p.nodes.len() && p.nodes[j] is Shape {
                                spec_reverse_walk(
                                    p,
                                    Some(j),
                                    root,
                                    acc.push(
                                        PathComponentView::ObjectFieldTrail {
                                            field_id,
                                            field_shape_id,
                                            parent_object_shape_id: p.nodes[j]->Shape_shape_id,
                                        },
                                    ),
                                    (fuel - 1) as nat,
                                )
                            } else {
                                ReverseWalkOutcome::Stuck
                            },
                            None => ReverseWalkOutcome::Stuck,
                        },
                    },
                    NodeView::ShapeParameter { .. } => ReverseWalkOutcome::Fault {
                        error: ShapeTrailResolutionError::UnsupportedShapeParameter,
                    },
                    _ => ReverseWalkOutcome::Done { root, rev_components: acc },
                }
            }
        },
    }
}

/// The outcome of reconstructing the trail of the node named by `id`.
pub open spec fn spec_shape_trail_outcome(p: ProjectionView, id: Seq<char>) -> ReverseWalkOutcome {
    spec_reverse_walk(p, spec_node_by_id(p, id), None, Seq::empty(), walk_fuel(p))
}

pub open spec fn opt_usize_view(o: Option<usize>) -> Option<int> {
    match o {
        Some(i) => Some(i as int),
        None => None,
    }
}

pub open spec fn opt_id_view(o: Option<ShapeId>) -> Option<Seq<char>> {
    match o {
        Some(s) => Some(s@),
        None => None,
    }
}

impl<'a> ShapeQueries<'a> {
    /// The declaring parent of a node, or `None` at a root.
    fn owner_index(&self, i: usize) -> (r: Option<usize>)
        requires
            self.shape_projection@.wf(),
            i < self.shape_projection@.nodes.len(),
        ensures
            opt_usize_view(r) == spec_owner_idx(self.shape_projection@, i as int),
            match r {
                Some(j) => (j as int) < self.shape_projection@.nodes.len(),
                None => true,
            },
    {
        let p = self.shape_projection;
        let ghost g = p@;
        match &p.nodes[i] {
            Node::Field(_) => {
                let m = p.edges.len();
                let mut k: usize = 0;
                while k < m
                    invariant
                        0 <= k <= m,
                        m == p.edges.len(),
                        p == self.shape_projection,
                        g == p@,
                        g.wf(),
                        i < g.nodes.len(),
                        g.nodes[i as int] is Field,
                        find_isfieldof_edge_from(g.edges, i as int, 0) == find_isfieldof_edge_from(
                            g.edges,
                            i as int,
                            k as int,
                        ),
                    decreases m - k,
                {
                    let e = &p.edges[k];
                    match &e.edge {
                        crate::projection::Edge::IsFieldOf => {
                            if e.from == i {
                                proof {
                                    assert(find_isfieldof_edge_from(g.edges, i as int, k as int)
                                        == Some(k as int));
                                    assert(crate::projection::edge_wf(g.nodes, g.edges[k as int]));
                                }
                                return Some(e.to);
                            }
                        },
                        _ => {},
                    }
                    k = k + 1;
                }
                None
            },
            Node::Shape(shape_node) => {
                let m = p.edges.len();
                let mut k: usize = 0;
                while k < m
                    invariant
                        0 <= k <= m,
                        m == p.edges.len(),
                        p == self.shape_projection,
                        g == p@,
                        g.wf(),
                        i < g.nodes.len(),
                        g.nodes[i as int] is Shape,
                        shape_node == p.nodes[i as int]->Shape_0,
                        find_belongsto_edge_from(g.edges, i as int, 0) == find_belongsto_edge_from(
                            g.edges,
                            i as int,
                            k as int,
                        ),
                    decreases m - k,
                {
                    let e = &p.edges[k];
                    match &e.edge {
                        crate::projection::Edge::BelongsTo => {
                            if e.from == i {
                                proof {
                                    assert(find_belongsto_edge_from(g.edges, i as int, k as int)
                                        == Some(k as int));
                                    assert(crate::projection::edge_wf(g.nodes, g.edges[k as int]));
                                }
                                return Some(e.to);
                            }
                        },
                        _ => {},
                    }
                    k = k + 1;
                }
                let mut k2: usize = 0;
                while k2 < m
                    invariant
                        0 <= k2 <= m,
                        m == p.edges.len(),
                        p == self.shape_projection,
                        g == p@,
                        g.wf(),
                        i < g.nodes.len(),
                        g.nodes[i as int] is Shape,
                        shape_node == p.nodes[i as int]->Shape_0,
                        find_belongsto_edge_from(g.edges, i as int, 0) is None,
                        find_binding_payload_edge(
                            g.edges,
                            g.nodes[i as int]->Shape_shape_id,
                            0,
                        ) == find_binding_payload_edge(
                            g.edges,
                            g.nodes[i as int]->Shape_shape_id,
                            k2 as int,
                        ),
                    decreases m - k2,
                {
                    let e = &p.edges[k2];
                    match &e.edge {
                        crate::projection::Edge::HasBinding(b) => {
                            if crate::ids::string_eq(&b.shape_id, &shape_node.shape_id) {
                                proof {
                                    assert(find_binding_payload_edge(
                                        g.edges,
                                        g.nodes[i as int]->Shape_shape_id,
                                        k2 as int,
                                    ) == Some(k2 as int));
                                    assert(crate::projection::edge_wf(g.nodes, g.edges[k2 as int]));
                                }
                                return Some(e.from);
                            }
                        },
                        _ => {},
                    }
                    k2 = k2 + 1;
                }
                None
            },
            _ => None,
        }
    }

    /// Reconstructs the trail from the node named by `shape_id` (a shape or
    /// field identifier) back to its root shape. Intermediate shapes of
    /// kinds the reconstruction does not support (list, optional, nullable,
    /// one-of, map, identifier, reference, any) raise a catchable fault.
    pub fn resolve_shape_trail(&self, shape_id: &ShapeId) -> (r: Result<
        Option<ShapeTrail>,
        ShapeTrailResolutionError,
    >)
        requires
            self.shape_projection@.wf(),
            !(spec_shape_trail_outcome(self.shape_projection@, shape_id@) is Stuck),
        ensures
            match spec_shape_trail_outcome(self.shape_projection@, shape_id@) {
                ReverseWalkOutcome::Done { root: Some(rt), rev_components } => match r {
                    Ok(Some(t)) => t@.root_shape_id == rt && t@.path == rev_components.reverse(),
                    _ => false,
                },
                ReverseWalkOutcome::Done { root: None, .. } => r matches Ok(None),
                ReverseWalkOutcome::Fault { error } => r == Err::<
                    Option<ShapeTrail>,
                    ShapeTrailResolutionError,
                >(error),
                ReverseWalkOutcome::Stuck => false,
            },
    {
        let p = self.shape_projection;
        let ghost g = p@;
        let ghost outcome0 = spec_shape_trail_outcome(g, shape_id@);
        let mut next_node: Option<usize> = match p.get_shape_node_index(shape_id) {
            Some(i) => Some(i),
            None => match p.get_field_node_index(shape_id) {
                Some(i) => Some(i),
                None => p.get_shape_parameter_node_index(shape_id),
            },
        };
        let mut trail_components: Vec<ShapeTrailPathComponent> = Vec::new();
        let mut root_shape_id: Option<ShapeId> = None;
        let ghost mut fuel: nat = walk_fuel(g);
        proof {
            assert(trail_components@.map_values(|c: ShapeTrailPathComponent| c@)
                =~= Seq::<PathComponentView>::empty());
        }
        while next_node.is_some()
            invariant
                p == self.shape_projection,
                g == p@,
                g.wf(),
                outcome0 == spec_shape_trail_outcome(g, shape_id@),
                !(outcome0 is Stuck),
                outcome0 == spec_reverse_walk(
                    g,
                    opt_usize_view(next_node),
                    opt_id_view(root_shape_id),
                    trail_components@.map_values(|c: ShapeTrailPathComponent| c@),
                    fuel,
                ),
            decreases fuel,
        {
            let i = match next_node {
                Some(i) => i,
                None => {
                    proof {
                        assert(false);
                    }
                    return Err(ShapeTrailResolutionError::UnsupportedShapeParameter);
                },
            };
            let ghost acc = trail_components@.map_values(|c: ShapeTrailPathComponent| c@);
            proof {
                assert(fuel > 0);
                assert((i as int) < g.nodes.len());
            }
            match &p.nodes[i] {
                Node::Shape(shape_node) => {
                    proof {
                        assert(g.has_shape(shape_node.shape_id@) || !(spec_resolve_to_core(
                            g,
                            shape_node.shape_id@,
                        ) is Some)) by {
                            if spec_resolve_to_core(g, shape_node.shape_id@) is Some {
                                assert(g.shape_idx(shape_node.shape_id@) is Some);
                            }
                        }
                        assert(spec_resolve_to_core(g, shape_node.shape_id@) is Some);
                    }
                    let core_shape_kind = self.resolve_to_core_shape(&shape_node.shape_id);
                    match core_shape_kind {
                        ShapeKind::ObjectKind => {
                            trail_components.push(
                                ShapeTrailPathComponent::ObjectTrail {
                                    shape_id: shape_node.shape_id.clone(),
                                },
                            );
                            proof {
                                assert(trail_components@.map_values(
                                    |c: ShapeTrailPathComponent| c@,
                                ) =~= acc.push(
                                    PathComponentView::ObjectTrail {
                                        shape_id: shape_node.shape_id@,
                                    },
                                ));
                            }
                        },
                        ShapeKind::BooleanKind | ShapeKind::StringKind | ShapeKind::NumberKind
                            | ShapeKind::UnknownKind => {},
                        _ => {
                            return Err(
                                ShapeTrailResolutionError::UnsupportedShapeKind {
                                    kind: core_shape_kind,
                                },
                            );
                        },
                    }
                    root_shape_id = Some(shape_node.shape_id.clone());
                    next_node = self.owner_index(i);
                    proof {
                        fuel = (fuel - 1) as nat;
                    }
                },
                Node::Field(field_node) => {
                    proof {
                        assert(spec_resolve_field_shape(g, field_node.field_id@) is Some);
                        assert(g.live_field_idx(field_node.field_id@) is Some);
                    }
                    let field_id = field_node.field_id.clone();
                    let field_shape_id = match self.resolve_field_shape_node(&field_id) {
                        Some(s) => s,
                        None => {
                            proof {
                                assert(false);
                            }
                            return Err(ShapeTrailResolutionError::UnsupportedShapeParameter);
                        },
                    };
                    let owner_node = self.owner_index(i);
                    let j = match owner_node {
                        Some(j) => j,
                        None => {
                            proof {
                                assert(false);
                            }
                            return Err(ShapeTrailResolutionError::UnsupportedShapeParameter);
                        },
                    };
                    match &p.nodes[j] {
                        Node::Shape(object_shape_node) => {
                            trail_components.push(
                                ShapeTrailPathComponent::ObjectFieldTrail {
                                    field_id,
                                    field_shape_id,
                                    parent_object_shape_id: object_shape_node.shape_id.clone(),
                                },
                            );
                            proof {
                                assert(trail_components@.map_values(
                                    |c: ShapeTrailPathComponent| c@,
                                ) =~= acc.push(
                                    PathComponentView::ObjectFieldTrail {
                                        field_id: field_node.field_id@,
                                        field_shape_id: field_shape_id@,
                                        parent_object_shape_id: object_shape_node.shape_id@,
                                    },
                                ));
                            }
                        },
                        _ => {
                            proof {
                                assert(false);
                            }
                            return Err(ShapeTrailResolutionError::UnsupportedShapeParameter);
                        },
                    }
                    next_node = Some(j);
                    proof {
                        fuel = (fuel - 1) as nat;
                    }
                },
                Node::ShapeParameter(_) => {
                    return Err(ShapeTrailResolutionError::UnsupportedShapeParameter);
                },
                Node::CoreShape(_) => {
                    next_node = None;
                    proof {
                        fuel = (fuel - 1) as nat;
                    }
                },
                Node::BatchCommit(_) => {
                    next_node = None;
                    proof {
                        fuel = (fuel - 1) as nat;
                    }
                },
            }
        }
        let rt = match root_shape_id {
            Some(rt) => rt,
            None => {
                return Ok(None);
            },
        };
        let n = trail_components.len();
        let ghost acc = trail_components@.map_values(|c: ShapeTrailPathComponent| c@);
        let mut path: Vec<ShapeTrailPathComponent> = Vec::new();
        let mut j: usize = n;
        while j > 0
            invariant
                0 <= j <= n,
                n == trail_components.len(),
                acc == trail_components@.map_values(|c: ShapeTrailPathComponent| c@),
                path@.len() == n - j,
                forall|l: int|
                    0 <= l < n - j ==> (#[trigger] path@[l])@ == acc[n - 1 - l],
            decreases j,
        {
            j = j - 1;
            path.push(trail_components[j].duplicate());
        }
        let result = ShapeTrail { root_shape_id: rt, path };
        proof {
            assert(result@.path =~= acc.reverse());
        }
        Ok(Some(result))
    }
}


impl<'a> ShapeQueries<'a> {
    /// Whether `resolve_shape_trail` accepts the identifier: the reverse
    /// walk from its node reaches a root or a fault within the graph's fuel
    /// bound, without meeting a broken link. Callers holding an arbitrary
    /// identifier can test here before reconstructing the trail.
    pub fn supports_shape_trail(&self, shape_id: &ShapeId) -> (r: bool)
        requires
            self.shape_projection@.wf(),
        ensures
            r == !(spec_shape_trail_outcome(self.shape_projection@, shape_id@) is Stuck),
    {
        let p = self.shape_projection;
        let ghost g = p@;
        let ghost outcome0 = spec_shape_trail_outcome(g, shape_id@);
        let mut next_node: Option<usize> = match p.get_shape_node_index(shape_id) {
            Some(i) => Some(i),
            None => match p.get_field_node_index(shape_id) {
                Some(i) => Some(i),
                None => p.get_shape_parameter_node_index(shape_id),
            },
        };
        let ghost mut root_v: Option<Seq<char>> = None;
        let ghost mut acc: Seq<PathComponentView> = Seq::empty();
        let mut remaining: usize = p.nodes.len();
        let ghost mut fuel: nat = walk_fuel(g);
        while next_node.is_some()
            invariant
                p == self.shape_projection,
                g == p@,
                g.wf(),
                outcome0 == spec_shape_trail_outcome(g, shape_id@),
                outcome0 == spec_reverse_walk(g, opt_usize_view(next_node), root_v, acc, fuel),
                next_node is Some ==> fuel == remaining + 1,
            decreases remaining + (if next_node is Some { 1int } else { 0int }),
        {
            let i = match next_node {
                Some(i) => i,
                None => {
                    proof {
                        assert(false);
                    }
                    return false;
                },
            };
            proof {
                assert(fuel > 0);
            }
            if i >= p.nodes.len() {
                proof {
                    assert(outcome0 is Stuck);
                }
                return false;
            }
            match &p.nodes[i] {
                Node::Shape(shape_node) => {
                    if !self.check_shape_resolves(&shape_node.shape_id) {
                        proof {
                            assert(outcome0 is Stuck);
                        }
                        return false;
                    }
                    let core_shape_kind = self.resolve_to_core_shape(&shape_node.shape_id);
                    match core_shape_kind {
                        ShapeKind::ObjectKind => {
                            proof {
                                acc = acc.push(
                                    PathComponentView::ObjectTrail {
                                        shape_id: shape_node.shape_id@,
                                    },
                                );
                            }
                        },
                        ShapeKind::BooleanKind | ShapeKind::StringKind | ShapeKind::NumberKind
                            | ShapeKind::UnknownKind => {},
                        _ => {
                            proof {
                                assert(outcome0 is Fault);
                            }
                            return true;
                        },
                    }
                    proof {
                        root_v = Some(shape_node.shape_id@);
                        fuel = (fuel - 1) as nat;
                    }
                    next_node = self.owner_index(i);
                    if next_node.is_some() {
                        if remaining == 0 {
                            proof {
                                assert(outcome0 is Stuck);
                            }
                            return false;
                        }
                        remaining = remaining - 1;
                    }
                },
                Node::Field(field_node) => {
                    if p.get_field_node_index(&field_node.field_id).is_none() {
                        proof {
                            assert(spec_resolve_field_shape(g, field_node.field_id@) is None);
                            assert(outcome0 is Stuck);
                        }
                        return false;
                    }
                    let field_shape_id = match self.resolve_field_shape_node(
                        &field_node.field_id,
                    ) {
                        Some(s) => s,
                        None => {
                            proof {
                                assert(outcome0 is Stuck);
                            }
                            return false;
                        },
                    };
                    let j = match self.owner_index(i) {
                        Some(j) => j,
                        None => {
                            proof {
                                assert(outcome0 is Stuck);
                            }
                            return false;
                        },
                    };
                    match &p.nodes[j] {
                        Node::Shape(object_shape_node) => {
                            proof {
                                acc = acc.push(
                                    PathComponentView::ObjectFieldTrail {
                                        field_id: field_node.field_id@,
                                        field_shape_id: field_shape_id@,
                                        parent_object_shape_id: object_shape_node.shape_id@,
                                    },
                                );
                                fuel = (fuel - 1) as nat;
                            }
                            next_node = Some(j);
                            proof {
                                assert(outcome0 == spec_reverse_walk(
                                    g,
                                    Some(j as int),
                                    root_v,
                                    acc,
                                    fuel,
                                ));
                            }
                            if remaining == 0 {
                                proof {
                                    assert(outcome0 is Stuck);
                                }
                                return false;
                            }
                            remaining = remaining - 1;
                        },
                        _ => {
                            proof {
                                assert(outcome0 is Stuck);
                            }
                            return false;
                        },
                    }
                },
                Node::ShapeParameter(_) => {
                    proof {
                        assert(outcome0 is Fault);
                    }
                    return true;
                },
                Node::CoreShape(_) => {
                    next_node = None;
                    proof {
                        fuel = (fuel - 1) as nat;
                    }
                },
                Node::BatchCommit(_) => {
                    next_node = None;
                    proof {
                        fuel = (fuel - 1) as nat;
                    }
                },
            }
        }
        proof {
            assert(outcome0 is Done);
        }
        true
    }
}


} // verus!
