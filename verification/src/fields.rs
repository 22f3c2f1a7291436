use vstd::prelude::*;
use crate::ids::{ShapeId, FieldId, string_eq};
use crate::projection::{EdgeView, Node, NodeView, ProjectionView, lemma_find_field_ok};
use crate::queries::ShapeQueries;

verus! {

/// A live (not removed) field node carrying `name`.
pub open spec fn is_live_field_named(n: NodeView, name: Seq<char>) -> bool {
    match n {
        NodeView::Field { name: nm, removed, .. } => !removed && nm == name,
        _ => false,
    }
}

/// First `IsFieldOf` edge pointing at node `obj` whose source is a live
/// field named `name`, searching from edge position `k`.
pub open spec fn find_named_field_edge_from(
    p: ProjectionView,
    obj: int,
    name: Seq<char>,
    k: int,
) -> Option<int>
    decreases p.edges.len() - k,
{
    if k < 0 || k >= p.edges.len() {
        None
    } else {
        let e = p.edges[k];
        if e.to == obj && e.edge is IsFieldOf && 0 <= e.from < p.nodes.len()
            && is_live_field_named(p.nodes[e.from], name) {
            Some(k)
        } else {
            find_named_field_edge_from(p, obj, name, k + 1)
        }
    }
}

/// The identifier of the first live field named `name` on the object shape
/// carrying `shape_id`, in edge insertion order.
pub open spec fn spec_resolve_field_id(
    p: ProjectionView,
    shape_id: Seq<char>,
    name: Seq<char>,
) -> Option<Seq<char>> {
    match p.shape_idx(shape_id) {
        Some(obj) => match find_named_field_edge_from(p, obj, name, 0) {
            Some(k) => Some(p.nodes[p.edges[k].from]->Field_field_id),
            None => None,
        },
        None => None,
    }
}

/// First `BelongsTo` edge pointing at node `fi`, searching from position
/// `k`.
pub open spec fn find_belongs_edge_to(edges: Seq<EdgeView>, fi: int, k: int) -> Option<int>
    decreases edges.len() - k,
{
    if k < 0 || k >= edges.len() {
        None
    } else if edges[k].to == fi && edges[k].edge is BelongsTo {
        Some(k)
    } else {
        find_belongs_edge_to(edges, fi, k + 1)
    }
}

/// The shape currently bound as the type of the live field carrying
/// `field_id`: the source of its `BelongsTo` edge.
pub open spec fn spec_resolve_field_shape(p: ProjectionView, field_id: Seq<char>) -> Option<
    Seq<char>,
> {
    match p.live_field_idx(field_id) {
        Some(fi) => match find_belongs_edge_to(p.edges, fi, 0) {
            Some(k) => if 0 <= p.edges[k].from < p.nodes.len() {
                match p.nodes[p.edges[k].from] {
                    NodeView::Shape { shape_id } => Some(shape_id),
                    _ => None,
                }
            } else {
                None
            },
            None => None,
        },
        None => None,
    }
}

/// The `(field identifier, field name)` entries of the live fields declared
/// on node `obj`, in edge insertion order, from edge position `k` on.
pub open spec fn spec_field_entries_from(p: ProjectionView, obj: int, k: int) -> Seq<
    (Seq<char>, Seq<char>),
>
    decreases p.edges.len() - k,
{
    if k < 0 || k >= p.edges.len() {
        Seq::empty()
    } else {
        let rest = spec_field_entries_from(p, obj, k + 1);
        let e = p.edges[k];
        if e.to == obj && e.edge is IsFieldOf && 0 <= e.from < p.nodes.len() && (match p.nodes[e.from] {
            NodeView::Field { removed, .. } => !removed,
            _ => false,
        }) {
            seq![(p.nodes[e.from]->Field_field_id, p.nodes[e.from]->Field_name)] + rest
        } else {
            rest
        }
    }
}

/// The live fields of the object shape carrying `id`, as identifier/name
/// pairs in edge insertion order.
pub open spec fn spec_resolve_shape_fields(p: ProjectionView, id: Seq<char>) -> Seq<
    (Seq<char>, Seq<char>),
> {
    match p.shape_idx(id) {
        Some(obj) => spec_field_entries_from(p, obj, 0),
        None => Seq::empty(),
    }
}


/// What a successful or failed search for a named field edge means.
pub proof fn lemma_find_named_field_ok(p: ProjectionView, obj: int, name: Seq<char>, k: int)
    requires
        0 <= k,
    ensures
        match find_named_field_edge_from(p, obj, name, k) {
            Some(j) => k <= j < p.edges.len() && p.edges[j].to == obj && p.edges[j].edge
                is IsFieldOf && 0 <= p.edges[j].from < p.nodes.len() && is_live_field_named(
                p.nodes[p.edges[j].from],
                name,
            ),
            None => forall|l: int|
                k <= l < p.edges.len() ==> !((#[trigger] p.edges[l]).to == obj && p.edges[l].edge
                    is IsFieldOf && 0 <= p.edges[l].from < p.nodes.len() && is_live_field_named(
                    p.nodes[p.edges[l].from],
                    name,
                )),
        },
    decreases p.edges.len() - k,
{
    if k < 0 || k >= p.edges.len() {
    } else {
        let e = p.edges[k];
        if e.to == obj && e.edge is IsFieldOf && 0 <= e.from < p.nodes.len()
            && is_live_field_named(p.nodes[e.from], name) {
        } else {
            lemma_find_named_field_ok(p, obj, name, k + 1);
        }
    }
}

impl<'a> ShapeQueries<'a> {
    /// The identifier of the field named `field_name` on the given object
    /// shape, if one exists. When several live fields share the name, the
    /// one whose ownership edge was inserted first wins.
    pub fn resolve_field_id(&self, shape_id: &ShapeId, field_name: &String) -> (r: Option<FieldId>)
        requires
            self.shape_projection@.wf(),
            self.shape_projection@.has_shape(shape_id@),
        ensures
            match r {
                Some(id) => spec_resolve_field_id(self.shape_projection@, shape_id@, field_name@)
                    == Some(id@),
                None => spec_resolve_field_id(self.shape_projection@, shape_id@, field_name@)
                    is None,
            },
    {
        let p = self.shape_projection;
        let ghost g = p@;
        let obj = match p.get_shape_node_index(shape_id) {
            Some(i) => i,
            None => {
                proof {
                    assert(false);
                }
                return None;
            },
        };
        let m = p.edges.len();
        let mut k: usize = 0;
        while k < m
            invariant
                0 <= k <= m,
                m == p.edges.len(),
                p == self.shape_projection,
                g == p@,
                g.wf(),
                Some(obj as int) == g.shape_idx(shape_id@),
                find_named_field_edge_from(g, obj as int, field_name@, 0)
                    == find_named_field_edge_from(g, obj as int, field_name@, k as int),
            decreases m - k,
        {
            let e = &p.edges[k];
            match &e.edge {
                crate::projection::Edge::IsFieldOf => {
                    if e.to == obj {
                        proof {
                            assert(crate::projection::edge_wf(g.nodes, g.edges[k as int]));
                        }
                        match &p.nodes[e.from] {
                            Node::Field(field_node) => {
                                if !field_node.removed && string_eq(&field_node.name, field_name) {
                                    proof {
                                        assert(find_named_field_edge_from(
                                            g,
                                            obj as int,
                                            field_name@,
                                            k as int,
                                        ) == Some(k as int));
                                    }
                                    return Some(field_node.field_id.clone());
                                }
                            },
                            _ => {
                                proof {
                                    assert(false);
                                }
                            },
                        }
                    }
                },
                _ => {},
            }
            k = k + 1;
        }
        None
    }

    /// The shape currently bound as the type of the given field, read off
    /// its `BelongsTo` edge.
    pub fn resolve_field_shape_node(&self, field_id: &FieldId) -> (r: Option<ShapeId>)
        requires
            self.shape_projection@.wf(),
            self.shape_projection@.live_field_idx(field_id@) is Some,
        ensures
            match r {
                Some(id) => spec_resolve_field_shape(self.shape_projection@, field_id@) == Some(
                    id@,
                ),
                None => spec_resolve_field_shape(self.shape_projection@, field_id@) is None,
            },
    {
        let p = self.shape_projection;
        let ghost g = p@;
        let fi = match p.get_field_node_index(field_id) {
            Some(i) => i,
            None => {
                proof {
                    assert(false);
                }
                return None;
            },
        };
        proof {
            lemma_find_field_ok(g.nodes, field_id@, 0);
        }
        let m = p.edges.len();
        let mut k: usize = 0;
        while k < m
            invariant
                0 <= k <= m,
                m == p.edges.len(),
                p == self.shape_projection,
                g == p@,
                g.wf(),
                Some(fi as int) == g.live_field_idx(field_id@),
                find_belongs_edge_to(g.edges, fi as int, 0) == find_belongs_edge_to(
                    g.edges,
                    fi as int,
                    k as int,
                ),
            decreases m - k,
        {
            let e = &p.edges[k];
            match &e.edge {
                crate::projection::Edge::BelongsTo => {
                    if e.to == fi {
                        proof {
                            assert(find_belongs_edge_to(g.edges, fi as int, k as int) == Some(
                                k as int,
                            ));
                            assert(crate::projection::edge_wf(g.nodes, g.edges[k as int]));
                        }
                        match &p.nodes[e.from] {
                            Node::Shape(shape_node) => {
                                return Some(shape_node.shape_id.clone());
                            },
                            _ => {
                                proof {
                                    assert(false);
                                }
                            },
                        }
                    }
                },
                _ => {},
            }
            k = k + 1;
        }
        None
    }

    /// Every live field of the given object shape, as identifier/name
    /// pairs in edge insertion order.
    pub fn resolve_shape_field_id_and_names(&self, shape_id: &ShapeId) -> (r: Vec<
        (FieldId, String),
    >)
        requires
            self.shape_projection@.wf(),
            self.shape_projection@.has_shape(shape_id@),
        ensures
            r@.map_values(|pr: (FieldId, String)| (pr.0@, pr.1@)) == spec_resolve_shape_fields(
                self.shape_projection@,
                shape_id@,
            ),
    {
        let p = self.shape_projection;
        let ghost g = p@;
        let obj = match p.get_shape_node_index(shape_id) {
            Some(i) => i,
            None => {
                proof {
                    assert(false);
                }
                return Vec::new();
            },
        };
        let ghost oi = obj as int;
        let m = p.edges.len();
        let mut out: Vec<(FieldId, String)> = Vec::new();
        let mut k: usize = 0;
        while k < m
            invariant
                0 <= k <= m,
                m == p.edges.len(),
                p == self.shape_projection,
                g == p@,
                g.wf(),
                Some(oi) == g.shape_idx(shape_id@),
                oi == obj as int,
                out@.map_values(|pr: (FieldId, String)| (pr.0@, pr.1@)) + spec_field_entries_from(
                    g,
                    oi,
                    k as int,
                ) == spec_field_entries_from(g, oi, 0),
            decreases m - k,
        {
            let ghost out_views_before = out@.map_values(|pr: (FieldId, String)| (pr.0@, pr.1@));
            let e = &p.edges[k];
            match &e.edge {
                crate::projection::Edge::IsFieldOf => {
                    if e.to == obj {
                        proof {
                            assert(crate::projection::edge_wf(g.nodes, g.edges[k as int]));
                        }
                        match &p.nodes[e.from] {
                            Node::Field(field_node) => {
                                if !field_node.removed {
                                    out.push(
                                        (field_node.field_id.clone(), field_node.name.clone()),
                                    );
                                }
                            },
                            _ => {
                                proof {
                                    assert(false);
                                }
                            },
                        }
                    }
                },
                _ => {},
            }
            proof {
                let out_views = out@.map_values(|pr: (FieldId, String)| (pr.0@, pr.1@));
                let e_v = g.edges[k as int];
                let live = e_v.to == oi && e_v.edge is IsFieldOf && 0 <= e_v.from < g.nodes.len()
                    && (match g.nodes[e_v.from] {
                    NodeView::Field { removed, .. } => !removed,
                    _ => false,
                });
                if live {
                    assert(out_views =~= out_views_before.push(
                        (g.nodes[e_v.from]->Field_field_id, g.nodes[e_v.from]->Field_name),
                    ));
                    assert(out_views + spec_field_entries_from(g, oi, k as int + 1)
                        =~= out_views_before + spec_field_entries_from(g, oi, k as int));
                } else {
                    assert(out_views + spec_field_entries_from(g, oi, k as int + 1) =~= out_views
                        + spec_field_entries_from(g, oi, k as int));
                }
            }
            k = k + 1;
        }
        proof {
            assert(out@.map_values(|pr: (FieldId, String)| (pr.0@, pr.1@))
                + spec_field_entries_from(g, oi, m as int) =~= out@.map_values(
                |pr: (FieldId, String)| (pr.0@, pr.1@),
            ));
        }
        out
    }
}

} // verus!
