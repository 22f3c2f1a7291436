use vstd::prelude::*;
use crate::commands::ShapeCommandView;
use crate::fields::{
    find_named_field_edge_from, is_live_field_named, lemma_find_named_field_ok,
    spec_resolve_field_id, spec_resolve_field_shape,
};
use crate::planner::plan_views;
use crate::projection::{ProjectionView, edge_wf, lemma_find_field_ok,
    lemma_find_shape_ok};
use crate::queries::{
    ChoiceView, spec_list_trail_choices, spec_resolve_to_core, lemma_resolve_to_core_some,
};
use crate::reconstruct::{find_isfieldof_edge_from, spec_owner_idx};
use crate::trail::TrailView;

verus! {

/// Law: in a well-formed graph, resolving any existing shape to its core
/// terminates at exactly one core shape. A core ancestor exists at the end
/// of the shape's descendant edge, and the shape has no second descendant
/// edge.
pub proof fn lemma_resolve_to_core_exactly_one(p: ProjectionView, id: Seq<char>)
    requires
        p.wf(),
        p.has_shape(id),
    ensures
        spec_resolve_to_core(p, id) is Some,
        ({
            let i = p.shape_idx(id)->Some_0;
            &&& exists|k: int|
                0 <= k < p.edges.len() && (#[trigger] p.edges[k]).from == i && p.edges[k].edge
                    is IsDescendantOf && p.nodes[p.edges[k].to] is CoreShape
            &&& forall|k1: int, k2: int|
                #![trigger p.edges[k1], p.edges[k2]]
                0 <= k1 < p.edges.len() && 0 <= k2 < p.edges.len() && p.edges[k1].from == i
                    && p.edges[k2].from == i && p.edges[k1].edge is IsDescendantOf
                    && p.edges[k2].edge is IsDescendantOf ==> k1 == k2
        }),
{
    lemma_resolve_to_core_some(p, id);
    lemma_find_shape_ok(p.nodes, id, 0);
    let i = p.shape_idx(id)->Some_0;
    assert(p.nodes[i] is Shape);
    let k = choose|k: int|
        0 <= k < p.edges.len() && (#[trigger] p.edges[k]).from == i && p.edges[k].edge
            is IsDescendantOf;
    assert(edge_wf(p.nodes, p.edges[k]));
    assert(0 <= k < p.edges.len() && p.edges[k].from == i && p.edges[k].edge is IsDescendantOf
        && p.nodes[p.edges[k].to] is CoreShape);
}

/// Law: listing the choices of a trail is deterministic. Two results that
/// both satisfy the contract of `list_trail_choices` for the same
/// projection and the same trail are identical, order included.
pub proof fn lemma_list_trail_choices_deterministic(
    p: ProjectionView,
    t: TrailView,
    r1: Seq<ChoiceView>,
    r2: Seq<ChoiceView>,
)
    requires
        r1 == spec_list_trail_choices(p, t),
        r2 == spec_list_trail_choices(p, t),
    ensures
        r1 == r2,
{
}

/// Law: resolving a field's type shape and looking the field back up by
/// name round-trips, on the inputs where the round trip can hold: the
/// field's type shape must also be the shape that owns it (the field is
/// self-typed), and no live field with the same name may stand on an
/// earlier ownership edge of that shape. For any other field the two
/// queries talk about different shapes and the round trip fails; one such
/// input is a field whose type is a plain string shape.
pub proof fn lemma_resolve_field_id_roundtrip(p: ProjectionView, field_id: Seq<char>)
    requires
        p.wf(),
        spec_resolve_field_shape(p, field_id) is Some,
        ({
            let fi = p.live_field_idx(field_id)->Some_0;
            let s = spec_resolve_field_shape(p, field_id)->Some_0;
            &&& spec_owner_idx(p, fi) == p.shape_idx(s)
            &&& forall|k: int|
                0 <= k < p.edges.len() && (#[trigger] p.edges[k]).to == p.shape_idx(s)->Some_0
                    && p.edges[k].edge is IsFieldOf && is_live_field_named(
                    p.nodes[p.edges[k].from],
                    p.nodes[fi]->Field_name,
                ) ==> p.edges[k].from == fi
        }),
    ensures
        spec_resolve_field_id(
            p,
            spec_resolve_field_shape(p, field_id)->Some_0,
            p.nodes[p.live_field_idx(field_id)->Some_0]->Field_name,
        ) == Some(field_id),
{
    lemma_find_field_ok(p.nodes, field_id, 0);
    let fi = p.live_field_idx(field_id)->Some_0;
    let s = spec_resolve_field_shape(p, field_id)->Some_0;
    let name = p.nodes[fi]->Field_name;
    assert(p.nodes[fi] is Field);
    // The field's ownership edge exists and is unique, so the owner index
    // is the target of that edge.
    let k0 = choose|k: int|
        0 <= k < p.edges.len() && (#[trigger] p.edges[k]).from == fi && p.edges[k].edge
            is IsFieldOf;
    lemma_find_isfieldof_ok(p.edges, fi, 0);
    let kf = find_isfieldof_edge_from(p.edges, fi, 0)->Some_0;
    assert(find_isfieldof_edge_from(p.edges, fi, 0) is Some);
    assert(p.edges[kf].from == fi && p.edges[kf].edge is IsFieldOf);
    let obj = p.edges[kf].to;
    assert(spec_owner_idx(p, fi) == Some(obj));
    assert(p.shape_idx(s) == Some(obj));
    assert(edge_wf(p.nodes, p.edges[kf]));
    // The field itself is live and carries `name`, so the named search
    // cannot fail; by the uniqueness hypothesis it finds this very field.
    assert(is_live_field_named(p.nodes[fi], name));
    lemma_find_named_field_ok(p, obj, name, 0);
    match find_named_field_edge_from(p, obj, name, 0) {
        Some(j) => {
            assert(p.edges[j].from == fi);
        },
        None => {
            assert(!(p.edges[kf].to == obj && p.edges[kf].edge is IsFieldOf && 0 <= p.edges[kf].from
                < p.nodes.len() && is_live_field_named(p.nodes[p.edges[kf].from], name)));
            assert(false);
        },
    }
}

/// What a successful or failed search for a field's ownership edge means.
pub proof fn lemma_find_isfieldof_ok(edges: Seq<crate::projection::EdgeView>, i: int, k: int)
    requires
        0 <= k,
    ensures
        match find_isfieldof_edge_from(edges, i, k) {
            Some(j) => k <= j < edges.len() && edges[j].from == i && edges[j].edge is IsFieldOf,
            None => forall|l: int|
                k <= l < edges.len() ==> !((#[trigger] edges[l]).from == i && edges[l].edge
                    is IsFieldOf),
        },
    decreases edges.len() - k,
{
    if k < 0 || k >= edges.len() {
    } else if edges[k].from == i && edges[k].edge is IsFieldOf {
    } else {
        lemma_find_isfieldof_ok(edges, i, k + 1);
    }
}

/// Law: an edit that requests no togglable kind adds no shapes: its
/// command stream is the single rebinding of the field to its innermost
/// subject. Re-issuing the same request on the projection a first edit
/// produced therefore plans no shape additions either, since this holds of
/// every projection and trail.
pub proof fn lemma_edit_without_togglable_adds_no_shapes(
    subject: Seq<char>,
    field_id: Seq<char>,
    id1: Seq<char>,
    id2: Seq<char>,
    cmds: Seq<ShapeCommandView>,
)
    requires
        cmds == plan_views(subject, false, false, field_id, id1, id2),
    ensures
        cmds =~= seq![ShapeCommandView::SetFieldShape { field_id, shape_id: subject }],
        forall|i: int| 0 <= i < cmds.len() ==> !((#[trigger] cmds[i]) is AddShape),
{
}


/// Whether an `AddShape` command earlier than position `i` introduces the
/// shape identifier `id`.
pub open spec fn added_before(cmds: Seq<ShapeCommandView>, i: int, id: Seq<char>) -> bool {
    exists|j: int|
        0 <= j < i && match #[trigger] cmds[j] {
            ShapeCommandView::AddShape { shape_id, .. } => shape_id == id,
            _ => false,
        }
}

/// Law: a planned command stream is self-consistent. Every shape
/// identifier a command consumes — the shape a parameter is set on, the
/// provider bound into it, the shape a field is rebound to — is either the
/// edit's subject (a shape of the projection) or was introduced by an
/// earlier `AddShape` of the same stream. An executor therefore never
/// meets a forward or dangling reference inside the stream; only the
/// freshness of the generator's identifiers against the projection is the
/// session's (the generator seed's) duty.
pub proof fn lemma_plan_stream_self_consistent(
    subject: Seq<char>,
    required_nullable: bool,
    required_optional: bool,
    field_id: Seq<char>,
    id1: Seq<char>,
    id2: Seq<char>,
)
    ensures
        ({
            let cmds = plan_views(subject, required_nullable, required_optional, field_id, id1, id2);
            forall|i: int|
                0 <= i < cmds.len() ==> match #[trigger] cmds[i] {
                    ShapeCommandView::SetParameterShape {
                        shape_id,
                        provider_shape_id,
                        ..
                    } => added_before(cmds, i, shape_id) && (provider_shape_id == subject
                        || added_before(cmds, i, provider_shape_id)),
                    ShapeCommandView::SetFieldShape { shape_id, .. } => shape_id == subject
                        || added_before(cmds, i, shape_id),
                    _ => true,
                }
        }),
{
    let cmds = plan_views(subject, required_nullable, required_optional, field_id, id1, id2);
    assert forall|i: int|
        0 <= i < cmds.len() implies match #[trigger] cmds[i] {
        ShapeCommandView::SetParameterShape { shape_id, provider_shape_id, .. } => added_before(
            cmds,
            i,
            shape_id,
        ) && (provider_shape_id == subject || added_before(cmds, i, provider_shape_id)),
        ShapeCommandView::SetFieldShape { shape_id, .. } => shape_id == subject || added_before(
            cmds,
            i,
            shape_id,
        ),
        _ => true,
    } by {
        if required_nullable && required_optional {
            assert(cmds[0] == (ShapeCommandView::AddShape {
                shape_id: id1,
                base_shape_kind: crate::kinds::ShapeKind::NullableKind,
                name: Seq::empty(),
            }));
            assert(cmds[2] == (ShapeCommandView::AddShape {
                shape_id: id2,
                base_shape_kind: crate::kinds::ShapeKind::OptionalKind,
                name: Seq::empty(),
            }));
            if i == 1 || i == 3 {
                assert(added_before(cmds, i, id1));
            }
            if i == 3 || i == 4 {
                assert(added_before(cmds, i, id2));
            }
        } else if required_nullable || required_optional {
            assert(cmds[0] is AddShape);
            if i >= 1 {
                assert(added_before(cmds, i, id1));
            }
        }
    }
}


} // verus!
