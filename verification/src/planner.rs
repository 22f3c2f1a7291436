use vstd::prelude::*;
use vstd::string::StringExecFns;
use crate::ids::{ShapeId, FieldId};
use crate::kinds::ShapeKind;
use crate::commands::{ShapeCommand, ShapeCommandView};
use crate::idgen::IdGenerator;
use crate::projection::ProjectionView;
use crate::queries::{
    ChoiceOutput, ChoiceView, ShapeQueries, choice_views, spec_list_trail_choices,
    trail_choices_ok,
};
use crate::trail::{PathComponentView, ShapeTrail, ShapeTrailPathComponent, spec_is_field, spec_last_field_id};

verus! {

/// The views of a vector of commands.
pub open spec fn command_views(v: Seq<ShapeCommand>) -> Seq<ShapeCommandView> {
    v.map_values(|c: ShapeCommand| c@)
}

/// Whether a kind can be toggled on a field by the planner.
pub open spec fn togglable_kind(k: ShapeKind) -> bool {
    k is OptionalKind || k is NullableKind
}

/// Whether the edit request asks for a nullable wrapper: the trail names a
/// field and the requested kinds contain the nullable kind.
pub open spec fn requested_nullable(t: crate::trail::TrailView, requested: Seq<ShapeKind>) -> bool {
    spec_is_field(t) && kind_in_from(requested, ShapeKind::NullableKind, 0)
}

/// Whether the edit request asks for an optional wrapper.
pub open spec fn requested_optional(t: crate::trail::TrailView, requested: Seq<ShapeKind>) -> bool {
    spec_is_field(t) && kind_in_from(requested, ShapeKind::OptionalKind, 0)
}

/// How many wrapper shapes an edit request creates: one per requested
/// togglable kind.
pub open spec fn wrapper_count(required_nullable: bool, required_optional: bool) -> nat {
    (if required_nullable {
        1nat
    } else {
        0nat
    }) + (if required_optional {
        1nat
    } else {
        0nat
    })
}

/// Whether `k` occurs in `s` at position `i` or later.
pub open spec fn kind_in_from(s: Seq<ShapeKind>, k: ShapeKind, i: int) -> bool
    decreases s.len() - i,
{
    if i < 0 || i >= s.len() {
        false
    } else {
        s[i] == k || kind_in_from(s, k, i + 1)
    }
}

/// The first choice that is not a togglable sentinel (all choices count
/// when the trail is not a field), from position `i` on.
pub open spec fn first_subject_choice_from(
    choices: Seq<ChoiceView>,
    is_field: bool,
    i: int,
) -> Option<ChoiceView>
    decreases choices.len() - i,
{
    if i < 0 || i >= choices.len() {
        None
    } else if !(is_field && togglable_kind(choices[i].core_shape_kind)) {
        Some(choices[i])
    } else {
        first_subject_choice_from(choices, is_field, i + 1)
    }
}

/// The subject shape at a choice: scanning the choice's parent path from
/// tail to head, the first wrapped inner shape or field type shape.
pub open spec fn subject_from_rev(path: Seq<PathComponentView>, i: int) -> Option<Seq<char>>
    decreases i + 1,
{
    if i < 0 || i >= path.len() {
        None
    } else {
        match path[i] {
            PathComponentView::OptionalItemTrail { inner_shape_id, .. } => Some(inner_shape_id),
            PathComponentView::NullableItemTrail { inner_shape_id, .. } => Some(inner_shape_id),
            PathComponentView::ObjectFieldTrail { field_shape_id, .. } => Some(field_shape_id),
            _ => subject_from_rev(path, i - 1),
        }
    }
}

/// The subject and field identifier of an applicable edit, or `None` when
/// the edit is inapplicable: the trail is not a field, no non-togglable
/// choice exists, or no subject can be located.
pub open spec fn spec_edit_subject(p: ProjectionView, t: crate::trail::TrailView) -> Option<
    (Seq<char>, Seq<char>),
> {
    let is_field = spec_is_field(t);
    let choices = spec_list_trail_choices(p, t);
    match first_subject_choice_from(choices, is_field, 0) {
        None => None,
        Some(choice) => {
            let subject = if is_field {
                subject_from_rev(choice.parent_trail.path, choice.parent_trail.path.len() - 1)
            } else {
                None
            };
            match subject {
                None => None,
                Some(subject_id) => match spec_last_field_id(t) {
                    Some(field_id) => Some((subject_id, field_id)),
                    None => None,
                },
            }
        },
    }
}

/// The command stream of an applicable edit, given the identifiers `id1`
/// and `id2` the generator hands out for the wrappers, in order (unused
/// ones are ignored): nullable wraps the subject first, optional wraps
/// outermost, and the field is rebound to the outermost shape. With no
/// requested togglable kind, the field is rebound directly to the subject.
pub open spec fn plan_views(
    subject: Seq<char>,
    required_nullable: bool,
    required_optional: bool,
    field_id: Seq<char>,
    id1: Seq<char>,
    id2: Seq<char>,
) -> Seq<ShapeCommandView> {
    if required_nullable && required_optional {
        seq![
            ShapeCommandView::AddShape {
                shape_id: id1,
                base_shape_kind: ShapeKind::NullableKind,
                name: Seq::empty(),
            },
            ShapeCommandView::SetParameterShape {
                shape_id: id1,
                shape_parameter_id: "$nullableInner"@,
                provider_shape_id: subject,
            },
            ShapeCommandView::AddShape {
                shape_id: id2,
                base_shape_kind: ShapeKind::OptionalKind,
                name: Seq::empty(),
            },
            ShapeCommandView::SetParameterShape {
                shape_id: id2,
                shape_parameter_id: "$optionalInner"@,
                provider_shape_id: id1,
            },
            ShapeCommandView::SetFieldShape { field_id, shape_id: id2 },
        ]
    } else if required_nullable {
        seq![
            ShapeCommandView::AddShape {
                shape_id: id1,
                base_shape_kind: ShapeKind::NullableKind,
                name: Seq::empty(),
            },
            ShapeCommandView::SetParameterShape {
                shape_id: id1,
                shape_parameter_id: "$nullableInner"@,
                provider_shape_id: subject,
            },
            ShapeCommandView::SetFieldShape { field_id, shape_id: id1 },
        ]
    } else if required_optional {
        seq![
            ShapeCommandView::AddShape {
                shape_id: id1,
                base_shape_kind: ShapeKind::OptionalKind,
                name: Seq::empty(),
            },
            ShapeCommandView::SetParameterShape {
                shape_id: id1,
                shape_parameter_id: "$optionalInner"@,
                provider_shape_id: subject,
            },
            ShapeCommandView::SetFieldShape { field_id, shape_id: id1 },
        ]
    } else {
        seq![ShapeCommandView::SetFieldShape { field_id, shape_id: subject }]
    }
}

/// A shape the planner intends to create: a wrapper around an existing
/// subject shape.
pub struct ShapePrototype {
    pub id: ShapeId,
    pub prototype_descriptor: ShapePrototypeDescriptor,
}

pub enum ShapePrototypeDescriptor {
    OptionalShape { subject_shape_id: ShapeId },
    NullableShape { subject_shape_id: ShapeId },
}

pub enum ShapePrototypeView {
    OptionalShape { id: Seq<char>, subject_shape_id: Seq<char> },
    NullableShape { id: Seq<char>, subject_shape_id: Seq<char> },
}

impl View for ShapePrototype {
    type V = ShapePrototypeView;

    open spec fn view(&self) -> ShapePrototypeView {
        match &self.prototype_descriptor {
            ShapePrototypeDescriptor::OptionalShape { subject_shape_id } => {
                ShapePrototypeView::OptionalShape {
                    id: self.id@,
                    subject_shape_id: subject_shape_id@,
                }
            },
            ShapePrototypeDescriptor::NullableShape { subject_shape_id } => {
                ShapePrototypeView::NullableShape {
                    id: self.id@,
                    subject_shape_id: subject_shape_id@,
                }
            },
        }
    }
}

/// The two commands that realize a prototype: add the wrapper shape, then
/// bind the subject into its primary parameter slot.
pub open spec fn prototype_commands(proto: ShapePrototypeView) -> Seq<ShapeCommandView> {
    match proto {
        ShapePrototypeView::OptionalShape { id, subject_shape_id } => seq![
            ShapeCommandView::AddShape {
                shape_id: id,
                base_shape_kind: ShapeKind::OptionalKind,
                name: Seq::empty(),
            },
            ShapeCommandView::SetParameterShape {
                shape_id: id,
                shape_parameter_id: "$optionalInner"@,
                provider_shape_id: subject_shape_id,
            },
        ],
        ShapePrototypeView::NullableShape { id, subject_shape_id } => seq![
            ShapeCommandView::AddShape {
                shape_id: id,
                base_shape_kind: ShapeKind::NullableKind,
                name: Seq::empty(),
            },
            ShapeCommandView::SetParameterShape {
                shape_id: id,
                shape_parameter_id: "$nullableInner"@,
                provider_shape_id: subject_shape_id,
            },
        ],
    }
}

impl ShapePrototype {
    /// Translates the prototype into its command pair.
    pub fn into_commands(self) -> (r: Vec<ShapeCommand>)
        ensures
            command_views(r@) == prototype_commands(self@),
    {
        let ghost proto = self@;
        let mut out: Vec<ShapeCommand> = Vec::new();
        match self.prototype_descriptor {
            ShapePrototypeDescriptor::OptionalShape { subject_shape_id } => {
                let parameter_descriptor = match ShapeKind::OptionalKind
                    .primary_parameter_descriptor() {
                    Some(d) => d,
                    None => {
                        proof {
                            assert(false);
                        }
                        return out;
                    },
                };
                out.push(
                    ShapeCommand::add_shape(self.id.clone(), ShapeKind::OptionalKind, String::new()),
                );
                out.push(
                    ShapeCommand::set_parameter_shape(
                        self.id,
                        parameter_descriptor.shape_parameter_id,
                        subject_shape_id,
                    ),
                );
            },
            ShapePrototypeDescriptor::NullableShape { subject_shape_id } => {
                let parameter_descriptor = match ShapeKind::NullableKind
                    .primary_parameter_descriptor() {
                    Some(d) => d,
                    None => {
                        proof {
                            assert(false);
                        }
                        return out;
                    },
                };
                out.push(
                    ShapeCommand::add_shape(self.id.clone(), ShapeKind::NullableKind, String::new()),
                );
                out.push(
                    ShapeCommand::set_parameter_shape(
                        self.id,
                        parameter_descriptor.shape_parameter_id,
                        subject_shape_id,
                    ),
                );
            },
        }
        proof {
            assert(command_views(out@) =~~= prototype_commands(proto));
        }
        out
    }
}

impl<'a> ShapeQueries<'a> {
    /// The single command that removes an existing field, or `None` when
    /// no live field carries the identifier.
    pub fn remove_field_commands(&self, field_id: &FieldId) -> (r: Option<Vec<ShapeCommand>>)
        requires
            self.shape_projection@.wf(),
        ensures
            match r {
                Some(cmds) => self.shape_projection@.live_field_idx(field_id@) is Some
                    && command_views(cmds@) == seq![
                    ShapeCommandView::RemoveField { field_id: field_id@ },
                ],
                None => self.shape_projection@.live_field_idx(field_id@) is None,
            },
    {
        match self.shape_projection.get_field_node_index(field_id) {
            Some(_) => {
                let mut out: Vec<ShapeCommand> = Vec::new();
                out.push(ShapeCommand::remove_field(field_id.clone()));
                proof {
                    assert(command_views(out@) =~~= seq![
                        ShapeCommandView::RemoveField { field_id: field_id@ },
                    ]);
                }
                Some(out)
            },
            None => None,
        }
    }

    /// Plans the commands that wrap a field's subject shape in the
    /// requested togglable kinds (nullable innermost, optional outermost)
    /// and rebind the field; with no requested togglable kind the field is
    /// rebound directly to its innermost subject. Returns `None` when the
    /// edit is inapplicable: the trail is not a field, or no subject can
    /// be located among its choices.
    #[verifier::rlimit(60)]
    #[verifier::spinoff_prover]
    pub fn edit_shape_trail_commands<G: IdGenerator>(
        &self,
        shape_trail: &ShapeTrail,
        requested_kinds: &Vec<ShapeKind>,
        id_generator: &mut G,
    ) -> (r: Option<Vec<ShapeCommand>>)
        requires
            self.shape_projection@.wf(),
            trail_choices_ok(self.shape_projection@, shape_trail@),
        ensures
            match r {
                Some(cmds) => match spec_edit_subject(self.shape_projection@, shape_trail@) {
                    Some((subject, field_id)) => {
                        &&& command_views(cmds@) == plan_views(
                            subject,
                            requested_nullable(shape_trail@, requested_kinds@),
                            requested_optional(shape_trail@, requested_kinds@),
                            field_id,
                            old(id_generator).future_shape_id(0),
                            old(id_generator).future_shape_id(1),
                        )
                        &&& forall|n: nat| #[trigger] final(id_generator).future_shape_id(n)
                            == old(id_generator).future_shape_id(
                            n + wrapper_count(
                                requested_nullable(shape_trail@, requested_kinds@),
                                requested_optional(shape_trail@, requested_kinds@),
                            ),
                        )
                        &&& wrapper_count(
                            requested_nullable(shape_trail@, requested_kinds@),
                            requested_optional(shape_trail@, requested_kinds@),
                        ) == 0 ==> *final(id_generator) == *old(id_generator)
                    },
                    None => false,
                },
                None => {
                    &&& spec_edit_subject(self.shape_projection@, shape_trail@) is None
                    &&& *final(id_generator) == *old(id_generator)
                },
            },
    {
        let ghost g = self.shape_projection@;
        let ghost tview = shape_trail@;
        let ghost all_views = spec_list_trail_choices(g, tview);
        let current_trail_choices = self.list_trail_choices(shape_trail);
        let is_field = shape_trail.is_field();

        // The first choice that is not a togglable sentinel.
        let n = current_trail_choices.len();
        let mut i: usize = 0;
        let mut primitive_choice: Option<&ChoiceOutput> = None;
        while i < n && primitive_choice.is_none()
            invariant
                0 <= i <= n,
                n == current_trail_choices.len(),
                choice_views(current_trail_choices@) == all_views,
                is_field == spec_is_field(tview),
                match primitive_choice {
                    None => first_subject_choice_from(all_views, is_field, 0)
                        == first_subject_choice_from(all_views, is_field, i as int),
                    Some(c) => first_subject_choice_from(all_views, is_field, 0) == Some(c@),
                },
            decreases n - i + (if primitive_choice is Some { 0int } else { 1int }),
        {
            let c = &current_trail_choices[i];
            let skip = is_field && (match c.core_shape_kind {
                ShapeKind::OptionalKind => true,
                ShapeKind::NullableKind => true,
                _ => false,
            });
            if !skip {
                proof {
                    assert(c@ == all_views[i as int]);
                    assert(first_subject_choice_from(all_views, is_field, i as int) == Some(
                        all_views[i as int],
                    ));
                }
                primitive_choice = Some(c);
            } else {
                i = i + 1;
            }
        }
        let choice = match primitive_choice {
            Some(c) => c,
            None => {
                proof {
                    assert(first_subject_choice_from(all_views, is_field, 0) is None);
                }
                return None;
            },
        };
        let ghost choice_view = choice@;

        // Editing non-field positions is not supported: no subject there.
        if !is_field {
            return None;
        }

        // The subject: scanning the choice's parent path from the tail,
        // the first wrapped inner shape or field type shape.
        let ghost cpath = choice_view.parent_trail.path;
        let path = &choice.parent_trail.path;
        let mut j: usize = path.len();
        let mut subject_opt: Option<ShapeId> = None;
        while j > 0 && subject_opt.is_none()
            invariant
                0 <= j <= path.len(),
                cpath == path@.map_values(|c: ShapeTrailPathComponent| c@),
                match subject_opt {
                    None => subject_from_rev(cpath, cpath.len() - 1) == subject_from_rev(
                        cpath,
                        j as int - 1,
                    ),
                    Some(s) => subject_from_rev(cpath, cpath.len() - 1) == Some(s@),
                },
            decreases j,
        {
            j = j - 1;
            match &path[j] {
                ShapeTrailPathComponent::OptionalItemTrail { inner_shape_id, .. } => {
                    proof {
                        assert(subject_from_rev(cpath, j as int) == Some(inner_shape_id@));
                    }
                    subject_opt = Some(inner_shape_id.clone());
                },
                ShapeTrailPathComponent::NullableItemTrail { inner_shape_id, .. } => {
                    proof {
                        assert(subject_from_rev(cpath, j as int) == Some(inner_shape_id@));
                    }
                    subject_opt = Some(inner_shape_id.clone());
                },
                ShapeTrailPathComponent::ObjectFieldTrail { field_shape_id, .. } => {
                    proof {
                        assert(subject_from_rev(cpath, j as int) == Some(field_shape_id@));
                    }
                    subject_opt = Some(field_shape_id.clone());
                },
                _ => {},
            }
        }
        let subject_shape_id = match subject_opt {
            Some(s) => s,
            None => {
                proof {
                    assert(subject_from_rev(cpath, cpath.len() - 1) is None);
                    assert(spec_edit_subject(g, tview) is None);
                }
                return None;
            },
        };
        let ghost subject_v = subject_shape_id@;

        let field_id = match shape_trail.last_field_id() {
            Some(f) => f.clone(),
            None => {
                proof {
                    assert(false);
                }
                return None;
            },
        };
        let ghost fid = field_id@;
        proof {
            assert(spec_edit_subject(g, tview) == Some((subject_v, fid)));
        }

        let required_nullable = kind_vec_contains(requested_kinds, ShapeKind::NullableKind);
        let required_optional = kind_vec_contains(requested_kinds, ShapeKind::OptionalKind);

        let mut commands: Vec<ShapeCommand> = Vec::new();
        let mut root_shape_id: ShapeId = subject_shape_id;
        let ghost mut gid1: Seq<char> = subject_v;
        let ghost mut gid2: Seq<char> = subject_v;
        if required_nullable {
            let new_id = id_generator.shape();
            proof {
                gid1 = new_id@;
                assert(gid1 == old(id_generator).future_shape_id(0));
            }
            let prototype = ShapePrototype {
                id: new_id,
                prototype_descriptor: ShapePrototypeDescriptor::NullableShape {
                    subject_shape_id: root_shape_id,
                },
            };
            root_shape_id = prototype.id.clone();
            let mut prototype_commands_vec = prototype.into_commands();
            proof {
                assert(command_views(prototype_commands_vec@).len() == 2);
                assert(prototype_commands_vec@.len() == 2);
            }
            commands.append(&mut prototype_commands_vec);
        }
        if required_optional {
            let new_id = id_generator.shape();
            proof {
                if required_nullable {
                    gid2 = new_id@;
                    assert(gid2 == old(id_generator).future_shape_id(1));
                } else {
                    gid1 = new_id@;
                    assert(gid1 == old(id_generator).future_shape_id(0));
                }
            }
            let prototype = ShapePrototype {
                id: new_id,
                prototype_descriptor: ShapePrototypeDescriptor::OptionalShape {
                    subject_shape_id: root_shape_id,
                },
            };
            root_shape_id = prototype.id.clone();
            let mut prototype_commands_vec = prototype.into_commands();
            proof {
                assert(command_views(prototype_commands_vec@).len() == 2);
                assert(prototype_commands_vec@.len() == 2);
            }
            commands.append(&mut prototype_commands_vec);
        }
        commands.push(ShapeCommand::set_field_shape(field_id, root_shape_id));
        proof {
            assert(requested_nullable(tview, requested_kinds@) == required_nullable);
            assert(requested_optional(tview, requested_kinds@) == required_optional);
            if required_nullable && required_optional {
                assert(command_views(commands@) =~= plan_views(
                    subject_v,
                    required_nullable,
                    required_optional,
                    fid,
                    gid1,
                    gid2,
                ));
            } else if required_nullable {
                assert(command_views(commands@) =~= plan_views(
                    subject_v,
                    required_nullable,
                    required_optional,
                    fid,
                    gid1,
                    gid2,
                ));
            } else if required_optional {
                assert(command_views(commands@) =~= plan_views(
                    subject_v,
                    required_nullable,
                    required_optional,
                    fid,
                    gid1,
                    gid2,
                ));
            } else {
                assert(command_views(commands@) =~= plan_views(
                    subject_v,
                    required_nullable,
                    required_optional,
                    fid,
                    gid1,
                    gid2,
                ));
            }
            // The identifiers the commands carry are the generator's next
            // outputs, so the whole stream is pinned to the generator.
            assert(command_views(commands@) == plan_views(
                subject_v,
                required_nullable,
                required_optional,
                fid,
                old(id_generator).future_shape_id(0),
                old(id_generator).future_shape_id(1),
            ));
            assert(match spec_edit_subject(self.shape_projection@, shape_trail@) {
                Some((subject, field_id)) => command_views(commands@) == plan_views(
                    subject,
                    requested_nullable(shape_trail@, requested_kinds@),
                    requested_optional(shape_trail@, requested_kinds@),
                    field_id,
                    old(id_generator).future_shape_id(0),
                    old(id_generator).future_shape_id(1),
                ),
                None => false,
            }) by {
                let se = spec_edit_subject(self.shape_projection@, shape_trail@);
                assert(se == Some((subject_v, fid)));
                let subject = se->Some_0.0;
                let located_field_id = se->Some_0.1;
                assert(subject == subject_v && located_field_id == fid);
            }
            // The generator advanced by exactly one output per wrapper.
            assert forall|n: nat| #[trigger] id_generator.future_shape_id(n) == old(
                id_generator,
            ).future_shape_id(
                n + wrapper_count(required_nullable, required_optional),
            ) by {
                assert(wrapper_count(required_nullable, required_optional) == (if required_nullable {
                    1int
                } else {
                    0int
                }) + (if required_optional {
                    1int
                } else {
                    0int
                }));
            }
        }
        Some(commands)
    }
}

/// Whether the vector holds the kind.
fn kind_vec_contains(v: &Vec<ShapeKind>, kind: ShapeKind) -> (r: bool)
    ensures
        r == kind_in_from(v@, kind, 0),
{
    let n = v.len();
    let mut i: usize = 0;
    while i < n
        invariant
            0 <= i <= n,
            n == v.len(),
            kind_in_from(v@, kind, 0) == kind_in_from(v@, kind, i as int),
        decreases n - i,
    {
        if v[i] == kind {
            proof {
                assert(kind_in_from(v@, kind, i as int));
            }
            return true;
        }
        i = i + 1;
    }
    false
}

} // verus!
