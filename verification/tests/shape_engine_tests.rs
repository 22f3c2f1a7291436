use shape_engine::commands::ShapeCommand;
use shape_engine::events::ShapeEvent;
use shape_engine::idgen::{IdGenerator, SequentialIdGenerator};
use shape_engine::kinds::ShapeKind;
use shape_engine::projection::ShapeProjection;
use shape_engine::queries::ShapeQueries;
use shape_engine::reconstruct::ShapeTrailResolutionError;
use shape_engine::trail::{ShapeTrail, ShapeTrailPathComponent};

fn s(v: &str) -> String {
    v.to_string()
}

fn shape_added(id: &str, base: &str) -> ShapeEvent {
    ShapeEvent::ShapeAdded { shape_id: s(id), base_shape_id: s(base), name: s("") }
}

fn param_added(shape: &str, param: &str) -> ShapeEvent {
    ShapeEvent::ShapeParameterAdded { shape_id: s(shape), shape_parameter_id: s(param), name: s("") }
}

fn param_set(shape: &str, param: &str, provider: &str) -> ShapeEvent {
    ShapeEvent::ShapeParameterShapeSet {
        shape_id: s(shape),
        consuming_parameter_id: s(param),
        provider_shape_id: s(provider),
    }
}

fn field_added(field: &str, owner: &str, name: &str, type_shape: &str) -> ShapeEvent {
    ShapeEvent::FieldAdded {
        field_id: s(field),
        shape_id: s(owner),
        name: s(name),
        field_shape_id: s(type_shape),
    }
}

fn project(events: Vec<ShapeEvent>) -> ShapeProjection {
    let mut projection = ShapeProjection::new();
    for event in events {
        assert!(projection.apply(event), "every test event should be accepted");
    }
    projection
}

fn base_projection() -> ShapeProjection {
    project(vec![
        shape_added("string_shape_1", "$string"),
        shape_added("object_shape_1", "$object"),
        field_added("field_1", "object_shape_1", "lastName", "string_shape_1"),
    ])
}

fn field_trail(root: &str, field: &str, field_shape: &str) -> ShapeTrail {
    ShapeTrail::new(s(root)).with_component(ShapeTrailPathComponent::ObjectFieldTrail {
        field_id: s(field),
        field_shape_id: s(field_shape),
        parent_object_shape_id: s(root),
    })
}

fn add_shape_cmd(id: &str, kind: ShapeKind) -> ShapeCommand {
    ShapeCommand::AddShape { shape_id: s(id), base_shape_kind: kind, name: s("") }
}

fn set_param_cmd(id: &str, param: &str, provider: &str) -> ShapeCommand {
    ShapeCommand::SetParameterShape {
        shape_id: s(id),
        shape_parameter_id: s(param),
        provider_shape_id: s(provider),
    }
}

fn set_field_cmd(field: &str, shape: &str) -> ShapeCommand {
    ShapeCommand::SetFieldShape { field_id: s(field), shape_id: s(shape) }
}

#[test]
fn can_generate_remove_field_commands() {
    let spec_projection = base_projection();
    let shape_queries = ShapeQueries::new(&spec_projection);

    let remove_field_commands = shape_queries
        .remove_field_commands(&s("field_1"))
        .expect("commands to remove fields should generate for existing field");

    assert_eq!(remove_field_commands, vec![ShapeCommand::RemoveField { field_id: s("field_1") }]);
}

#[test]
fn can_generate_edit_shape_trail_commands_to_make_field_optional() {
    let spec_projection = base_projection();
    let shape_queries = ShapeQueries::new(&spec_projection);
    let mut id_generator = SequentialIdGenerator::new(1093);

    let shape_trail = field_trail("object_shape_1", "field_1", "string_shape_1");
    let required_kinds = vec![ShapeKind::OptionalKind];
    let edit_shape_commands = shape_queries
        .edit_shape_trail_commands(&shape_trail, &required_kinds, &mut id_generator)
        .expect("field should be able to be made optional");

    assert_eq!(
        edit_shape_commands,
        vec![
            add_shape_cmd("1094", ShapeKind::OptionalKind),
            set_param_cmd("1094", "$optionalInner", "string_shape_1"),
            set_field_cmd("field_1", "1094"),
        ]
    );
}

#[test]
fn can_generate_edit_shape_trail_commands_to_make_field_nullable() {
    let spec_projection = base_projection();
    let shape_queries = ShapeQueries::new(&spec_projection);
    let mut id_generator = SequentialIdGenerator::new(1093);

    let shape_trail = field_trail("object_shape_1", "field_1", "string_shape_1");
    let required_kinds = vec![ShapeKind::NullableKind];
    let edit_shape_commands = shape_queries
        .edit_shape_trail_commands(&shape_trail, &required_kinds, &mut id_generator)
        .expect("field should be able to be made nullable");

    assert_eq!(
        edit_shape_commands,
        vec![
            add_shape_cmd("1094", ShapeKind::NullableKind),
            set_param_cmd("1094", "$nullableInner", "string_shape_1"),
            set_field_cmd("field_1", "1094"),
        ]
    );
}

#[test]
fn can_generate_edit_shape_trail_commands_to_make_unknown_nullable_field_optional() {
    let spec_projection = project(vec![
        shape_added("object_shape_1", "$object"),
        shape_added("unknown_shape_1", "$unknown"),
        shape_added("nullable_shape_1", "$nullable"),
        param_set("nullable_shape_1", "$nullableInner", "unknown_shape_1"),
        field_added("field_1", "object_shape_1", "lastName", "nullable_shape_1"),
    ]);
    let shape_queries = ShapeQueries::new(&spec_projection);
    let mut id_generator = SequentialIdGenerator::new(1093);

    let shape_trail = ShapeTrail::new(s("object_shape_1"))
        .with_component(ShapeTrailPathComponent::ObjectTrail { shape_id: s("object_shape_1") })
        .with_component(ShapeTrailPathComponent::ObjectFieldTrail {
            field_id: s("field_1"),
            field_shape_id: s("nullable_shape_1"),
            parent_object_shape_id: s("object_shape_1"),
        });
    let required_kinds = vec![ShapeKind::OptionalKind, ShapeKind::NullableKind];
    let edit_shape_commands = shape_queries
        .edit_shape_trail_commands(&shape_trail, &required_kinds, &mut id_generator)
        .expect("field should be able to be made optional");

    assert_eq!(
        edit_shape_commands,
        vec![
            add_shape_cmd("1094", ShapeKind::NullableKind),
            set_param_cmd("1094", "$nullableInner", "unknown_shape_1"),
            add_shape_cmd("1095", ShapeKind::OptionalKind),
            set_param_cmd("1095", "$optionalInner", "1094"),
            set_field_cmd("field_1", "1095"),
        ]
    );
}

#[test]
fn can_generate_edit_shape_trail_commands_to_make_optional_field_nullable() {
    let spec_projection = project(vec![
        shape_added("string_shape_1", "$string"),
        shape_added("object_shape_1", "$object"),
        shape_added("optional_shape_1", "$optional"),
        param_set("optional_shape_1", "$optionalInner", "string_shape_1"),
        field_added("field_1", "object_shape_1", "lastName", "optional_shape_1"),
    ]);
    let shape_queries = ShapeQueries::new(&spec_projection);
    let mut id_generator = SequentialIdGenerator::new(1093);

    let shape_trail = field_trail("object_shape_1", "field_1", "optional_shape_1");
    // The string kind is not togglable and should be filtered out.
    let required_kinds = vec![ShapeKind::StringKind, ShapeKind::NullableKind];
    let edit_shape_commands = shape_queries
        .edit_shape_trail_commands(&shape_trail, &required_kinds, &mut id_generator)
        .expect("field should be able to be made nullable and optional");

    assert_eq!(
        edit_shape_commands,
        vec![
            add_shape_cmd("1094", ShapeKind::NullableKind),
            set_param_cmd("1094", "$nullableInner", "string_shape_1"),
            set_field_cmd("field_1", "1094"),
        ]
    );
}

#[test]
fn can_generate_edit_shape_trail_commands_to_make_optional_field_nullable_and_optional() {
    let spec_projection = project(vec![
        shape_added("string_shape_1", "$string"),
        shape_added("object_shape_1", "$object"),
        shape_added("optional_shape_1", "$optional"),
        param_set("optional_shape_1", "$optionalInner", "string_shape_1"),
        field_added("field_1", "object_shape_1", "lastName", "optional_shape_1"),
    ]);
    let shape_queries = ShapeQueries::new(&spec_projection);
    let mut id_generator = SequentialIdGenerator::new(1093);

    let shape_trail = field_trail("object_shape_1", "field_1", "optional_shape_1");
    let required_kinds = vec![ShapeKind::NullableKind, ShapeKind::OptionalKind];
    let edit_shape_commands = shape_queries
        .edit_shape_trail_commands(&shape_trail, &required_kinds, &mut id_generator)
        .expect("field should be able to be made nullable and optional");

    assert_eq!(
        edit_shape_commands,
        vec![
            add_shape_cmd("1094", ShapeKind::NullableKind),
            set_param_cmd("1094", "$nullableInner", "string_shape_1"),
            add_shape_cmd("1095", ShapeKind::OptionalKind),
            set_param_cmd("1095", "$optionalInner", "1094"),
            set_field_cmd("field_1", "1095"),
        ]
    );
}

#[test]
fn can_generate_edit_shape_trail_commands_to_make_polymorphic_field_optional() {
    let spec_projection = project(vec![
        shape_added("string_shape_1", "$string"),
        shape_added("number_shape_1", "$number"),
        shape_added("object_shape_1", "$object"),
        shape_added("one_of_shape_1", "$oneOf"),
        param_added("one_of_shape_1", "one_of_param_1"),
        param_added("one_of_shape_1", "one_of_param_2"),
        param_set("one_of_shape_1", "one_of_param_1", "string_shape_1"),
        param_set("one_of_shape_1", "one_of_param_2", "number_shape_1"),
        field_added("field_1", "object_shape_1", "lastName", "one_of_shape_1"),
    ]);
    let shape_queries = ShapeQueries::new(&spec_projection);
    let mut id_generator = SequentialIdGenerator::new(1093);

    let shape_trail = field_trail("object_shape_1", "field_1", "one_of_shape_1");
    let required_kinds = vec![ShapeKind::OptionalKind];
    let edit_shape_commands = shape_queries
        .edit_shape_trail_commands(&shape_trail, &required_kinds, &mut id_generator)
        .expect("field should be able to be made nullable and optional");

    // Subject discovery picks the field's shape: the one-of itself.
    assert_eq!(
        edit_shape_commands,
        vec![
            add_shape_cmd("1094", ShapeKind::OptionalKind),
            set_param_cmd("1094", "$optionalInner", "one_of_shape_1"),
            set_field_cmd("field_1", "1094"),
        ]
    );
}

#[test]
fn can_generate_edit_shape_trail_commands_to_make_optional_nullable_field_required() {
    let spec_projection = project(vec![
        shape_added("string_shape_1", "$string"),
        shape_added("object_shape_1", "$object"),
        shape_added("nullable_shape_1", "$nullable"),
        param_set("nullable_shape_1", "$nullableInner", "string_shape_1"),
        shape_added("optional_shape_1", "$optional"),
        param_set("optional_shape_1", "$optionalInner", "nullable_shape_1"),
        field_added("field_1", "object_shape_1", "lastName", "optional_shape_1"),
    ]);
    let shape_queries = ShapeQueries::new(&spec_projection);
    let mut id_generator = SequentialIdGenerator::new(1093);

    let shape_trail = field_trail("object_shape_1", "field_1", "optional_shape_1");
    let required_kinds = vec![];
    let edit_shape_commands = shape_queries
        .edit_shape_trail_commands(&shape_trail, &required_kinds, &mut id_generator)
        .expect("field should be able to be made required");

    // The wrappers are stripped: the field is rebound directly to the
    // innermost primitive subject.
    assert_eq!(edit_shape_commands, vec![set_field_cmd("field_1", "string_shape_1")]);
}

#[test]
fn a_plain_string_field_can_be_made_optional_and_nullable() {
    let spec_projection = base_projection();
    let shape_queries = ShapeQueries::new(&spec_projection);
    let mut id_generator = SequentialIdGenerator::new(1093);

    let shape_trail = field_trail("object_shape_1", "field_1", "string_shape_1");
    let required_kinds = vec![ShapeKind::NullableKind, ShapeKind::OptionalKind];
    let edit_shape_commands = shape_queries
        .edit_shape_trail_commands(&shape_trail, &required_kinds, &mut id_generator)
        .expect("field should be able to be made nullable and optional");

    // Nullable wraps the subject first; optional wraps outermost.
    assert_eq!(
        edit_shape_commands,
        vec![
            add_shape_cmd("1094", ShapeKind::NullableKind),
            set_param_cmd("1094", "$nullableInner", "string_shape_1"),
            add_shape_cmd("1095", ShapeKind::OptionalKind),
            set_param_cmd("1095", "$optionalInner", "1094"),
            set_field_cmd("field_1", "1095"),
        ]
    );
}

fn big_projection() -> ShapeProjection {
    project(vec![
        shape_added("object_shape_1", "$object"),
        // optional and nullable string field
        shape_added("string_shape_1", "$string"),
        shape_added("nullable_shape_1", "$nullable"),
        param_set("nullable_shape_1", "$nullableInner", "string_shape_1"),
        shape_added("optional_shape_1", "$optional"),
        param_set("optional_shape_1", "$optionalInner", "nullable_shape_1"),
        field_added("field_1", "object_shape_1", "lastName", "optional_shape_1"),
        // nested list of strings
        shape_added("list_shape_1", "$list"),
        shape_added("string_shape_2", "$string"),
        param_set("list_shape_1", "$listItem", "string_shape_2"),
        field_added("field_2", "object_shape_1", "words", "list_shape_1"),
        // nested object
        shape_added("object_shape_2", "$object"),
        shape_added("boolean_shape_1", "$boolean"),
        field_added("field_3", "object_shape_2", "flag", "boolean_shape_1"),
        field_added("field_4", "object_shape_1", "nestedObject", "object_shape_2"),
        // one of number or string
        shape_added("string_shape_3", "$string"),
        shape_added("number_shape_1", "$number"),
        shape_added("one_of_shape_1", "$oneOf"),
        param_added("one_of_shape_1", "one_of_param_1"),
        param_added("one_of_shape_1", "one_of_param_2"),
        param_set("one_of_shape_1", "one_of_param_1", "string_shape_3"),
        param_set("one_of_shape_1", "one_of_param_2", "number_shape_1"),
        field_added("field_5", "object_shape_1", "nestedObject", "one_of_shape_1"),
        // unknown nullable field
        shape_added("unknown_shape_1", "$string"),
        shape_added("nullable_shape_2", "$nullable"),
        param_set("nullable_shape_2", "$nullableInner", "unknown_shape_1"),
        field_added("field_6", "object_shape_1", "unknownField", "nullable_shape_2"),
    ])
}

#[test]
fn can_resolve_shape_trails_for_fields() {
    let spec_projection = big_projection();
    let shape_queries = ShapeQueries::new(&spec_projection);

    let field_trail = shape_queries
        .resolve_shape_trail(&s("field_1"))
        .expect("trail reconstruction should not fault on a plain field");
    assert_eq!(
        field_trail,
        Some(
            ShapeTrail::new(s("object_shape_1"))
                .with_component(ShapeTrailPathComponent::ObjectTrail {
                    shape_id: s("object_shape_1"),
                })
                .with_component(ShapeTrailPathComponent::ObjectFieldTrail {
                    field_id: s("field_1"),
                    field_shape_id: s("optional_shape_1"),
                    parent_object_shape_id: s("object_shape_1"),
                })
        )
    );

    let nested_field_trail = shape_queries
        .resolve_shape_trail(&s("field_3"))
        .expect("trail reconstruction should not fault on a nested field");
    assert_eq!(
        nested_field_trail,
        Some(
            ShapeTrail::new(s("object_shape_1"))
                .with_component(ShapeTrailPathComponent::ObjectTrail {
                    shape_id: s("object_shape_1"),
                })
                .with_component(ShapeTrailPathComponent::ObjectFieldTrail {
                    field_id: s("field_4"),
                    field_shape_id: s("object_shape_2"),
                    parent_object_shape_id: s("object_shape_1"),
                })
                .with_component(ShapeTrailPathComponent::ObjectTrail {
                    shape_id: s("object_shape_2"),
                })
                .with_component(ShapeTrailPathComponent::ObjectFieldTrail {
                    field_id: s("field_3"),
                    field_shape_id: s("boolean_shape_1"),
                    parent_object_shape_id: s("object_shape_2"),
                })
        )
    );

    let unknown_nullable_trail = shape_queries
        .resolve_shape_trail(&s("field_6"))
        .expect("trail reconstruction should not fault on a nullable field");
    assert_eq!(
        unknown_nullable_trail,
        Some(
            ShapeTrail::new(s("object_shape_1"))
                .with_component(ShapeTrailPathComponent::ObjectTrail {
                    shape_id: s("object_shape_1"),
                })
                .with_component(ShapeTrailPathComponent::ObjectFieldTrail {
                    field_id: s("field_6"),
                    field_shape_id: s("nullable_shape_2"),
                    parent_object_shape_id: s("object_shape_1"),
                })
        )
    );
}

#[test]
fn resolving_a_trail_through_a_list_raises_the_unsupported_fault() {
    let spec_projection = big_projection();
    let shape_queries = ShapeQueries::new(&spec_projection);

    // string_shape_2 is bound as the list item of list_shape_1; the walk
    // towards the root passes through the list shape, which reconstruction
    // does not support.
    let result = shape_queries.resolve_shape_trail(&s("string_shape_2"));
    assert_eq!(
        result,
        Err(ShapeTrailResolutionError::UnsupportedShapeKind { kind: ShapeKind::ListKind })
    );
}

#[test]
fn resolving_a_trail_for_an_unknown_id_returns_none() {
    let spec_projection = base_projection();
    let shape_queries = ShapeQueries::new(&spec_projection);
    assert_eq!(shape_queries.resolve_shape_trail(&s("no_such_id")), Ok(None));
}

#[test]
fn empty_trail_enumerates_core_shape_children_of_the_root() {
    let spec_projection = base_projection();
    let shape_queries = ShapeQueries::new(&spec_projection);

    let trail = ShapeTrail::new(s("object_shape_1"));
    let choices = shape_queries.list_trail_choices(&trail);
    assert_eq!(choices.len(), 1);
    assert_eq!(choices[0].shape_id, s("object_shape_1"));
    assert_eq!(choices[0].core_shape_kind, ShapeKind::ObjectKind);
    assert_eq!(choices[0].parent_trail, trail);
    assert!(choices[0].additional_components.is_empty());
}

#[test]
fn trail_at_an_unwrapped_primitive_yields_a_single_choice() {
    let spec_projection = base_projection();
    let shape_queries = ShapeQueries::new(&spec_projection);

    let trail = field_trail("object_shape_1", "field_1", "string_shape_1");
    let choices = shape_queries.list_trail_choices(&trail);
    assert_eq!(choices.len(), 1);
    assert_eq!(choices[0].shape_id, s("string_shape_1"));
    assert_eq!(choices[0].core_shape_kind, ShapeKind::StringKind);
    assert!(choices[0].additional_components.is_empty());
}

#[test]
fn nullable_optional_string_field_yields_sentinels_then_terminal() {
    let spec_projection = project(vec![
        shape_added("object_shape_1", "$object"),
        shape_added("string_shape_1", "$string"),
        shape_added("optional_shape_1", "$optional"),
        param_set("optional_shape_1", "$optionalInner", "string_shape_1"),
        shape_added("nullable_shape_1", "$nullable"),
        param_set("nullable_shape_1", "$nullableInner", "optional_shape_1"),
        field_added("field_1", "object_shape_1", "lastName", "nullable_shape_1"),
    ]);
    let shape_queries = ShapeQueries::new(&spec_projection);

    let trail = field_trail("object_shape_1", "field_1", "nullable_shape_1");
    let choices = shape_queries.list_trail_choices(&trail);

    let kinds: Vec<ShapeKind> = choices.iter().map(|c| c.core_shape_kind).collect();
    assert_eq!(
        kinds,
        vec![ShapeKind::NullableKind, ShapeKind::OptionalKind, ShapeKind::StringKind]
    );
    assert_eq!(choices[0].shape_id, s("nullable_shape_1"));
    assert_eq!(choices[1].shape_id, s("optional_shape_1"));
    assert_eq!(choices[2].shape_id, s("string_shape_1"));
}

#[test]
fn listing_trail_choices_twice_gives_identical_output() {
    let spec_projection = big_projection();
    let shape_queries = ShapeQueries::new(&spec_projection);

    let trail = field_trail("object_shape_1", "field_1", "optional_shape_1");
    let first = shape_queries.list_trail_choices(&trail);
    let second = shape_queries.list_trail_choices(&trail);
    assert_eq!(first, second);
}

#[test]
fn known_trail_choices_filter_out_the_unknown_kind() {
    let spec_projection = project(vec![
        shape_added("object_shape_1", "$object"),
        shape_added("unknown_shape_1", "$unknown"),
        shape_added("nullable_shape_1", "$nullable"),
        param_set("nullable_shape_1", "$nullableInner", "unknown_shape_1"),
        field_added("field_1", "object_shape_1", "lastName", "nullable_shape_1"),
    ]);
    let shape_queries = ShapeQueries::new(&spec_projection);

    let trail = field_trail("object_shape_1", "field_1", "nullable_shape_1");
    let all = shape_queries.list_trail_choices(&trail);
    let known = shape_queries.list_known_trail_choices(&trail);

    assert_eq!(all.len(), 2);
    assert_eq!(all[0].core_shape_kind, ShapeKind::NullableKind);
    assert_eq!(all[1].core_shape_kind, ShapeKind::UnknownKind);

    let filtered: Vec<_> = all
        .iter()
        .filter(|c| c.core_shape_kind != ShapeKind::UnknownKind)
        .cloned()
        .collect();
    assert_eq!(known, filtered);
}

#[test]
fn every_shape_resolves_to_its_core_kind() {
    let spec_projection = big_projection();
    let shape_queries = ShapeQueries::new(&spec_projection);

    assert_eq!(shape_queries.resolve_to_core_shape(&s("object_shape_1")), ShapeKind::ObjectKind);
    assert_eq!(shape_queries.resolve_to_core_shape(&s("string_shape_1")), ShapeKind::StringKind);
    assert_eq!(
        shape_queries.resolve_to_core_shape(&s("nullable_shape_1")),
        ShapeKind::NullableKind
    );
    assert_eq!(
        shape_queries.resolve_to_core_shape(&s("optional_shape_1")),
        ShapeKind::OptionalKind
    );
    assert_eq!(shape_queries.resolve_to_core_shape(&s("list_shape_1")), ShapeKind::ListKind);
    assert_eq!(shape_queries.resolve_to_core_shape(&s("one_of_shape_1")), ShapeKind::OneOfKind);
    assert_eq!(shape_queries.resolve_to_core_shape(&s("boolean_shape_1")), ShapeKind::BooleanKind);
    assert_eq!(shape_queries.resolve_to_core_shape(&s("number_shape_1")), ShapeKind::NumberKind);
}

#[test]
fn parameters_resolve_in_declaration_order() {
    let spec_projection = big_projection();
    let shape_queries = ShapeQueries::new(&spec_projection);

    assert_eq!(
        shape_queries.resolve_parameter_to_shape(&s("nullable_shape_1"), &s("$nullableInner")),
        s("string_shape_1")
    );
    assert_eq!(
        shape_queries.resolve_parameters_to_shapes(&s("one_of_shape_1")),
        vec![
            (s("one_of_param_1"), s("string_shape_3")),
            (s("one_of_param_2"), s("number_shape_1")),
        ]
    );
}

#[test]
fn field_identity_queries_read_the_graph_edges() {
    let spec_projection = big_projection();
    let shape_queries = ShapeQueries::new(&spec_projection);

    assert_eq!(
        shape_queries.resolve_field_id(&s("object_shape_1"), &s("lastName")),
        Some(s("field_1"))
    );
    assert_eq!(shape_queries.resolve_field_id(&s("object_shape_1"), &s("noSuchName")), None);
    // Two fields of object_shape_1 share the name nestedObject; the one
    // whose ownership edge was inserted first wins.
    assert_eq!(
        shape_queries.resolve_field_id(&s("object_shape_1"), &s("nestedObject")),
        Some(s("field_4"))
    );
    assert_eq!(
        shape_queries.resolve_field_shape_node(&s("field_1")),
        Some(s("optional_shape_1"))
    );
    assert_eq!(
        shape_queries.resolve_shape_field_id_and_names(&s("object_shape_2")),
        vec![(s("field_3"), s("flag"))]
    );
}

#[test]
fn a_self_typed_field_round_trips_through_name_lookup() {
    let spec_projection = project(vec![
        shape_added("object_shape_1", "$object"),
        field_added("field_1", "object_shape_1", "itself", "object_shape_1"),
    ]);
    let shape_queries = ShapeQueries::new(&spec_projection);

    let type_shape = shape_queries
        .resolve_field_shape_node(&s("field_1"))
        .expect("the field should describe a shape");
    assert_eq!(type_shape, s("object_shape_1"));
    assert_eq!(shape_queries.resolve_field_id(&type_shape, &s("itself")), Some(s("field_1")));
}

#[test]
fn removing_a_field_tombstones_it() {
    let mut spec_projection = base_projection();
    assert!(spec_projection.apply(ShapeEvent::FieldRemoved { field_id: s("field_1") }));
    let shape_queries = ShapeQueries::new(&spec_projection);

    assert_eq!(shape_queries.remove_field_commands(&s("field_1")), None);
    assert_eq!(shape_queries.resolve_field_id(&s("object_shape_1"), &s("lastName")), None);
    assert_eq!(shape_queries.resolve_shape_field_id_and_names(&s("object_shape_1")), vec![]);
}

#[test]
fn remove_field_commands_for_a_missing_field_is_absent() {
    let spec_projection = base_projection();
    let shape_queries = ShapeQueries::new(&spec_projection);
    assert_eq!(shape_queries.remove_field_commands(&s("no_such_field")), None);
}

#[test]
fn editing_a_non_field_trail_is_inapplicable() {
    let spec_projection = base_projection();
    let shape_queries = ShapeQueries::new(&spec_projection);
    let mut id_generator = SequentialIdGenerator::new(1093);

    let trail = ShapeTrail::new(s("object_shape_1"));
    let required_kinds = vec![ShapeKind::OptionalKind];
    assert_eq!(
        shape_queries.edit_shape_trail_commands(&trail, &required_kinds, &mut id_generator),
        None
    );
}

#[test]
fn invalid_events_are_rejected_and_change_nothing() {
    let mut projection = ShapeProjection::new();
    assert!(projection.apply(shape_added("shape_1", "$string")));
    // duplicate identifier
    assert!(!projection.apply(shape_added("shape_1", "$number")));
    // unknown base shape identifier
    assert!(!projection.apply(shape_added("shape_2", "$nosuch")));
    // field on a missing owner shape
    assert!(!projection.apply(field_added("field_1", "missing_shape", "x", "shape_1")));
    // binding for a missing parameter slot
    assert!(!projection.apply(param_set("shape_1", "no_such_param", "shape_1")));

    let shape_queries = ShapeQueries::new(&projection);
    assert_eq!(shape_queries.resolve_to_core_shape(&s("shape_1")), ShapeKind::StringKind);
}

#[test]
fn choice_output_concatenates_its_trail() {
    let spec_projection = project(vec![
        shape_added("object_shape_1", "$object"),
        shape_added("string_shape_1", "$string"),
        shape_added("nullable_shape_1", "$nullable"),
        param_set("nullable_shape_1", "$nullableInner", "string_shape_1"),
        field_added("field_1", "object_shape_1", "lastName", "nullable_shape_1"),
    ]);
    let shape_queries = ShapeQueries::new(&spec_projection);

    let trail = field_trail("object_shape_1", "field_1", "nullable_shape_1");
    let choices = shape_queries.list_trail_choices(&trail);
    assert_eq!(choices.len(), 2);

    // The sentinel's full trail is the parent trail plus the sentinel step.
    let sentinel_trail = choices[0].shape_trail();
    assert_eq!(
        sentinel_trail,
        trail.with_component(ShapeTrailPathComponent::NullableTrail {
            shape_id: s("nullable_shape_1"),
        })
    );
}

#[test]
fn validators_accept_supported_inputs_and_reject_broken_ones() {
    let spec_projection = big_projection();
    let shape_queries = ShapeQueries::new(&spec_projection);

    // Supported: a walkable field trail whose tip expands.
    let trail = field_trail("object_shape_1", "field_1", "optional_shape_1");
    assert!(shape_queries.supports_trail_choices(&trail));

    // Rejected: a trail rooted at an identifier that names no shape.
    let broken_root = ShapeTrail::new(s("no_such_shape"));
    assert!(!shape_queries.supports_trail_choices(&broken_root));

    // Rejected: a component that does not fit its parent's core kind.
    let mismatched = ShapeTrail::new(s("object_shape_1")).with_component(
        ShapeTrailPathComponent::ListItemTrail {
            list_shape_id: s("object_shape_1"),
            item_shape_id: s("string_shape_1"),
        },
    );
    assert!(!shape_queries.supports_trail_choices(&mismatched));

    // A nullable shape whose inner slot was never bound cannot be expanded.
    let unbound = project(vec![
        shape_added("object_shape_1", "$object"),
        shape_added("nullable_shape_1", "$nullable"),
        field_added("field_1", "object_shape_1", "lastName", "nullable_shape_1"),
    ]);
    let unbound_queries = ShapeQueries::new(&unbound);
    let unbound_trail = field_trail("object_shape_1", "field_1", "nullable_shape_1");
    assert!(!unbound_queries.supports_trail_choices(&unbound_trail));

    // Reconstruction: fields, shapes and faulting topologies are all
    // supported; a broken binding is not needed to refuse, absence is.
    assert!(shape_queries.supports_shape_trail(&s("field_3")));
    assert!(shape_queries.supports_shape_trail(&s("string_shape_2")));
    assert!(shape_queries.supports_shape_trail(&s("no_such_id")));
}

#[test]
fn resolving_a_trail_for_a_parameter_raises_the_parameter_fault() {
    let spec_projection = big_projection();
    let shape_queries = ShapeQueries::new(&spec_projection);
    assert_eq!(
        shape_queries.resolve_shape_trail(&s("one_of_param_1")),
        Err(ShapeTrailResolutionError::UnsupportedShapeParameter)
    );
}

#[test]
fn sequential_id_generator_wraps_at_the_integer_limit() {
    let mut generator = SequentialIdGenerator::new(u64::MAX);
    assert_eq!(generator.shape(), s("0"));
    assert_eq!(generator.shape(), s("1"));
}

#[test]
fn the_planner_consumes_one_id_per_wrapper() {
    let spec_projection = base_projection();
    let shape_queries = ShapeQueries::new(&spec_projection);
    let shape_trail = field_trail("object_shape_1", "field_1", "string_shape_1");

    // Two wrappers: the generator advances past "1094" and "1095".
    let mut id_generator = SequentialIdGenerator::new(1093);
    let required_kinds = vec![ShapeKind::NullableKind, ShapeKind::OptionalKind];
    shape_queries
        .edit_shape_trail_commands(&shape_trail, &required_kinds, &mut id_generator)
        .expect("field should be able to be made nullable and optional");
    assert_eq!(id_generator.shape(), s("1096"));

    // No wrapper requested: the generator is left untouched.
    let mut untouched_generator = SequentialIdGenerator::new(1093);
    let no_kinds = vec![];
    shape_queries
        .edit_shape_trail_commands(&shape_trail, &no_kinds, &mut untouched_generator)
        .expect("field should be able to be made required");
    assert_eq!(untouched_generator.shape(), s("1094"));
}

#[test]
fn sequential_id_generator_is_deterministic() {
    let mut first = SequentialIdGenerator::new(1093);
    assert_eq!(first.shape(), s("1094"));
    assert_eq!(first.shape(), s("1095"));
    assert_eq!(first.generate_id("shape_"), s("shape_1096"));
    assert_eq!(first.field(), s("1097"));
    assert_eq!(first.parameter(), s("1098"));

    let mut second = SequentialIdGenerator::new(1093);
    assert_eq!(second.shape(), s("1094"));
}

#[test]
fn shape_kinds_expose_their_registry_data() {
    assert_eq!(ShapeKind::from_base_shape_id(&s("$string")), Some(ShapeKind::StringKind));
    assert_eq!(ShapeKind::from_base_shape_id(&s("$oneOf")), Some(ShapeKind::OneOfKind));
    assert_eq!(ShapeKind::from_base_shape_id(&s("$bogus")), None);
    assert_eq!(ShapeKind::NullableKind.base_shape_id(), s("$nullable"));

    assert!(ShapeKind::NullableKind.is_combinator());
    assert!(ShapeKind::ListKind.is_combinator());
    assert!(!ShapeKind::StringKind.is_combinator());

    let descriptors = ShapeKind::MapKind.parameter_descriptors();
    let ids: Vec<String> = descriptors.iter().map(|d| d.shape_parameter_id.clone()).collect();
    assert_eq!(ids, vec![s("$mapKey"), s("$mapValue")]);
    assert!(ShapeKind::StringKind.parameter_descriptors().is_empty());

    let primary = ShapeKind::OptionalKind
        .primary_parameter_descriptor()
        .expect("optional is a unary combinator");
    assert_eq!(primary.shape_parameter_id, s("$optionalInner"));
    assert!(ShapeKind::ObjectKind.primary_parameter_descriptor().is_none());
}

#[test]
fn trail_helpers_report_the_field_position() {
    let trail = field_trail("object_shape_1", "field_1", "string_shape_1");
    assert!(trail.is_field());
    assert_eq!(trail.last_field_id(), Some(&s("field_1")));

    let root_only = ShapeTrail::new(s("object_shape_1"));
    assert!(!root_only.is_field());
    assert_eq!(root_only.last_field_id(), None);
}
