//! Tests for the shape projector: one per documented projection rule, plus
//! the end-to-end scenario.

use shape_projection::project::{shape_string, type_from_shape, Ctxt, Options};
use shape_projection::shape::Shape;
use shape_projection::value::Value;

fn project(path: &str, shape: &Shape) -> Value {
    let mut ctxt = Ctxt::new(Options {});
    type_from_shape(&mut ctxt, path, shape)
}

fn obj(entries: Vec<(&str, Value)>) -> Value {
    Value::Object(entries.into_iter().map(|(k, v)| (k.to_string(), v)).collect())
}

#[test]
fn scalar_variants_project_to_primitive_names() {
    assert_eq!(project("x", &Shape::Null), Value::Null);
    assert_eq!(project("x", &Shape::Any), Value::Str("any"));
    assert_eq!(project("x", &Shape::Bottom), Value::Str("bottom"));
    assert_eq!(project("x", &Shape::Bool), Value::Str("bool"));
    assert_eq!(project("x", &Shape::StringT), Value::Str("string"));
    assert_eq!(project("x", &Shape::Integer), Value::Str("integer"));
    assert_eq!(project("x", &Shape::Floating), Value::Str("floating"));
}

#[test]
fn every_variant_projects_to_its_documented_form() {
    assert!(matches!(project("x", &Shape::Null), Value::Null));
    assert!(matches!(project("x", &Shape::Any), Value::Str(_)));
    assert!(matches!(project("x", &Shape::Bottom), Value::Str(_)));
    assert!(matches!(project("x", &Shape::Bool), Value::Str(_)));
    assert!(matches!(project("x", &Shape::StringT), Value::Str(_)));
    assert!(matches!(project("x", &Shape::Integer), Value::Str(_)));
    assert!(matches!(project("x", &Shape::Floating), Value::Str(_)));
    assert!(matches!(
        project("x", &Shape::Opaque("chrono::DateTime".to_string())),
        Value::Text(_)
    ));
    assert!(matches!(
        project("x", &Shape::Tuple(vec![Shape::Integer, Shape::StringT], 2)),
        Value::Object(_)
    ));
    assert!(matches!(
        project("x", &Shape::Tuple(vec![Shape::Integer, Shape::Integer], 2)),
        Value::Array(_)
    ));
    assert!(matches!(
        project("x", &Shape::VecT { elem_type: Box::new(Shape::Bool) }),
        Value::Array(_)
    ));
    assert!(matches!(
        project("x", &Shape::Struct { fields: vec![] }),
        Value::Object(_)
    ));
    assert!(matches!(
        project("x", &Shape::MapT { val_type: Box::new(Shape::Bool) }),
        Value::Object(_)
    ));
    assert!(matches!(
        project("x", &Shape::Optional(Box::new(Shape::Bool))),
        Value::Object(_)
    ));
}

#[test]
fn struct_field_order_is_preserved() {
    let shape = Shape::Struct {
        fields: vec![
            ("a".to_string(), Shape::Integer),
            ("b".to_string(), Shape::Bool),
            ("c".to_string(), Shape::Optional(Box::new(Shape::StringT))),
        ],
    };
    let value = project("root", &shape);
    match value {
        Value::Object(entries) => {
            let keys: Vec<&str> = entries.iter().map(|(k, _)| k.as_str()).collect();
            assert_eq!(keys, vec!["a", "b", "c?"]);
        }
        other => panic!("expected an object, got {:?}", other),
    }
}

#[test]
fn optional_struct_field_unwraps_to_annotated_key() {
    let shape = Shape::Struct {
        fields: vec![("f".to_string(), Shape::Optional(Box::new(Shape::Integer)))],
    };
    let expected_inner = project("f", &Shape::Integer);
    assert_eq!(
        project("root", &shape),
        obj(vec![("f?", expected_inner)])
    );
}

#[test]
fn optional_as_map_value_uses_generic_fallback() {
    let shape = Shape::MapT {
        val_type: Box::new(Shape::Optional(Box::new(Shape::Integer))),
    };
    assert_eq!(
        project("root", &shape),
        obj(vec![
            ("__type__", Value::Str("map")),
            (
                "values",
                obj(vec![
                    ("__type__", Value::Str("optional")),
                    ("item", Value::Str("integer")),
                ])
            ),
        ])
    );
}

#[test]
fn heterogeneous_tuple_projects_as_tagged_tuple() {
    let shape = Shape::Tuple(vec![Shape::Integer, Shape::StringT], 2);
    assert_eq!(
        project("root", &shape),
        obj(vec![
            ("__type__", Value::Str("tuple")),
            (
                "items",
                Value::Array(vec![Value::Str("integer"), Value::Str("string")])
            ),
        ])
    );
}

#[test]
fn homogeneous_tuple_projects_as_list_template() {
    let shape = Shape::Tuple(vec![Shape::Integer, Shape::Integer], 2);
    assert_eq!(
        project("root", &shape),
        Value::Array(vec![Value::Str("integer")])
    );
}

#[test]
fn uniformly_unconstrained_tuple_projects_as_list() {
    let shape = Shape::Tuple(vec![Shape::Any, Shape::Any], 2);
    assert_eq!(project("root", &shape), Value::Array(vec![Value::Str("any")]));
}

#[test]
fn empty_tuple_projects_as_list_of_bottom() {
    let shape = Shape::Tuple(vec![], 0);
    assert_eq!(
        project("root", &shape),
        Value::Array(vec![Value::Str("bottom")])
    );
}

#[test]
fn map_is_tagged_and_value_projected_under_singular_path() {
    let shape = Shape::MapT { val_type: Box::new(Shape::Bool) };
    assert_eq!(
        project("flags", &shape),
        obj(vec![
            ("__type__", Value::Str("map")),
            ("values", Value::Str("bool")),
        ])
    );
}

#[test]
fn vec_element_is_named_by_singularized_path() {
    // The element is a record, so the singular of the path becomes the path
    // of each of its fields; the structure shows the one-element template.
    let shape = Shape::VecT {
        elem_type: Box::new(Shape::Struct {
            fields: vec![("n".to_string(), Shape::Integer)],
        }),
    };
    assert_eq!(
        project("items", &shape),
        Value::Array(vec![obj(vec![("n", Value::Str("integer"))])])
    );
}

#[test]
fn projection_is_deterministic() {
    let shape = Shape::Struct {
        fields: vec![
            ("id".to_string(), Shape::Integer),
            ("tags".to_string(), Shape::VecT { elem_type: Box::new(Shape::StringT) }),
        ],
    };
    assert_eq!(project("root", &shape), project("root", &shape));
    assert_eq!(
        shape_string("root", &shape, Options {}),
        shape_string("root", &shape, Options {})
    );
}

#[test]
fn scenario_record_with_list_and_optional() {
    let shape = Shape::Struct {
        fields: vec![
            ("id".to_string(), Shape::Integer),
            ("tags".to_string(), Shape::VecT { elem_type: Box::new(Shape::StringT) }),
            ("note".to_string(), Shape::Optional(Box::new(Shape::StringT))),
        ],
    };
    assert_eq!(
        project("root", &shape),
        obj(vec![
            ("id", Value::Str("integer")),
            ("tags", Value::Array(vec![Value::Str("string")])),
            ("note?", Value::Str("string")),
        ])
    );
}

#[test]
fn opaque_token_is_carried_verbatim() {
    let shape = Shape::Opaque("uuid::Uuid".to_string());
    assert_eq!(project("x", &shape), Value::Text("uuid::Uuid".to_string()));
}

#[test]
fn shape_string_renders_indented_text() {
    let shape = Shape::Struct {
        fields: vec![("id".to_string(), Shape::Integer)],
    };
    assert_eq!(
        shape_string("root", &shape, Options {}),
        "{\n  \"id\": \"integer\"\n}"
    );
}

#[test]
fn empty_record_renders_as_empty_object() {
    let shape = Shape::Struct { fields: vec![] };
    assert_eq!(shape_string("root", &shape, Options {}), "{}");
}

#[test]
fn nested_containers_singularize_at_each_level() {
    // entries -> entry for the map's value shape, which is a list whose
    // element projects under the singular of the field name.
    let shape = Shape::MapT {
        val_type: Box::new(Shape::VecT { elem_type: Box::new(Shape::Integer) }),
    };
    assert_eq!(
        project("entries", &shape),
        obj(vec![
            ("__type__", Value::Str("map")),
            ("values", Value::Array(vec![Value::Str("integer")])),
        ])
    );
}

#[test]
fn tuple_of_identical_records_folds_to_list_of_that_record() {
    let record = || Shape::Struct {
        fields: vec![("a".to_string(), Shape::Integer)],
    };
    let shape = Shape::Tuple(vec![record(), record()], 2);
    assert_eq!(
        project("root", &shape),
        Value::Array(vec![obj(vec![("a", Value::Str("integer"))])])
    );
}

#[test]
fn shape_string_renders_scenario() {
    let shape = Shape::Struct {
        fields: vec![
            ("id".to_string(), Shape::Integer),
            ("tags".to_string(), Shape::VecT { elem_type: Box::new(Shape::StringT) }),
            ("note".to_string(), Shape::Optional(Box::new(Shape::StringT))),
        ],
    };
    let expected = "{\n  \"id\": \"integer\",\n  \"tags\": [\n    \"string\"\n  ],\n  \"note?\": \"string\"\n}";
    assert_eq!(shape_string("root", &shape, Options {}), expected);
}
