//! Tests for the shape-folding and naming collaborators.

use shape_projection::fold::{common_shape, fold_shapes, optionalize};
use shape_projection::shape::{clone_shape, Shape};
use shape_projection::project::collapse_option;
use shape_projection::singular::to_singular;

#[test]
fn fold_of_nothing_is_bottom() {
    assert_eq!(fold_shapes(&vec![]), Shape::Bottom);
}

#[test]
fn fold_of_identical_scalars_is_that_scalar() {
    assert_eq!(fold_shapes(&vec![Shape::Integer, Shape::Integer]), Shape::Integer);
}

#[test]
fn fold_widens_integer_with_floating() {
    assert_eq!(fold_shapes(&vec![Shape::Integer, Shape::Floating]), Shape::Floating);
    assert_eq!(fold_shapes(&vec![Shape::Floating, Shape::Integer]), Shape::Floating);
}

#[test]
fn fold_with_null_adds_optionality() {
    assert_eq!(
        fold_shapes(&vec![Shape::Null, Shape::Bool]),
        Shape::Optional(Box::new(Shape::Bool))
    );
    assert_eq!(
        fold_shapes(&vec![Shape::Bool, Shape::Null]),
        Shape::Optional(Box::new(Shape::Bool))
    );
}

#[test]
fn fold_of_irreconcilable_scalars_is_any() {
    assert_eq!(fold_shapes(&vec![Shape::Integer, Shape::StringT]), Shape::Any);
    assert_eq!(fold_shapes(&vec![Shape::Bool, Shape::Integer]), Shape::Any);
}

#[test]
fn fold_of_identical_records_is_that_record() {
    let record = || Shape::Struct {
        fields: vec![("a".to_string(), Shape::Integer)],
    };
    assert_eq!(fold_shapes(&vec![record(), record()]), record());
}

#[test]
fn fold_merges_vec_elements() {
    let v = |inner: Shape| Shape::VecT { elem_type: Box::new(inner) };
    assert_eq!(
        fold_shapes(&vec![v(Shape::Integer), v(Shape::Floating)]),
        v(Shape::Floating)
    );
}

#[test]
fn merge_of_bottom_is_identity() {
    assert_eq!(common_shape(&Shape::Bottom, &Shape::StringT), Shape::StringT);
    assert_eq!(common_shape(&Shape::StringT, &Shape::Bottom), Shape::StringT);
}

#[test]
fn merge_of_optionals_does_not_nest() {
    let merged = common_shape(
        &Shape::Optional(Box::new(Shape::Bool)),
        &Shape::Optional(Box::new(Shape::Bool)),
    );
    assert_eq!(merged, Shape::Optional(Box::new(Shape::Bool)));
}

#[test]
fn optionalize_skips_null_any_bottom_and_optional() {
    assert_eq!(optionalize(Shape::Null), Shape::Null);
    assert_eq!(optionalize(Shape::Any), Shape::Any);
    assert_eq!(optionalize(Shape::Bottom), Shape::Bottom);
    assert_eq!(
        optionalize(Shape::Optional(Box::new(Shape::Bool))),
        Shape::Optional(Box::new(Shape::Bool))
    );
    assert_eq!(optionalize(Shape::Bool), Shape::Optional(Box::new(Shape::Bool)));
}

#[test]
fn collapse_option_strips_one_layer() {
    let shape = Shape::Optional(Box::new(Shape::Integer));
    let (was_optional, inner) = collapse_option(&shape);
    assert!(was_optional);
    assert_eq!(*inner, Shape::Integer);

    let bare = Shape::Integer;
    let (was_optional, inner) = collapse_option(&bare);
    assert!(!was_optional);
    assert_eq!(*inner, Shape::Integer);
}

#[test]
fn clone_shape_copies_structure() {
    let shape = Shape::Struct {
        fields: vec![
            ("xs".to_string(), Shape::Tuple(vec![Shape::Integer, Shape::Null], 2)),
            ("m".to_string(), Shape::MapT { val_type: Box::new(Shape::Bool) }),
        ],
    };
    assert_eq!(clone_shape(&shape), shape);
}

#[test]
fn singular_drops_plural_endings() {
    assert_eq!(to_singular("items"), "item");
    assert_eq!(to_singular("bodies"), "body");
    assert_eq!(to_singular("flags"), "flag");
}

#[test]
fn singular_leaves_non_plurals_alone() {
    assert_eq!(to_singular("class"), "class");
    assert_eq!(to_singular("item"), "item");
    assert_eq!(to_singular(""), "");
    assert_eq!(to_singular("s"), "");
    assert_eq!(to_singular("ies"), "ie");
}

#[test]
fn singular_is_idempotent_on_examples() {
    for word in ["items", "bodies", "class", "x", "ies", "status"] {
        let once = to_singular(word);
        let twice = to_singular(&once);
        assert_eq!(once, twice);
    }
}
