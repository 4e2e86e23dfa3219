//! The shape projector: the recursive transform from a `Shape` to the
//! generic intermediate `Value` tree, applying every
//! shape-to-representation policy decision.

use vstd::prelude::*;
use vstd::string::StringExecFns;

use crate::fold::{fold_shapes, lemma_fold_core_depth, lemma_fold_wf, spec_fold};
use crate::shape::{
    core_depth, field_models, fields_core_depth, fields_height, fields_wf, height,
    items_core_depth, items_height, items_wf, lemma_any_model, lemma_collapse_measures,
    lemma_field_measures, lemma_fields_wf, lemma_item_measures, lemma_items_wf, shape_models,
    shape_wf, spec_collapse, Shape, ShapeModel,
};
use crate::singular::{spec_singular, to_singular};
use crate::value::{value_model, Value, ValueModel};

verus! {

broadcast use
    {lemma_item_measures, lemma_field_measures, lemma_fold_core_depth, lemma_collapse_measures,
    lemma_items_wf, lemma_fields_wf};

/// A field name annotated with a trailing `?` when the field is optional.
pub open spec fn annotated_name(name: Seq<char>, optional: bool) -> Seq<char> {
    if optional {
        name.push('?')
    } else {
        name
    }
}

/// The tuple-versus-list tie-break: a fixed-length sequence is treated as a
/// true heterogeneous tuple exactly when folding its members collapses to
/// `Any` although not every member was already `Any`.
pub open spec fn heterogeneous(ms: Seq<ShapeModel>) -> bool {
    spec_fold(ms) == ShapeModel::Any && (exists|i: int|
        0 <= i < ms.len() && ms[i] != ShapeModel::Any)
}

/// The projection of a shape under a path: what `Value` tree the projector
/// produces for every shape in the grammar.
pub open spec fn spec_project(path: Seq<char>, s: ShapeModel) -> ValueModel
    decreases core_depth(s), height(s),
{
    match s {
        ShapeModel::Null => ValueModel::Null,
        ShapeModel::Any => ValueModel::Str("any"@),
        ShapeModel::Bottom => ValueModel::Str("bottom"@),
        ShapeModel::Bool => ValueModel::Str("bool"@),
        ShapeModel::StringT => ValueModel::Str("string"@),
        ShapeModel::Integer => ValueModel::Str("integer"@),
        ShapeModel::Floating => ValueModel::Str("floating"@),
        ShapeModel::Tuple(ms, _) => if heterogeneous(ms) {
            ValueModel::Object(
                seq![
                    ("__type__"@, ValueModel::Str("tuple"@)),
                    (
                        "items"@,
                        ValueModel::Array(
                            Seq::new(
                                ms.len(),
                                |i: int|
                                    if 0 <= i < ms.len() {
                                        spec_project(path, ms[i])
                                    } else {
                                        ValueModel::Null
                                    },
                            ),
                        ),
                    ),
                ],
            )
        } else {
            ValueModel::Array(seq![spec_project(spec_singular(path), spec_fold(ms))])
        },
        ShapeModel::VecT(e) => ValueModel::Array(
            seq![spec_project(spec_singular(path), *e)],
        ),
        ShapeModel::Struct(fs) => ValueModel::Object(
            Seq::new(
                fs.len(),
                |i: int|
                    if 0 <= i < fs.len() {
                        let c = spec_collapse(fs[i].1);
                        (annotated_name(fs[i].0, c.0), spec_project(fs[i].0, c.1))
                    } else {
                        (Seq::<char>::empty(), ValueModel::Null)
                    },
            ),
        ),
        ShapeModel::MapT(v) => ValueModel::Object(
            seq![
                ("__type__"@, ValueModel::Str("map"@)),
                ("values"@, spec_project(spec_singular(path), *v)),
            ],
        ),
        ShapeModel::Opaque(t) => ValueModel::Text(t),
        ShapeModel::Optional(e) => ValueModel::Object(
            seq![
                ("__type__"@, ValueModel::Str("optional"@)),
                ("item"@, spec_project(path, *e)),
            ],
        ),
    }
}

/// The projection of a homogeneous sequence: a one-element array template
/// holding the element type, projected under the singularized path.
pub open spec fn spec_project_vec(path: Seq<char>, elem: ShapeModel) -> ValueModel {
    ValueModel::Array(seq![spec_project(spec_singular(path), elem)])
}

/// The projections of a tuple's members, in original order, under the
/// unchanged path.
pub open spec fn spec_project_items(path: Seq<char>, ms: Seq<ShapeModel>) -> Seq<ValueModel> {
    Seq::new(
        ms.len(),
        |i: int|
            if 0 <= i < ms.len() {
                spec_project(path, ms[i])
            } else {
                ValueModel::Null
            },
    )
}

/// The projected entries of a record: each field in original order, its name
/// annotated with `?` when optional, its (unwrapped) shape projected under
/// the bare field name.
pub open spec fn spec_project_fields(fs: Seq<(Seq<char>, ShapeModel)>) -> Seq<
    (Seq<char>, ValueModel),
> {
    Seq::new(
        fs.len(),
        |i: int|
            if 0 <= i < fs.len() {
                let c = spec_collapse(fs[i].1);
                (annotated_name(fs[i].0, c.0), spec_project(fs[i].0, c.1))
            } else {
                (Seq::<char>::empty(), ValueModel::Null)
            },
    )
}

/// The projection of a map shape: an object tagged as a map, holding the
/// value shape projected under the singularized path.
pub open spec fn spec_project_map(path: Seq<char>, v: ShapeModel) -> ValueModel {
    ValueModel::Object(
        seq![
            ("__type__"@, ValueModel::Str("map"@)),
            ("values"@, spec_project(spec_singular(path), v)),
        ],
    )
}

/// Every shape variant has exactly one projection rule, and each produces a
/// value of its documented form: no variant is silently dropped.
pub proof fn lemma_project_exhaustive(path: Seq<char>, s: ShapeModel)
    ensures
        s is Null ==> spec_project(path, s) == ValueModel::Null,
        s is Any ==> spec_project(path, s) == ValueModel::Str("any"@),
        s is Bottom ==> spec_project(path, s) == ValueModel::Str("bottom"@),
        s is Bool ==> spec_project(path, s) == ValueModel::Str("bool"@),
        s is StringT ==> spec_project(path, s) == ValueModel::Str("string"@),
        s is Integer ==> spec_project(path, s) == ValueModel::Str("integer"@),
        s is Floating ==> spec_project(path, s) == ValueModel::Str("floating"@),
        s is Opaque ==> spec_project(path, s) == ValueModel::Text(s->Opaque_0),
        s is VecT ==> spec_project(path, s) == spec_project_vec(path, *s->VecT_0),
        s is Struct ==> spec_project(path, s) == ValueModel::Object(
            spec_project_fields(s->Struct_0),
        ),
        s is MapT ==> spec_project(path, s) == spec_project_map(path, *s->MapT_0),
        s is Optional ==> spec_project(path, s) == ValueModel::Object(
            seq![
                ("__type__"@, ValueModel::Str("optional"@)),
                ("item"@, spec_project(path, *s->Optional_0)),
            ],
        ),
        s is Tuple && heterogeneous(s->Tuple_0) ==> spec_project(path, s) == ValueModel::Object(
            seq![
                ("__type__"@, ValueModel::Str("tuple"@)),
                ("items"@, ValueModel::Array(spec_project_items(path, s->Tuple_0))),
            ],
        ),
        s is Tuple && !heterogeneous(s->Tuple_0) ==> spec_project(path, s) == spec_project_vec(
            path,
            spec_fold(s->Tuple_0),
        ),
{
    match s {
        ShapeModel::Struct(fs) => {
            assert(spec_project_fields(fs) =~= spec_project(path, s)->Object_0);
            assert(ValueModel::Object(spec_project_fields(fs)) =~= spec_project(path, s));
        },
        ShapeModel::Tuple(ms, _) => {
            if heterogeneous(ms) {
                let target = spec_project(path, s);
                assert(spec_project_items(path, ms) =~= target->Object_0[1].1->Array_0);
                assert(ValueModel::Object(
                    seq![
                        ("__type__"@, ValueModel::Str("tuple"@)),
                        ("items"@, ValueModel::Array(spec_project_items(path, ms))),
                    ],
                ) =~= target);
            }
        },
        _ => {},
    }
}

/// Field order preservation: a record's projected entries carry the field
/// names in exactly the input order, each annotated with a trailing `?` when
/// the field's shape was optional.
pub proof fn lemma_field_order(fs: Seq<(Seq<char>, ShapeModel)>, i: int)
    requires
        0 <= i < fs.len(),
    ensures
        spec_project_fields(fs).len() == fs.len(),
        spec_project_fields(fs)[i].0 == annotated_name(fs[i].0, fs[i].1 is Optional),
{
}

/// Optional unwrap at a struct field: a field holding `Optional(inner)`
/// projects to the key `name?` and exactly the value that bare `inner` would
/// project to under the unannotated field name.
pub proof fn lemma_optional_field(fs: Seq<(Seq<char>, ShapeModel)>, i: int, inner: ShapeModel)
    requires
        0 <= i < fs.len(),
        fs[i].1 == ShapeModel::Optional(Box::new(inner)),
    ensures
        spec_project_fields(fs)[i] == (fs[i].0.push('?'), spec_project(fs[i].0, inner)),
{
}

/// Optional anywhere other than directly under a struct field: the generic
/// fallback wraps the inner projection in an object tagged as optional, under
/// the unchanged path.
pub proof fn lemma_optional_generic(path: Seq<char>, inner: ShapeModel)
    ensures
        spec_project(path, ShapeModel::Optional(Box::new(inner))) == ValueModel::Object(
            seq![
                ("__type__"@, ValueModel::Str("optional"@)),
                ("item"@, spec_project(path, inner)),
            ],
        ),
{
}

/// The tuple-versus-list tie-break: a fixed-length sequence projects as a
/// tagged tuple of per-member projections exactly when folding collapses to
/// `Any` although not every member was already `Any`; otherwise it projects
/// as a homogeneous list of the folded shape.
pub proof fn lemma_tuple_tie_break(path: Seq<char>, ms: Seq<ShapeModel>, n: u64)
    ensures
        heterogeneous(ms) ==> spec_project(path, ShapeModel::Tuple(ms, n)) == ValueModel::Object(
            seq![
                ("__type__"@, ValueModel::Str("tuple"@)),
                ("items"@, ValueModel::Array(spec_project_items(path, ms))),
            ],
        ),
        !heterogeneous(ms) ==> spec_project(path, ShapeModel::Tuple(ms, n)) == spec_project_vec(
            path,
            spec_fold(ms),
        ),
        heterogeneous(ms) <==> (spec_fold(ms) == ShapeModel::Any && exists|i: int|
            0 <= i < ms.len() && ms[i] != ShapeModel::Any),
{
    lemma_project_exhaustive(path, ShapeModel::Tuple(ms, n));
}

/// Map tagging: a map shape projects to an object tagged as a map whose
/// `values` entry holds the value shape projected under the singularized
/// path, so the naming helper is consulted with exactly the current path.
pub proof fn lemma_map_tagging(path: Seq<char>, v: ShapeModel)
    ensures
        spec_project(path, ShapeModel::MapT(Box::new(v))) == ValueModel::Object(
            seq![
                ("__type__"@, ValueModel::Str("map"@)),
                ("values"@, spec_project(spec_singular(path), v)),
            ],
        ),
{
}

/// Determinism: projection is a function of the path and shape alone, so two
/// projections of an identical shape under an identical path are structurally
/// identical.
pub proof fn lemma_project_deterministic(
    path: Seq<char>,
    s: ShapeModel,
    v1: ValueModel,
    v2: ValueModel,
)
    requires
        v1 == spec_project(path, s),
        v2 == spec_project(path, s),
    ensures
        v1 == v2,
{
}

/// Generation options, forwarded through the projection context for future
/// extensibility; no field currently affects projection.
pub struct Options {}

/// The context a projection runs in.
pub struct Ctxt {
    options: Options,
}

impl Ctxt {
    /// A projection context carrying the given options.
    pub fn new(options: Options) -> Ctxt {
        Ctxt { options }
    }
}

/// Generated source text.
pub type Code = String;

/// Projects a named top-level shape and serializes the resulting `Value`
/// tree into generated source text.
pub fn shape_string(name: &str, shape: &Shape, options: Options) -> (res: Code)
    requires
        shape_wf(shape@),
    ensures
        res@ == crate::render::spec_render(0, spec_project(name@, shape@)),
{
    let mut ctxt = Ctxt { options };
    let value = type_from_shape(&mut ctxt, name, shape);
    crate::render::pretty_print_value(0, &value)
}

/// Strips one layer of `Optional` from a shape, reporting whether one was
/// present.
pub fn collapse_option(typ: &Shape) -> (res: (bool, &Shape))
    ensures
        res.0 == spec_collapse(typ@).0,
        res.1@ == spec_collapse(typ@).1,
{
    if let Shape::Optional(inner) = typ {
        return (true, &**inner);
    }
    (false, typ)
}

/// Projects a shape into a generic `Value` tree under the given path.
///
/// Total over the well-formed shape grammar: every variant has exactly one
/// projection rule and there is no error path.
#[verifier::loop_isolation(false)]
pub fn type_from_shape(ctxt: &mut Ctxt, path: &str, shape: &Shape) -> (res: Value)
    requires
        shape_wf(shape@),
    ensures
        res@ == spec_project(path@, shape@),
    decreases core_depth(shape@), height(shape@), 1int,
{
    match shape {
        Shape::Null => Value::Null,
        Shape::Any => Value::Str("any"),
        Shape::Bottom => Value::Str("bottom"),
        Shape::Bool => Value::Str("bool"),
        Shape::StringT => Value::Str("string"),
        Shape::Integer => Value::Str("integer"),
        Shape::Floating => Value::Str("floating"),
        Shape::Tuple(shapes, _) => {
            let ghost ms = shape@->Tuple_0;
            proof {
                assert(shape_models(shapes@) =~= ms);
            }
            let folded = fold_shapes(shapes);
            let is_any = matches!(folded, Shape::Any);
            proof {
                lemma_any_model(&folded);
            }
            let mut any_other = false;
            let mut i: usize = 0;
            while i < shapes.len()
                invariant
                    i <= shapes.len(),
                    any_other == (exists|j: int|
                        0 <= j < i as int && shapes@[j]@ != ShapeModel::Any),
                decreases shapes.len() - i,
            {
                let not_any = !matches!(shapes[i], Shape::Any);
                proof {
                    lemma_any_model(&shapes@[i as int]);
                }
                any_other = any_other || not_any;
                i = i + 1;
            }
            proof {
                assert(forall|j: int| 0 <= j < ms.len() ==> ms[j] == shapes@[j]@);
                if is_any {
                    assert(folded@ == ShapeModel::Any);
                }
                assert(is_any == (spec_fold(ms) == ShapeModel::Any));
                if any_other {
                    let j = choose|j: int|
                        0 <= j < shapes@.len() && shapes@[j]@ != ShapeModel::Any;
                    assert(ms[j] != ShapeModel::Any);
                    assert(exists|k: int| 0 <= k < ms.len() && ms[k] != ShapeModel::Any);
                }
                if exists|k: int| 0 <= k < ms.len() && ms[k] != ShapeModel::Any {
                    let k = choose|k: int| 0 <= k < ms.len() && ms[k] != ShapeModel::Any;
                    assert(shapes@[k]@ != ShapeModel::Any);
                    assert(any_other);
                }
                assert((is_any && any_other) == heterogeneous(ms));
            }
            if is_any && any_other {
                let res = generate_tuple_type(ctxt, path, shapes);
                proof {
                    let target = spec_project(path@, shape@);
                    assert(spec_project_items(path@, ms) =~= target->Object_0[1].1->Array_0);
                    assert(res@->Object_0 =~= target->Object_0);
                    assert(res@ =~= target);
                }
                res
            } else {
                proof {
                    assert(items_wf(ms));
                    assert forall|j: int| 0 <= j < ms.len() implies #[trigger] shape_wf(
                        ms[j],
                    ) by {}
                    lemma_fold_wf(ms);
                    lemma_fold_core_depth(ms);
                }
                let res = generate_vec_type(ctxt, path, &folded);
                proof {
                    assert(res@ =~= spec_project(path@, shape@));
                }
                res
            }
        },
        Shape::VecT { elem_type } => generate_vec_type(ctxt, path, &**elem_type),
        Shape::Struct { fields } => {
            proof {
                assert(field_models(fields@) =~= shape@->Struct_0);
            }
            let res = generate_struct_from_field_shapes(ctxt, path, fields);
            proof {
                let target = spec_project(path@, shape@);
                assert(spec_project_fields(shape@->Struct_0) =~= target->Object_0);
                assert(res@ =~= target);
            }
            res
        },
        Shape::MapT { val_type } => generate_map_type(ctxt, path, &**val_type),
        Shape::Opaque(token) => Value::Text(token.clone()),
        Shape::Optional(inner) => {
            let item = type_from_shape(ctxt, path, &**inner);
            let mut entries: Vec<(String, Value)> = Vec::new();
            entries.push((String::from_str("__type__"), Value::Str("optional")));
            entries.push((String::from_str("item"), item));
            let res = Value::Object(entries);
            proof {
                assert(res@->Object_0.len() == 2);
                assert(res@->Object_0[0].0 == "__type__"@);
                assert(value_model(&Value::Str("optional")) == ValueModel::Str("optional"@));
                assert(entries@[0].1 == Value::Str("optional"));
                assert(res@->Object_0[0].1 == value_model(&entries@[0].1));
                assert(res@->Object_0[0].1 == ValueModel::Str("optional"@));
                assert(res@->Object_0[0] == ("__type__"@, ValueModel::Str("optional"@)));
                assert(res@->Object_0[1].0 == "item"@);
                assert(res@->Object_0[1].1 == spec_project(path@, *shape@->Optional_0));
                assert(res@->Object_0[1] == ("item"@, spec_project(path@, *shape@->Optional_0)));
                assert(res@->Object_0 =~= seq![
                    ("__type__"@, ValueModel::Str("optional"@)),
                    ("item"@, spec_project(path@, *shape@->Optional_0)),
                ]);
                assert(res@ =~= spec_project(path@, shape@));
            }
            res
        },
    }
}

/// Projects a homogeneous sequence: derives a singular element name from the
/// path, projects the element shape under it, and wraps the projection in a
/// one-element array template.
pub fn generate_vec_type(ctxt: &mut Ctxt, path: &str, shape: &Shape) -> (res: Value)
    requires
        shape_wf(shape@),
    ensures
        res@ == spec_project_vec(path@, shape@),
    decreases core_depth(shape@), height(shape@), 2int,
{
    let singular = to_singular(path);
    let inner = type_from_shape(ctxt, singular.as_str(), shape);
    let mut items: Vec<Value> = Vec::new();
    items.push(inner);
    let res = Value::Array(items);
    proof {
        assert(res@->Array_0 =~= seq![spec_project(spec_singular(path@), shape@)]);
        assert(res@ =~= spec_project_vec(path@, shape@));
    }
    res
}

/// Projects a map shape: an object tagged as a map whose `values` entry holds
/// the value shape projected under the singularized path.
pub fn generate_map_type(ctxt: &mut Ctxt, path: &str, shape: &Shape) -> (res: Value)
    requires
        shape_wf(shape@),
    ensures
        res@ == spec_project_map(path@, shape@),
    decreases core_depth(shape@), height(shape@), 2int,
{
    let singular = to_singular(path);
    let inner = type_from_shape(ctxt, singular.as_str(), shape);
    let mut entries: Vec<(String, Value)> = Vec::new();
    entries.push((String::from_str("__type__"), Value::Str("map")));
    entries.push((String::from_str("values"), inner));
    let res = Value::Object(entries);
    proof {
        assert(res@->Object_0.len() == 2);
        assert(res@->Object_0[0].0 == "__type__"@);
        assert(value_model(&Value::Str("map")) == ValueModel::Str("map"@));
        assert(entries@[0].1 == Value::Str("map"));
        assert(res@->Object_0[0].1 == value_model(&entries@[0].1));
        assert(res@->Object_0[0].1 == ValueModel::Str("map"@));
        assert(res@->Object_0[0] == ("__type__"@, ValueModel::Str("map"@)));
        assert(res@->Object_0[1].0 == "values"@);
        assert(res@->Object_0[1].1 == spec_project(spec_singular(path@), shape@));
        assert(res@->Object_0[1] == ("values"@, spec_project(spec_singular(path@), shape@)));
        assert(res@->Object_0 =~= seq![
            ("__type__"@, ValueModel::Str("map"@)),
            ("values"@, spec_project(spec_singular(path@), shape@)),
        ]);
        assert(res@ =~= spec_project_map(path@, shape@));
    }
    res
}

/// Projects a heterogeneous tuple: an object tagged as a tuple whose `items`
/// entry holds the per-member projections in original order.
#[verifier::loop_isolation(false)]
pub fn generate_tuple_type(ctxt: &mut Ctxt, path: &str, shapes: &Vec<Shape>) -> (res: Value)
    requires
        items_wf(shape_models(shapes@)),
    ensures
        res@ == ValueModel::Object(
            seq![
                ("__type__"@, ValueModel::Str("tuple"@)),
                ("items"@, ValueModel::Array(spec_project_items(path@, shape_models(shapes@)))),
            ],
        ),
    decreases items_core_depth(shape_models(shapes@)) + 1, items_height(shape_models(shapes@)) + 1,
        0int,
{
    let ghost ms = shape_models(shapes@);
    let mut types: Vec<Value> = Vec::new();
    let mut i: usize = 0;
    while i < shapes.len()
        invariant
            i <= shapes.len(),
            types@.len() == i as int,
            forall|j: int| 0 <= j < i as int ==> types@[j]@ == spec_project(path@, ms[j]),
        decreases shapes.len() - i,
    {
        proof {
            lemma_item_measures(ms, i as int);
        }
        let typ = type_from_shape(ctxt, path, &shapes[i]);
        types.push(typ);
        i = i + 1;
    }
    let mut entries: Vec<(String, Value)> = Vec::new();
    entries.push((String::from_str("__type__"), Value::Str("tuple")));
    entries.push((String::from_str("items"), Value::Array(types)));
    let res = Value::Object(entries);
    proof {
        assert(res@->Object_0.len() == 2);
        assert(res@->Object_0[0].0 == "__type__"@);
        assert(value_model(&Value::Str("tuple")) == ValueModel::Str("tuple"@));
        assert(entries@[0].1 == Value::Str("tuple"));
        assert(res@->Object_0[0].1 == value_model(&entries@[0].1));
        assert(res@->Object_0[0].1 == ValueModel::Str("tuple"@));
        assert(res@->Object_0[0] == ("__type__"@, ValueModel::Str("tuple"@)));
        assert(res@->Object_0[1].0 == "items"@);
        assert(res@->Object_0[1].1 == value_model(&entries@[1].1));
        assert(entries@[1].1 is Array);
        assert(res@->Object_0[1].1->Array_0 =~= spec_project_items(path@, ms));
        assert(res@->Object_0[1].1 == ValueModel::Array(spec_project_items(path@, ms)));
        assert(res@->Object_0 =~= seq![
            ("__type__"@, ValueModel::Str("tuple"@)),
            ("items"@, ValueModel::Array(spec_project_items(path@, ms))),
        ]);
    }
    res
}

/// Projects a record: each field in original order, optional fields unwrapped
/// once and their names annotated with a trailing `?`, each field shape
/// projected under the bare field name.
#[verifier::loop_isolation(false)]
pub fn generate_struct_from_field_shapes(
    ctxt: &mut Ctxt,
    _path: &str,
    map: &Vec<(String, Shape)>,
) -> (res: Value)
    requires
        fields_wf(field_models(map@)),
    ensures
        res@ == ValueModel::Object(spec_project_fields(field_models(map@))),
    decreases fields_core_depth(field_models(map@)) + 1, fields_height(field_models(map@)) + 1,
        0int,
{
    let ghost fm = field_models(map@);
    let mut properties: Vec<(String, Value)> = Vec::new();
    let mut i: usize = 0;
    while i < map.len()
        invariant
            i <= map.len(),
            properties@.len() == i as int,
            forall|j: int|
                0 <= j < i as int ==> (#[trigger] properties@[j]).0@ == annotated_name(
                    fm[j].0,
                    spec_collapse(fm[j].1).0,
                ) && properties@[j].1@ == spec_project(fm[j].0, spec_collapse(fm[j].1).1),
        decreases map.len() - i,
    {
        let (was_optional, collapsed) = collapse_option(&map[i].1);
        let annotated = if was_optional {
            let mut n = map[i].0.clone();
            n.append("?");
            proof {
                reveal_strlit("?");
                assert(n@ =~= map@[i as int].0@.push('?'));
            }
            n
        } else {
            map[i].0.clone()
        };
        proof {
            lemma_collapse_measures(fm, i as int);
            assert(shape_wf(fm[i as int].1));
        }
        let field_code = type_from_shape(ctxt, map[i].0.as_str(), collapsed);
        properties.push((annotated, field_code));
        i = i + 1;
    }
    let res = Value::Object(properties);
    proof {
        assert(res@->Object_0 =~= spec_project_fields(fm));
    }
    res
}

} // verus!
