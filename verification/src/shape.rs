//! The `Shape` grammar: an abstract description of the structural variety
//! observed across sample documents, together with its mathematical model.

use vstd::prelude::*;

verus! {

/// An inferred structural description of observed sample data.
///
/// `Struct` fields form an ordered mapping: insertion order is semantically
/// significant and drives the key order of the projected output.
#[derive(Debug, PartialEq, Eq)]
pub enum Shape {
    /// Only null values were observed.
    Null,
    /// Observations were structurally inconsistent.
    Any,
    /// No observations ever occurred.
    Bottom,
    Bool,
    StringT,
    Integer,
    Floating,
    /// A fixed-position heterogeneous sequence observed at a fixed length,
    /// with an arity hint.
    Tuple(Vec<Shape>, u64),
    /// A homogeneous sequence whose elements share one shape.
    VecT { elem_type: Box<Shape> },
    /// A record with named, insertion-ordered fields.
    Struct { fields: Vec<(String, Shape)> },
    /// A key/value collection with uniform value shape and unconstrained keys.
    MapT { val_type: Box<Shape> },
    /// A pre-rendered type token supplied verbatim.
    Opaque(String),
    /// Wraps any other shape to mean "may be absent"; never nests.
    Optional(Box<Shape>),
}

/// The mathematical model of a `Shape`: vectors become sequences and strings
/// become character sequences, so that contracts can state structure directly.
#[verifier::ext_equal]
pub enum ShapeModel {
    Null,
    Any,
    Bottom,
    Bool,
    StringT,
    Integer,
    Floating,
    Tuple(Seq<ShapeModel>, u64),
    VecT(Box<ShapeModel>),
    Struct(Seq<(Seq<char>, ShapeModel)>),
    MapT(Box<ShapeModel>),
    Opaque(Seq<char>),
    Optional(Box<ShapeModel>),
}

/// The model of a `Shape` value.
pub open spec fn shape_model(s: &Shape) -> ShapeModel
    decreases s,
{
    match s {
        Shape::Null => ShapeModel::Null,
        Shape::Any => ShapeModel::Any,
        Shape::Bottom => ShapeModel::Bottom,
        Shape::Bool => ShapeModel::Bool,
        Shape::StringT => ShapeModel::StringT,
        Shape::Integer => ShapeModel::Integer,
        Shape::Floating => ShapeModel::Floating,
        Shape::Tuple(shapes, n) => ShapeModel::Tuple(
            Seq::new(
                shapes@.len(),
                |i: int|
                    if 0 <= i < shapes@.len() {
                        shape_model(&shapes@[i])
                    } else {
                        ShapeModel::Any
                    },
            ),
            *n,
        ),
        Shape::VecT { elem_type } => ShapeModel::VecT(Box::new(shape_model(elem_type))),
        Shape::Struct { fields } => ShapeModel::Struct(
            Seq::new(
                fields@.len(),
                |i: int|
                    if 0 <= i < fields@.len() {
                        (fields@[i].0@, shape_model(&fields@[i].1))
                    } else {
                        (Seq::<char>::empty(), ShapeModel::Any)
                    },
            ),
        ),
        Shape::MapT { val_type } => ShapeModel::MapT(Box::new(shape_model(val_type))),
        Shape::Opaque(token) => ShapeModel::Opaque(token@),
        Shape::Optional(inner) => ShapeModel::Optional(Box::new(shape_model(inner))),
    }
}

impl View for Shape {
    type V = ShapeModel;

    open spec fn view(&self) -> ShapeModel {
        shape_model(self)
    }
}

/// The models of a sequence of shapes, member by member.
pub open spec fn shape_models(s: Seq<Shape>) -> Seq<ShapeModel> {
    Seq::new(
        s.len(),
        |i: int|
            if 0 <= i < s.len() {
                shape_model(&s[i])
            } else {
                ShapeModel::Any
            },
    )
}

/// A well-formed shape never wraps an `Optional` directly in another
/// `Optional`: nested optionality is not a modeled state, so the projector
/// rejects it at its boundary rather than guessing an unwrap rule.
pub open spec fn shape_wf(s: ShapeModel) -> bool
    decreases s,
{
    match s {
        ShapeModel::Tuple(ms, _) => items_wf(ms),
        ShapeModel::VecT(e) => shape_wf(*e),
        ShapeModel::Struct(fs) => fields_wf(fs),
        ShapeModel::MapT(v) => shape_wf(*v),
        ShapeModel::Optional(e) => !(*e is Optional) && shape_wf(*e),
        _ => true,
    }
}

/// All members of a sequence of shapes are well-formed.
pub open spec fn items_wf(ms: Seq<ShapeModel>) -> bool
    decreases ms,
{
    ms.len() == 0 || (items_wf(ms.subrange(0, ms.len() - 1)) && shape_wf(ms[ms.len() - 1]))
}

/// All field shapes of a record are well-formed.
pub open spec fn fields_wf(fs: Seq<(Seq<char>, ShapeModel)>) -> bool
    decreases fs,
{
    fs.len() == 0 || (fields_wf(fs.subrange(0, fs.len() - 1)) && shape_wf(fs[fs.len() - 1].1))
}

/// A sequence of shapes is well-formed exactly when each member is.
pub broadcast proof fn lemma_items_wf(ms: Seq<ShapeModel>)
    ensures
        #[trigger] items_wf(ms) <==> (forall|i: int|
            0 <= i < ms.len() ==> #[trigger] shape_wf(ms[i])),
    decreases ms.len(),
{
    if ms.len() > 0 {
        let butlast = ms.subrange(0, ms.len() - 1);
        lemma_items_wf(butlast);
        if items_wf(ms) {
            assert forall|i: int| 0 <= i < ms.len() implies #[trigger] shape_wf(ms[i]) by {
                if i < ms.len() - 1 {
                    assert(butlast[i] == ms[i]);
                    assert(shape_wf(butlast[i]));
                }
            }
        }
        if forall|i: int| 0 <= i < ms.len() ==> #[trigger] shape_wf(ms[i]) {
            assert forall|i: int|
                0 <= i < butlast.len() implies #[trigger] shape_wf(butlast[i]) by {
                assert(butlast[i] == ms[i]);
                assert(shape_wf(ms[i]));
            }
            assert(shape_wf(ms[ms.len() - 1]));
            assert(items_wf(ms));
        }
    }
}

/// A record's fields are well-formed exactly when each field shape is.
pub broadcast proof fn lemma_fields_wf(fs: Seq<(Seq<char>, ShapeModel)>)
    ensures
        #[trigger] fields_wf(fs) <==> (forall|i: int|
            0 <= i < fs.len() ==> #[trigger] shape_wf(fs[i].1)),
    decreases fs.len(),
{
    if fs.len() > 0 {
        let butlast = fs.subrange(0, fs.len() - 1);
        lemma_fields_wf(butlast);
        if fields_wf(fs) {
            assert forall|i: int| 0 <= i < fs.len() implies #[trigger] shape_wf(fs[i].1) by {
                if i < fs.len() - 1 {
                    assert(butlast[i] == fs[i]);
                    assert(shape_wf(butlast[i].1));
                }
            }
        }
        if forall|i: int| 0 <= i < fs.len() ==> #[trigger] shape_wf(fs[i].1) {
            assert forall|i: int|
                0 <= i < butlast.len() implies #[trigger] shape_wf(butlast[i].1) by {
                assert(butlast[i] == fs[i]);
                assert(shape_wf(fs[i].1));
            }
            assert(shape_wf(fs[fs.len() - 1].1));
            assert(fields_wf(fs));
        }
    }
}

/// Nesting depth of a shape counting every constructor except `Optional`.
///
/// Folding two shapes never increases this measure beyond its inputs, which
/// is what makes the projection of a folded tuple terminate.
pub open spec fn core_depth(s: ShapeModel) -> nat
    decreases s,
{
    match s {
        ShapeModel::Tuple(ms, _) => 1 + items_core_depth(ms),
        ShapeModel::VecT(e) => 1 + core_depth(*e),
        ShapeModel::Struct(fs) => 1 + fields_core_depth(fs),
        ShapeModel::MapT(v) => 1 + core_depth(*v),
        ShapeModel::Optional(e) => core_depth(*e),
        _ => 0,
    }
}

/// Largest `core_depth` among the members of a sequence of shapes.
pub open spec fn items_core_depth(ms: Seq<ShapeModel>) -> nat
    decreases ms,
{
    if ms.len() == 0 {
        0
    } else {
        let rest = items_core_depth(ms.subrange(0, ms.len() - 1));
        let lst = core_depth(ms[ms.len() - 1]);
        if lst >= rest {
            lst
        } else {
            rest
        }
    }
}

/// Largest `core_depth` among the field shapes of a record.
pub open spec fn fields_core_depth(fs: Seq<(Seq<char>, ShapeModel)>) -> nat
    decreases fs,
{
    if fs.len() == 0 {
        0
    } else {
        let rest = fields_core_depth(fs.subrange(0, fs.len() - 1));
        let lst = core_depth(fs[fs.len() - 1].1);
        if lst >= rest {
            lst
        } else {
            rest
        }
    }
}

/// Full nesting depth of a shape, `Optional` included.
pub open spec fn height(s: ShapeModel) -> nat
    decreases s,
{
    match s {
        ShapeModel::Tuple(ms, _) => 1 + items_height(ms),
        ShapeModel::VecT(e) => 1 + height(*e),
        ShapeModel::Struct(fs) => 1 + fields_height(fs),
        ShapeModel::MapT(v) => 1 + height(*v),
        ShapeModel::Optional(e) => 1 + height(*e),
        _ => 0,
    }
}

/// Largest `height` among the members of a sequence of shapes.
pub open spec fn items_height(ms: Seq<ShapeModel>) -> nat
    decreases ms,
{
    if ms.len() == 0 {
        0
    } else {
        let rest = items_height(ms.subrange(0, ms.len() - 1));
        let lst = height(ms[ms.len() - 1]);
        if lst >= rest {
            lst
        } else {
            rest
        }
    }
}

/// Largest `height` among the field shapes of a record.
pub open spec fn fields_height(fs: Seq<(Seq<char>, ShapeModel)>) -> nat
    decreases fs,
{
    if fs.len() == 0 {
        0
    } else {
        let rest = fields_height(fs.subrange(0, fs.len() - 1));
        let lst = height(fs[fs.len() - 1].1);
        if lst >= rest {
            lst
        } else {
            rest
        }
    }
}

/// Each member of a sequence of shapes stays within the sequence's measures.
pub broadcast proof fn lemma_item_measures(ms: Seq<ShapeModel>, i: int)
    requires
        0 <= i < ms.len(),
    ensures
        #[trigger] core_depth(ms[i]) <= items_core_depth(ms),
        #[trigger] height(ms[i]) <= items_height(ms),
    decreases ms.len(),
{
    if i < ms.len() - 1 {
        assert(ms.subrange(0, ms.len() - 1)[i] == ms[i]);
        lemma_item_measures(ms.subrange(0, ms.len() - 1), i);
    }
}

/// The models of a record's fields, entry by entry.
pub open spec fn field_models(s: Seq<(String, Shape)>) -> Seq<(Seq<char>, ShapeModel)> {
    Seq::new(
        s.len(),
        |i: int|
            if 0 <= i < s.len() {
                (s[i].0@, shape_model(&s[i].1))
            } else {
                (Seq::<char>::empty(), ShapeModel::Any)
            },
    )
}

/// A shape's model is the `Any` model exactly when the shape is `Any`.
pub proof fn lemma_any_model(s: &Shape)
    ensures
        (s@ is Any) <==> (*s is Any),
{
    match s {
        Shape::Null => {},
        Shape::Any => {},
        Shape::Bottom => {},
        Shape::Bool => {},
        Shape::StringT => {},
        Shape::Integer => {},
        Shape::Floating => {},
        Shape::Tuple(..) => {},
        Shape::VecT { .. } => {},
        Shape::Struct { .. } => {},
        Shape::MapT { .. } => {},
        Shape::Opaque(..) => {},
        Shape::Optional(..) => {},
    }
}

/// Strips one layer of `Optional`, reporting whether one was present.
pub open spec fn spec_collapse(s: ShapeModel) -> (bool, ShapeModel) {
    match s {
        ShapeModel::Optional(inner) => (true, *inner),
        _ => (false, s),
    }
}

/// A collapsed field shape stays within the record's structural measures.
pub broadcast proof fn lemma_collapse_measures(fs: Seq<(Seq<char>, ShapeModel)>, i: int)
    requires
        0 <= i < fs.len(),
    ensures
        #[trigger] core_depth(spec_collapse(fs[i].1).1) <= fields_core_depth(fs),
{
    lemma_field_measures(fs, i);
}

/// Each field shape of a record stays within the record's measures.
pub broadcast proof fn lemma_field_measures(fs: Seq<(Seq<char>, ShapeModel)>, i: int)
    requires
        0 <= i < fs.len(),
    ensures
        #[trigger] core_depth(fs[i].1) <= fields_core_depth(fs),
        #[trigger] height(fs[i].1) <= fields_height(fs),
    decreases fs.len(),
{
    if i < fs.len() - 1 {
        assert(fs.subrange(0, fs.len() - 1)[i] == fs[i]);
        lemma_field_measures(fs.subrange(0, fs.len() - 1), i);
    }
}

/// A structure-preserving deep copy of a shape.
#[verifier::loop_isolation(false)]
pub fn clone_shape(s: &Shape) -> (res: Shape)
    ensures
        res@ == s@,
    decreases *s,
{
    match s {
        Shape::Null => Shape::Null,
        Shape::Any => Shape::Any,
        Shape::Bottom => Shape::Bottom,
        Shape::Bool => Shape::Bool,
        Shape::StringT => Shape::StringT,
        Shape::Integer => Shape::Integer,
        Shape::Floating => Shape::Floating,
        Shape::Tuple(shapes, n) => {
            let mut out: Vec<Shape> = Vec::new();
            let mut i: usize = 0;
            while i < shapes.len()
                invariant
                    i <= shapes.len(),
                    out@.len() == i as int,
                    forall|j: int| 0 <= j < i as int ==> out@[j]@ == shapes@[j]@,
                decreases shapes.len() - i,
            {
                out.push(clone_shape(&shapes[i]));
                i = i + 1;
            }
            let res = Shape::Tuple(out, *n);
            proof {
                assert(forall|j: int|
                    0 <= j < out@.len() ==> #[trigger] shape_model(&out@[j]) == shape_model(
                        &shapes@[j],
                    ));
                assert(forall|k: int|
                    0 <= k < out@.len() ==> res@->Tuple_0[k] == s@->Tuple_0[k]);
                assert(res@->Tuple_0 =~= s@->Tuple_0);
                assert(res@->Tuple_1 == s@->Tuple_1);
                assert(res@ =~= s@);
            }
            res
        },
        Shape::VecT { elem_type } => Shape::VecT { elem_type: Box::new(clone_shape(elem_type)) },
        Shape::Struct { fields } => {
            let mut out: Vec<(String, Shape)> = Vec::new();
            let mut i: usize = 0;
            while i < fields.len()
                invariant
                    i <= fields.len(),
                    out@.len() == i as int,
                    forall|j: int|
                        0 <= j < i as int ==> out@[j].0@ == fields@[j].0@ && out@[j].1@
                            == fields@[j].1@,
                decreases fields.len() - i,
            {
                let name = fields[i].0.clone();
                let val = clone_shape(&fields[i].1);
                out.push((name, val));
                i = i + 1;
            }
            let res = Shape::Struct { fields: out };
            proof {
                assert(forall|j: int|
                    0 <= j < out@.len() ==> #[trigger] shape_model(&out@[j].1) == shape_model(
                        &fields@[j].1,
                    ) && out@[j].0@ == fields@[j].0@);
                assert(out@.len() == fields@.len());
                assert(forall|k: int|
                    0 <= k < out@.len() ==> res@->Struct_0[k] == s@->Struct_0[k]);
                assert(res@->Struct_0 =~= s@->Struct_0);
                assert(res@ =~= s@);
            }
            res
        },
        Shape::MapT { val_type } => Shape::MapT { val_type: Box::new(clone_shape(val_type)) },
        Shape::Opaque(token) => Shape::Opaque(token.clone()),
        Shape::Optional(inner) => Shape::Optional(Box::new(clone_shape(inner))),
    }
}

} // verus!
