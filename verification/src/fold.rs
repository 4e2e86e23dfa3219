//! Shape folding: merging a sequence of observed shapes into one
//! representative shape.
//!
//! Folding returns `Any` exactly when the members are structurally
//! irreconcilable under the rules below; the projector uses that as the
//! signal to prefer tuple semantics over list semantics.

use vstd::prelude::*;

use crate::shape::{
    clone_shape, core_depth, fields_core_depth, fields_wf, items_core_depth, items_wf,
    lemma_field_measures, lemma_fields_wf, lemma_item_measures, lemma_items_wf, shape_model,
    shape_models, shape_wf, Shape, ShapeModel,
};

verus! {

broadcast use {lemma_item_measures, lemma_field_measures, lemma_items_wf, lemma_fields_wf};

/// Wraps a shape in `Optional` unless optionality would be meaningless
/// (`Null`, `Any`, `Bottom`) or already present.
pub open spec fn spec_optionalize(s: ShapeModel) -> ShapeModel {
    match s {
        ShapeModel::Null => s,
        ShapeModel::Any => s,
        ShapeModel::Bottom => s,
        ShapeModel::Optional(_) => s,
        _ => ShapeModel::Optional(Box::new(s)),
    }
}

/// True when two records declare the same field names in the same order.
pub open spec fn same_field_names(
    f1: Seq<(Seq<char>, ShapeModel)>,
    f2: Seq<(Seq<char>, ShapeModel)>,
) -> bool {
    f1.len() == f2.len() && forall|i: int| 0 <= i < f1.len() ==> (#[trigger] f1[i].0) == f2[i].0
}

/// Merges two shapes into their least common generalization.
///
/// `Bottom` is the identity; `Null` and `Optional` contribute optionality;
/// `Integer` widens to `Floating`; containers of the same kind merge
/// componentwise; anything else is irreconcilable and yields `Any`.
pub open spec fn spec_merge(a: ShapeModel, b: ShapeModel) -> ShapeModel
    decreases a, b,
{
    match (a, b) {
        (ShapeModel::Bottom, _) => b,
        (_, ShapeModel::Bottom) => a,
        (ShapeModel::Any, _) => ShapeModel::Any,
        (_, ShapeModel::Any) => ShapeModel::Any,
        (ShapeModel::Null, ShapeModel::Null) => ShapeModel::Null,
        (ShapeModel::Null, _) => spec_optionalize(b),
        (_, ShapeModel::Null) => spec_optionalize(a),
        (ShapeModel::Optional(ai), _) => spec_optionalize(spec_merge(*ai, b)),
        (_, ShapeModel::Optional(bi)) => spec_optionalize(spec_merge(a, *bi)),
        (ShapeModel::Bool, ShapeModel::Bool) => ShapeModel::Bool,
        (ShapeModel::StringT, ShapeModel::StringT) => ShapeModel::StringT,
        (ShapeModel::Integer, ShapeModel::Integer) => ShapeModel::Integer,
        (ShapeModel::Floating, ShapeModel::Floating) => ShapeModel::Floating,
        (ShapeModel::Integer, ShapeModel::Floating) => ShapeModel::Floating,
        (ShapeModel::Floating, ShapeModel::Integer) => ShapeModel::Floating,
        (ShapeModel::VecT(e1), ShapeModel::VecT(e2)) => ShapeModel::VecT(
            Box::new(spec_merge(*e1, *e2)),
        ),
        (ShapeModel::MapT(v1), ShapeModel::MapT(v2)) => ShapeModel::MapT(
            Box::new(spec_merge(*v1, *v2)),
        ),
        (ShapeModel::Tuple(s1, n1), ShapeModel::Tuple(s2, n2)) => if s1.len() == s2.len() {
            ShapeModel::Tuple(spec_merge_items(s1, s2), n1)
        } else {
            ShapeModel::Any
        },
        (ShapeModel::Struct(f1), ShapeModel::Struct(f2)) => if same_field_names(f1, f2) {
            ShapeModel::Struct(spec_merge_fields(f1, f2))
        } else {
            ShapeModel::Any
        },
        (ShapeModel::Opaque(t1), ShapeModel::Opaque(t2)) => if t1 == t2 {
            ShapeModel::Opaque(t1)
        } else {
            ShapeModel::Any
        },
        _ => ShapeModel::Any,
    }
}

/// Elementwise merge of two equally long sequences of shapes.
pub open spec fn spec_merge_items(s1: Seq<ShapeModel>, s2: Seq<ShapeModel>) -> Seq<ShapeModel>
    decreases s1, s2,
{
    Seq::new(
        s1.len(),
        |i: int|
            if 0 <= i < s1.len() {
                spec_merge(s1[i], s2[i])
            } else {
                ShapeModel::Any
            },
    )
}

/// Fieldwise merge of two records with identical field names.
pub open spec fn spec_merge_fields(
    f1: Seq<(Seq<char>, ShapeModel)>,
    f2: Seq<(Seq<char>, ShapeModel)>,
) -> Seq<(Seq<char>, ShapeModel)>
    decreases f1, f2,
{
    Seq::new(
        f1.len(),
        |i: int|
            if 0 <= i < f1.len() {
                (f1[i].0, spec_merge(f1[i].1, f2[i].1))
            } else {
                (Seq::<char>::empty(), ShapeModel::Any)
            },
    )
}

/// Folds a sequence of shapes left to right, starting from `Bottom`.
pub open spec fn spec_fold(ms: Seq<ShapeModel>) -> ShapeModel
    decreases ms.len(),
{
    if ms.len() == 0 {
        ShapeModel::Bottom
    } else {
        spec_merge(spec_fold(ms.subrange(0, ms.len() - 1)), ms[ms.len() - 1])
    }
}

/// Optionality annotations do not add structural depth.
pub broadcast proof fn lemma_optionalize_core_depth(s: ShapeModel)
    ensures
        #[trigger] core_depth(spec_optionalize(s)) == core_depth(s),
{
}

/// Merging never makes a shape structurally deeper than its deepest input.
pub proof fn lemma_merge_core_depth(a: ShapeModel, b: ShapeModel)
    ensures
        core_depth(spec_merge(a, b)) <= core_depth(a) || core_depth(spec_merge(a, b))
            <= core_depth(b),
    decreases a, b,
{
    broadcast use lemma_optionalize_core_depth;

    match (a, b) {
        (ShapeModel::Optional(ai), _) => {
            if !(b is Bottom) && !(a is Bottom) && !(a is Any) && !(b is Any) && !(b is Null) {
                lemma_merge_core_depth(*ai, b);
            }
        },
        (_, ShapeModel::Optional(bi)) => {
            if !(b is Bottom) && !(a is Bottom) && !(a is Any) && !(b is Any) && !(a is Null) {
                lemma_merge_core_depth(a, *bi);
            }
        },
        (ShapeModel::VecT(e1), ShapeModel::VecT(e2)) => {
            lemma_merge_core_depth(*e1, *e2);
        },
        (ShapeModel::MapT(v1), ShapeModel::MapT(v2)) => {
            lemma_merge_core_depth(*v1, *v2);
        },
        (ShapeModel::Tuple(s1, n1), ShapeModel::Tuple(s2, n2)) => {
            if s1.len() == s2.len() {
                lemma_merge_items_core_depth(s1, s2);
            }
        },
        (ShapeModel::Struct(f1), ShapeModel::Struct(f2)) => {
            if same_field_names(f1, f2) {
                lemma_merge_fields_core_depth(f1, f2);
            }
        },
        _ => {},
    }
}

/// Elementwise merging stays within the deeper of the two sequences.
proof fn lemma_merge_items_core_depth(s1: Seq<ShapeModel>, s2: Seq<ShapeModel>)
    requires
        s1.len() == s2.len(),
    ensures
        items_core_depth(spec_merge_items(s1, s2)) <= items_core_depth(s1) || items_core_depth(
            spec_merge_items(s1, s2),
        ) <= items_core_depth(s2),
    decreases s1, s2,
{
    if s1.len() > 0 {
        let m = spec_merge_items(s1, s2);
        let m1 = spec_merge_items(s1.subrange(0, s1.len() - 1), s2.subrange(0, s2.len() - 1));
        assert(m.subrange(0, m.len() - 1) =~= m1);
        lemma_merge_items_core_depth(s1.subrange(0, s1.len() - 1), s2.subrange(0, s2.len() - 1));
        lemma_merge_core_depth(s1[s1.len() - 1], s2[s2.len() - 1]);
    }
}

/// Fieldwise merging stays within the deeper of the two records.
proof fn lemma_merge_fields_core_depth(
    f1: Seq<(Seq<char>, ShapeModel)>,
    f2: Seq<(Seq<char>, ShapeModel)>,
)
    requires
        f1.len() == f2.len(),
    ensures
        fields_core_depth(spec_merge_fields(f1, f2)) <= fields_core_depth(f1) || fields_core_depth(
            spec_merge_fields(f1, f2),
        ) <= fields_core_depth(f2),
    decreases f1, f2,
{
    if f1.len() > 0 {
        let m = spec_merge_fields(f1, f2);
        let m1 = spec_merge_fields(f1.subrange(0, f1.len() - 1), f2.subrange(0, f2.len() - 1));
        assert(m.subrange(0, m.len() - 1) =~= m1);
        lemma_merge_fields_core_depth(f1.subrange(0, f1.len() - 1), f2.subrange(0, f2.len() - 1));
        lemma_merge_core_depth(f1[f1.len() - 1].1, f2[f2.len() - 1].1);
    }
}

/// A folded sequence of shapes is never structurally deeper than its deepest
/// member; in particular it is strictly shallower than a tuple built from the
/// same members.
pub broadcast proof fn lemma_fold_core_depth(ms: Seq<ShapeModel>)
    ensures
        #[trigger] core_depth(spec_fold(ms)) <= items_core_depth(ms),
    decreases ms.len(),
{
    if ms.len() > 0 {
        lemma_fold_core_depth(ms.subrange(0, ms.len() - 1));
        lemma_merge_core_depth(spec_fold(ms.subrange(0, ms.len() - 1)), ms[ms.len() - 1]);
    }
}

/// Merging two well-formed shapes yields a well-formed shape: in particular,
/// merging never nests one `Optional` directly inside another.
pub proof fn lemma_merge_wf(a: ShapeModel, b: ShapeModel)
    requires
        shape_wf(a),
        shape_wf(b),
    ensures
        shape_wf(spec_merge(a, b)),
    decreases a, b,
{
    match (a, b) {
        (ShapeModel::Optional(ai), _) => {
            if !(b is Bottom) && !(a is Bottom) && !(a is Any) && !(b is Any) && !(b is Null) {
                lemma_merge_wf(*ai, b);
            }
        },
        (_, ShapeModel::Optional(bi)) => {
            if !(b is Bottom) && !(a is Bottom) && !(a is Any) && !(b is Any) && !(a is Null) {
                lemma_merge_wf(a, *bi);
            }
        },
        (ShapeModel::VecT(e1), ShapeModel::VecT(e2)) => {
            lemma_merge_wf(*e1, *e2);
        },
        (ShapeModel::MapT(v1), ShapeModel::MapT(v2)) => {
            lemma_merge_wf(*v1, *v2);
        },
        (ShapeModel::Tuple(s1, n1), ShapeModel::Tuple(s2, n2)) => {
            if s1.len() == s2.len() {
                let m = spec_merge_items(s1, s2);
                assert forall|i: int| 0 <= i < m.len() implies #[trigger] shape_wf(m[i]) by {
                    assert(items_wf(s1));
                    assert(items_wf(s2));
                    assert(shape_wf(s1[i]));
                    assert(shape_wf(s2[i]));
                    lemma_merge_wf(s1[i], s2[i]);
                }
                assert(items_wf(m));
            }
        },
        (ShapeModel::Struct(f1), ShapeModel::Struct(f2)) => {
            if same_field_names(f1, f2) {
                let m = spec_merge_fields(f1, f2);
                assert forall|i: int| 0 <= i < m.len() implies #[trigger] shape_wf(m[i].1) by {
                    assert(fields_wf(f1));
                    assert(fields_wf(f2));
                    assert(shape_wf(f1[i].1));
                    assert(shape_wf(f2[i].1));
                    lemma_merge_wf(f1[i].1, f2[i].1);
                }
                assert(fields_wf(m));
            }
        },
        _ => {},
    }
}

/// Folding well-formed shapes yields a well-formed shape.
pub proof fn lemma_fold_wf(ms: Seq<ShapeModel>)
    requires
        forall|i: int| 0 <= i < ms.len() ==> #[trigger] shape_wf(ms[i]),
    ensures
        shape_wf(spec_fold(ms)),
    decreases ms.len(),
{
    if ms.len() > 0 {
        let butlast = ms.subrange(0, ms.len() - 1);
        assert(forall|i: int| 0 <= i < butlast.len() ==> #[trigger] shape_wf(butlast[i]));
        lemma_fold_wf(butlast);
        lemma_merge_wf(spec_fold(butlast), ms[ms.len() - 1]);
    }
}

/// Wraps a shape in `Optional` unless optionality would be meaningless or is
/// already present.
pub fn optionalize(s: Shape) -> (res: Shape)
    ensures
        res@ == spec_optionalize(s@),
{
    match s {
        Shape::Null => s,
        Shape::Any => s,
        Shape::Bottom => s,
        Shape::Optional(_) => s,
        _ => Shape::Optional(Box::new(s)),
    }
}

/// Merges two shapes into their least common generalization.
#[verifier::loop_isolation(false)]
pub fn common_shape(a: &Shape, b: &Shape) -> (res: Shape)
    ensures
        res@ == spec_merge(a@, b@),
    decreases *a, *b,
{
    match (a, b) {
        (Shape::Bottom, _) => clone_shape(b),
        (_, Shape::Bottom) => clone_shape(a),
        (Shape::Any, _) => Shape::Any,
        (_, Shape::Any) => Shape::Any,
        (Shape::Null, Shape::Null) => Shape::Null,
        (Shape::Null, _) => optionalize(clone_shape(b)),
        (_, Shape::Null) => optionalize(clone_shape(a)),
        (Shape::Optional(ai), _) => optionalize(common_shape(&**ai, b)),
        (_, Shape::Optional(bi)) => optionalize(common_shape(a, &**bi)),
        (Shape::Bool, Shape::Bool) => Shape::Bool,
        (Shape::StringT, Shape::StringT) => Shape::StringT,
        (Shape::Integer, Shape::Integer) => Shape::Integer,
        (Shape::Floating, Shape::Floating) => Shape::Floating,
        (Shape::Integer, Shape::Floating) => Shape::Floating,
        (Shape::Floating, Shape::Integer) => Shape::Floating,
        (Shape::VecT { elem_type: e1 }, Shape::VecT { elem_type: e2 }) => Shape::VecT {
            elem_type: Box::new(common_shape(&**e1, &**e2)),
        },
        (Shape::MapT { val_type: v1 }, Shape::MapT { val_type: v2 }) => Shape::MapT {
            val_type: Box::new(common_shape(&**v1, &**v2)),
        },
        (Shape::Tuple(s1, n1), Shape::Tuple(s2, _)) => {
            if s1.len() == s2.len() {
                let mut out: Vec<Shape> = Vec::new();
                let mut i: usize = 0;
                while i < s1.len()
                    invariant
                        i <= s1.len(),
                        out@.len() == i as int,
                        forall|j: int|
                            0 <= j < i as int ==> out@[j]@ == spec_merge(s1@[j]@, s2@[j]@),
                    decreases s1.len() - i,
                {
                    out.push(common_shape(&s1[i], &s2[i]));
                    i = i + 1;
                }
                let res = Shape::Tuple(out, *n1);
                proof {
                    let m = spec_merge_items(a@->Tuple_0, b@->Tuple_0);
                    assert(forall|k: int| 0 <= k < out@.len() ==> res@->Tuple_0[k] == m[k]);
                    assert(res@->Tuple_0 =~= m);
                    assert(res@ =~= spec_merge(a@, b@));
                }
                res
            } else {
                Shape::Any
            }
        },
        (Shape::Struct { fields: f1 }, Shape::Struct { fields: f2 }) => {
            if f1.len() == f2.len() {
                let mut same: bool = true;
                let mut i: usize = 0;
                while i < f1.len()
                    invariant
                        i <= f1.len(),
                        same == (forall|j: int|
                            0 <= j < i as int ==> (#[trigger] f1@[j].0@) == f2@[j].0@),
                    decreases f1.len() - i,
                {
                    let eq_here = f1[i].0 == f2[i].0;
                    same = same && eq_here;
                    i = i + 1;
                }
                if same {
                    let mut out: Vec<(String, Shape)> = Vec::new();
                    let mut k: usize = 0;
                    while k < f1.len()
                        invariant
                            k <= f1.len(),
                            out@.len() == k as int,
                            forall|j: int|
                                0 <= j < k as int ==> out@[j].0@ == f1@[j].0@ && out@[j].1@
                                    == spec_merge(f1@[j].1@, f2@[j].1@),
                        decreases f1.len() - k,
                    {
                        let name = f1[k].0.clone();
                        let merged = common_shape(&f1[k].1, &f2[k].1);
                        out.push((name, merged));
                        k = k + 1;
                    }
                    let res = Shape::Struct { fields: out };
                    proof {
                        assert(same_field_names(a@->Struct_0, b@->Struct_0));
                        let m = spec_merge_fields(a@->Struct_0, b@->Struct_0);
                        assert(forall|j: int| 0 <= j < out@.len() ==> res@->Struct_0[j] == m[j]);
                        assert(res@->Struct_0 =~= m);
                        assert(res@ =~= spec_merge(a@, b@));
                    }
                    res
                } else {
                    proof {
                        let j = choose|j: int|
                            0 <= j < f1@.len() && (#[trigger] f1@[j].0@) != f2@[j].0@;
                        assert(a@->Struct_0[j].0 != b@->Struct_0[j].0);
                        assert(!same_field_names(a@->Struct_0, b@->Struct_0));
                    }
                    Shape::Any
                }
            } else {
                proof {
                    assert(!same_field_names(a@->Struct_0, b@->Struct_0));
                }
                Shape::Any
            }
        },
        (Shape::Opaque(t1), Shape::Opaque(t2)) => {
            if t1.eq(t2) {
                Shape::Opaque(t1.clone())
            } else {
                Shape::Any
            }
        },
        _ => Shape::Any,
    }
}

/// Folds a vector of shapes left to right, starting from `Bottom`.
#[verifier::loop_isolation(false)]
pub fn fold_shapes(shapes: &Vec<Shape>) -> (res: Shape)
    ensures
        res@ == spec_fold(shape_models(shapes@)),
{
    let ghost ms = shape_models(shapes@);
    let mut acc = Shape::Bottom;
    let mut i: usize = 0;
    proof {
        assert(ms.subrange(0, 0) =~= Seq::<ShapeModel>::empty());
    }
    while i < shapes.len()
        invariant
            i <= shapes.len(),
            acc@ == spec_fold(ms.subrange(0, i as int)),
        decreases shapes.len() - i,
    {
        let merged = common_shape(&acc, &shapes[i]);
        proof {
            assert(ms.subrange(0, i + 1).subrange(0, i as int) =~= ms.subrange(0, i as int));
            assert(ms.subrange(0, i + 1)[i as int] == shapes@[i as int]@);
        }
        acc = merged;
        i = i + 1;
    }
    proof {
        assert(ms.subrange(0, shapes@.len() as int) =~= ms);
    }
    acc
}

} // verus!
