//! Properties that relate several operations of the checker.
use vstd::prelude::*;
use crate::enums::{
    EnumDef, decl_order, find_enum, index_of, lemma_decl_order_complete, lemma_decl_order_len,
    lemma_index_of, spec_ordinal, spec_variant_from_scalar, variant_keys, has_variant,
};
use crate::fold::{
    arith_binary, is_lit_like, key_le, spec_fold_bin, spec_fold_static, spec_normalize_pair,
    spec_select_on_cond, spec_sort_key,
};
use crate::ast::BinOp;
use crate::num::{lemma_make_value, spec_make};
use crate::merge::spec_merge;
use crate::naming::{lev, min2};
use crate::num::Num;
use crate::scopes::{scopes_get, spec_lookup};
use crate::surface::{MaterialChannelDecl, ValidatedMaterialChannel, last_named, merge_channels};
use crate::sx::{Sx, env_view, static_value, static_value_in};
use crate::value::{ScalarKind, Value, Values};
use crate::binops::{ShapeNode, spec_binary_values};
use crate::fold::spec_promoted_kind;
use crate::globals::{
    FieldShape, align_up, layout_end, layout_offset, lemma_align_up, lemma_layout_monotone,
    shape_align, shape_components, spec_byte_size,
};

verus! {

/// Sorting a commutative pair twice changes nothing more than sorting once,
/// and the sorted pair holds the same two operands, the lesser key first.
pub proof fn law_normalize_pair(a: Sx, b: Sx)
    ensures
        spec_normalize_pair(spec_normalize_pair(a, b).0, spec_normalize_pair(a, b).1) == spec_normalize_pair(a, b),
        spec_normalize_pair(a, b) == (a, b) || spec_normalize_pair(a, b) == (b, a),
        key_le(spec_sort_key(spec_normalize_pair(a, b).0), spec_sort_key(spec_normalize_pair(a, b).1)),
{
}

/// After binding `name`, looking it up gives the bound value and every
/// other name looks up as before.
pub proof fn law_lookup_after_bind(
    before: Seq<Vec<(String, Value)>>,
    after: Seq<Vec<(String, Value)>>,
    name: Seq<char>,
    v: Value,
)
    requires
        forall|n: Seq<char>| #[trigger] scopes_get(after, n) == if n == name { Some(v) } else { scopes_get(before, n) },
    ensures
        spec_lookup(after, name) == Some(v),
        forall|n: Seq<char>| n != name ==> #[trigger] spec_lookup(after, n) == spec_lookup(before, n),
{
    assert(scopes_get(after, name) == Some(v));
    assert forall|n: Seq<char>| n != name implies #[trigger] spec_lookup(after, n) == spec_lookup(before, n) by {
        assert(scopes_get(after, n) == scopes_get(before, n));
    }
}

/// The ordinal a declared variant evaluates to is read back as that variant;
/// a constant that is not a whole number, or is negative, names no variant.
pub proof fn law_enum_ordinal_roundtrip(defs: Seq<(String, EnumDef)>, enum_name: Seq<char>, variant: Seq<char>)
    requires
        find_enum(defs, enum_name) matches Some(d) && has_variant(d, variant),
    ensures
        spec_variant_from_scalar(
            defs,
            enum_name,
            Sx::Lit(Num { neg: false, mag: spec_ordinal(find_enum(defs, enum_name)->0, variant) as u64, den: 1 }),
        ) == Some(variant),
        forall|sx: Sx|
            #[trigger] static_value(sx) matches Some(v) && (!v.is_integral() || v.neg) ==> spec_variant_from_scalar(
                defs,
                enum_name,
                sx,
            ) is None,
{
    let d = find_enum(defs, enum_name)->0;
    assert(d.variants@.len() == d.variants.len());
    let ks = variant_keys(d.variants@);
    let order = decl_order(ks);
    let j = choose|j: int| 0 <= j < d.variants@.len() && d.variants@[j].0@ == variant;
    assert(ks[j].0 == variant);
    lemma_decl_order_complete(ks, j);
    lemma_decl_order_len(ks);
    lemma_index_of(order, variant);
    let i = index_of(order, variant)->0;
    assert(spec_ordinal(d, variant) == i);
    let n = Num { neg: false, mag: i as u64, den: 1 };
    assert(static_value(Sx::Lit(n)) == Some(n));
    assert(n.mag / n.den == i);
}

/// Edit distance is symmetric.
pub proof fn law_lev_symmetric(a: Seq<char>, b: Seq<char>)
    ensures
        lev(a, b) == lev(b, a),
    decreases a.len() + b.len(),
{
    if a.len() > 0 && b.len() > 0 {
        law_lev_symmetric(a.drop_last(), b);
        law_lev_symmetric(a, b.drop_last());
        law_lev_symmetric(a.drop_last(), b.drop_last());
    }
}

/// A name is at distance zero from itself, and at distance its length from
/// the empty name.
pub proof fn law_lev_identity(a: Seq<char>)
    ensures
        lev(a, a) == 0,
        lev(a, Seq::empty()) == a.len(),
        lev(Seq::empty(), a) == a.len(),
{
    crate::naming::lemma_lev_self(a);
}

/// A literal condition makes the merge of two branches of the same scalar or
/// vector kind the taken branch itself.
pub proof fn law_merge_literal_condition(c: Num, a: Value, b: Value, layers: Seq<crate::merge::LayerNode>)
    requires
        (a is Scalar && b is Scalar) || (a is Distance && b is Distance) || (a is Coverage && b is Coverage)
            || (a is Mask && b is Mask) || (a is Vec2 && b is Vec2) || (a is Vec3 && b is Vec3) || (a is Vec4
            && b is Vec4),
    ensures
        spec_merge(Sx::Lit(c), a, b, layers) == Ok::<(Value, Seq<crate::merge::LayerNode>), (Seq<char>, Seq<char>)>(
            (if c.mag != 0 { a } else { b }, layers),
        ),
{
}

/// Flattening keeps the inherited channels first, in their order, with their
/// names and types; the declaration's new channels follow.
pub proof fn law_inherited_channels_first(
    parent: Seq<ValidatedMaterialChannel>,
    own: Seq<MaterialChannelDecl>,
    vals: Seq<Option<Value>>,
)
    requires
        vals.len() == own.len(),
    ensures
        merge_channels(parent, own, vals).len() >= parent.len(),
        forall|i: int|
            0 <= i < parent.len() ==> #[trigger] merge_channels(parent, own, vals)[i].name == parent[i].name
                && merge_channels(parent, own, vals)[i].ty_name == parent[i].ty_name,
    decreases own.len(),
{
    if own.len() > 0 {
        law_inherited_channels_first(parent, own.drop_last(), vals.drop_last());
        let acc = merge_channels(parent, own.drop_last(), vals.drop_last());
        crate::surface::lemma_last_named(acc, own.last().name@);
        assert forall|i: int| 0 <= i < parent.len() implies #[trigger] merge_channels(parent, own, vals)[i].name
            == parent[i].name && merge_channels(parent, own, vals)[i].ty_name == parent[i].ty_name by {
            assert(acc[i].name == parent[i].name);
        }
    }
}

/// Every channel a declaration writes is among its flattened channels.
pub proof fn law_own_channels_present(
    parent: Seq<ValidatedMaterialChannel>,
    own: Seq<MaterialChannelDecl>,
    vals: Seq<Option<Value>>,
    k: int,
)
    requires
        vals.len() == own.len(),
        0 <= k < own.len(),
    ensures
        exists|i: int|
            0 <= i < merge_channels(parent, own, vals).len() && #[trigger] merge_channels(parent, own, vals)[i].name@
                == own[k].name@,
    decreases own.len(),
{
    let acc = merge_channels(parent, own.drop_last(), vals.drop_last());
    crate::surface::lemma_last_named(acc, own.last().name@);
    if k < own.len() - 1 {
        law_own_channels_present(parent, own.drop_last(), vals.drop_last(), k);
        let i = choose|i: int| 0 <= i < acc.len() && acc[i].name@ == own.drop_last()[k].name@;
        assert(merge_channels(parent, own, vals)[i].name == acc[i].name);
    } else {
        match last_named(acc, own.last().name@) {
            Some(i) => {
                assert(merge_channels(parent, own, vals)[i].name == acc[i].name);
            },
            None => {
                assert(merge_channels(parent, own, vals)[acc.len() as int].name == own.last().name);
            },
        }
    }
}

/// Global uniform layout: every field starts at a multiple of its
/// alignment, fields do not overlap and keep declaration order, and the
/// buffer is a multiple of 16 bytes that holds every field.
pub proof fn law_uniform_layout(shapes: Seq<FieldShape>)
    ensures
        forall|i: int| 0 <= i < shapes.len() ==> #[trigger] layout_offset(shapes, i) % shape_align(shapes[i]) == 0,
        forall|i: int, j: int|
            0 <= i < j < shapes.len() ==> #[trigger] layout_offset(shapes, i) + 4 * shape_components(shapes[i])
                <= #[trigger] layout_offset(shapes, j),
        spec_byte_size(shapes) % 16 == 0,
        spec_byte_size(shapes) >= 16,
        spec_byte_size(shapes) >= layout_end(shapes, shapes.len() as int),
{
    assert forall|i: int| 0 <= i < shapes.len() implies #[trigger] layout_offset(shapes, i) % shape_align(shapes[i]) == 0 by {
        lemma_align_up(layout_end(shapes, i), shape_align(shapes[i]));
    }
    assert forall|i: int, j: int|
        0 <= i < j < shapes.len() implies #[trigger] layout_offset(shapes, i) + 4 * shape_components(shapes[i])
            <= #[trigger] layout_offset(shapes, j) by {
        lemma_layout_monotone(shapes, i, j);
        lemma_align_up(layout_end(shapes, j), shape_align(shapes[j]));
    }
    lemma_align_up(layout_end(shapes, shapes.len() as int), 16);
}

proof fn lemma_make_comm(n1: int, n2: int, d1: int, d2: int)
    ensures
        spec_make(n1 * d2 + n2 * d1, d1 * d2) == spec_make(n2 * d1 + n1 * d2, d2 * d1),
        spec_make(n1 * n2, d1 * d2) == spec_make(n2 * n1, d2 * d1),
{
    vstd::arithmetic::mul::lemma_mul_is_commutative(d1, d2);
    vstd::arithmetic::mul::lemma_mul_is_commutative(n1, n2);
}

proof fn lemma_identity_value(x: Num, n: int, d: int)
    requires
        x.wf(),
        n == x.numer(),
        d == x.den,
        spec_make(n, d) is Some,
    ensures
        x.same_value(spec_make(n, d)->0),
{
    lemma_make_value(n, d);
}

/// Folding a binary arithmetic node never changes its value: when the node
/// has a static value, so does the folded expression, and the two denote the
/// same rational.
pub proof fn law_fold_bin_preserves_value(op: BinOp, a: Sx, b: Sx)
    requires
        op.is_arith(),
        static_value(Sx::Binary(arith_binary(op), Box::new(a), Box::new(b))) is Some,
    ensures
        static_value(spec_fold_bin(op, a, b)) matches Some(w) && w.same_value(
            static_value(Sx::Binary(arith_binary(op), Box::new(a), Box::new(b)))->0,
        ),
{
    let v = static_value(Sx::Binary(arith_binary(op), Box::new(a), Box::new(b)))->0;
    let xa = static_value(a)->0;
    let yb = static_value(b)->0;
    crate::sx::lemma_static_value_wf(a);
    crate::sx::lemma_static_value_wf(b);
    let one = Num::spec_one();
    let zero = Num::spec_zero();
    if op is Sub && b == Sx::Lit(zero) {
        assert(yb == zero);
        assert(v == spec_make(xa.numer() * 1 + 0 * xa.den, xa.den * 1)->0);
        assert(xa.numer() * 1 + 0 * xa.den == xa.numer());
        assert(xa.den * 1 == xa.den);
        lemma_identity_value(xa, xa.numer(), xa.den as int);
    } else if op is Mul && a == Sx::Lit(one) {
        assert(v == spec_make(1 * yb.numer(), 1 * yb.den)->0);
        assert(1 * yb.numer() == yb.numer());
        assert(1 * yb.den == yb.den);
        lemma_identity_value(yb, yb.numer(), yb.den as int);
    } else if op is Mul && b == Sx::Lit(one) {
        assert(v == spec_make(xa.numer() * 1, xa.den * 1)->0);
        assert(xa.numer() * 1 == xa.numer());
        assert(xa.den * 1 == xa.den);
        lemma_identity_value(xa, xa.numer(), xa.den as int);
    } else if op is Div && b == Sx::Lit(one) {
        assert(v == spec_make(xa.numer() * 1, xa.den * 1)->0);
        assert(xa.numer() * 1 == xa.numer());
        assert(xa.den * 1 == xa.den);
        lemma_identity_value(xa, xa.numer(), xa.den as int);
    } else {
        let (x, y) = if op is Add || op is Mul {
            spec_normalize_pair(a, b)
        } else {
            (a, b)
        };
        let e = Sx::Binary(arith_binary(op), Box::new(x), Box::new(y));
        lemma_make_comm(xa.numer(), yb.numer(), xa.den as int, yb.den as int);
        assert(static_value(e) == Some(v));
        crate::sx::lemma_static_value_wf(e);
        if is_lit_like(x) && is_lit_like(y) {
            assert(spec_fold_static(e) == Sx::Lit(v));
        }
    }
}


/// Subtracting an array of shapes from a shape subtracts its first element,
/// then the rest of the array from the result; subtracting an empty array
/// leaves the shape as it is.
pub proof fn law_shape_array_subtract_is_a_chain(seed: u32, first: u32, rest: Values, h: Sx, shapes: Seq<ShapeNode>)
    ensures
        spec_binary_values(BinOp::Sub, Value::Shape(seed), Value::Array(Values::Nil), h, shapes)
            == (Ok::<Value, (Seq<char>, Seq<char>)>(Value::Shape(seed)), shapes, None::<Sx>),
        ({
            let one = spec_binary_values(BinOp::Sub, Value::Shape(seed), Value::Shape(first), h, shapes);
            &&& one.0 == Ok::<Value, (Seq<char>, Seq<char>)>(Value::Shape(shapes.len() as u32))
            &&& spec_binary_values(
                BinOp::Sub,
                Value::Shape(seed),
                Value::Array(Values::Cons(Box::new(Value::Shape(first)), Box::new(rest))),
                h,
                shapes,
            ) == spec_binary_values(BinOp::Sub, Value::Shape(shapes.len() as u32), Value::Array(rest), h, one.1)
        }),
{
}

/// Scalar kind promotion does not depend on the order of the operands.
pub proof fn law_kind_promotion_symmetric(op: BinOp, a: ScalarKind, b: ScalarKind)
    ensures
        spec_promoted_kind(op, a, b) == spec_promoted_kind(op, b, a),
{
}


/// Folding a static expression and evaluating it with no variables bound
/// agree: both bind only what the expression's own `let`s bind.
pub proof fn law_static_folding_matches_evaluation_without_variables(sx: Sx)
    ensures
        static_value(sx) == static_value_in(sx, env_view(Seq::<(String, Num)>::empty())),
{
    assert(env_view(Seq::<(String, Num)>::empty()) =~= Seq::empty());
}

} // verus!
