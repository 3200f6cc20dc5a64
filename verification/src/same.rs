//! Structural sameness of expressions, comparing names by their characters.
use vstd::prelude::*;
use crate::sx::{Sx, SxArgs, SxVec};

verus! {

/// `a` and `b` have the same shape, operators, literals and names.
pub open spec fn spec_same(a: Sx, b: Sx) -> bool
    decreases a,
{
    match (a, b) {
        (Sx::Lit(x), Sx::Lit(y)) => x == y,
        (Sx::PxLit(x), Sx::PxLit(y)) => x == y,
        (Sx::EntryInput(x), Sx::EntryInput(y)) => x == y,
        (
            Sx::UniformField { binding_name: b1, field_name: f1, field_index: i1, component: c1 },
            Sx::UniformField { binding_name: b2, field_name: f2, field_index: i2, component: c2 },
        ) => b1@ == b2@ && f1@ == f2@ && i1 == i2 && c1 == c2,
        (Sx::CoordX, Sx::CoordX) => true,
        (Sx::CoordY, Sx::CoordY) => true,
        (Sx::PostColorR, Sx::PostColorR) => true,
        (Sx::PostColorG, Sx::PostColorG) => true,
        (Sx::PostColorB, Sx::PostColorB) => true,
        (Sx::PostColorA, Sx::PostColorA) => true,
        (Sx::Param(x), Sx::Param(y)) => x@ == y@,
        (Sx::Var(x), Sx::Var(y)) => x@ == y@,
        (Sx::TexChannel { texture: t1, channel: c1 }, Sx::TexChannel { texture: t2, channel: c2 }) =>
            t1@ == t2@ && c1 == c2,
        (Sx::Unary(o1, x), Sx::Unary(o2, y)) => o1 == o2 && spec_same(*x, *y),
        (Sx::Binary(o1, x1, y1), Sx::Binary(o2, x2, y2)) => o1 == o2 && spec_same(*x1, *x2)
            && spec_same(*y1, *y2),
        (Sx::Ternary(o1, x1, y1, z1), Sx::Ternary(o2, x2, y2, z2)) => o1 == o2 && spec_same(
            *x1,
            *x2,
        ) && spec_same(*y1, *y2) && spec_same(*z1, *z2),
        (Sx::Dot(x1, y1), Sx::Dot(x2, y2)) => spec_same_vec(x1, x2) && spec_same_vec(y1, y2),
        (Sx::Length(x), Sx::Length(y)) => spec_same_vec(x, y),
        (Sx::UserCall { helper_id: h1, args: a1 }, Sx::UserCall { helper_id: h2, args: a2 }) =>
            h1@ == h2@ && spec_same_args(a1, a2),
        (Sx::Let { name: n1, value: v1, body: b1 }, Sx::Let { name: n2, value: v2, body: b2 }) =>
            n1@ == n2@ && spec_same(*v1, *v2) && spec_same(*b1, *b2),
        _ => false,
    }
}

pub open spec fn spec_same_vec(a: SxVec, b: SxVec) -> bool
    decreases a,
{
    match (a, b) {
        (SxVec::V2(a0, a1), SxVec::V2(b0, b1)) => spec_same(*a0, *b0) && spec_same(*a1, *b1),
        (SxVec::V3(a0, a1, a2), SxVec::V3(b0, b1, b2)) => spec_same(*a0, *b0) && spec_same(
            *a1,
            *b1,
        ) && spec_same(*a2, *b2),
        (SxVec::V4(a0, a1, a2, a3), SxVec::V4(b0, b1, b2, b3)) => spec_same(*a0, *b0) && spec_same(
            *a1,
            *b1,
        ) && spec_same(*a2, *b2) && spec_same(*a3, *b3),
        _ => false,
    }
}

pub open spec fn spec_same_args(a: SxArgs, b: SxArgs) -> bool
    decreases a,
{
    match (a, b) {
        (SxArgs::Nil, SxArgs::Nil) => true,
        (SxArgs::Cons(x, xs), SxArgs::Cons(y, ys)) => spec_same(*x, *y) && spec_same_args(*xs, *ys),
        _ => false,
    }
}

/// Every expression is the same as itself.
pub proof fn lemma_same_refl(a: Sx)
    ensures
        spec_same(a, a),
    decreases a,
{
    match a {
        Sx::Unary(_, x) => lemma_same_refl(*x),
        Sx::Binary(_, x, y) => {
            lemma_same_refl(*x);
            lemma_same_refl(*y);
        },
        Sx::Ternary(_, x, y, z) => {
            lemma_same_refl(*x);
            lemma_same_refl(*y);
            lemma_same_refl(*z);
        },
        Sx::Dot(x, y) => {
            lemma_same_vec_refl(x);
            lemma_same_vec_refl(y);
        },
        Sx::Length(x) => lemma_same_vec_refl(x),
        Sx::UserCall { args, .. } => lemma_same_args_refl(args),
        Sx::Let { value, body, .. } => {
            lemma_same_refl(*value);
            lemma_same_refl(*body);
        },
        _ => {},
    }
}

pub proof fn lemma_same_vec_refl(a: SxVec)
    ensures
        spec_same_vec(a, a),
    decreases a,
{
    match a {
        SxVec::V2(x, y) => {
            lemma_same_refl(*x);
            lemma_same_refl(*y);
        },
        SxVec::V3(x, y, z) => {
            lemma_same_refl(*x);
            lemma_same_refl(*y);
            lemma_same_refl(*z);
        },
        SxVec::V4(x, y, z, w) => {
            lemma_same_refl(*x);
            lemma_same_refl(*y);
            lemma_same_refl(*z);
            lemma_same_refl(*w);
        },
    }
}

pub proof fn lemma_same_args_refl(a: SxArgs)
    ensures
        spec_same_args(a, a),
    decreases a,
{
    match a {
        SxArgs::Nil => {},
        SxArgs::Cons(x, xs) => {
            lemma_same_refl(*x);
            lemma_same_args_refl(*xs);
        },
    }
}

pub fn sx_same(a: &Sx, b: &Sx) -> (r: bool)
    ensures
        r == spec_same(*a, *b),
    decreases a,
{
    match (a, b) {
        (Sx::Lit(x), Sx::Lit(y)) => x.same_repr(y),
        (Sx::PxLit(x), Sx::PxLit(y)) => x.same_repr(y),
        (Sx::EntryInput(x), Sx::EntryInput(y)) => *x == *y,
        (
            Sx::UniformField { binding_name: b1, field_name: f1, field_index: i1, component: c1 },
            Sx::UniformField { binding_name: b2, field_name: f2, field_index: i2, component: c2 },
        ) => {
            let same_c = match (c1, c2) {
                (Some(x), Some(y)) => *x == *y,
                (None, None) => true,
                _ => false,
            };
            *b1 == *b2 && *f1 == *f2 && *i1 == *i2 && same_c
        },
        (Sx::CoordX, Sx::CoordX) => true,
        (Sx::CoordY, Sx::CoordY) => true,
        (Sx::PostColorR, Sx::PostColorR) => true,
        (Sx::PostColorG, Sx::PostColorG) => true,
        (Sx::PostColorB, Sx::PostColorB) => true,
        (Sx::PostColorA, Sx::PostColorA) => true,
        (Sx::Param(x), Sx::Param(y)) => *x == *y,
        (Sx::Var(x), Sx::Var(y)) => *x == *y,
        (Sx::TexChannel { texture: t1, channel: c1 }, Sx::TexChannel { texture: t2, channel: c2 }) =>
            *t1 == *t2 && *c1 == *c2,
        (Sx::Unary(o1, x), Sx::Unary(o2, y)) => *o1 == *o2 && sx_same(x, y),
        (Sx::Binary(o1, x1, y1), Sx::Binary(o2, x2, y2)) => *o1 == *o2 && sx_same(x1, x2)
            && sx_same(y1, y2),
        (Sx::Ternary(o1, x1, y1, z1), Sx::Ternary(o2, x2, y2, z2)) => *o1 == *o2 && sx_same(x1, x2)
            && sx_same(y1, y2) && sx_same(z1, z2),
        (Sx::Dot(x1, y1), Sx::Dot(x2, y2)) => vec_same(x1, x2) && vec_same(y1, y2),
        (Sx::Length(x), Sx::Length(y)) => vec_same(x, y),
        (Sx::UserCall { helper_id: h1, args: a1 }, Sx::UserCall { helper_id: h2, args: a2 }) =>
            *h1 == *h2 && args_same(a1, a2),
        (Sx::Let { name: n1, value: v1, body: b1 }, Sx::Let { name: n2, value: v2, body: b2 }) =>
            *n1 == *n2 && sx_same(v1, v2) && sx_same(b1, b2),
        _ => false,
    }
}

pub fn vec_same(a: &SxVec, b: &SxVec) -> (r: bool)
    ensures
        r == spec_same_vec(*a, *b),
    decreases a,
{
    match (a, b) {
        (SxVec::V2(a0, a1), SxVec::V2(b0, b1)) => sx_same(a0, b0) && sx_same(a1, b1),
        (SxVec::V3(a0, a1, a2), SxVec::V3(b0, b1, b2)) => sx_same(a0, b0) && sx_same(a1, b1)
            && sx_same(a2, b2),
        (SxVec::V4(a0, a1, a2, a3), SxVec::V4(b0, b1, b2, b3)) => sx_same(a0, b0) && sx_same(a1, b1)
            && sx_same(a2, b2) && sx_same(a3, b3),
        _ => false,
    }
}

pub fn args_same(a: &SxArgs, b: &SxArgs) -> (r: bool)
    ensures
        r == spec_same_args(*a, *b),
    decreases a,
{
    match (a, b) {
        (SxArgs::Nil, SxArgs::Nil) => true,
        (SxArgs::Cons(x, xs), SxArgs::Cons(y, ys)) => sx_same(x, y) && args_same(xs, ys),
        _ => false,
    }
}

} // verus!
