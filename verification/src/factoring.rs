//! Factoring a shared symbol out of `min` and `max` keeps the value: the
//! rewritten expression denotes the same rational as the original under
//! every binding of the variables.
use vstd::prelude::*;
use crate::fold::{is_lit_like, spec_factor_pair, spec_factor_sign, spec_fold_bin, spec_fold_static,
    spec_normalize_pair, spec_positive_constant, spec_split_factor, SymbolicFactorOp};
use crate::num::{lemma_make_value, spec_make, Num};
use crate::same::{spec_same, spec_same_vec};
use crate::sx::{static_value_in, sum_squares, BinaryOp, Sx, SxVec, UnaryOp};

verus! {

/// `x` denotes the fraction `n / d`.
pub open spec fn denotes(x: Num, n: int, d: int) -> bool {
    x.numer() * d == n * x.den
}

/// Expressions with the same structure have the same value.
pub proof fn lemma_same_same_value(a: Sx, b: Sx, env: Seq<(Seq<char>, Num)>)
    requires
        spec_same(a, b),
    ensures
        static_value_in(a, env) == static_value_in(b, env),
    decreases a,
{
    match (a, b) {
        (Sx::Unary(_, x), Sx::Unary(_, y)) => {
            lemma_same_same_value(*x, *y, env);
        },
        (Sx::Binary(_, x1, y1), Sx::Binary(_, x2, y2)) => {
            lemma_same_same_value(*x1, *x2, env);
            lemma_same_same_value(*y1, *y2, env);
        },
        (Sx::Ternary(_, x1, y1, z1), Sx::Ternary(_, x2, y2, z2)) => {
            lemma_same_same_value(*x1, *x2, env);
            lemma_same_same_value(*y1, *y2, env);
            lemma_same_same_value(*z1, *z2, env);
        },
        (Sx::Length(x), Sx::Length(y)) => {
            lemma_same_vec_same_value(x, y, env);
        },
        (Sx::Let { name: n1, value: v1, body: b1 }, Sx::Let { name: n2, value: v2, body: b2 }) => {
            lemma_same_same_value(*v1, *v2, env);
            match static_value_in(*v1, env) {
                Some(v) => {
                    lemma_same_same_value(*b1, *b2, env.push((n1@, v)));
                },
                None => {},
            }
        },
        _ => {},
    }
}

pub proof fn lemma_same_vec_same_value(a: SxVec, b: SxVec, env: Seq<(Seq<char>, Num)>)
    requires
        spec_same_vec(a, b),
    ensures
        sum_squares(a, env) == sum_squares(b, env),
    decreases a,
{
    match (a, b) {
        (SxVec::V2(a0, a1), SxVec::V2(b0, b1)) => {
            lemma_same_same_value(*a0, *b0, env);
            lemma_same_same_value(*a1, *b1, env);
        },
        (SxVec::V3(a0, a1, a2), SxVec::V3(b0, b1, b2)) => {
            lemma_same_same_value(*a0, *b0, env);
            lemma_same_same_value(*a1, *b1, env);
            lemma_same_same_value(*a2, *b2, env);
        },
        (SxVec::V4(a0, a1, a2, a3), SxVec::V4(b0, b1, b2, b3)) => {
            lemma_same_same_value(*a0, *b0, env);
            lemma_same_same_value(*a1, *b1, env);
            lemma_same_same_value(*a2, *b2, env);
            lemma_same_same_value(*a3, *b3, env);
        },
        _ => {},
    }
}

/// A factor whose sign is known is never negative.
pub proof fn lemma_factor_nonnegative(f: Sx, env: Seq<(Seq<char>, Num)>)
    requires
        spec_factor_sign(f) is Some,
        static_value_in(f, env) is Some,
    ensures
        static_value_in(f, env)->0.numer() >= 0,
    decreases f,
{
    crate::sx::lemma_static_value_in_wf(f, env);
    match f {
        Sx::Binary(BinaryOp::Max, a, b) => {
            let x = static_value_in(*a, env)->0;
            let y = static_value_in(*b, env)->0;
            crate::sx::lemma_static_value_in_wf(*a, env);
            crate::sx::lemma_static_value_in_wf(*b, env);
            if spec_positive_constant(*a) {
                assert(x.numer() > 0);
            } else if spec_positive_constant(*b) {
                assert(y.numer() > 0);
            } else if spec_factor_sign(*a) is Some {
                lemma_factor_nonnegative(*a, env);
            } else {
                lemma_factor_nonnegative(*b, env);
            }
            if x.spec_lt(y) {
                assert(y.numer() >= 0) by (nonlinear_arith)
                    requires
                        x.numer() * y.den < y.numer() * x.den,
                        x.numer() >= 0 || y.numer() >= 0,
                        x.den > 0,
                        y.den > 0,
                ;
            } else {
                assert(x.numer() >= 0) by (nonlinear_arith)
                    requires
                        !(x.numer() * y.den < y.numer() * x.den),
                        x.numer() >= 0 || y.numer() >= 0,
                        x.den > 0,
                        y.den > 0,
                ;
            }
        },
        _ => {},
    }
}

/// Comparing two numbers is comparing the fractions they denote.
pub proof fn lemma_lt_by_fraction(p: Num, q: Num, pn: int, pd: int, qn: int, qd: int)
    requires
        p.den > 0,
        q.den > 0,
        pd > 0,
        qd > 0,
        denotes(p, pn, pd),
        denotes(q, qn, qd),
    ensures
        p.spec_lt(q) <==> pn * qd < qn * pd,
{
    let a = p.numer();
    let b = q.numer();
    let ad = p.den as int;
    let bd = q.den as int;
    assert(a * bd * (pd * qd) == pn * qd * (ad * bd)) by (nonlinear_arith)
        requires
            a * pd == pn * ad,
    ;
    assert(b * ad * (pd * qd) == qn * pd * (ad * bd)) by (nonlinear_arith)
        requires
            b * qd == qn * bd,
    ;
    assert(pd * qd > 0) by (nonlinear_arith)
        requires
            pd > 0,
            qd > 0,
    ;
    assert(ad * bd > 0) by (nonlinear_arith)
        requires
            ad > 0,
            bd > 0,
    ;
    assert((a * bd < b * ad) <==> (a * bd * (pd * qd) < b * ad * (pd * qd))) by (nonlinear_arith)
        requires
            pd * qd > 0,
    ;
    assert((pn * qd < qn * pd) <==> (pn * qd * (ad * bd) < qn * pd * (ad * bd))) by (nonlinear_arith)
        requires
            ad * bd > 0,
    ;
}

/// Two numbers denoting the same fraction denote the same rational.
pub proof fn lemma_denotes_same(p: Num, q: Num, n: int, d: int)
    requires
        p.den > 0,
        q.den > 0,
        d > 0,
        denotes(p, n, d),
        denotes(q, n, d),
    ensures
        p.same_value(q),
{
    let a = p.numer();
    let b = q.numer();
    assert(a * (q.den as int) * d == b * (p.den as int) * d) by (nonlinear_arith)
        requires
            a * d == n * p.den,
            b * d == n * q.den,
    ;
    assert(a * (q.den as int) == b * (p.den as int)) by (nonlinear_arith)
        requires
            a * (q.den as int) * d == b * (p.den as int) * d,
            d > 0,
    ;
}

/// A number denoting one fraction denotes every fraction equal to it.
pub proof fn lemma_denotes_trans(p: Num, n1: int, d1: int, n2: int, d2: int)
    requires
        p.den > 0,
        d1 > 0,
        d2 > 0,
        denotes(p, n1, d1),
        n1 * d2 == n2 * d1,
    ensures
        denotes(p, n2, d2),
{
    let a = p.numer();
    let pd = p.den as int;
    assert(a * d2 * d1 == n2 * pd * d1) by (nonlinear_arith)
        requires
            a * d1 == n1 * pd,
            n1 * d2 == n2 * d1,
    ;
    assert(a * d2 == n2 * pd) by (nonlinear_arith)
        requires
            a * d2 * d1 == n2 * pd * d1,
            d1 > 0,
    ;
}

proof fn lemma_cross_difference(p: int, q: int, r: int, s: int, m: int, e: int)
    ensures
        (r * m) * (q * e) - (p * m) * (s * e) == (m * e) * (r * q - p * s),
{
    assert((r * m) * (q * e) == (m * e) * (r * q)) by (nonlinear_arith);
    assert((p * m) * (s * e) == (m * e) * (p * s)) by (nonlinear_arith);
    assert((m * e) * (r * q) - (m * e) * (p * s) == (m * e) * (r * q - p * s)) by (nonlinear_arith);
}

/// The least and the greatest of two scaled numbers are the least and the
/// greatest coefficient scaled, when the scale is not negative.
pub proof fn lemma_min_max_scaled(ca: Num, cb: Num, v: Num, a: Num, b: Num)
    requires
        ca.den > 0,
        cb.den > 0,
        v.den > 0,
        a.den > 0,
        b.den > 0,
        v.numer() >= 0,
        denotes(a, ca.numer() * v.numer(), ca.den * v.den),
        denotes(b, cb.numer() * v.numer(), cb.den * v.den),
    ensures
        denotes(a.spec_min(b), ca.spec_min(cb).numer() * v.numer(), ca.spec_min(cb).den * v.den),
        denotes(a.spec_max(b), ca.spec_max(cb).numer() * v.numer(), ca.spec_max(cb).den * v.den),
{
    let an = ca.numer() * v.numer();
    let ad = ca.den * v.den;
    let bn = cb.numer() * v.numer();
    let bd = cb.den * v.den;
    assert(ad > 0 && bd > 0) by (nonlinear_arith)
        requires
            ca.den > 0,
            cb.den > 0,
            v.den > 0,
            ad == ca.den * v.den,
            bd == cb.den * v.den,
    ;
    lemma_lt_by_fraction(b, a, bn, bd, an, ad);
    lemma_lt_by_fraction(a, b, an, ad, bn, bd);
    let k = v.numer() * v.den;
    assert(k >= 0) by (nonlinear_arith)
        requires
            v.numer() >= 0,
            v.den > 0,
            k == v.numer() * v.den,
    ;
    lemma_cross_difference(ca.numer(), ca.den as int, cb.numer(), cb.den as int, v.numer(), v.den as int);
    let cd = cb.numer() * ca.den - ca.numer() * cb.den;
    assert(cd >= 0 ==> k * cd >= 0) by (nonlinear_arith)
        requires
            k >= 0,
    ;
    assert(cd <= 0 ==> k * cd <= 0) by (nonlinear_arith)
        requires
            k >= 0,
    ;
    // b and a denote the same rational when their fractions agree.
    if bn * ad == an * bd {
        lemma_denotes_trans(a, an, ad, bn, bd);
        lemma_denotes_trans(b, bn, bd, an, ad);
    }
}

/// A well-formed number's own fraction reduces without overflow.
pub proof fn lemma_make_own(v: Num)
    requires
        v.wf(),
    ensures
        spec_make(v.numer(), v.den as int) is Some,
{
    let a = crate::num::abs_int(v.numer());
    assert(a == v.mag);
    crate::num::lemma_gcd_pos(a, v.den as nat);
    let g = crate::num::gcd(a, v.den as nat);
    assert(a / g <= a) by (nonlinear_arith)
        requires
            g > 0,
    ;
    assert((v.den as int) / (g as int) <= v.den) by (nonlinear_arith)
        requires
            g > 0,
            v.den > 0,
    ;
}

/// The value of an operand split into `coefficient * factor`: the
/// coefficient times the factor's value.
pub proof fn lemma_split_value(s: Sx, env: Seq<(Seq<char>, Num)>)
    requires
        spec_split_factor(s) is Some,
        static_value_in(s, env) is Some,
    ensures
        ({
            let (c, f, _) = spec_split_factor(s)->0;
            let a = static_value_in(s, env)->0;
            &&& c.wf()
            &&& spec_factor_sign(f) is Some
            &&& !is_lit_like(f)
            &&& static_value_in(f, env) is Some
            &&& a.den > 0
            &&& denotes(
                a,
                c.numer() * static_value_in(f, env)->0.numer(),
                c.den * static_value_in(f, env)->0.den,
            )
            &&& spec_make(
                c.numer() * static_value_in(f, env)->0.numer(),
                c.den * static_value_in(f, env)->0.den,
            ) is Some
        }),
{
    crate::sx::lemma_static_value_in_wf(s, env);
    let (c, f, _) = spec_split_factor(s)->0;
    match s {
        Sx::Binary(BinaryOp::Mul, x, y) => {
            crate::sx::lemma_static_value_in_wf(*x, env);
            crate::sx::lemma_static_value_in_wf(*y, env);
            if let Sx::Lit(coef) = *x {
                let v = static_value_in(*y, env)->0;
                lemma_make_value(coef.numer() * v.numer(), coef.den * v.den);
            } else {
                let v = static_value_in(*x, env)->0;
                let coef = static_value_in(*y, env)->0;
                vstd::arithmetic::mul::lemma_mul_is_commutative(v.numer(), coef.numer());
                vstd::arithmetic::mul::lemma_mul_is_commutative(v.den as int, coef.den as int);
                lemma_make_value(coef.numer() * v.numer(), coef.den * v.den);
            }
        },
        _ => {
            let v = static_value_in(s, env)->0;
            assert(c == Num::spec_one());
            assert(c.numer() * v.numer() == v.numer());
            assert(c.den * v.den == v.den);
            lemma_make_own(v);
        },
    }
}

/// The value of `m * f` as folding builds it: `m` times the factor's value.
pub proof fn lemma_scaled_value(m: Num, f: Sx, env: Seq<(Seq<char>, Num)>)
    requires
        m.wf(),
        !is_lit_like(f),
        static_value_in(f, env) is Some,
        spec_make(m.numer() * static_value_in(f, env)->0.numer(), m.den * static_value_in(f, env)->0.den)
            is Some,
    ensures
        static_value_in(spec_fold_bin(crate::ast::BinOp::Mul, Sx::Lit(m), f), env) matches Some(y) && y.den > 0
            && denotes(y, m.numer() * static_value_in(f, env)->0.numer(), m.den * static_value_in(f, env)->0.den),
{
    let v = static_value_in(f, env)->0;
    crate::sx::lemma_static_value_in_wf(f, env);
    let n = m.numer() * v.numer();
    let d = m.den * v.den;
    lemma_make_value(n, d);
    if Sx::Lit(m) == Sx::Lit(Num::spec_one()) {
        assert(m == Num::spec_one());
        assert(m.numer() == 1);
        assert(n == v.numer()) by (nonlinear_arith)
            requires
                n == m.numer() * v.numer(),
                m.numer() == 1,
        ;
        assert(d == v.den) by (nonlinear_arith)
            requires
                d == m.den * v.den,
                m.den == 1,
        ;
    } else {
        vstd::arithmetic::mul::lemma_mul_is_commutative(v.numer(), m.numer());
        vstd::arithmetic::mul::lemma_mul_is_commutative(v.den as int, m.den as int);
        assert(f != Sx::Lit(Num::spec_one()));
        let (x, y) = spec_normalize_pair(Sx::Lit(m), f);
        assert((x == Sx::Lit(m) && y == f) || (x == f && y == Sx::Lit(m)));
        let e = Sx::Binary(BinaryOp::Mul, Box::new(x), Box::new(y));
        assert(static_value_in(Sx::Lit(m), env) == Some(m));
        assert(static_value_in(e, env) == spec_make(n, d));
        assert(!(is_lit_like(x) && is_lit_like(y)));
        assert(spec_fold_bin(crate::ast::BinOp::Mul, Sx::Lit(m), f) == e);
    }
}

/// The node `op(a, b)` whose shared factor `spec_factor_pair` pulls out.
pub open spec fn factored_node(op: SymbolicFactorOp, a: Sx, b: Sx) -> Sx {
    match op {
        SymbolicFactorOp::Max => Sx::Binary(BinaryOp::Max, Box::new(a), Box::new(b)),
        SymbolicFactorOp::Min => Sx::Binary(BinaryOp::Min, Box::new(a), Box::new(b)),
        SymbolicFactorOp::Sub => Sx::Binary(BinaryOp::Sub, Box::new(a), Box::new(b)),
        SymbolicFactorOp::Div => Sx::Binary(BinaryOp::Div, Box::new(a), Box::new(b)),
    }
}

/// Pulling a shared factor out of `min` or `max` keeps the value: whenever
/// `min(ca * f, cb * f)` (or `max`) has a value under a binding of the
/// variables, the rewritten expression has the same rational value under it;
/// `min(3/2 * f, 2 * f)` becomes `3/2 * f`, since `f` is never negative.
pub proof fn law_factoring_min_max_keeps_value(
    op: SymbolicFactorOp,
    a: Sx,
    b: Sx,
    env: Seq<(Seq<char>, Num)>,
)
    requires
        op is Min || op is Max,
    ensures
        spec_factor_pair(op, a, b) matches Some(r) ==> (static_value_in(factored_node(op, a, b), env) matches Some(
            x,
        ) ==> static_value_in(r, env) matches Some(y) && y.same_value(x)),
{
    if spec_factor_pair(op, a, b) is Some && static_value_in(factored_node(op, a, b), env) is Some {
        let (ca, fa, ap) = spec_split_factor(a)->0;
        let (cb, fb, bp) = spec_split_factor(b)->0;
        lemma_same_same_value(fa, fb, env);
        lemma_split_value(a, env);
        lemma_split_value(b, env);
        let v = static_value_in(fa, env)->0;
        crate::sx::lemma_static_value_in_wf(fa, env);
        lemma_factor_nonnegative(fa, env);
        let xa = static_value_in(a, env)->0;
        let xb = static_value_in(b, env)->0;
        lemma_min_max_scaled(ca, cb, v, xa, xb);
        let m = if op is Min {
            ca.spec_min(cb)
        } else {
            ca.spec_max(cb)
        };
        let node = if op is Min {
            Sx::Binary(BinaryOp::Min, Box::new(Sx::Lit(ca)), Box::new(Sx::Lit(cb)))
        } else {
            Sx::Binary(BinaryOp::Max, Box::new(Sx::Lit(ca)), Box::new(Sx::Lit(cb)))
        };
        assert(ca.wf());
        assert(cb.wf());
        assert(static_value_in(Sx::Lit(ca), Seq::empty()) == Some(ca));
        assert(static_value_in(Sx::Lit(cb), Seq::empty()) == Some(cb));
        assert(crate::sx::static_value(node) == Some(m));
        assert(spec_fold_static(node) == Sx::Lit(m));
        lemma_scaled_value(m, fa, env);
        let y = static_value_in(spec_factor_pair(op, a, b)->0, env)->0;
        let x = static_value_in(factored_node(op, a, b), env)->0;
        assert(x == if op is Min { xa.spec_min(xb) } else { xa.spec_max(xb) });
        assert(m.den * v.den > 0) by (nonlinear_arith)
            requires
                m.den > 0,
                v.den > 0,
        ;
        lemma_denotes_same(y, x, m.numer() * v.numer(), m.den * v.den);
    }
}

/// The value of `m * f` as folding builds it, when it has one: `m` times the
/// factor's value.
pub proof fn lemma_scaled_value_if_any(m: Num, f: Sx, env: Seq<(Seq<char>, Num)>)
    requires
        m.wf(),
        !is_lit_like(f),
        static_value_in(f, env) is Some,
    ensures
        static_value_in(spec_fold_bin(crate::ast::BinOp::Mul, Sx::Lit(m), f), env) matches Some(y) ==> y.den > 0
            && denotes(y, m.numer() * static_value_in(f, env)->0.numer(), m.den * static_value_in(f, env)->0.den),
{
    let v = static_value_in(f, env)->0;
    if spec_make(m.numer() * v.numer(), m.den * v.den) is Some {
        lemma_scaled_value(m, f, env);
    } else if Sx::Lit(m) == Sx::Lit(Num::spec_one()) {
        assert(m.numer() == 1);
        crate::sx::lemma_static_value_in_wf(f, env);
        lemma_make_own(v);
        assert(m.numer() * v.numer() == v.numer()) by (nonlinear_arith)
            requires
                m.numer() == 1,
        ;
        assert(m.den * v.den == v.den) by (nonlinear_arith)
            requires
                m.den == 1,
        ;
    } else {
        vstd::arithmetic::mul::lemma_mul_is_commutative(v.numer(), m.numer());
        vstd::arithmetic::mul::lemma_mul_is_commutative(v.den as int, m.den as int);
        let (x, y) = spec_normalize_pair(Sx::Lit(m), f);
        assert((x == Sx::Lit(m) && y == f) || (x == f && y == Sx::Lit(m)));
        let e = Sx::Binary(BinaryOp::Mul, Box::new(x), Box::new(y));
        assert(static_value_in(Sx::Lit(m), env) == Some(m));
        assert(static_value_in(e, env) is None);
        assert(f != Sx::Lit(Num::spec_one()));
        assert(spec_fold_bin(crate::ast::BinOp::Mul, Sx::Lit(m), f) == e);
    }
}

proof fn lemma_difference_scaled(an: int, ad: int, bn: int, bd: int, p: int, q: int, r: int, t: int, m: int, e: int)
    requires
        an * (q * e) == (p * m) * ad,
        bn * (t * e) == (r * m) * bd,
    ensures
        (an * bd - bn * ad) * (q * t * e) == (p * t - r * q) * m * (ad * bd),
{
    assert((an * bd) * (q * t * e) == (an * (q * e)) * (bd * t)) by (nonlinear_arith);
    assert((bn * ad) * (q * t * e) == (bn * (t * e)) * (ad * q)) by (nonlinear_arith);
    assert((an * (q * e)) * (bd * t) == (p * m * ad) * (bd * t)) by (nonlinear_arith)
        requires
            an * (q * e) == (p * m) * ad,
    ;
    assert((bn * (t * e)) * (ad * q) == (r * m * bd) * (ad * q)) by (nonlinear_arith)
        requires
            bn * (t * e) == (r * m) * bd,
    ;
    assert((p * m * ad) * (bd * t) == (p * t) * (m * (ad * bd))) by (nonlinear_arith);
    assert((r * m * bd) * (ad * q) == (r * q) * (m * (ad * bd))) by (nonlinear_arith);
    assert((p * t) * (m * (ad * bd)) - (r * q) * (m * (ad * bd)) == (p * t - r * q) * (m * (ad * bd)))
        by (nonlinear_arith);
    assert((p * t - r * q) * (m * (ad * bd)) == (p * t - r * q) * m * (ad * bd)) by (nonlinear_arith);
    assert((an * bd - bn * ad) * (q * t * e) == (an * bd) * (q * t * e) - (bn * ad) * (q * t * e))
        by (nonlinear_arith);
}

proof fn lemma_scale_both(kn: int, kd: int, pn: int, pd: int, m: int, e: int)
    requires
        kn * pd == pn * kd,
    ensures
        (kn * m) * (pd * e) == (pn * m) * (kd * e),
{
    assert((kn * m) * (pd * e) == (kn * pd) * (m * e)) by (nonlinear_arith);
    assert((pn * m) * (kd * e) == (pn * kd) * (m * e)) by (nonlinear_arith);
}

/// The arithmetic of `law_factoring_difference_keeps_value`.
proof fn lemma_difference_values(
    xa: Num,
    xb: Num,
    ca: Num,
    cb: Num,
    v: Num,
    k: Num,
    y: Num,
    x: Num,
    xn: int,
    xd: int,
    tn: int,
    td: int,
)
    requires
        xa.den > 0,
        xb.den > 0,
        ca.den > 0,
        cb.den > 0,
        v.den > 0,
        k.den > 0,
        y.den > 0,
        x.den > 0,
        denotes(xa, ca.numer() * v.numer(), ca.den * v.den),
        denotes(xb, cb.numer() * v.numer(), cb.den * v.den),
        denotes(k, tn, td),
        denotes(y, k.numer() * v.numer(), k.den * v.den),
        denotes(x, xn, xd),
        xn == xa.numer() * xb.den - xb.numer() * xa.den,
        xd == xa.den * xb.den,
        tn == ca.numer() * cb.den - cb.numer() * ca.den,
        td == ca.den * cb.den,
    ensures
        y.same_value(x),
{
    lemma_scale_both(k.numer(), k.den as int, tn, td, v.numer(), v.den as int);
    assert(k.den * v.den > 0) by (nonlinear_arith)
        requires
            k.den > 0,
            v.den > 0,
    ;
    assert(td > 0) by (nonlinear_arith)
        requires
            ca.den > 0,
            cb.den > 0,
            td == ca.den * cb.den,
    ;
    assert(td * v.den > 0) by (nonlinear_arith)
        requires
            td > 0,
            v.den > 0,
    ;
    lemma_denotes_trans(y, k.numer() * v.numer(), k.den * v.den, tn * v.numer(), td * v.den);
    lemma_difference_scaled(
        xa.numer(),
        xa.den as int,
        xb.numer(),
        xb.den as int,
        ca.numer(),
        ca.den as int,
        cb.numer(),
        cb.den as int,
        v.numer(),
        v.den as int,
    );
    assert(xd > 0) by (nonlinear_arith)
        requires
            xa.den > 0,
            xb.den > 0,
            xd == xa.den * xb.den,
    ;
    assert((xn * (ca.den * cb.den * v.den)) == (tn * v.numer()) * xd);
    assert(td * v.den == ca.den * cb.den * v.den) by (nonlinear_arith)
        requires
            td == ca.den * cb.den,
    ;
    lemma_denotes_trans(x, xn, xd, tn * v.numer(), td * v.den);
    lemma_denotes_same(y, x, tn * v.numer(), td * v.den);
}

/// Pulling a shared factor out of a difference keeps the value: whenever
/// both `ca * f - cb * f` and its rewrite `(ca - cb) * f` have a value under
/// a binding of the variables, the two values are the same rational.
#[verifier::rlimit(40)]
pub proof fn law_factoring_difference_keeps_value(a: Sx, b: Sx, env: Seq<(Seq<char>, Num)>)
    ensures
        spec_factor_pair(SymbolicFactorOp::Sub, a, b) matches Some(r) ==> (static_value_in(
            factored_node(SymbolicFactorOp::Sub, a, b),
            env,
        ) matches Some(x) ==> (static_value_in(r, env) matches Some(y) ==> y.same_value(x))),
{
    let op = SymbolicFactorOp::Sub;
    if spec_factor_pair(op, a, b) is Some && static_value_in(factored_node(op, a, b), env) is Some
        && static_value_in(spec_factor_pair(op, a, b)->0, env) is Some {
        let (ca, fa, ap) = spec_split_factor(a)->0;
        let (cb, fb, bp) = spec_split_factor(b)->0;
        lemma_same_same_value(fa, fb, env);
        lemma_split_value(a, env);
        lemma_split_value(b, env);
        let v = static_value_in(fa, env)->0;
        crate::sx::lemma_static_value_in_wf(fa, env);
        let xa = static_value_in(a, env)->0;
        let xb = static_value_in(b, env)->0;
        crate::sx::lemma_static_value_in_wf(a, env);
        crate::sx::lemma_static_value_in_wf(b, env);
        let x = static_value_in(factored_node(op, a, b), env)->0;
        // x = xa - xb.
        let xn = xa.numer() * xb.den + xb.spec_neg().numer() * xa.den;
        let xd = xa.den * xb.den;
        assert(xb.spec_neg().numer() == -xb.numer());
        assert(xn == xa.numer() * xb.den - xb.numer() * xa.den) by (nonlinear_arith)
            requires
                xb.spec_neg().numer() == -xb.numer(),
                xn == xa.numer() * xb.den + xb.spec_neg().numer() * xa.den,
        ;
        assert(x == spec_make(xn, xd)->0);
        lemma_make_value(xn, xd);
        // The coefficient.
        let kx = spec_fold_bin(crate::ast::BinOp::Sub, Sx::Lit(ca), Sx::Lit(cb));
        let tn = ca.numer() * cb.den - cb.numer() * ca.den;
        let td = ca.den * cb.den;
        assert(td > 0) by (nonlinear_arith)
            requires
                ca.den > 0,
                cb.den > 0,
                td == ca.den * cb.den,
        ;
        let e = Sx::Binary(BinaryOp::Sub, Box::new(Sx::Lit(ca)), Box::new(Sx::Lit(cb)));
        assert(ca.wf());
        assert(cb.wf());
        assert(static_value_in(Sx::Lit(ca), env) == Some(ca));
        assert(static_value_in(Sx::Lit(cb), env) == Some(cb));
        assert(static_value_in(Sx::Lit(ca), Seq::empty()) == Some(ca));
        assert(static_value_in(Sx::Lit(cb), Seq::empty()) == Some(cb));
        assert(static_value_in(e, env) == ca.spec_sub(cb));
        assert(crate::sx::static_value(e) == ca.spec_sub(cb));
        assert(cb.spec_neg().numer() == -cb.numer());
        if Sx::Lit(cb) == Sx::Lit(Num::spec_zero()) {
            assert(kx == Sx::Lit(ca));
            assert(cb.numer() == 0);
            assert(denotes(ca, tn, td)) by (nonlinear_arith)
                requires
                    cb.numer() == 0,
                    cb.den == 1,
                    tn == ca.numer() * cb.den - cb.numer() * ca.den,
                    td == ca.den * cb.den,
            ;
        } else {
            assert(kx == spec_fold_static(e));
        }
        let r = spec_factor_pair(op, a, b)->0;
        assert(r == spec_fold_bin(crate::ast::BinOp::Mul, kx, fa));
        if kx is Lit {
            let k = kx->Lit_0;
            if Sx::Lit(cb) != Sx::Lit(Num::spec_zero()) {
                assert(crate::sx::static_value(e) == Some(k));
                assert(ca.spec_sub(cb) == Some(k));
                lemma_make_value(ca.numer() * cb.den + cb.spec_neg().numer() * ca.den, ca.den * cb.den);
                assert(ca.numer() * cb.den + cb.spec_neg().numer() * ca.den == tn) by (nonlinear_arith)
                    requires
                        cb.spec_neg().numer() == -cb.numer(),
                        tn == ca.numer() * cb.den - cb.numer() * ca.den,
                ;
            }
            assert(k.wf());
            assert(denotes(k, tn, td));
            lemma_scaled_value_if_any(k, fa, env);
            let y = static_value_in(r, env)->0;
            lemma_difference_values(xa, xb, ca, cb, v, k, y, x, xn, xd, tn, td);
        } else {
            assert(Sx::Lit(cb) != Sx::Lit(Num::spec_zero()));
            assert(crate::sx::static_value(e) is None);
            assert(kx == e);
            assert(static_value_in(e, env) is None);
            vstd::arithmetic::mul::lemma_mul_is_commutative(0, 0);
            let (p, q) = spec_normalize_pair(e, fa);
            assert((p == e && q == fa) || (p == fa && q == e));
        }
    }
}

/// A factor known to be positive has a positive value.
pub proof fn lemma_factor_positive(f: Sx, env: Seq<(Seq<char>, Num)>)
    requires
        spec_factor_sign(f) == Some(true),
        static_value_in(f, env) is Some,
    ensures
        static_value_in(f, env)->0.numer() > 0,
{
    crate::sx::lemma_static_value_in_wf(f, env);
    match f {
        Sx::Binary(BinaryOp::Max, a, b) => {
            let x = static_value_in(*a, env)->0;
            let y = static_value_in(*b, env)->0;
            crate::sx::lemma_static_value_in_wf(*a, env);
            crate::sx::lemma_static_value_in_wf(*b, env);
            if x.spec_lt(y) {
                assert(y.numer() > 0) by (nonlinear_arith)
                    requires
                        x.numer() * y.den < y.numer() * x.den,
                        x.numer() > 0 || y.numer() > 0,
                        x.den > 0,
                        y.den > 0,
                ;
            } else {
                assert(x.numer() > 0) by (nonlinear_arith)
                    requires
                        !(x.numer() * y.den < y.numer() * x.den),
                        x.numer() > 0 || y.numer() > 0,
                        x.den > 0,
                        y.den > 0,
                ;
            }
        },
        _ => {},
    }
}

/// A quotient's value, cross-multiplied: `z * (p.den * q) == (p * q.den) * z.den`.
pub proof fn lemma_div_cross(p: Num, q: Num)
    requires
        p.spec_div(q) is Some,
    ensures
        p.spec_div(q)->0.den > 0,
        q.numer() != 0,
        p.spec_div(q)->0.numer() * (p.den * q.numer()) == (p.numer() * q.den) * p.spec_div(q)->0.den,
{
    let z = p.spec_div(q)->0;
    if q.neg {
        lemma_make_value(-(p.numer() * q.den), p.den * q.mag);
        assert(z.numer() * (p.den * q.numer()) == (p.numer() * q.den) * z.den) by (nonlinear_arith)
            requires
                z.numer() * (p.den * q.mag) == -(p.numer() * q.den) * z.den,
                q.numer() == -(q.mag as int),
        ;
    } else {
        lemma_make_value(p.numer() * q.den, p.den * q.mag);
        assert(z.numer() * (p.den * q.numer()) == (p.numer() * q.den) * z.den) by (nonlinear_arith)
            requires
                z.numer() * (p.den * q.mag) == (p.numer() * q.den) * z.den,
                q.numer() == q.mag as int,
        ;
    }
}

proof fn lemma_swap_middle(a: int, b: int, c: int, d: int)
    by (nonlinear_arith)
    ensures
        (a * b) * (c * d) == (a * c) * (b * d),
{
}

proof fn lemma_swap_last(a: int, b: int, c: int)
    by (nonlinear_arith)
    ensures
        (a * b) * c == (a * c) * b,
{
}

proof fn lemma_regroup_pairs(a: int, b: int, c: int, d: int)
    by (nonlinear_arith)
    ensures
        (a * b) * (c * d) == (a * c) * (b * d),
        (a * b) * (c * d) == (b * c) * (a * d),
        (a * b) * (c * d) == (a * d) * (b * c),
{
}

proof fn lemma_cancel_factor(x: int, y: int, z: int)
    by (nonlinear_arith)
    requires
        x * z == y * z,
        z != 0,
    ensures
        x == y,
{
}

proof fn lemma_regroup_four(p: int, q: int, s: int, t: int, u: int, w: int)
    ensures
        (p * q * s * t) * (u * w) == (p * u * s) * (t * q * w),
{
    let a = p * s;
    let b = q * t;
    lemma_swap_middle(p, q, s, t);
    vstd::arithmetic::mul::lemma_mul_is_associative(p * q, s, t);
    assert(p * q * s * t == a * b);
    lemma_swap_last(p, u, s);
    assert(p * u * s == a * u);
    vstd::arithmetic::mul::lemma_mul_is_commutative(t, q);
    assert(t * q * w == b * w);
    lemma_swap_middle(a, b, u, w);
}

proof fn lemma_quotients_agree(
    yn: int,
    yd: int,
    xn: int,
    xd: int,
    an: int,
    ad: int,
    bn: int,
    bd: int,
    cn: int,
    cd: int,
    en: int,
    ed: int,
    vn: int,
    vd: int,
)
    requires
        yd > 0,
        xd > 0,
        ad > 0,
        bd > 0,
        cd > 0,
        ed > 0,
        vd > 0,
        vn > 0,
        en != 0,
        bn != 0,
        yn * (cd * en) == (cn * ed) * yd,
        xn * (ad * bn) == (an * bd) * xd,
        an * (cd * vd) == (cn * vn) * ad,
        bn * (ed * vd) == (en * vn) * bd,
    ensures
        yn * xd == xn * yd,
{
    let l = cn * ed * ad * bn;
    let r = an * bd * cd * en;
    lemma_regroup_four(cn, ed, ad, bn, vn, vd);
    lemma_regroup_four(en, cd, bd, an, vn, vd);
    assert(r == en * cd * bd * an) by (nonlinear_arith)
        requires
            r == an * bd * cd * en,
    ;
    assert(l * (vn * vd) == (cn * vn * ad) * (bn * ed * vd));
    assert(r * (vn * vd) == (en * vn * bd) * (an * cd * vd));
    assert(cn * vn * ad == an * cd * vd) by (nonlinear_arith)
        requires
            an * (cd * vd) == (cn * vn) * ad,
    ;
    assert(en * vn * bd == bn * ed * vd) by (nonlinear_arith)
        requires
            bn * (ed * vd) == (en * vn) * bd,
    ;
    assert(l * (vn * vd) == r * (vn * vd)) by (nonlinear_arith)
        requires
            l * (vn * vd) == (cn * vn * ad) * (bn * ed * vd),
            r * (vn * vd) == (en * vn * bd) * (an * cd * vd),
            cn * vn * ad == an * cd * vd,
            en * vn * bd == bn * ed * vd,
    ;
    assert(vn * vd > 0) by (nonlinear_arith)
        requires
            vn > 0,
            vd > 0,
    ;
    assert(l == r) by (nonlinear_arith)
        requires
            l * (vn * vd) == r * (vn * vd),
            vn * vd > 0,
    ;
    let pp = cd * en;
    let qq = ad * bn;
    let ll = cn * ed;
    let rr = an * bd;
    vstd::arithmetic::mul::lemma_mul_is_associative(ll, ad, bn);
    vstd::arithmetic::mul::lemma_mul_is_associative(rr, cd, en);
    assert(ll * qq == rr * pp);
    lemma_regroup_pairs(yn, xd, pp, qq);
    lemma_regroup_pairs(ll, yd, xd, qq);
    assert((yn * xd) * (pp * qq) == (yd * xd) * (ll * qq));
    lemma_regroup_pairs(xn, yd, pp, qq);
    lemma_regroup_pairs(rr, xd, yd, pp);
    vstd::arithmetic::mul::lemma_mul_is_commutative(xd, yd);
    assert((xn * yd) * (pp * qq) == (yd * xd) * (rr * pp));
    assert(pp * qq != 0) by (nonlinear_arith)
        requires
            pp == cd * en,
            qq == ad * bn,
            cd > 0,
            ad > 0,
            en != 0,
            bn != 0,
    ;
    lemma_cancel_factor(yn * xd, xn * yd, pp * qq);
}

/// Pulling a shared positive factor out of a quotient keeps the value:
/// whenever both `(ca * f) / (cb * f)` and its rewrite `ca / cb` have a
/// value under a binding of the variables, the two values are the same
/// rational.
#[verifier::rlimit(40)]
pub proof fn law_factoring_quotient_keeps_value(a: Sx, b: Sx, env: Seq<(Seq<char>, Num)>)
    ensures
        spec_factor_pair(SymbolicFactorOp::Div, a, b) matches Some(r) ==> (static_value_in(
            factored_node(SymbolicFactorOp::Div, a, b),
            env,
        ) matches Some(x) ==> (static_value_in(r, env) matches Some(y) ==> y.same_value(x))),
{
    let op = SymbolicFactorOp::Div;
    if spec_factor_pair(op, a, b) is Some && static_value_in(factored_node(op, a, b), env) is Some
        && static_value_in(spec_factor_pair(op, a, b)->0, env) is Some {
        let (ca, fa, ap) = spec_split_factor(a)->0;
        let (cb, fb, bp) = spec_split_factor(b)->0;
        lemma_same_same_value(fa, fb, env);
        lemma_split_value(a, env);
        lemma_split_value(b, env);
        let v = static_value_in(fa, env)->0;
        crate::sx::lemma_static_value_in_wf(fa, env);
        assert(ap);
        assert(spec_factor_sign(fa) == Some(true));
        lemma_factor_positive(fa, env);
        let xa = static_value_in(a, env)->0;
        let xb = static_value_in(b, env)->0;
        let x = static_value_in(factored_node(op, a, b), env)->0;
        assert(x == xa.spec_div(xb)->0);
        lemma_div_cross(xa, xb);
        let r = spec_factor_pair(op, a, b)->0;
        let y = static_value_in(r, env)->0;
        assert(ca.wf());
        assert(cb.wf());
        assert(static_value_in(Sx::Lit(ca), env) == Some(ca));
        assert(static_value_in(Sx::Lit(cb), env) == Some(cb));
        assert(static_value_in(Sx::Lit(ca), Seq::empty()) == Some(ca));
        assert(static_value_in(Sx::Lit(cb), Seq::empty()) == Some(cb));
        let e = Sx::Binary(BinaryOp::Div, Box::new(Sx::Lit(ca)), Box::new(Sx::Lit(cb)));
        if Sx::Lit(cb) == Sx::Lit(Num::spec_one()) {
            assert(r == Sx::Lit(ca));
            assert(y == ca);
            assert(y.numer() * (ca.den * cb.numer()) == (ca.numer() * cb.den) * y.den) by (nonlinear_arith)
                requires
                    y == ca,
                    cb.numer() == 1,
                    cb.den == 1,
            ;
        } else {
            assert(r == spec_fold_static(e));
            assert(crate::sx::static_value(e) == ca.spec_div(cb));
            if crate::sx::static_value(e) is None {
                assert(r == e);
                assert(static_value_in(e, env) is None);
            }
            assert(ca.spec_div(cb) == Some(y));
            lemma_div_cross(ca, cb);
        }
        crate::sx::lemma_static_value_in_wf(r, env);
        crate::sx::lemma_static_value_in_wf(factored_node(op, a, b), env);
        lemma_quotients_agree(
            y.numer(),
            y.den as int,
            x.numer(),
            x.den as int,
            xa.numer(),
            xa.den as int,
            xb.numer(),
            xb.den as int,
            ca.numer(),
            ca.den as int,
            cb.numer(),
            cb.den as int,
            v.numer(),
            v.den as int,
        );
    }
}

} // verus!
