//! Local rewrites of symbolic expressions: literal folding, safe identities,
//! canonical operand order for commutative operators, shared-factor rewrites,
//! and scalar-kind promotion.
use vstd::prelude::*;
use crate::ast::BinOp;
use crate::checker::Checker;
use crate::num::{Num, spec_make, lemma_make_value};
use crate::sx::{BinaryOp, EntryInput, Sx, SxArgs, SxVec, TernaryOp, UnaryOp, static_value};
use crate::value::{ColorSpace, ScalarKind, Value};

verus! {

/// Operators whose shared factor can be pulled out of both operands.
#[derive(Clone, Copy, Debug, PartialEq, Eq, Structural)]
pub enum SymbolicFactorOp {
    Max,
    Min,
    Sub,
    Div,
}

pub open spec fn is_lit_like(sx: Sx) -> bool {
    sx is Lit || sx is PxLit
}

/// The literal for a static expression, else the expression itself.
pub open spec fn spec_fold_static(sx: Sx) -> Sx {
    match static_value(sx) {
        Some(v) => Sx::Lit(v),
        None => sx,
    }
}

/// Sort rank: literals, then leaves, unary, binary, and everything wider.
pub open spec fn spec_rank(sx: Sx) -> u8 {
    match sx {
        Sx::Lit(_) | Sx::PxLit(_) => 0,
        Sx::Unary(..) => 2,
        Sx::Binary(..) => 3,
        Sx::Ternary(..) | Sx::Dot(..) | Sx::Length(..) | Sx::UserCall { .. } | Sx::Let { .. } => 4,
        _ => 1,
    }
}

pub open spec fn unary_code(op: UnaryOp) -> u64 {
    match op {
        UnaryOp::Neg => 0,
        UnaryOp::Sin => 1,
        UnaryOp::Cos => 2,
        UnaryOp::Tan => 3,
        UnaryOp::Asin => 4,
        UnaryOp::Acos => 5,
        UnaryOp::Atan => 6,
        UnaryOp::Sqrt => 7,
        UnaryOp::InverseSqrt => 8,
        UnaryOp::Fract => 9,
        UnaryOp::Abs => 10,
        UnaryOp::Sign => 11,
        UnaryOp::Floor => 12,
        UnaryOp::Ceil => 13,
        UnaryOp::Round => 14,
        UnaryOp::Trunc => 15,
        UnaryOp::Exp => 16,
        UnaryOp::Exp2 => 17,
        UnaryOp::Log => 18,
        UnaryOp::Log2 => 19,
        UnaryOp::Ddx => 20,
        UnaryOp::Ddy => 21,
        UnaryOp::Fwidth => 22,
        UnaryOp::SrgbToLinear => 23,
        UnaryOp::LinearToSrgb => 24,
    }
}

pub open spec fn binary_code(op: BinaryOp) -> u64 {
    match op {
        BinaryOp::Add => 0,
        BinaryOp::Sub => 1,
        BinaryOp::Mul => 2,
        BinaryOp::Div => 3,
        BinaryOp::Lt => 4,
        BinaryOp::Le => 5,
        BinaryOp::Gt => 6,
        BinaryOp::Ge => 7,
        BinaryOp::Eq => 8,
        BinaryOp::Ne => 9,
        BinaryOp::Atan2 => 10,
        BinaryOp::Pow => 11,
        BinaryOp::Min => 12,
        BinaryOp::Max => 13,
        BinaryOp::Step => 14,
    }
}

pub open spec fn ternary_code(op: TernaryOp) -> u64 {
    match op {
        TernaryOp::Clamp => 0,
        TernaryOp::Mix => 1,
        TernaryOp::Select => 2,
        TernaryOp::SmoothStep => 3,
    }
}

pub open spec fn entry_code(e: EntryInput) -> u64 {
    match e {
        EntryInput::Time => 0,
        EntryInput::Delta => 1,
        EntryInput::ResolutionX => 2,
        EntryInput::ResolutionY => 3,
    }
}

/// Words of a name: its length, then each character's code.
pub open spec fn str_words(s: Seq<char>) -> Seq<u64> {
    seq![s.len() as u64] + Seq::new(s.len(), |i: int| s[i] as u64)
}

/// A stable word encoding of an expression tree, in preorder.
pub open spec fn sx_words(sx: Sx) -> Seq<u64>
    decreases sx,
{
    match sx {
        Sx::Lit(v) => seq![1u64, if v.neg { 1u64 } else { 0u64 }, v.mag, v.den],
        Sx::PxLit(v) => seq![2u64, if v.neg { 1u64 } else { 0u64 }, v.mag, v.den],
        Sx::EntryInput(e) => seq![3u64, entry_code(e)],
        Sx::UniformField { binding_name, field_name, field_index, component } => seq![4u64]
            + str_words(binding_name@) + str_words(field_name@) + seq![field_index as u64]
            + match component {
            Some(c) => seq![1u64, c as u64],
            None => seq![0u64],
        },
        Sx::CoordX => seq![5u64],
        Sx::CoordY => seq![6u64],
        Sx::PostColorR => seq![7u64],
        Sx::PostColorG => seq![8u64],
        Sx::PostColorB => seq![9u64],
        Sx::PostColorA => seq![10u64],
        Sx::Param(s) => seq![11u64] + str_words(s@),
        Sx::Var(s) => seq![12u64] + str_words(s@),
        Sx::TexChannel { texture, channel } => seq![13u64] + str_words(texture@) + seq![
            channel as u64,
        ],
        Sx::Unary(op, a) => seq![14u64, unary_code(op)] + sx_words(*a),
        Sx::Binary(op, a, b) => seq![15u64, binary_code(op)] + sx_words(*a) + sx_words(*b),
        Sx::Ternary(op, a, b, c) => seq![16u64, ternary_code(op)] + sx_words(*a) + sx_words(*b)
            + sx_words(*c),
        Sx::Dot(a, b) => seq![17u64] + vec_words(a) + vec_words(b),
        Sx::Length(v) => seq![18u64] + vec_words(v),
        Sx::UserCall { helper_id, args } => seq![19u64] + str_words(helper_id@) + args_words(args),
        Sx::Let { name, value, body } => seq![20u64] + str_words(name@) + sx_words(*value)
            + sx_words(*body),
    }
}

pub open spec fn vec_words(v: SxVec) -> Seq<u64>
    decreases v,
{
    match v {
        SxVec::V2(a, b) => seq![2u64] + sx_words(*a) + sx_words(*b),
        SxVec::V3(a, b, c) => seq![3u64] + sx_words(*a) + sx_words(*b) + sx_words(*c),
        SxVec::V4(a, b, c, d) => seq![4u64] + sx_words(*a) + sx_words(*b) + sx_words(*c)
            + sx_words(*d),
    }
}

pub open spec fn args_words(args: SxArgs) -> Seq<u64>
    decreases args,
{
    match args {
        SxArgs::Nil => seq![0u64],
        SxArgs::Cons(a, rest) => seq![1u64] + sx_words(*a) + args_words(*rest),
    }
}

pub open spec fn fnv_prime() -> u64 {
    0x100000001b3u64
}

pub open spec fn fnv_offset() -> u64 {
    0xcbf29ce484222325u64
}

/// FNV-style word hash, folding from the front.
pub open spec fn fnv(h: u64, ws: Seq<u64>) -> u64
    decreases ws.len(),
{
    if ws.len() == 0 {
        h
    } else {
        fnv((h ^ ws[0]).wrapping_mul(fnv_prime()), ws.drop_first())
    }
}

pub proof fn lemma_fnv_append(h: u64, a: Seq<u64>, b: Seq<u64>)
    ensures
        fnv(h, a + b) == fnv(fnv(h, a), b),
    decreases a.len(),
{
    if a.len() > 0 {
        assert((a + b).drop_first() =~= a.drop_first() + b);
        lemma_fnv_append((h ^ a[0]).wrapping_mul(fnv_prime()), a.drop_first(), b);
    } else {
        assert(a + b =~= b);
    }
}

/// The sort key: rank first, then a stable hash of the tree.
pub open spec fn spec_sort_key(sx: Sx) -> (u8, u64) {
    (spec_rank(sx), fnv(fnv_offset(), sx_words(sx)))
}

pub open spec fn key_le(a: (u8, u64), b: (u8, u64)) -> bool {
    a.0 < b.0 || (a.0 == b.0 && a.1 <= b.1)
}

pub open spec fn spec_normalize_pair(a: Sx, b: Sx) -> (Sx, Sx) {
    if key_le(spec_sort_key(a), spec_sort_key(b)) {
        (a, b)
    } else {
        (b, a)
    }
}

pub open spec fn spec_positive_constant(sx: Sx) -> bool {
    match sx {
        Sx::Lit(v) | Sx::PxLit(v) => v.den > 0 && v.is_positive(),
        _ => false,
    }
}

/// `Some(true)` when the expression is provably positive, `Some(false)` when
/// provably nonnegative, `None` when unknown (literals are never factors).
pub open spec fn spec_factor_sign(sx: Sx) -> Option<bool>
    decreases sx,
{
    if is_lit_like(sx) {
        None
    } else {
        match sx {
            Sx::Unary(UnaryOp::Abs, _) | Sx::Unary(UnaryOp::Sqrt, _) | Sx::Length(_) => Some(false),
            Sx::Binary(BinaryOp::Max, a, b) => {
                if spec_positive_constant(*a) || spec_positive_constant(*b) {
                    Some(true)
                } else if spec_factor_sign(*a) is Some || spec_factor_sign(*b) is Some {
                    Some(false)
                } else {
                    None
                }
            },
            _ => None,
        }
    }
}

/// Splits `coef * factor` (or a bare factor, coefficient 1) with the factor's sign.
pub open spec fn spec_split_factor(sx: Sx) -> Option<(Num, Sx, bool)> {
    match sx {
        Sx::Binary(BinaryOp::Mul, a, b) => {
            if let Sx::Lit(coef) = *a {
                match spec_factor_sign(*b) {
                    Some(sign) => Some((coef, *b, sign)),
                    None => None,
                }
            } else if let Sx::Lit(coef) = *b {
                match spec_factor_sign(*a) {
                    Some(sign) => Some((coef, *a, sign)),
                    None => None,
                }
            } else {
                None
            }
        },
        _ => match spec_factor_sign(sx) {
            Some(sign) => Some((Num::spec_one(), sx, sign)),
            None => None,
        },
    }
}

pub open spec fn arith_binary(op: BinOp) -> BinaryOp
    recommends
        op.is_arith(),
{
    match op {
        BinOp::Add => BinaryOp::Add,
        BinOp::Sub => BinaryOp::Sub,
        BinOp::Mul => BinaryOp::Mul,
        _ => BinaryOp::Div,
    }
}

/// Arithmetic with safe identities removed, commutative operands ordered, and
/// all-literal operands folded.
pub open spec fn spec_fold_bin(op: BinOp, a: Sx, b: Sx) -> Sx
    recommends
        op.is_arith(),
{
    if op is Sub && b == Sx::Lit(Num::spec_zero()) {
        a
    } else if op is Mul && a == Sx::Lit(Num::spec_one()) {
        b
    } else if op is Mul && b == Sx::Lit(Num::spec_one()) {
        a
    } else if op is Div && b == Sx::Lit(Num::spec_one()) {
        a
    } else {
        let (x, y) = if op is Add || op is Mul {
            spec_normalize_pair(a, b)
        } else {
            (a, b)
        };
        let e = Sx::Binary(arith_binary(op), Box::new(x), Box::new(y));
        if is_lit_like(x) && is_lit_like(y) {
            spec_fold_static(e)
        } else {
            e
        }
    }
}

/// `x - floor(x / m) * m`, with the arithmetic rewrites applied.
pub open spec fn spec_mod_floor(x: Sx, m: Sx) -> Sx {
    spec_fold_bin(
        BinOp::Sub,
        x,
        spec_fold_bin(
            BinOp::Mul,
            Sx::Unary(UnaryOp::Floor, Box::new(Sx::Binary(BinaryOp::Div, Box::new(x), Box::new(m)))),
            m,
        ),
    )
}

/// `h` is `sx` as it is shared before being copied into several lanes: a
/// leaf stays as it is, a compound expression is bound once to the fresh
/// name numbered `n`.
pub open spec fn hoisted_as(sx: Sx, n: nat, h: Sx) -> bool {
    if sx.spec_has_child() {
        h matches Sx::Let { name, value, body } && name@ == "__bcast_"@ + crate::text::spec_decimal(n)
            && *value == sx && *body == Sx::Var(name)
    } else {
        h == sx
    }
}

pub open spec fn spec_factor_pair(op: SymbolicFactorOp, a: Sx, b: Sx) -> Option<Sx> {
    match (spec_split_factor(a), spec_split_factor(b)) {
        (Some((ca, fa, ap)), Some((cb, fb, bp))) => {
            if !crate::same::spec_same(fa, fb) {
                None
            } else {
                match op {
                    SymbolicFactorOp::Max => if !(ap || bp || spec_factor_sign(fa) is Some) {
                        None
                    } else {
                        Some(
                            spec_fold_bin(
                                BinOp::Mul,
                                spec_fold_static(
                                    Sx::Binary(
                                        BinaryOp::Max,
                                        Box::new(Sx::Lit(ca)),
                                        Box::new(Sx::Lit(cb)),
                                    ),
                                ),
                                fa,
                            ),
                        )
                    },
                    SymbolicFactorOp::Min => if !(ap || bp || spec_factor_sign(fa) is Some) {
                        None
                    } else {
                        Some(
                            spec_fold_bin(
                                BinOp::Mul,
                                spec_fold_static(
                                    Sx::Binary(
                                        BinaryOp::Min,
                                        Box::new(Sx::Lit(ca)),
                                        Box::new(Sx::Lit(cb)),
                                    ),
                                ),
                                fa,
                            ),
                        )
                    },
                    SymbolicFactorOp::Sub => if !(ap || bp || spec_factor_sign(fa) is Some) {
                        None
                    } else {
                        Some(
                            spec_fold_bin(
                                BinOp::Mul,
                                spec_fold_bin(BinOp::Sub, Sx::Lit(ca), Sx::Lit(cb)),
                                fa,
                            ),
                        )
                    },
                    SymbolicFactorOp::Div => if !(ap && bp) {
                        None
                    } else {
                        Some(spec_fold_bin(BinOp::Div, Sx::Lit(ca), Sx::Lit(cb)))
                    },
                }
            }
        },
        _ => None,
    }
}

pub open spec fn spec_promoted_kind(op: BinOp, lhs: ScalarKind, rhs: ScalarKind) -> Option<
    ScalarKind,
> {
    if lhs == rhs {
        Some(lhs)
    } else if lhs is Plain {
        Some(rhs)
    } else if rhs is Plain {
        Some(lhs)
    } else if op is Mul || op is Div {
        if (lhs is Distance && (rhs is Coverage || rhs is Mask)) || (rhs is Distance && (
        lhs is Coverage || lhs is Mask)) {
            Some(ScalarKind::Distance)
        } else if (lhs is Coverage && rhs is Mask) || (lhs is Mask && rhs is Coverage) {
            Some(ScalarKind::Coverage)
        } else {
            None
        }
    } else {
        None
    }
}

pub open spec fn spec_scalar_value(kind: ScalarKind, sx: Sx) -> Value {
    match kind {
        ScalarKind::Plain => Value::Scalar(sx),
        ScalarKind::Distance => Value::Distance(sx),
        ScalarKind::Coverage => Value::Coverage(sx),
        ScalarKind::Mask => Value::Mask(sx),
    }
}

pub open spec fn spec_color_to_field(c: [Num; 4]) -> [Sx; 4] {
    [Sx::Lit(c[0]), Sx::Lit(c[1]), Sx::Lit(c[2]), Sx::Lit(c[3])]
}

pub open spec fn spec_working_space(rgba: [Sx; 4], space: ColorSpace) -> [Sx; 4] {
    if space is Linear {
        rgba
    } else {
        [
            Sx::Unary(UnaryOp::SrgbToLinear, Box::new(rgba[0])),
            Sx::Unary(UnaryOp::SrgbToLinear, Box::new(rgba[1])),
            Sx::Unary(UnaryOp::SrgbToLinear, Box::new(rgba[2])),
            rgba[3],
        ]
    }
}

/// The literal denotes zero.
pub open spec fn lit_is_zero(sx: Sx) -> bool {
    sx matches Sx::Lit(v) && v.mag == 0
}

/// The literal denotes one.
pub open spec fn lit_is_one(sx: Sx) -> bool {
    sx matches Sx::Lit(v) && !v.neg && v.mag == v.den && v.den > 0
}

pub open spec fn spec_mask_and(a: Sx, b: Sx) -> Sx {
    if lit_is_zero(a) || lit_is_zero(b) {
        Sx::Lit(Num::spec_zero())
    } else if lit_is_one(a) {
        b
    } else if lit_is_one(b) {
        a
    } else {
        Sx::Binary(BinaryOp::Mul, Box::new(a), Box::new(b))
    }
}

pub open spec fn spec_mask_not(a: Sx) -> Sx {
    let sym = Sx::Binary(BinaryOp::Sub, Box::new(Sx::Lit(Num::spec_one())), Box::new(a));
    match a {
        Sx::Lit(v) => if v.wf() {
            match Num::spec_one().spec_sub(v) {
                Some(w) => Sx::Lit(w),
                None => sym,
            }
        } else {
            sym
        },
        _ => sym,
    }
}

pub open spec fn spec_mask_or(a: Option<Sx>, b: Sx) -> Sx {
    match a {
        None => b,
        Some(a) => spec_mask_not(spec_mask_and(spec_mask_not(a), spec_mask_not(b))),
    }
}

/// A 0/1 mask from a truthy scalar: static conditions fold, others become
/// `min(1, abs(sign(cond)))`.
pub open spec fn spec_cond_mask(cond: Sx) -> Sx {
    match static_value(cond) {
        Some(v) => if v.mag != 0 {
            Sx::Lit(Num::spec_one())
        } else {
            Sx::Lit(Num::spec_zero())
        },
        None => Sx::Binary(
            BinaryOp::Min,
            Box::new(Sx::Lit(Num::spec_one())),
            Box::new(
                Sx::Unary(UnaryOp::Abs, Box::new(Sx::Unary(UnaryOp::Sign, Box::new(cond)))),
            ),
        ),
    }
}

/// A literal condition picks a branch; otherwise a lane `select`.
pub open spec fn spec_select_on_cond(cond: Sx, then_value: Sx, else_value: Sx) -> Sx {
    match cond {
        Sx::Lit(v) => if v.mag != 0 {
            then_value
        } else {
            else_value
        },
        _ => Sx::Ternary(
            TernaryOp::Select,
            Box::new(else_value),
            Box::new(then_value),
            Box::new(cond),
        ),
    }
}

pub fn str_words_hash(h: u64, s: &String) -> (r: u64)
    ensures
        r == fnv(h, str_words(s@)),
{
    let cs = crate::text::chars_of(s.as_str());
    let n = cs.len();
    let mut acc = step(h, n as u64);
    let ghost words = str_words(s@);
    let ghost tail = Seq::new(s@.len(), |i: int| s@[i] as u64);
    assert(words =~= seq![n as u64] + tail);
    proof {
        lemma_fnv_append(h, seq![n as u64], tail);
        assert(tail.skip(0) =~= tail);
    }
    let mut i: usize = 0;
    while i < n
        invariant
            n == cs@.len(),
            cs@ == s@,
            i <= n,
            tail == Seq::new(s@.len(), |i: int| s@[i] as u64),
            fnv(h, words) == fnv(acc, tail.skip(i as int)),
        decreases n - i,
    {
        let w = cs[i] as u64;
        proof {
            assert(seq![w] + tail.skip(i + 1) =~= tail.skip(i as int));
            lemma_fnv_append(acc, seq![w], tail.skip(i + 1));
        }
        acc = step(acc, w);
        i += 1;
    }
    proof {
        let e = tail.skip(n as int);
        assert(e.len() == 0);
    }
    acc
}

pub fn step(h: u64, w: u64) -> (r: u64)
    ensures
        r == fnv(h, seq![w]),
{
    let r = (h ^ w).wrapping_mul(0x100000001b3u64);
    proof {
        reveal_with_fuel(fnv, 2);
        assert(seq![w].drop_first() =~= Seq::<u64>::empty());
        assert(fnv(r, Seq::<u64>::empty()) == r);
    }
    r
}

pub fn step_seq2(h: u64, a: u64, b: u64) -> (r: u64)
    ensures
        r == fnv(h, seq![a, b]),
{
    proof {
        lemma_fnv_append(h, seq![a], seq![b]);
        assert(seq![a] + seq![b] =~= seq![a, b]);
    }
    step(step(h, a), b)
}

pub fn unary_code_exec(op: UnaryOp) -> (r: u64)
    ensures
        r == unary_code(op),
{
    match op {
        UnaryOp::Neg => 0,
        UnaryOp::Sin => 1,
        UnaryOp::Cos => 2,
        UnaryOp::Tan => 3,
        UnaryOp::Asin => 4,
        UnaryOp::Acos => 5,
        UnaryOp::Atan => 6,
        UnaryOp::Sqrt => 7,
        UnaryOp::InverseSqrt => 8,
        UnaryOp::Fract => 9,
        UnaryOp::Abs => 10,
        UnaryOp::Sign => 11,
        UnaryOp::Floor => 12,
        UnaryOp::Ceil => 13,
        UnaryOp::Round => 14,
        UnaryOp::Trunc => 15,
        UnaryOp::Exp => 16,
        UnaryOp::Exp2 => 17,
        UnaryOp::Log => 18,
        UnaryOp::Log2 => 19,
        UnaryOp::Ddx => 20,
        UnaryOp::Ddy => 21,
        UnaryOp::Fwidth => 22,
        UnaryOp::SrgbToLinear => 23,
        UnaryOp::LinearToSrgb => 24,
    }
}

pub fn binary_code_exec(op: BinaryOp) -> (r: u64)
    ensures
        r == binary_code(op),
{
    match op {
        BinaryOp::Add => 0,
        BinaryOp::Sub => 1,
        BinaryOp::Mul => 2,
        BinaryOp::Div => 3,
        BinaryOp::Lt => 4,
        BinaryOp::Le => 5,
        BinaryOp::Gt => 6,
        BinaryOp::Ge => 7,
        BinaryOp::Eq => 8,
        BinaryOp::Ne => 9,
        BinaryOp::Atan2 => 10,
        BinaryOp::Pow => 11,
        BinaryOp::Min => 12,
        BinaryOp::Max => 13,
        BinaryOp::Step => 14,
    }
}

pub fn ternary_code_exec(op: TernaryOp) -> (r: u64)
    ensures
        r == ternary_code(op),
{
    match op {
        TernaryOp::Clamp => 0,
        TernaryOp::Mix => 1,
        TernaryOp::Select => 2,
        TernaryOp::SmoothStep => 3,
    }
}

pub fn entry_code_exec(e: EntryInput) -> (r: u64)
    ensures
        r == entry_code(e),
{
    match e {
        EntryInput::Time => 0,
        EntryInput::Delta => 1,
        EntryInput::ResolutionX => 2,
        EntryInput::ResolutionY => 3,
    }
}

/// Continues the hash `h` over the words of `sx`.
pub fn hash_sx(h: u64, sx: &Sx) -> (r: u64)
    ensures
        r == fnv(h, sx_words(*sx)),
    decreases sx,
{
    match sx {
        Sx::Lit(v) | Sx::PxLit(v) => {
            let tag: u64 = if matches!(sx, Sx::Lit(_)) { 1 } else { 2 };
            let n: u64 = if v.neg { 1 } else { 0 };
            proof {
                lemma_fnv_append(h, seq![tag, n], seq![v.mag, v.den]);
                assert(seq![tag, n] + seq![v.mag, v.den] =~= seq![tag, n, v.mag, v.den]);
            }
            step_seq2(step_seq2(h, tag, n), v.mag, v.den)
        },
        Sx::EntryInput(e) => step_seq2(h, 3, entry_code_exec(*e)),
        Sx::UniformField { binding_name, field_name, field_index, component } => {
            let h1 = step(h, 4);
            let h2 = str_words_hash(h1, binding_name);
            let h3 = str_words_hash(h2, field_name);
            let h4 = step(h3, *field_index as u64);
            let ghost tail = match *component {
                Some(c) => seq![1u64, c as u64],
                None => seq![0u64],
            };
            let h5 = match component {
                Some(c) => step_seq2(h4, 1, *c as u64),
                None => step(h4, 0),
            };
            proof {
                let w0 = seq![4u64];
                let w1 = str_words(binding_name@);
                let w2 = str_words(field_name@);
                let w3 = seq![*field_index as u64];
                lemma_fnv_append(h, w0, w1);
                lemma_fnv_append(h, w0 + w1, w2);
                lemma_fnv_append(h, w0 + w1 + w2, w3);
                lemma_fnv_append(h, w0 + w1 + w2 + w3, tail);
            }
            h5
        },
        Sx::CoordX => step(h, 5),
        Sx::CoordY => step(h, 6),
        Sx::PostColorR => step(h, 7),
        Sx::PostColorG => step(h, 8),
        Sx::PostColorB => step(h, 9),
        Sx::PostColorA => step(h, 10),
        Sx::Param(s) | Sx::Var(s) => {
            let tag: u64 = if matches!(sx, Sx::Param(_)) { 11 } else { 12 };
            proof {
                lemma_fnv_append(h, seq![tag], str_words(s@));
            }
            str_words_hash(step(h, tag), s)
        },
        Sx::TexChannel { texture, channel } => {
            proof {
                lemma_fnv_append(h, seq![13u64], str_words(texture@));
                lemma_fnv_append(h, seq![13u64] + str_words(texture@), seq![*channel as u64]);
            }
            step(str_words_hash(step(h, 13), texture), *channel as u64)
        },
        Sx::Unary(op, a) => {
            proof {
                lemma_fnv_append(h, seq![14u64, unary_code(*op)], sx_words(**a));
            }
            hash_sx(step_seq2(h, 14, unary_code_exec(*op)), a)
        },
        Sx::Binary(op, a, b) => {
            let ghost w0 = seq![15u64, binary_code(*op)];
            proof {
                lemma_fnv_append(h, w0, sx_words(**a));
                lemma_fnv_append(h, w0 + sx_words(**a), sx_words(**b));
            }
            hash_sx(hash_sx(step_seq2(h, 15, binary_code_exec(*op)), a), b)
        },
        Sx::Ternary(op, a, b, c) => {
            let ghost w0 = seq![16u64, ternary_code(*op)];
            proof {
                lemma_fnv_append(h, w0, sx_words(**a));
                lemma_fnv_append(h, w0 + sx_words(**a), sx_words(**b));
                lemma_fnv_append(h, w0 + sx_words(**a) + sx_words(**b), sx_words(**c));
            }
            hash_sx(hash_sx(hash_sx(step_seq2(h, 16, ternary_code_exec(*op)), a), b), c)
        },
        Sx::Dot(a, b) => {
            proof {
                lemma_fnv_append(h, seq![17u64], vec_words(*a));
                lemma_fnv_append(h, seq![17u64] + vec_words(*a), vec_words(*b));
            }
            hash_vec(hash_vec(step(h, 17), a), b)
        },
        Sx::Length(v) => {
            proof {
                lemma_fnv_append(h, seq![18u64], vec_words(*v));
            }
            hash_vec(step(h, 18), v)
        },
        Sx::UserCall { helper_id, args } => {
            proof {
                lemma_fnv_append(h, seq![19u64], str_words(helper_id@));
                lemma_fnv_append(h, seq![19u64] + str_words(helper_id@), args_words(*args));
            }
            hash_args(str_words_hash(step(h, 19), helper_id), args)
        },
        Sx::Let { name, value, body } => {
            let ghost w0 = seq![20u64];
            proof {
                lemma_fnv_append(h, w0, str_words(name@));
                lemma_fnv_append(h, w0 + str_words(name@), sx_words(**value));
                lemma_fnv_append(
                    h,
                    w0 + str_words(name@) + sx_words(**value),
                    sx_words(**body),
                );
            }
            hash_sx(hash_sx(str_words_hash(step(h, 20), name), value), body)
        },
    }
}

pub fn hash_vec(h: u64, v: &SxVec) -> (r: u64)
    ensures
        r == fnv(h, vec_words(*v)),
    decreases v,
{
    match v {
        SxVec::V2(a, b) => {
            proof {
                lemma_fnv_append(h, seq![2u64], sx_words(**a));
                lemma_fnv_append(h, seq![2u64] + sx_words(**a), sx_words(**b));
            }
            hash_sx(hash_sx(step(h, 2), a), b)
        },
        SxVec::V3(a, b, c) => {
            proof {
                lemma_fnv_append(h, seq![3u64], sx_words(**a));
                lemma_fnv_append(h, seq![3u64] + sx_words(**a), sx_words(**b));
                lemma_fnv_append(h, seq![3u64] + sx_words(**a) + sx_words(**b), sx_words(**c));
            }
            hash_sx(hash_sx(hash_sx(step(h, 3), a), b), c)
        },
        SxVec::V4(a, b, c, d) => {
            proof {
                lemma_fnv_append(h, seq![4u64], sx_words(**a));
                lemma_fnv_append(h, seq![4u64] + sx_words(**a), sx_words(**b));
                lemma_fnv_append(h, seq![4u64] + sx_words(**a) + sx_words(**b), sx_words(**c));
                lemma_fnv_append(
                    h,
                    seq![4u64] + sx_words(**a) + sx_words(**b) + sx_words(**c),
                    sx_words(**d),
                );
            }
            hash_sx(hash_sx(hash_sx(hash_sx(step(h, 4), a), b), c), d)
        },
    }
}

pub fn hash_args(h: u64, args: &SxArgs) -> (r: u64)
    ensures
        r == fnv(h, args_words(*args)),
    decreases args,
{
    match args {
        SxArgs::Nil => step(h, 0),
        SxArgs::Cons(a, rest) => {
            proof {
                lemma_fnv_append(h, seq![1u64], sx_words(**a));
                lemma_fnv_append(h, seq![1u64] + sx_words(**a), args_words(**rest));
            }
            hash_args(hash_sx(step(h, 1), a), rest)
        },
    }
}

impl Checker {
    /// The exact value of a static expression, if it has one.
    pub fn try_eval_static_scalar(sx: &Sx) -> (r: Option<Num>)
        ensures
            r == static_value(*sx),
    {
        sx.try_eval_static_scalar()
    }
}

impl Checker {
    /// Folds a static literal computation to its literal.
    pub fn fold_static_sx(sx: Sx) -> (r: Sx)
        ensures
            r == spec_fold_static(sx),
    {
        match sx.try_eval_static_scalar() {
            Some(v) => Sx::Lit(v),
            None => sx,
        }
    }

    pub fn is_literal_like_sx(sx: &Sx) -> (r: bool)
        ensures
            r == is_lit_like(*sx),
    {
        matches!(sx, Sx::Lit(_) | Sx::PxLit(_))
    }

    /// The expression is exactly the literal `expected` (same representation).
    pub fn is_exact_literal_value(sx: &Sx, expected: Num) -> (r: bool)
        ensures
            r == (*sx == Sx::Lit(expected)),
    {
        match sx {
            Sx::Lit(v) => v.same_repr(&expected),
            _ => false,
        }
    }

    pub fn sx_sort_rank(sx: &Sx) -> (r: u8)
        ensures
            r == spec_rank(*sx),
    {
        match sx {
            Sx::Lit(_) | Sx::PxLit(_) => 0,
            Sx::Unary(..) => 2,
            Sx::Binary(..) => 3,
            Sx::Ternary(..) | Sx::Dot(..) | Sx::Length(..) | Sx::UserCall { .. } | Sx::Let {
                ..
            } => 4,
            _ => 1,
        }
    }

    pub fn sx_sort_key(sx: &Sx) -> (r: (u8, u64))
        ensures
            r == spec_sort_key(*sx),
    {
        (Self::sx_sort_rank(sx), hash_sx(0xcbf29ce484222325u64, sx))
    }

    /// Orders the operands of a commutative operator by their sort keys.
    pub fn normalize_commutative_pair(a: Sx, b: Sx) -> (r: (Sx, Sx))
        ensures
            r == spec_normalize_pair(a, b),
    {
        let ka = Self::sx_sort_key(&a);
        let kb = Self::sx_sort_key(&b);
        if ka.0 < kb.0 || (ka.0 == kb.0 && ka.1 <= kb.1) {
            (a, b)
        } else {
            (b, a)
        }
    }

    /// Negation, folded when the operand is a literal.
    pub fn fold_neg_if_literal(sx: Sx) -> (r: Sx)
        ensures
            r == (if is_lit_like(sx) {
                spec_fold_static(Sx::Unary(UnaryOp::Neg, Box::new(sx)))
            } else {
                Sx::Unary(UnaryOp::Neg, Box::new(sx))
            }),
    {
        let lit = Self::is_literal_like_sx(&sx);
        let expr = Sx::Unary(UnaryOp::Neg, Box::new(sx));
        if lit {
            Self::fold_static_sx(expr)
        } else {
            expr
        }
    }

    pub fn positive_constant(sx: &Sx) -> (r: bool)
        ensures
            r == spec_positive_constant(*sx),
    {
        match sx {
            Sx::Lit(v) | Sx::PxLit(v) => v.den > 0 && !v.neg && v.mag != 0,
            _ => false,
        }
    }

    pub fn symbolic_factor_sign(sx: &Sx) -> (r: Option<bool>)
        ensures
            r == spec_factor_sign(*sx),
        decreases sx,
    {
        if Self::is_literal_like_sx(sx) {
            return None;
        }
        match sx {
            Sx::Unary(UnaryOp::Abs, _) | Sx::Unary(UnaryOp::Sqrt, _) | Sx::Length(_) => Some(
                false,
            ),
            Sx::Binary(BinaryOp::Max, a, b) => {
                if Self::positive_constant(a) || Self::positive_constant(b) {
                    Some(true)
                } else if Self::symbolic_factor_sign(a).is_some()
                    || Self::symbolic_factor_sign(b).is_some() {
                    Some(false)
                } else {
                    None
                }
            },
            _ => None,
        }
    }

    pub fn split_symbolic_factor(sx: &Sx) -> (r: Option<(Num, Sx, bool)>)
        ensures
            r == spec_split_factor(*sx),
    {
        match sx {
            Sx::Binary(BinaryOp::Mul, a, b) => {
                if let Sx::Lit(coef) = &**a {
                    let sign = Self::symbolic_factor_sign(b)?;
                    return Some((*coef, b.clone_sx(), sign));
                }
                if let Sx::Lit(coef) = &**b {
                    let sign = Self::symbolic_factor_sign(a)?;
                    return Some((*coef, a.clone_sx(), sign));
                }
                None
            },
            _ => {
                let sign = Self::symbolic_factor_sign(sx)?;
                Some((Num::one(), sx.clone_sx(), sign))
            },
        }
    }

    /// Rewrites `op(ca * f, cb * f)` for a shared, sign-known factor `f`.
    pub fn factor_symbolic_pair(op: SymbolicFactorOp, a: Sx, b: Sx) -> (r: Option<Sx>)
        ensures
            r == spec_factor_pair(op, a, b),
    {
        let (ca, fa, a_positive) = Self::split_symbolic_factor(&a)?;
        let (cb, fb, b_positive) = Self::split_symbolic_factor(&b)?;
        if !crate::same::sx_same(&fa, &fb) {
            return None;
        }
        match op {
            SymbolicFactorOp::Max => {
                if !(a_positive || b_positive || Self::symbolic_factor_sign(&fa).is_some()) {
                    return None;
                }
                let coef = Self::fold_static_sx(
                    Sx::Binary(BinaryOp::Max, Box::new(Sx::Lit(ca)), Box::new(Sx::Lit(cb))),
                );
                Some(Self::fold_bin_if_literals(BinOp::Mul, coef, fa))
            },
            SymbolicFactorOp::Min => {
                if !(a_positive || b_positive || Self::symbolic_factor_sign(&fa).is_some()) {
                    return None;
                }
                let coef = Self::fold_static_sx(
                    Sx::Binary(BinaryOp::Min, Box::new(Sx::Lit(ca)), Box::new(Sx::Lit(cb))),
                );
                Some(Self::fold_bin_if_literals(BinOp::Mul, coef, fa))
            },
            SymbolicFactorOp::Sub => {
                if !(a_positive || b_positive || Self::symbolic_factor_sign(&fa).is_some()) {
                    return None;
                }
                let coef = Self::fold_bin_if_literals(BinOp::Sub, Sx::Lit(ca), Sx::Lit(cb));
                Some(Self::fold_bin_if_literals(BinOp::Mul, coef, fa))
            },
            SymbolicFactorOp::Div => {
                if !(a_positive && b_positive) {
                    return None;
                }
                Some(Self::fold_bin_if_literals(BinOp::Div, Sx::Lit(ca), Sx::Lit(cb)))
            },
        }
    }

    /// Builds `a op b` for an arithmetic operator, dropping `x - 0`, `1 * x`,
    /// `x * 1` and `x / 1`, ordering commutative operands, and folding literals.
    pub fn fold_bin_if_literals(op: BinOp, a: Sx, b: Sx) -> (r: Sx)
        requires
            op.is_arith(),
        ensures
            r == spec_fold_bin(op, a, b),
    {
        match op {
            BinOp::Sub => if Self::is_exact_literal_value(&b, Num::zero()) {
                return a;
            },
            BinOp::Mul => {
                if Self::is_exact_literal_value(&a, Num::one()) {
                    return b;
                }
                if Self::is_exact_literal_value(&b, Num::one()) {
                    return a;
                }
            },
            BinOp::Div => if Self::is_exact_literal_value(&b, Num::one()) {
                return a;
            },
            _ => {},
        }
        let (x, y) = match op {
            BinOp::Add | BinOp::Mul => Self::normalize_commutative_pair(a, b),
            _ => (a, b),
        };
        let lits = Self::is_literal_like_sx(&x) && Self::is_literal_like_sx(&y);
        let bop = match op {
            BinOp::Add => BinaryOp::Add,
            BinOp::Sub => BinaryOp::Sub,
            BinOp::Mul => BinaryOp::Mul,
            _ => BinaryOp::Div,
        };
        let expr = Sx::Binary(bop, Box::new(x), Box::new(y));
        if lits {
            Self::fold_static_sx(expr)
        } else {
            expr
        }
    }

    pub fn color_to_field(color: [Num; 4]) -> (r: [Sx; 4])
        ensures
            r == spec_color_to_field(color),
    {
        let r = [Sx::Lit(color[0]), Sx::Lit(color[1]), Sx::Lit(color[2]), Sx::Lit(color[3])];
        assert(r@ =~= spec_color_to_field(color)@);
        proof {
            vstd::array::axiom_array_ext_equal(r, spec_color_to_field(color));
        }
        r
    }

    /// Lane-wise `+ - * /` of two colours; other operators give `None`.
    pub fn color_bin(op: BinOp, a: [Sx; 4], b: [Sx; 4]) -> (r: Option<[Sx; 4]>)
        ensures
            op.is_arith() ==> (r matches Some(c) && (forall|i: int|
                0 <= i < 4 ==> c[i] == Sx::Binary(arith_binary(op), Box::new(a[i]), Box::new(b[i])))),
            !op.is_arith() ==> r is None,
    {
        let bop = match op {
            BinOp::Add => BinaryOp::Add,
            BinOp::Sub => BinaryOp::Sub,
            BinOp::Mul => BinaryOp::Mul,
            BinOp::Div => BinaryOp::Div,
            _ => return None,
        };
        let r = [
            Sx::Binary(bop, Box::new(a[0].clone_sx()), Box::new(b[0].clone_sx())),
            Sx::Binary(bop, Box::new(a[1].clone_sx()), Box::new(b[1].clone_sx())),
            Sx::Binary(bop, Box::new(a[2].clone_sx()), Box::new(b[2].clone_sx())),
            Sx::Binary(bop, Box::new(a[3].clone_sx()), Box::new(b[3].clone_sx())),
        ];
        Some(r)
    }

    pub fn as_color_field_value(v: &Value) -> (r: Option<([Sx; 4], ColorSpace)>)
        ensures
            r == match *v {
                Value::Color { rgba, space } => Some((spec_color_to_field(rgba), space)),
                Value::ColorField { rgba, space } => Some((rgba, space)),
                _ => None::<([Sx; 4], ColorSpace)>,
            },
    {
        match v {
            Value::Color { rgba, space } => Some((Self::color_to_field(*rgba), *space)),
            Value::ColorField { rgba, space } => Some(
                (crate::value::clone_sx_array(rgba), *space),
            ),
            _ => None,
        }
    }

    pub fn as_numeric_scalar(v: &Value) -> (r: Option<(Sx, ScalarKind)>)
        ensures
            r == match *v {
                Value::Scalar(s) => Some((s, ScalarKind::Plain)),
                Value::Distance(s) => Some((s, ScalarKind::Distance)),
                Value::Coverage(s) => Some((s, ScalarKind::Coverage)),
                Value::Mask(s) => Some((s, ScalarKind::Mask)),
                _ => None::<(Sx, ScalarKind)>,
            },
    {
        match v {
            Value::Scalar(s) => Some((s.clone_sx(), ScalarKind::Plain)),
            Value::Distance(s) => Some((s.clone_sx(), ScalarKind::Distance)),
            Value::Coverage(s) => Some((s.clone_sx(), ScalarKind::Coverage)),
            Value::Mask(s) => Some((s.clone_sx(), ScalarKind::Mask)),
            _ => None,
        }
    }

    /// Shares a compound expression behind one `let` before it is copied into
    /// several lanes; leaves are returned unchanged.
    pub fn hoist_for_broadcast(&mut self, sx: Sx) -> (r: Sx)
        requires
            sx.spec_has_child() ==> old(self).let_counter < u64::MAX,
        ensures
            !sx.spec_has_child() ==> r == sx && final(self).let_counter == old(self).let_counter,
            sx.spec_has_child() ==> final(self).let_counter == old(self).let_counter + 1,
            sx.spec_has_child() ==> (r matches Sx::Let { name, value, body } && name@ == "__bcast_"@
                + crate::text::spec_decimal(final(self).let_counter as nat) && *value == sx
                && *body == Sx::Var(name)),
            *final(self) == (Checker { let_counter: final(self).let_counter, ..*old(self) }),
    {
        if !sx.has_child() {
            return sx;
        }
        self.let_counter = self.let_counter + 1;
        let n = crate::text::decimal(self.let_counter);
        let name = crate::text::cat2("__bcast_", n.as_str());
        let var = name.clone();
        Sx::Let { name, value: Box::new(sx), body: Box::new(Sx::Var(var)) }
    }

    pub fn broadcast2(&mut self, sx: Sx) -> (r: [Sx; 2])
        requires
            sx.spec_has_child() ==> old(self).let_counter < u64::MAX,
        ensures
            hoisted_as(sx, final(self).let_counter as nat, r[0]),
            *final(self) == (Checker { let_counter: final(self).let_counter, ..*old(self) }),
            r[0] == r[1],
            !sx.spec_has_child() ==> r[0] == sx,
            sx.spec_has_child() ==> r[0] is Let,
            final(self).let_counter == old(self).let_counter + if sx.spec_has_child() {
                1int
            } else {
                0int
            },
    {
        let hoisted = self.hoist_for_broadcast(sx);
        [hoisted.clone_sx(), hoisted]
    }

    pub fn broadcast3(&mut self, sx: Sx) -> (r: [Sx; 3])
        requires
            sx.spec_has_child() ==> old(self).let_counter < u64::MAX,
        ensures
            hoisted_as(sx, final(self).let_counter as nat, r[0]),
            *final(self) == (Checker { let_counter: final(self).let_counter, ..*old(self) }),
            r[0] == r[1] && r[1] == r[2],
            !sx.spec_has_child() ==> r[0] == sx,
            sx.spec_has_child() ==> r[0] is Let,
            final(self).let_counter == old(self).let_counter + if sx.spec_has_child() {
                1int
            } else {
                0int
            },
    {
        let hoisted = self.hoist_for_broadcast(sx);
        [hoisted.clone_sx(), hoisted.clone_sx(), hoisted]
    }

    pub fn broadcast4(&mut self, sx: Sx) -> (r: [Sx; 4])
        requires
            sx.spec_has_child() ==> old(self).let_counter < u64::MAX,
        ensures
            hoisted_as(sx, final(self).let_counter as nat, r[0]),
            *final(self) == (Checker { let_counter: final(self).let_counter, ..*old(self) }),
            r[0] == r[1] && r[1] == r[2] && r[2] == r[3],
            !sx.spec_has_child() ==> r[0] == sx,
            sx.spec_has_child() ==> r[0] is Let,
            final(self).let_counter == old(self).let_counter + if sx.spec_has_child() {
                1int
            } else {
                0int
            },
    {
        let hoisted = self.hoist_for_broadcast(sx);
        [hoisted.clone_sx(), hoisted.clone_sx(), hoisted.clone_sx(), hoisted]
    }

    pub fn scalar_kind_name(kind: ScalarKind) -> (r: &'static str)
        ensures
            r@ == match kind {
                ScalarKind::Plain => "scalar"@,
                ScalarKind::Distance => "distance"@,
                ScalarKind::Coverage => "coverage"@,
                ScalarKind::Mask => "mask"@,
            },
    {
        match kind {
            ScalarKind::Plain => "scalar",
            ScalarKind::Distance => "distance",
            ScalarKind::Coverage => "coverage",
            ScalarKind::Mask => "mask",
        }
    }

    /// The kind of `lhs op rhs`: equal kinds stay, plain adopts the other, and
    /// products/quotients of distance, coverage and mask promote.
    pub fn promoted_scalar_kind(op: BinOp, lhs: ScalarKind, rhs: ScalarKind) -> (r: Option<
        ScalarKind,
    >)
        ensures
            r == spec_promoted_kind(op, lhs, rhs),
    {
        if lhs == rhs {
            return Some(lhs);
        }
        if lhs == ScalarKind::Plain {
            return Some(rhs);
        }
        if rhs == ScalarKind::Plain {
            return Some(lhs);
        }
        if matches!(op, BinOp::Mul | BinOp::Div) {
            match (lhs, rhs) {
                (ScalarKind::Distance, ScalarKind::Coverage)
                | (ScalarKind::Coverage, ScalarKind::Distance)
                | (ScalarKind::Distance, ScalarKind::Mask)
                | (ScalarKind::Mask, ScalarKind::Distance) => return Some(ScalarKind::Distance),
                (ScalarKind::Coverage, ScalarKind::Mask)
                | (ScalarKind::Mask, ScalarKind::Coverage) => return Some(ScalarKind::Coverage),
                _ => {},
            }
        }
        None
    }

    pub fn scalar_value_from_kind(kind: ScalarKind, sx: Sx) -> (r: Value)
        ensures
            r == spec_scalar_value(kind, sx),
    {
        match kind {
            ScalarKind::Plain => Value::Scalar(sx),
            ScalarKind::Distance => Value::Distance(sx),
            ScalarKind::Coverage => Value::Coverage(sx),
            ScalarKind::Mask => Value::Mask(sx),
        }
    }

    /// `x - floor(x / m) * m`, with the arithmetic rewrites applied.
    pub fn sx_mod_floor(x: Sx, m: Sx) -> (r: Sx)
        ensures
            r == spec_mod_floor(x, m),
    {
        let q = Sx::Unary(
            UnaryOp::Floor,
            Box::new(Sx::Binary(BinaryOp::Div, Box::new(x.clone_sx()), Box::new(m.clone_sx()))),
        );
        let q_times_m = Self::fold_bin_if_literals(BinOp::Mul, q, m);
        Self::fold_bin_if_literals(BinOp::Sub, x, q_times_m)
    }

    /// Converts colour lanes to linear space (alpha is unchanged).
    pub fn to_working_color_space(rgba: [Sx; 4], space: ColorSpace) -> (r: [Sx; 4])
        ensures
            r == spec_working_space(rgba, space),
    {
        if space == ColorSpace::Linear {
            return rgba;
        }
        let r = [
            Sx::Unary(UnaryOp::SrgbToLinear, Box::new(rgba[0].clone_sx())),
            Sx::Unary(UnaryOp::SrgbToLinear, Box::new(rgba[1].clone_sx())),
            Sx::Unary(UnaryOp::SrgbToLinear, Box::new(rgba[2].clone_sx())),
            rgba[3].clone_sx(),
        ];
        assert(r@ =~= spec_working_space(rgba, space)@);
        proof {
            vstd::array::axiom_array_ext_equal(r, spec_working_space(rgba, space));
        }
        r
    }

    pub fn cond_mask_from_scalar(cond: Sx) -> (r: Sx)
        ensures
            r == spec_cond_mask(cond),
    {
        if let Some(v) = cond.try_eval_static_scalar() {
            return if v.mag != 0 {
                Sx::Lit(Num::one())
            } else {
                Sx::Lit(Num::zero())
            };
        }
        let sign = Sx::Unary(UnaryOp::Sign, Box::new(cond));
        let abs = Sx::Unary(UnaryOp::Abs, Box::new(sign));
        Sx::Binary(BinaryOp::Min, Box::new(Sx::Lit(Num::one())), Box::new(abs))
    }

    pub fn select_sx_on_cond(cond: Sx, then_value: Sx, else_value: Sx) -> (r: Sx)
        ensures
            r == spec_select_on_cond(cond, then_value, else_value),
    {
        if let Sx::Lit(v) = &cond {
            return if v.mag != 0 {
                then_value
            } else {
                else_value
            };
        }
        Sx::Ternary(TernaryOp::Select, Box::new(else_value), Box::new(then_value), Box::new(cond))
    }

    pub fn inline_mask_and(a: Sx, b: Sx) -> (r: Sx)
        ensures
            r == spec_mask_and(a, b),
    {
        let a_zero = matches!(&a, Sx::Lit(v) if v.mag == 0);
        let b_zero = matches!(&b, Sx::Lit(v) if v.mag == 0);
        if a_zero || b_zero {
            return Sx::Lit(Num::zero());
        }
        if matches!(&a, Sx::Lit(v) if !v.neg && v.mag == v.den && v.den > 0) {
            return b;
        }
        if matches!(&b, Sx::Lit(v) if !v.neg && v.mag == v.den && v.den > 0) {
            return a;
        }
        Sx::Binary(BinaryOp::Mul, Box::new(a), Box::new(b))
    }

    pub fn inline_mask_not(a: Sx) -> (r: Sx)
        ensures
            r == spec_mask_not(a),
    {
        if let Sx::Lit(v) = &a {
            if v.den > 0 && (v.mag != 0 || !v.neg) {
                if let Some(w) = Num::one().sub(*v) {
                    return Sx::Lit(w);
                }
            }
        }
        Sx::Binary(BinaryOp::Sub, Box::new(Sx::Lit(Num::one())), Box::new(a))
    }

    pub fn inline_mask_or(a: Option<Sx>, b: Sx) -> (r: Sx)
        ensures
            r == spec_mask_or(a, b),
    {
        match a {
            None => b,
            Some(a) => Self::inline_mask_not(
                Self::inline_mask_and(Self::inline_mask_not(a), Self::inline_mask_not(b)),
            ),
        }
    }

    /// The post-process source colour, lane by lane, in linear space.
    pub fn postprocess_source_color() -> (r: Value)
        ensures
            r == (Value::ColorField {
                rgba: [Sx::PostColorR, Sx::PostColorG, Sx::PostColorB, Sx::PostColorA],
                space: ColorSpace::Linear,
            }),
    {
        Value::ColorField {
            rgba: [Sx::PostColorR, Sx::PostColorG, Sx::PostColorB, Sx::PostColorA],
            space: ColorSpace::Linear,
        }
    }

    /// The post-process sample coordinate.
    pub fn postprocess_uv_value() -> (r: Value)
        ensures
            r == Value::Vec2((Sx::CoordX, Sx::CoordY)),
    {
        Value::Vec2((Sx::CoordX, Sx::CoordY))
    }
}

impl Checker {
    /// Applies `map` to every lane of a scalar or vector value; other values
    /// are returned as they are.
    pub fn map_value_lanes<F: Fn(Sx) -> Sx>(value: Value, map: F) -> (r: Value)
        requires
            forall|x: Sx| map.requires((x,)),
        ensures
            match value {
                Value::Scalar(s) => r matches Value::Scalar(t) && map.ensures((s,), t),
                Value::Vec2((x, y)) => r matches Value::Vec2((a, b)) && map.ensures((x,), a)
                    && map.ensures((y,), b),
                Value::Vec3((x, y, z)) => r matches Value::Vec3((a, b, c)) && map.ensures((x,), a)
                    && map.ensures((y,), b) && map.ensures((z,), c),
                Value::Vec4((x, y, z, w)) => r matches Value::Vec4((a, b, c, d)) && map.ensures(
                    (x,),
                    a,
                ) && map.ensures((y,), b) && map.ensures((z,), c) && map.ensures((w,), d),
                _ => r == value,
            },
    {
        match value {
            Value::Scalar(s) => Value::Scalar(map(s)),
            Value::Vec2((x, y)) => {
                let a = map(x);
                let b = map(y);
                Value::Vec2((a, b))
            },
            Value::Vec3((x, y, z)) => {
                let a = map(x);
                let b = map(y);
                let c = map(z);
                Value::Vec3((a, b, c))
            },
            Value::Vec4((x, y, z, w)) => {
                let a = map(x);
                let b = map(y);
                let c = map(z);
                let d = map(w);
                Value::Vec4((a, b, c, d))
            },
            other => other,
        }
    }
}

} // verus!
