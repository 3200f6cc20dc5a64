//! Binary operators on checked values: scalar arithmetic with kind
//! promotion, lane-wise vector arithmetic with scalar broadcast, matrix by
//! vector products, color arithmetic in linear space, and shape combination.
use vstd::prelude::*;
use crate::ast::BinOp;
use crate::checker::Checker;
use crate::diag::{is_error_diag, pushed_one, Diag, Span};
use crate::fold::{
    arith_binary, hoisted_as, spec_factor_pair, spec_fold_bin, spec_mod_floor, spec_promoted_kind,
    spec_scalar_value, spec_working_space, SymbolicFactorOp,
};
use crate::merge::color_lanes;
use crate::sx::{BinaryOp, Sx};
use crate::text::{cat2, cat3, cat5};
use crate::value::{ColorSpace, ScalarKind, Value, Values};

verus! {

/// A shape made by combining two shapes, by their ids.
#[derive(Debug, PartialEq)]
pub enum ShapeNode {
    Union(u32, u32),
    Intersect(u32, u32),
    Subtract(u32, u32),
}

/// What a binary operator gives: a value, or an error's message and help.
pub type Outcome = Result<Value, (Seq<char>, Seq<char>)>;

/// The lane and kind of a scalar-like value.
pub open spec fn numeric_of(v: Value) -> Option<(Sx, ScalarKind)> {
    match v {
        Value::Scalar(s) => Some((s, ScalarKind::Plain)),
        Value::Distance(s) => Some((s, ScalarKind::Distance)),
        Value::Coverage(s) => Some((s, ScalarKind::Coverage)),
        Value::Mask(s) => Some((s, ScalarKind::Mask)),
        _ => None,
    }
}

pub open spec fn is_comparison(op: BinOp) -> bool {
    op is Lt || op is Le || op is Gt || op is Ge || op is Eq || op is Ne
}

pub open spec fn comparison_binary(op: BinOp) -> BinaryOp {
    match op {
        BinOp::Lt => BinaryOp::Lt,
        BinOp::Le => BinaryOp::Le,
        BinOp::Gt => BinaryOp::Gt,
        BinOp::Ge => BinaryOp::Ge,
        BinOp::Eq => BinaryOp::Eq,
        _ => BinaryOp::Ne,
    }
}

/// The operators applied lane by lane to vectors.
pub open spec fn is_lanewise(op: BinOp) -> bool {
    op is Add || op is Sub || op is Mul || op is Div || op is Mod
}

/// One lane of a lane-wise operator.
#[verifier::opaque]
pub open spec fn lane_op(op: BinOp, a: Sx, b: Sx) -> Sx {
    if op is Mod {
        spec_mod_floor(a, b)
    } else {
        spec_fold_bin(op, a, b)
    }
}

/// The lane of a scalar operator: differences and quotients of two multiples
/// of one expression are factored first.
pub open spec fn numeric_sx(op: BinOp, a: Sx, b: Sx) -> Sx {
    if op is Sub {
        match spec_factor_pair(SymbolicFactorOp::Sub, a, b) {
            Some(f) => f,
            None => spec_fold_bin(op, a, b),
        }
    } else if op is Div {
        match spec_factor_pair(SymbolicFactorOp::Div, a, b) {
            Some(f) => f,
            None => spec_fold_bin(op, a, b),
        }
    } else {
        lane_op(op, a, b)
    }
}

/// The operator's name as diagnostics print it.
pub open spec fn op_name(op: BinOp) -> Seq<char> {
    match op {
        BinOp::Add => "Add"@,
        BinOp::Sub => "Sub"@,
        BinOp::Mul => "Mul"@,
        BinOp::Div => "Div"@,
        BinOp::Mod => "Mod"@,
        BinOp::Eq => "Eq"@,
        BinOp::Ne => "Ne"@,
        BinOp::Lt => "Lt"@,
        BinOp::Le => "Le"@,
        BinOp::Gt => "Gt"@,
        BinOp::Ge => "Ge"@,
        BinOp::LogicalAnd => "LogicalAnd"@,
        BinOp::LogicalOr => "LogicalOr"@,
        BinOp::Union => "Union"@,
        BinOp::Intersect => "Intersect"@,
        BinOp::Shl => "Shl"@,
        BinOp::Shr => "Shr"@,
        BinOp::BitXor => "BitXor"@,
    }
}

pub open spec fn kind_name(k: ScalarKind) -> Seq<char> {
    match k {
        ScalarKind::Plain => "scalar"@,
        ScalarKind::Distance => "distance"@,
        ScalarKind::Coverage => "coverage"@,
        ScalarKind::Mask => "mask"@,
    }
}

/// The error for an operator with no meaning on these operands.
pub open spec fn undefined_error(op: BinOp, a: Value, b: Value) -> (Seq<char>, Seq<char>) {
    (
        "operator `"@ + op_name(op) + "` is not defined for "@ + a.spec_kind() + " and "@ + b.spec_kind(),
        "scalars support + - * / % and comparisons (< <= > >= == !=); shapes support | & - (union, intersect, subtract)"@,
    )
}

/// The error for a bit operator written as an operator.
pub open spec fn bit_operator_error(op: BinOp) -> Option<(Seq<char>, Seq<char>)> {
    match op {
        BinOp::Shl => Some(("operator `<<` is not supported in expressions"@, "use `bit_shl(x, shift)` instead"@)),
        BinOp::Shr => Some(("operator `>>` is not supported in expressions"@, "use `bit_shr(x, shift)` instead"@)),
        BinOp::BitXor => Some(("operator `^` is not supported in expressions"@, "use `bit_xor(a, b)` instead"@)),
        _ => None,
    }
}

/// An operator on two scalar-like operands.
pub open spec fn spec_numeric_binary(op: BinOp, a: Sx, ak: ScalarKind, b: Sx, bk: ScalarKind, lv: Value, rv: Value) -> Outcome {
    if is_comparison(op) {
        Ok(Value::Scalar(Sx::Binary(comparison_binary(op), Box::new(a), Box::new(b))))
    } else if is_lanewise(op) {
        match spec_promoted_kind(op, ak, bk) {
            Some(k) => Ok(spec_scalar_value(k, numeric_sx(op, a, b))),
            None => Err((
                "unsafe cross-kind arithmetic: "@ + kind_name(ak) + " "@ + op_name(op) + " "@ + kind_name(bk),
                "allowed promotions: matching kinds, scalar with any kind, and multiplicative attenuation between distance/coverage/mask"@,
            )),
        }
    } else if op is Union {
        Err((
            "operator `|` on scalars is not supported; use bit helpers"@,
            "use `bit_or(a, b)` for bitwise OR on integer-like scalar values"@,
        ))
    } else if op is Intersect {
        Err((
            "operator `&` on scalars is not supported; use bit helpers"@,
            "use `bit_and(a, b)` for bitwise AND on integer-like scalar values"@,
        ))
    } else {
        match bit_operator_error(op) {
            Some(e) => Err(e),
            None => Err(undefined_error(op, lv, rv)),
        }
    }
}

/// The lanes of a vector value.
pub open spec fn vec_lanes(v: Value) -> Option<Seq<Sx>> {
    match v {
        Value::Vec2((x, y)) => Some(seq![x, y]),
        Value::Vec3((x, y, z)) => Some(seq![x, y, z]),
        Value::Vec4((x, y, z, w)) => Some(seq![x, y, z, w]),
        _ => None,
    }
}

/// The vector value with these lanes.
pub open spec fn vec_of(l: Seq<Sx>) -> Value {
    if l.len() == 2 {
        Value::Vec2((l[0], l[1]))
    } else if l.len() == 3 {
        Value::Vec3((l[0], l[1], l[2]))
    } else {
        Value::Vec4((l[0], l[1], l[2], l[3]))
    }
}

/// A lane-wise operator applies: two vectors of one width, or a vector and a scalar.
pub open spec fn lanewise_applies(lv: Value, rv: Value) -> bool {
    match (vec_lanes(lv), vec_lanes(rv)) {
        (Some(a), Some(b)) => a.len() == b.len(),
        (Some(_), None) => numeric_of(rv) is Some,
        (None, Some(_)) => numeric_of(lv) is Some,
        _ => false,
    }
}

/// The scalar a lane-wise operator copies into every lane, if any.
pub open spec fn lanewise_source(lv: Value, rv: Value) -> Option<Sx> {
    match (vec_lanes(lv), vec_lanes(rv)) {
        (Some(_), None) => Some(numeric_of(rv).unwrap().0),
        (None, Some(_)) => Some(numeric_of(lv).unwrap().0),
        _ => None,
    }
}

/// Whether a lane-wise operator on these operands shares a compound scalar
/// behind a fresh `let`.
pub open spec fn needs_hoist(lv: Value, rv: Value) -> bool {
    lanewise_applies(lv, rv) && (lanewise_source(lv, rv) matches Some(src) && src.spec_has_child())
}

/// The result of a lane-wise operator, with `h` standing for the shared
/// broadcast scalar.
pub open spec fn lanewise_value(op: BinOp, lv: Value, rv: Value, h: Sx) -> Value {
    match (vec_lanes(lv), vec_lanes(rv)) {
        (Some(a), Some(b)) => vec_of(Seq::new(a.len(), |i: int| lane_op(op, a[i], b[i]))),
        (Some(a), None) => vec_of(Seq::new(a.len(), |i: int| lane_op(op, a[i], h))),
        (None, Some(b)) => vec_of(Seq::new(b.len(), |i: int| lane_op(op, h, b[i]))),
        _ => Value::Error,
    }
}

pub open spec fn dot2(a0: Sx, b0: Sx, a1: Sx, b1: Sx) -> Sx {
    spec_fold_bin(BinOp::Add, spec_fold_bin(BinOp::Mul, a0, b0), spec_fold_bin(BinOp::Mul, a1, b1))
}

pub open spec fn dot3(a0: Sx, b0: Sx, a1: Sx, b1: Sx, a2: Sx, b2: Sx) -> Sx {
    spec_fold_bin(BinOp::Add, dot2(a0, b0, a1, b1), spec_fold_bin(BinOp::Mul, a2, b2))
}

/// A matrix (by columns) times a vector, or a vector times a matrix.
pub open spec fn spec_mat_mul(lv: Value, rv: Value) -> Option<Value> {
    match (lv, rv) {
        (Value::Mat2(((c0x, c0y), (c1x, c1y))), Value::Vec2((vx, vy))) => Some(
            Value::Vec2((dot2(c0x, vx, c1x, vy), dot2(c0y, vx, c1y, vy))),
        ),
        (Value::Vec2((vx, vy)), Value::Mat2(((c0x, c0y), (c1x, c1y)))) => Some(
            Value::Vec2((dot2(vx, c0x, vy, c0y), dot2(vx, c1x, vy, c1y))),
        ),
        (Value::Mat3(((c0x, c0y, c0z), (c1x, c1y, c1z), (c2x, c2y, c2z))), Value::Vec3((vx, vy, vz))) => Some(
            Value::Vec3(
                (
                    dot3(c0x, vx, c1x, vy, c2x, vz),
                    dot3(c0y, vx, c1y, vy, c2y, vz),
                    dot3(c0z, vx, c1z, vy, c2z, vz),
                ),
            ),
        ),
        (Value::Vec3((vx, vy, vz)), Value::Mat3(((c0x, c0y, c0z), (c1x, c1y, c1z), (c2x, c2y, c2z)))) => Some(
            Value::Vec3(
                (
                    dot3(vx, c0x, vy, c0y, vz, c0z),
                    dot3(vx, c1x, vy, c1y, vz, c1z),
                    dot3(vx, c2x, vy, c2y, vz, c2z),
                ),
            ),
        ),
        _ => None,
    }
}

/// `seed` minus each shape of `items` in turn, with the shapes it adds; or,
/// at the first element that is not a shape, the shapes added until then.
pub open spec fn subtract_chain(acc: u32, items: Values, shapes: Seq<ShapeNode>) -> Result<
    (u32, Seq<ShapeNode>),
    Seq<ShapeNode>,
>
    decreases items,
{
    match items {
        Values::Nil => Ok((acc, shapes)),
        Values::Cons(v, rest) => match *v {
            Value::Shape(cut) => subtract_chain(shapes.len() as u32, *rest, shapes.push(ShapeNode::Subtract(acc, cut))),
            _ => Err(shapes),
        },
    }
}

/// An operator combining shapes, with the shapes after it.
pub open spec fn spec_shape_binary(op: BinOp, lv: Value, rv: Value, shapes: Seq<ShapeNode>) -> Option<(Outcome, Seq<ShapeNode>)> {
    match (lv, rv) {
        (Value::Shape(a), Value::Shape(b)) => if op is Union {
            Some((Ok(Value::Shape(shapes.len() as u32)), shapes.push(ShapeNode::Union(a, b))))
        } else if op is Intersect {
            Some((Ok(Value::Shape(shapes.len() as u32)), shapes.push(ShapeNode::Intersect(a, b))))
        } else if op is Sub {
            Some((Ok(Value::Shape(shapes.len() as u32)), shapes.push(ShapeNode::Subtract(a, b))))
        } else {
            None
        },
        (Value::Shape(seed), Value::Array(items)) => if op is Sub {
            match subtract_chain(seed, items, shapes) {
                Ok((id, after)) => Some((Ok(Value::Shape(id)), after)),
                Err(after) => Some((
                    Err((
                        "shape subtraction with an array requires shape elements"@,
                        "use `shape - [shape1, shape2, ...]`"@,
                    )),
                    after,
                )),
            }
        } else {
            None
        },
        _ => None,
    }
}

pub open spec fn color_binop(op: BinOp, a: [Sx; 4], b: [Sx; 4]) -> [Sx; 4] {
    [
        Sx::Binary(arith_binary(op), Box::new(a[0]), Box::new(b[0])),
        Sx::Binary(arith_binary(op), Box::new(a[1]), Box::new(b[1])),
        Sx::Binary(arith_binary(op), Box::new(a[2]), Box::new(b[2])),
        Sx::Binary(arith_binary(op), Box::new(a[3]), Box::new(b[3])),
    ]
}

pub open spec fn splat(s: Sx) -> [Sx; 4] {
    [s, s, s, s]
}

pub open spec fn linear(c: ([Sx; 4], ColorSpace)) -> [Sx; 4] {
    spec_working_space(c.0, c.1)
}

/// `lv op rv`: the outcome, the shapes after it, and the scalar copied into
/// vector lanes, if any (`h` stands for that scalar as it is shared).
pub open spec fn spec_binary_values(op: BinOp, lv: Value, rv: Value, h: Sx, shapes: Seq<ShapeNode>) -> (
    Outcome,
    Seq<ShapeNode>,
    Option<Sx>,
) {
    let lc = color_lanes(lv);
    let rc = color_lanes(rv);
    let ln = numeric_of(lv);
    let rn = numeric_of(rv);
    if lv is Error || rv is Error {
        (Ok(Value::Error), shapes, None)
    } else if lc is Some && rc is Some && op.is_arith() {
        (Ok(Value::ColorField { rgba: color_binop(op, linear(lc.unwrap()), linear(rc.unwrap())), space: ColorSpace::Linear }), shapes, None)
    } else if lc is Some && rn is Some && op.is_arith() {
        (Ok(Value::ColorField { rgba: color_binop(op, linear(lc.unwrap()), splat(rn.unwrap().0)), space: ColorSpace::Linear }), shapes, None)
    } else if ln is Some && rc is Some && op.is_arith() {
        (Ok(Value::ColorField { rgba: color_binop(op, splat(ln.unwrap().0), linear(rc.unwrap())), space: ColorSpace::Linear }), shapes, None)
    } else if (lc is Some || rc is Some) && ln is None && rn is None {
        (
            Err((
                "color arithmetic `"@ + op_name(op) + "` only supports color/color or color/scalar operands, found "@
                    + lv.spec_kind() + " and "@ + rv.spec_kind(),
                "use scalar factors or color expressions on both sides before applying this operator"@,
            )),
            shapes,
            None,
        )
    } else if ln is Some && rn is Some {
        (spec_numeric_binary(op, ln.unwrap().0, ln.unwrap().1, rn.unwrap().0, rn.unwrap().1, lv, rv), shapes, None)
    } else if is_lanewise(op) && lanewise_applies(lv, rv) {
        (Ok(lanewise_value(op, lv, rv, h)), shapes, lanewise_source(lv, rv))
    } else if op is Mul && spec_mat_mul(lv, rv) is Some {
        (Ok(spec_mat_mul(lv, rv).unwrap()), shapes, None)
    } else if spec_shape_binary(op, lv, rv, shapes) is Some {
        (spec_shape_binary(op, lv, rv, shapes).unwrap().0, spec_shape_binary(op, lv, rv, shapes).unwrap().1, None)
    } else {
        match bit_operator_error(op) {
            Some(e) => (Err(e), shapes, None),
            None => (Err(undefined_error(op, lv, rv)), shapes, None),
        }
    }
}

/// `after` is `before` once a binary operator has given `r` with the
/// outcome `out`, `h` standing for the shared broadcast scalar.
pub open spec fn binary_done(
    before: Checker,
    after: Checker,
    r: Option<Value>,
    span: Span,
    out: (Outcome, Seq<ShapeNode>, Option<Sx>),
    h: Sx,
) -> bool {
    &&& after.shapes@ == out.1
    &&& match out.2 {
        Some(src) => hoisted_as(src, after.let_counter as nat, h) && after.let_counter == before.let_counter
            + if src.spec_has_child() { 1int } else { 0int },
        None => after.let_counter == before.let_counter,
    }
    &&& match out.0 {
        Ok(v) => r == Some(v) && after.diags@ == before.diags@,
        Err((m, help)) => r is None && pushed_one(before.diags@, after.diags@) && is_error_diag(
            after.diags@.last(),
            span,
            m,
            None,
            Some(help),
        ),
    }
    &&& after.scopes == before.scopes
    &&& after.style_scopes == before.style_scopes
    &&& after.assignment_scopes == before.assignment_scopes
    &&& after.enum_defs == before.enum_defs
    &&& after.unqualified_enums == before.unqualified_enums
    &&& after.workbook_enabled == before.workbook_enabled
    &&& after.span_log == before.span_log
    &&& after.capture_target == before.capture_target
    &&& after.captured == before.captured
    &&& after.layers == before.layers
    &&& after.user_helpers == before.user_helpers
}

} // verus!

verus! {

fn op_name_exec(op: BinOp) -> (r: &'static str)
    ensures
        r@ == op_name(op),
{
    match op {
        BinOp::Add => "Add",
        BinOp::Sub => "Sub",
        BinOp::Mul => "Mul",
        BinOp::Div => "Div",
        BinOp::Mod => "Mod",
        BinOp::Eq => "Eq",
        BinOp::Ne => "Ne",
        BinOp::Lt => "Lt",
        BinOp::Le => "Le",
        BinOp::Gt => "Gt",
        BinOp::Ge => "Ge",
        BinOp::LogicalAnd => "LogicalAnd",
        BinOp::LogicalOr => "LogicalOr",
        BinOp::Union => "Union",
        BinOp::Intersect => "Intersect",
        BinOp::Shl => "Shl",
        BinOp::Shr => "Shr",
        BinOp::BitXor => "BitXor",
    }
}

fn is_arith_exec(op: BinOp) -> (r: bool)
    ensures
        r == op.is_arith(),
{
    matches!(op, BinOp::Add | BinOp::Sub | BinOp::Mul | BinOp::Div)
}

fn is_lanewise_exec(op: BinOp) -> (r: bool)
    ensures
        r == is_lanewise(op),
{
    matches!(op, BinOp::Add | BinOp::Sub | BinOp::Mul | BinOp::Div | BinOp::Mod)
}

/// One lane of a lane-wise operator.
fn lane_op_exec(op: BinOp, a: Sx, b: Sx) -> (r: Sx)
    requires
        is_lanewise(op),
    ensures
        r == lane_op(op, a, b),
{
    reveal(lane_op);
    if matches!(op, BinOp::Mod) {
        Checker::sx_mod_floor(a, b)
    } else {
        Checker::fold_bin_if_literals(op, a, b)
    }
}

/// Reports an error with a help text, unless there is none.
fn push_error(checker: &mut Checker, span: Span, message: String, help: &str)
    ensures
        pushed_one(old(checker).diags@, final(checker).diags@),
        is_error_diag(final(checker).diags@.last(), span, message@, None, Some(help@)),
        old(checker).same_but_diags(*final(checker)),
{
    checker.diags.push(Diag::error(span, message).with_help(String::from_str(help)));
}

fn undefined_message(op: BinOp, lv: &Value, rv: &Value) -> (r: String)
    ensures
        r@ == undefined_error(op, *lv, *rv).0,
{
    let head = cat5("operator `", op_name_exec(op), "` is not defined for ", lv.kind(), " and ");
    cat2(head.as_str(), rv.kind())
}

fn undefined_help() -> (r: &'static str)
    ensures
        r@ == "scalars support + - * / % and comparisons (< <= > >= == !=); shapes support | & - (union, intersect, subtract)"@,
{
    "scalars support + - * / % and comparisons (< <= > >= == !=); shapes support | & - (union, intersect, subtract)"
}

impl Checker {
    /// A binary operator on two scalar-like operands.
    fn numeric_binary(
        &mut self,
        op: BinOp,
        a: Sx,
        ak: ScalarKind,
        b: Sx,
        bk: ScalarKind,
        lv: &Value,
        rv: &Value,
        span: Span,
    ) -> (r: Option<Value>)
        ensures
            match spec_numeric_binary(op, a, ak, b, bk, *lv, *rv) {
                Ok(v) => r == Some(v) && final(self).diags@ == old(self).diags@,
                Err((m, help)) => r is None && pushed_one(old(self).diags@, final(self).diags@)
                    && is_error_diag(final(self).diags@.last(), span, m, None, Some(help)),
            },
            old(self).same_but_diags(*final(self)),
    {
        match op {
            BinOp::Lt => return Some(Value::Scalar(Sx::Binary(BinaryOp::Lt, Box::new(a), Box::new(b)))),
            BinOp::Le => return Some(Value::Scalar(Sx::Binary(BinaryOp::Le, Box::new(a), Box::new(b)))),
            BinOp::Gt => return Some(Value::Scalar(Sx::Binary(BinaryOp::Gt, Box::new(a), Box::new(b)))),
            BinOp::Ge => return Some(Value::Scalar(Sx::Binary(BinaryOp::Ge, Box::new(a), Box::new(b)))),
            BinOp::Eq => return Some(Value::Scalar(Sx::Binary(BinaryOp::Eq, Box::new(a), Box::new(b)))),
            BinOp::Ne => return Some(Value::Scalar(Sx::Binary(BinaryOp::Ne, Box::new(a), Box::new(b)))),
            BinOp::Add | BinOp::Sub | BinOp::Mul | BinOp::Div | BinOp::Mod => {
                let sx = match op {
                    BinOp::Sub => match Self::factor_symbolic_pair(SymbolicFactorOp::Sub, a.clone_sx(), b.clone_sx()) {
                        Some(f) => f,
                        None => Self::fold_bin_if_literals(op, a, b),
                    },
                    BinOp::Div => match Self::factor_symbolic_pair(SymbolicFactorOp::Div, a.clone_sx(), b.clone_sx()) {
                        Some(f) => f,
                        None => Self::fold_bin_if_literals(op, a, b),
                    },
                    _ => lane_op_exec(op, a, b),
                };
                match Self::promoted_scalar_kind(op, ak, bk) {
                    Some(k) => Some(Self::scalar_value_from_kind(k, sx)),
                    None => {
                        let head = cat5(
                            "unsafe cross-kind arithmetic: ",
                            Self::scalar_kind_name(ak),
                            " ",
                            op_name_exec(op),
                            " ",
                        );
                        let message = cat2(head.as_str(), Self::scalar_kind_name(bk));
                        push_error(
                            self,
                            span,
                            message,
                            "allowed promotions: matching kinds, scalar with any kind, and multiplicative attenuation between distance/coverage/mask",
                        );
                        None
                    },
                }
            },
            BinOp::Union => {
                push_error(
                    self,
                    span,
                    String::from_str("operator `|` on scalars is not supported; use bit helpers"),
                    "use `bit_or(a, b)` for bitwise OR on integer-like scalar values",
                );
                None
            },
            BinOp::Intersect => {
                push_error(
                    self,
                    span,
                    String::from_str("operator `&` on scalars is not supported; use bit helpers"),
                    "use `bit_and(a, b)` for bitwise AND on integer-like scalar values",
                );
                None
            },
            BinOp::Shl => {
                push_error(self, span, String::from_str("operator `<<` is not supported in expressions"), "use `bit_shl(x, shift)` instead");
                None
            },
            BinOp::Shr => {
                push_error(self, span, String::from_str("operator `>>` is not supported in expressions"), "use `bit_shr(x, shift)` instead");
                None
            },
            BinOp::BitXor => {
                push_error(self, span, String::from_str("operator `^` is not supported in expressions"), "use `bit_xor(a, b)` instead");
                None
            },
            BinOp::LogicalAnd | BinOp::LogicalOr => {
                push_error(self, span, undefined_message(op, lv, rv), undefined_help());
                None
            },
        }
    }
}


fn vec_lanes_exec(v: &Value) -> (r: Option<Vec<Sx>>)
    ensures
        match r {
            Some(l) => vec_lanes(*v) == Some(l@),
            None => vec_lanes(*v) is None,
        },
{
    match v {
        Value::Vec2((x, y)) => Some(vec![x.clone_sx(), y.clone_sx()]),
        Value::Vec3((x, y, z)) => Some(vec![x.clone_sx(), y.clone_sx(), z.clone_sx()]),
        Value::Vec4((x, y, z, w)) => Some(vec![x.clone_sx(), y.clone_sx(), z.clone_sx(), w.clone_sx()]),
        _ => None,
    }
}

fn vec_from_lanes(l: &Vec<Sx>) -> (r: Value)
    requires
        2 <= l@.len() <= 4,
    ensures
        r == vec_of(l@),
{
    if l.len() == 2 {
        Value::Vec2((l[0].clone_sx(), l[1].clone_sx()))
    } else if l.len() == 3 {
        Value::Vec3((l[0].clone_sx(), l[1].clone_sx(), l[2].clone_sx()))
    } else {
        Value::Vec4((l[0].clone_sx(), l[1].clone_sx(), l[2].clone_sx(), l[3].clone_sx()))
    }
}

/// `op` applied lane by lane; `left` or `right`, when given, stands for
/// every lane of that side.
fn map_lanes(op: BinOp, a: &Vec<Sx>, b: &Vec<Sx>, left: Option<&Sx>, right: Option<&Sx>) -> (r: Vec<Sx>)
    requires
        is_lanewise(op),
        left is None ==> a@.len() == b@.len() || right is Some,
        left is Some ==> right is None,
    ensures
        r@.len() == (if left is Some { b@.len() } else { a@.len() }),
        forall|i: int| 0 <= i < r@.len() ==> #[trigger] r@[i] == lane_op(
            op,
            if left is Some { *left.unwrap() } else { a@[i] },
            if right is Some { *right.unwrap() } else { b@[i] },
        ),
{
    let n = if left.is_some() { b.len() } else { a.len() };
    let mut out: Vec<Sx> = Vec::new();
    let mut i: usize = 0;
    while i < n
        invariant
            is_lanewise(op),
            n == (if left is Some { b@.len() } else { a@.len() }),
            left is None ==> a@.len() == b@.len() || right is Some,
            left is Some ==> right is None,
            i <= n,
            out@.len() == i,
            forall|j: int| 0 <= j < i ==> #[trigger] out@[j] == lane_op(
                op,
                if left is Some { *left.unwrap() } else { a@[j] },
                if right is Some { *right.unwrap() } else { b@[j] },
            ),
        decreases n - i,
    {
        let x = match left {
            Some(h) => h.clone_sx(),
            None => a[i].clone_sx(),
        };
        let y = match right {
            Some(h) => h.clone_sx(),
            None => b[i].clone_sx(),
        };
        out.push(lane_op_exec(op, x, y));
        i += 1;
    }
    out
}

fn dot2_exec(a0: &Sx, b0: &Sx, a1: &Sx, b1: &Sx) -> (r: Sx)
    ensures
        r == dot2(*a0, *b0, *a1, *b1),
{
    Checker::fold_bin_if_literals(
        BinOp::Add,
        Checker::fold_bin_if_literals(BinOp::Mul, a0.clone_sx(), b0.clone_sx()),
        Checker::fold_bin_if_literals(BinOp::Mul, a1.clone_sx(), b1.clone_sx()),
    )
}

fn dot3_exec(a0: &Sx, b0: &Sx, a1: &Sx, b1: &Sx, a2: &Sx, b2: &Sx) -> (r: Sx)
    ensures
        r == dot3(*a0, *b0, *a1, *b1, *a2, *b2),
{
    Checker::fold_bin_if_literals(
        BinOp::Add,
        dot2_exec(a0, b0, a1, b1),
        Checker::fold_bin_if_literals(BinOp::Mul, a2.clone_sx(), b2.clone_sx()),
    )
}

/// A matrix (by columns) times a vector, or a vector times a matrix.
fn mat_mul(lv: &Value, rv: &Value) -> (r: Option<Value>)
    ensures
        r == spec_mat_mul(*lv, *rv),
{
    match (lv, rv) {
        (Value::Mat2(((c0x, c0y), (c1x, c1y))), Value::Vec2((vx, vy))) => Some(
            Value::Vec2((dot2_exec(c0x, vx, c1x, vy), dot2_exec(c0y, vx, c1y, vy))),
        ),
        (Value::Vec2((vx, vy)), Value::Mat2(((c0x, c0y), (c1x, c1y)))) => Some(
            Value::Vec2((dot2_exec(vx, c0x, vy, c0y), dot2_exec(vx, c1x, vy, c1y))),
        ),
        (Value::Mat3(((c0x, c0y, c0z), (c1x, c1y, c1z), (c2x, c2y, c2z))), Value::Vec3((vx, vy, vz))) => Some(
            Value::Vec3(
                (
                    dot3_exec(c0x, vx, c1x, vy, c2x, vz),
                    dot3_exec(c0y, vx, c1y, vy, c2y, vz),
                    dot3_exec(c0z, vx, c1z, vy, c2z, vz),
                ),
            ),
        ),
        (Value::Vec3((vx, vy, vz)), Value::Mat3(((c0x, c0y, c0z), (c1x, c1y, c1z), (c2x, c2y, c2z)))) => Some(
            Value::Vec3(
                (
                    dot3_exec(vx, c0x, vy, c0y, vz, c0z),
                    dot3_exec(vx, c1x, vy, c1y, vz, c1z),
                    dot3_exec(vx, c2x, vy, c2y, vz, c2z),
                ),
            ),
        ),
        _ => None,
    }
}

impl Checker {
    /// Lane-wise vector arithmetic, broadcasting a scalar operand; the
    /// broadcast scalar, as shared, comes back beside the value.
    fn lanewise_binary(&mut self, op: BinOp, lv: &Value, rv: &Value) -> (r: Option<(Value, Sx)>)
        requires
            is_lanewise(op),
            needs_hoist(*lv, *rv) ==> old(self).let_counter < u64::MAX,
        ensures
            r is Some == lanewise_applies(*lv, *rv),
            r is None ==> *final(self) == *old(self),
            r matches Some((v, h)) ==> v == lanewise_value(op, *lv, *rv, h) && match lanewise_source(*lv, *rv) {
                Some(src) => hoisted_as(src, final(self).let_counter as nat, h) && *final(self) == (Checker {
                    let_counter: final(self).let_counter,
                    ..*old(self)
                }) && final(self).let_counter == old(self).let_counter + if src.spec_has_child() {
                    1int
                } else {
                    0int
                },
                None => *final(self) == *old(self),
            },
    {
        let la = vec_lanes_exec(lv);
        let lb = vec_lanes_exec(rv);
        match (la, lb) {
            (Some(a), Some(b)) => {
                if a.len() == b.len() {
                    let l = map_lanes(op, &a, &b, None, None);
                    let v = vec_from_lanes(&l);
                    assert(l@ =~= Seq::new(a@.len(), |i: int| lane_op(op, a@[i], b@[i])));
                    Some((v, Sx::CoordX))
                } else {
                    None
                }
            },
            (Some(a), None) => match Self::as_numeric_scalar(rv) {
                Some((s, _)) => {
                    let h = self.hoist_for_broadcast(s);
                    let l = map_lanes(op, &a, &a, None, Some(&h));
                    let v = vec_from_lanes(&l);
                    assert(l@ =~= Seq::new(a@.len(), |i: int| lane_op(op, a@[i], h)));
                    Some((v, h))
                },
                None => None,
            },
            (None, Some(b)) => match Self::as_numeric_scalar(lv) {
                Some((s, _)) => {
                    let h = self.hoist_for_broadcast(s);
                    let l = map_lanes(op, &b, &b, Some(&h), None);
                    let v = vec_from_lanes(&l);
                    assert(l@ =~= Seq::new(b@.len(), |i: int| lane_op(op, h, b@[i])));
                    Some((v, h))
                },
                None => None,
            },
            (None, None) => None,
        }
    }

    /// `acc` minus each shape of `items` in turn; an error at the first
    /// element that is not a shape.
    fn subtract_all(&mut self, acc: u32, items: &Values, span: Span) -> (r: Option<Value>)
        ensures
            match subtract_chain(acc, *items, old(self).shapes@) {
                Ok((id, after)) => r == Some(Value::Shape(id)) && final(self).shapes@ == after
                    && final(self).diags@ == old(self).diags@,
                Err(after) => r is None && final(self).shapes@ == after && pushed_one(old(self).diags@, final(self).diags@)
                    && is_error_diag(
                    final(self).diags@.last(),
                    span,
                    "shape subtraction with an array requires shape elements"@,
                    None,
                    Some("use `shape - [shape1, shape2, ...]`"@),
                ),
            },
            *final(self) == (Checker { diags: final(self).diags, shapes: final(self).shapes, ..*old(self) }),
        decreases items,
    {
        match items {
            Values::Nil => Some(Value::Shape(acc)),
            Values::Cons(v, rest) => match &**v {
                Value::Shape(cut) => {
                    let id: u32 = #[verifier::truncate] (self.shapes.len() as u32);
                    self.shapes.push(ShapeNode::Subtract(acc, *cut));
                    self.subtract_all(id, rest, span)
                },
                _ => {
                    push_error(
                        self,
                        span,
                        String::from_str("shape subtraction with an array requires shape elements"),
                        "use `shape - [shape1, shape2, ...]`",
                    );
                    None
                },
            },
        }
    }

    /// Combines shapes; `None` when the operands are not shapes this
    /// operator combines.
    fn shape_binary(&mut self, op: BinOp, lv: &Value, rv: &Value, span: Span) -> (r: Option<Option<Value>>)
        ensures
            match spec_shape_binary(op, *lv, *rv, old(self).shapes@) {
                None => r is None && *final(self) == *old(self),
                Some((out, after)) => r is Some && final(self).shapes@ == after && *final(self) == (Checker {
                    diags: final(self).diags,
                    shapes: final(self).shapes,
                    ..*old(self)
                }) && match out {
                    Ok(v) => r.unwrap() == Some(v) && final(self).diags@ == old(self).diags@,
                    Err((m, help)) => r.unwrap() is None && pushed_one(old(self).diags@, final(self).diags@)
                        && is_error_diag(final(self).diags@.last(), span, m, None, Some(help)),
                },
            },
    {
        match (lv, rv) {
            (Value::Shape(a), Value::Shape(b)) => {
                let node = match op {
                    BinOp::Union => ShapeNode::Union(*a, *b),
                    BinOp::Intersect => ShapeNode::Intersect(*a, *b),
                    BinOp::Sub => ShapeNode::Subtract(*a, *b),
                    _ => return None,
                };
                let id: u32 = #[verifier::truncate] (self.shapes.len() as u32);
                self.shapes.push(node);
                Some(Some(Value::Shape(id)))
            },
            (Value::Shape(seed), Value::Array(items)) => {
                if !matches!(op, BinOp::Sub) {
                    return None;
                }
                Some(self.subtract_all(*seed, items, span))
            },
            _ => None,
        }
    }
}


fn color_binop_exec(op: BinOp, a: [Sx; 4], b: [Sx; 4]) -> (r: [Sx; 4])
    requires
        op.is_arith(),
    ensures
        r == color_binop(op, a, b),
{
    let r = Checker::color_bin(op, a, b).unwrap();
    assert(r@ =~= color_binop(op, a, b)@);
    proof {
        vstd::array::axiom_array_ext_equal(r, color_binop(op, a, b));
    }
    r
}

fn splat_exec(s: &Sx) -> (r: [Sx; 4])
    ensures
        r == splat(*s),
{
    let r = [s.clone_sx(), s.clone_sx(), s.clone_sx(), s.clone_sx()];
    assert(r@ =~= splat(*s)@);
    proof {
        vstd::array::axiom_array_ext_equal(r, splat(*s));
    }
    r
}

impl Checker {
    /// `lv op rv` for two evaluated operands: scalar arithmetic with kind
    /// promotion, lane-wise vector arithmetic broadcasting a scalar, matrix
    /// by vector products, color arithmetic in linear space, and shape
    /// combination; any other pairing is an error naming the operands.
    pub fn eval_binary_values(&mut self, op: BinOp, span: &Span, lv: Value, rv: Value) -> (r: Option<Value>)
        requires
            is_lanewise(op) && needs_hoist(lv, rv) ==> old(self).let_counter < u64::MAX,
        ensures
            exists|h: Sx| binary_done(
                *old(self),
                *final(self),
                r,
                *span,
                #[trigger] spec_binary_values(op, lv, rv, h, old(self).shapes@),
                h,
            ),
    {
        let ghost w = Sx::CoordX;
        if matches!(lv, Value::Error) || matches!(rv, Value::Error) {
            assert(binary_done(*old(self), *self, Some(Value::Error), *span, spec_binary_values(op, lv, rv, w, old(self).shapes@), w));
            return Some(Value::Error);
        }
        let lc = Self::as_color_field_value(&lv);
        let rc = Self::as_color_field_value(&rv);
        let ln = Self::as_numeric_scalar(&lv);
        let rn = Self::as_numeric_scalar(&rv);
        if is_arith_exec(op) {
            match (&lc, &rc) {
                (Some((ca, sa)), Some((cb, sb))) => {
                    let a = Self::to_working_color_space(crate::value::clone_sx_array(ca), *sa);
                    let b = Self::to_working_color_space(crate::value::clone_sx_array(cb), *sb);
                    let out = Value::ColorField { rgba: color_binop_exec(op, a, b), space: ColorSpace::Linear };
                    assert(binary_done(*old(self), *self, Some(out), *span, spec_binary_values(op, lv, rv, w, old(self).shapes@), w));
                    return Some(out);
                },
                _ => {},
            }
            match (&lc, &rn) {
                (Some((ca, sa)), Some((s, _))) => {
                    let a = Self::to_working_color_space(crate::value::clone_sx_array(ca), *sa);
                    let out = Value::ColorField { rgba: color_binop_exec(op, a, splat_exec(s)), space: ColorSpace::Linear };
                    assert(binary_done(*old(self), *self, Some(out), *span, spec_binary_values(op, lv, rv, w, old(self).shapes@), w));
                    return Some(out);
                },
                _ => {},
            }
            match (&ln, &rc) {
                (Some((s, _)), Some((cb, sb))) => {
                    let b = Self::to_working_color_space(crate::value::clone_sx_array(cb), *sb);
                    let out = Value::ColorField { rgba: color_binop_exec(op, splat_exec(s), b), space: ColorSpace::Linear };
                    assert(binary_done(*old(self), *self, Some(out), *span, spec_binary_values(op, lv, rv, w, old(self).shapes@), w));
                    return Some(out);
                },
                _ => {},
            }
        }
        if (lc.is_some() || rc.is_some()) && ln.is_none() && rn.is_none() {
            let head = cat5(
                "color arithmetic `",
                op_name_exec(op),
                "` only supports color/color or color/scalar operands, found ",
                lv.kind(),
                " and ",
            );
            let message = cat2(head.as_str(), rv.kind());
            push_error(self, *span, message, "use scalar factors or color expressions on both sides before applying this operator");
            assert(binary_done(*old(self), *self, None, *span, spec_binary_values(op, lv, rv, w, old(self).shapes@), w));
            return None;
        }
        match (ln, rn) {
            (Some((a, ak)), Some((b, bk))) => {
                let r = self.numeric_binary(op, a, ak, b, bk, &lv, &rv, *span);
                assert(binary_done(*old(self), *self, r, *span, spec_binary_values(op, lv, rv, w, old(self).shapes@), w));
                return r;
            },
            _ => {},
        }
        if is_lanewise_exec(op) {
            match self.lanewise_binary(op, &lv, &rv) {
                Some((v, h)) => {
                    assert(binary_done(*old(self), *self, Some(v), *span, spec_binary_values(op, lv, rv, h, old(self).shapes@), h));
                    return Some(v);
                },
                None => {},
            }
        }
        if matches!(op, BinOp::Mul) {
            match mat_mul(&lv, &rv) {
                Some(v) => {
                    assert(binary_done(*old(self), *self, Some(v), *span, spec_binary_values(op, lv, rv, w, old(self).shapes@), w));
                    return Some(v);
                },
                None => {},
            }
        }
        match self.shape_binary(op, &lv, &rv, *span) {
            Some(r) => {
                assert(binary_done(*old(self), *self, r, *span, spec_binary_values(op, lv, rv, w, old(self).shapes@), w));
                return r;
            },
            None => {},
        }
        match op {
            BinOp::Shl => push_error(
                self,
                *span,
                String::from_str("operator `<<` is not supported in expressions"),
                "use `bit_shl(x, shift)` instead",
            ),
            BinOp::Shr => push_error(
                self,
                *span,
                String::from_str("operator `>>` is not supported in expressions"),
                "use `bit_shr(x, shift)` instead",
            ),
            BinOp::BitXor => push_error(
                self,
                *span,
                String::from_str("operator `^` is not supported in expressions"),
                "use `bit_xor(a, b)` instead",
            ),
            _ => push_error(self, *span, undefined_message(op, &lv, &rv), undefined_help()),
        }
        assert(binary_done(*old(self), *self, None, *span, spec_binary_values(op, lv, rv, w, old(self).shapes@), w));
        None
    }
}

} // verus!
