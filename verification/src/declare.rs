//! Declaration of global parameters: the checked default and range of a
//! scalar, integer, toggle or color parameter, its record, and its binding.
use vstd::prelude::*;
use crate::ast::{BinOp, Expr, SExpr, UnOp, Unit};
use crate::checker::Checker;
use crate::diag::{is_error_diag, pushed_one, Diag, Severity, Span};
use crate::fold::spec_fold_bin;
use crate::num::Num;
use crate::params::{integral_literal, literal_of, literal_whole, non_literal_error};
use crate::payloads::scalar_lane;
use crate::scopes::{param_literals, scopes_get, spec_lookup, spec_param_units_ok};
use crate::surface::neg_lane;
use crate::sx::Sx;
use crate::text::{cat2, cat3, cat5, cat7, decimal, spec_decimal, str_eq};
use crate::value::{ColorSpace, Value};

verus! {

/// The checked default of a parameter.
#[derive(Debug, PartialEq)]
pub enum ParamDefault {
    Scalar(Num),
    Int(i32),
    UInt(u32),
    Bool(bool),
    Color([Num; 4]),
}

/// A declared parameter: its name, type, default and optional slider range.
#[derive(Debug)]
pub struct Param {
    pub name: String,
    pub ty_name: String,
    pub default: ParamDefault,
    pub min: Option<Num>,
    pub max: Option<Num>,
}

/// What a parameter declaration comes to.
pub enum ParamOutcome {
    /// The parameter is recorded with this default and range.
    Declared(ParamDefault, Option<Num>, Option<Num>),
    /// The range's minimum exceeds its maximum.
    Inverted(Num, Num),
    /// A toggle was given a range.
    BoolRange,
    /// A color was given a range.
    ColorRange(Span, Span),
    /// The type is not one a parameter can have here.
    Unsupported,
    /// A unit, literal or integer check failed.
    Rejected,
}

/// The lane a parameter operand evaluates to: unitless and pixel literals,
/// names bound to scalars, negation, and arithmetic on operands, folded where
/// the operands are literals.
pub open spec fn spec_param_operand(scopes: Seq<Vec<(String, Value)>>, e: SExpr) -> Option<Sx>
    decreases e,
{
    match e.node {
        Expr::Num(n, Unit::Unitless) => Some(Sx::Lit(n)),
        Expr::Num(n, Unit::Px) => Some(Sx::PxLit(n)),
        Expr::Var(name) => match spec_lookup(scopes, name@) {
            Some(v) => scalar_lane(v),
            None => None,
        },
        Expr::Unary(UnOp::Neg, inner) => match spec_param_operand(scopes, *inner) {
            Some(x) => Some(neg_lane(x)),
            None => None,
        },
        Expr::Binary(op, a, b) => if op.is_arith() {
            match (spec_param_operand(scopes, *a), spec_param_operand(scopes, *b)) {
                (Some(x), Some(y)) => Some(spec_fold_bin(op, x, y)),
                _ => None,
            }
        } else {
            None
        },
        _ => None,
    }
}

/// The literal an operand evaluates to, if it evaluates to one.
pub open spec fn operand_literal(scopes: Seq<Vec<(String, Value)>>, e: SExpr) -> Option<Num> {
    match spec_param_operand(scopes, e) {
        Some(sx) => literal_of(sx),
        None => None,
    }
}

/// The operand is a whole-number literal within `lo ..= hi`.
pub open spec fn int_literal_in(n: Option<Num>, lo: int, hi: int) -> bool {
    n matches Some(v) && integral_literal(v) && lo <= literal_whole(v) <= hi
}

pub open spec fn is_float_type(ty: Seq<char>) -> bool {
    ty == "f32"@ || ty == "f64"@ || ty == "half"@
}

pub open spec fn bool_literal(e: SExpr) -> Option<bool> {
    match e.node {
        Expr::Var(name) => if name@ == "true"@ {
            Some(true)
        } else if name@ == "false"@ {
            Some(false)
        } else {
            None
        },
        _ => None,
    }
}

/// The outcome of declaring a float parameter whose units were accepted.
pub open spec fn float_outcome(
    scopes: Seq<Vec<(String, Value)>>,
    default: SExpr,
    range: Option<(SExpr, SExpr)>,
) -> ParamOutcome {
    match operand_literal(scopes, default) {
        Some(d) => match range {
            None => ParamOutcome::Declared(ParamDefault::Scalar(d), None, None),
            Some((lo, hi)) => match (operand_literal(scopes, lo), operand_literal(scopes, hi)) {
                (Some(a), Some(b)) => if b.spec_lt(a) {
                    ParamOutcome::Inverted(a, b)
                } else {
                    ParamOutcome::Declared(ParamDefault::Scalar(d), Some(a), Some(b))
                },
                _ => ParamOutcome::Rejected,
            },
        },
        None => ParamOutcome::Rejected,
    }
}

/// The outcome of declaring an `i32` (`signed`) or `u32` parameter whose
/// units were accepted.
pub open spec fn int_outcome(
    scopes: Seq<Vec<(String, Value)>>,
    signed: bool,
    default: SExpr,
    range: Option<(SExpr, SExpr)>,
) -> ParamOutcome {
    let lo_b: int = if signed { i32::MIN as int } else { 0 };
    let hi_b: int = if signed { i32::MAX as int } else { u32::MAX as int };
    let d = operand_literal(scopes, default);
    if !int_literal_in(d, lo_b, hi_b) {
        ParamOutcome::Rejected
    } else {
        let dv = if signed {
            ParamDefault::Int(literal_whole(d->0) as i32)
        } else {
            ParamDefault::UInt(literal_whole(d->0) as u32)
        };
        match range {
            None => ParamOutcome::Declared(dv, None, None),
            Some((lo, hi)) => {
                let a = operand_literal(scopes, lo);
                let b = operand_literal(scopes, hi);
                if int_literal_in(a, lo_b, hi_b) && int_literal_in(b, lo_b, hi_b) {
                    if literal_whole(b->0) < literal_whole(a->0) {
                        ParamOutcome::Inverted(a->0, b->0)
                    } else {
                        ParamOutcome::Declared(dv, a, b)
                    }
                } else {
                    ParamOutcome::Rejected
                }
            },
        }
    }
}

/// The outcome of declaring a parameter of type `ty` with this default and
/// range, names resolved in `scopes`.
pub open spec fn spec_param_outcome(
    scopes: Seq<Vec<(String, Value)>>,
    ty: Seq<char>,
    default: SExpr,
    range: Option<(SExpr, SExpr)>,
) -> ParamOutcome {
    let units_ok = spec_param_units_ok(ty, param_literals(default, range));
    if is_float_type(ty) || ty == "i32"@ || ty == "u32"@ {
        if !units_ok {
            ParamOutcome::Rejected
        } else if is_float_type(ty) {
            float_outcome(scopes, default, range)
        } else {
            int_outcome(scopes, ty == "i32"@, default, range)
        }
    } else if ty == "bool"@ {
        match range {
            Some(_) => ParamOutcome::BoolRange,
            None => match bool_literal(default) {
                Some(b) => ParamOutcome::Declared(ParamDefault::Bool(b), None, None),
                None => ParamOutcome::Rejected,
            },
        }
    } else if ty == "color"@ {
        match range {
            Some((lo, hi)) => ParamOutcome::ColorRange(lo.span, hi.span),
            None => match default.node {
                Expr::Color(c) => ParamOutcome::Declared(ParamDefault::Color(c), None, None),
                _ => ParamOutcome::Rejected,
            },
        }
    } else {
        ParamOutcome::Unsupported
    }
}

/// The type names a parameter can have are distinct.
pub proof fn lemma_type_names_distinct()
    ensures
        "f32"@ != "color"@,
        "f64"@ != "color"@,
        "half"@ != "color"@,
        "i32"@ != "color"@,
        "u32"@ != "color"@,
        "bool"@ != "color"@,
        "i32"@ != "f32"@,
        "i32"@ != "f64"@,
        "i32"@ != "half"@,
        "u32"@ != "f32"@,
        "u32"@ != "f64"@,
        "u32"@ != "half"@,
        "u32"@ != "i32"@,
        "bool"@ != "f32"@,
        "bool"@ != "f64"@,
        "bool"@ != "half"@,
        "bool"@ != "i32"@,
        "bool"@ != "u32"@,
        "color"@ != "f32"@,
        "color"@ != "f64"@,
        "color"@ != "half"@,
        "color"@ != "i32"@,
        "color"@ != "u32"@,
{
    reveal_strlit("f32");
    reveal_strlit("f64");
    reveal_strlit("half");
    reveal_strlit("i32");
    reveal_strlit("u32");
    reveal_strlit("bool");
    reveal_strlit("color");
    assert("f32"@[0] != "i32"@[0]);
    assert("f64"@[0] != "i32"@[0]);
    assert("f64"@[1] != "f32"@[1]);
    assert("u32"@[0] != "i32"@[0]);
    assert("half"@[0] != "color"@[0]);
    assert("bool"@[0] != "color"@[0]);
}

/// A number as text: a whole number in decimal, otherwise `numerator/denominator`.
pub open spec fn spec_num_text(n: Num) -> Seq<char> {
    let sign = if n.neg && n.mag != 0 {
        "-"@
    } else {
        ""@
    };
    if n.den != 0 && n.mag % n.den == 0 {
        sign + spec_decimal((n.mag / n.den) as nat)
    } else {
        sign + spec_decimal(n.mag as nat) + "/"@ + spec_decimal(n.den as nat)
    }
}

pub fn num_text(n: Num) -> (r: String)
    ensures
        r@ == spec_num_text(n),
{
    let sign = if n.neg && n.mag != 0 {
        "-"
    } else {
        ""
    };
    if n.den != 0 && n.mag % n.den == 0 {
        let d = decimal(n.mag / n.den);
        cat2(sign, d.as_str())
    } else {
        let m = decimal(n.mag);
        let d = decimal(n.den);
        let a = cat3(sign, m.as_str(), "/");
        cat2(a.as_str(), d.as_str())
    }
}

/// The value a declared parameter is bound to: the parameter itself as a
/// scalar lane, or for a color its four channel lanes in linear space.
pub open spec fn param_binding(v: Value, name: Seq<char>, ty: Seq<char>) -> bool {
    if ty == "color"@ {
        match v {
            Value::ColorField { rgba, space } => {
                &&& space == ColorSpace::Linear
                &&& is_param_named(rgba[0], name + ".r"@)
                &&& is_param_named(rgba[1], name + ".g"@)
                &&& is_param_named(rgba[2], name + ".b"@)
                &&& is_param_named(rgba[3], name + ".a"@)
            },
            _ => false,
        }
    } else {
        match v {
            Value::Scalar(sx) => is_param_named(sx, name),
            _ => false,
        }
    }
}

/// `sx` reads the parameter lane named `n`.
pub open spec fn is_param_named(sx: Sx, n: Seq<char>) -> bool {
    match sx {
        Sx::Param(p) => p@ == n,
        _ => false,
    }
}

/// The diagnostic an inverted range is reported with.
pub open spec fn inverted_error(d: Diag, name_span: Span, a: Num, b: Num) -> bool {
    is_error_diag(
        d,
        name_span,
        "param range is inverted"@,
        Some("got "@ + spec_num_text(a) + " .. "@ + spec_num_text(b)),
        Some("write ranges as `min .. max` where `min <= max`"@),
    )
}

/// The help of the diagnostic for a color given a range.
pub open spec fn color_range_help(name: Seq<char>, lo: Span, hi: Span) -> Seq<char> {
    "`param "@ + name + ": color = ...` exposes a color directly; only scalar params support slider ranges (range written at spans "@
        + spec_decimal(lo.start as nat) + ".."@ + spec_decimal(lo.end as nat) + " and "@ + spec_decimal(
        hi.start as nat,
    ) + ".."@ + spec_decimal(hi.end as nat) + ")"@
}

/// The view of an optional range.
pub open spec fn range_view(range: Option<&(SExpr, SExpr)>) -> Option<(SExpr, SExpr)> {
    match range {
        Some(p) => Some(*p),
        None => None,
    }
}

/// `after` is `before` with a parameter named `name` of type `ty` declared
/// to outcome `out`: recorded and bound when declared; otherwise one error
/// reported, with the parameters and bindings unchanged.
pub open spec fn declared_as(
    before: Checker,
    after: Checker,
    name: Seq<char>,
    ty: Seq<char>,
    name_span: Span,
    out: ParamOutcome,
) -> bool {
    match out {
        ParamOutcome::Declared(d, lo, hi) => {
            &&& after.params@.len() == before.params@.len() + 1
            &&& after.params@.drop_last() == before.params@
            &&& after.params@.last().name@ == name
            &&& after.params@.last().ty_name@ == ty
            &&& after.params@.last().default == d
            &&& after.params@.last().min == lo
            &&& after.params@.last().max == hi
            &&& after.diags@ == before.diags@
            &&& after.scopes@.len() == before.scopes@.len()
            &&& exists|v: Value|
                param_binding(v, name, ty) && forall|n: Seq<char>|
                    #[trigger] scopes_get(after.scopes@, n) == if n == name {
                        Some(v)
                    } else {
                        scopes_get(before.scopes@, n)
                    }
        },
        _ => {
            &&& after.params == before.params
            &&& after.scopes == before.scopes
            &&& pushed_one(before.diags@, after.diags@)
            &&& after.diags@.last().severity == Severity::Error
            &&& match out {
                ParamOutcome::Inverted(a, b) => inverted_error(after.diags@.last(), name_span, a, b),
                ParamOutcome::BoolRange => is_error_diag(
                    after.diags@.last(),
                    name_span,
                    "bool params do not support ranges"@,
                    Some("remove this `in min .. max` range"@),
                    Some("`param enabled: bool = true` exposes a toggle; ranges are numeric only"@),
                ),
                ParamOutcome::ColorRange(lo, hi) => is_error_diag(
                    after.diags@.last(),
                    name_span,
                    "color params do not support ranges"@,
                    Some("remove this `in min .. max` range"@),
                    Some(color_range_help(name, lo, hi)),
                ),
                ParamOutcome::Unsupported => is_error_diag(
                    after.diags@.last(),
                    name_span,
                    "unsupported param type `"@ + ty + "`"@,
                    None,
                    Some(
                        "v0 supports `param` declarations with `f32`, `i32`, `u32`, `bool`, `color`, `texture`, and `texture<TypeName>`"@,
                    ),
                ),
                _ => true,
            }
        },
    }
}

fn lit_num(sx: &Sx) -> (r: Option<Num>)
    ensures
        r == literal_of(*sx),
{
    match sx {
        Sx::Lit(v) | Sx::PxLit(v) => Some(*v),
        _ => None,
    }
}

impl Checker {
    /// Evaluates a parameter operand; see `spec_param_operand`.
    pub fn param_operand(&self, e: &SExpr) -> (r: Option<Sx>)
        ensures
            r == spec_param_operand(self.scopes@, *e),
        decreases e,
    {
        match &e.node {
            Expr::Num(n, Unit::Unitless) => Some(Sx::Lit(*n)),
            Expr::Num(n, Unit::Px) => Some(Sx::PxLit(*n)),
            Expr::Var(name) => match self.lookup(name.as_str()) {
                Some(Value::Scalar(s)) => Some(s),
                Some(Value::Distance(s)) => Some(s),
                Some(Value::Coverage(s)) => Some(s),
                Some(Value::Mask(s)) => Some(s),
                _ => None,
            },
            Expr::Unary(UnOp::Neg, inner) => match self.param_operand(inner) {
                Some(x) => Some(Self::fold_neg_if_literal(x)),
                None => None,
            },
            Expr::Binary(op, a, b) => {
                let arith = match op {
                    BinOp::Add | BinOp::Sub | BinOp::Mul | BinOp::Div => true,
                    _ => false,
                };
                if arith {
                    match (self.param_operand(a), self.param_operand(b)) {
                        (Some(x), Some(y)) => Some(Self::fold_bin_if_literals(*op, x, y)),
                        _ => None,
                    }
                } else {
                    None
                }
            },
            _ => None,
        }
    }

    /// Evaluates an operand, reporting one that does not evaluate as not a
    /// numeric literal.
    fn operand_or_report(&mut self, e: &SExpr, label: &str) -> (r: Option<Sx>)
        ensures
            r == spec_param_operand(old(self).scopes@, *e),
            r is Some ==> final(self).diags@ == old(self).diags@,
            r is None ==> pushed_one(old(self).diags@, final(self).diags@) && non_literal_error(
                final(self).diags@.last(),
                e.span,
                label@,
            ),
            old(self).same_but_diags(*final(self)),
    {
        let r = self.param_operand(e);
        if r.is_none() {
            let d = Diag::error(e.span, cat3("param ", label, " must be a numeric literal")).with_help(
                String::from_str("v0 manifest output requires literal `default`, `min`, and `max` values"),
            );
            self.diags.push(d);
        }
        r
    }
}

impl Checker {
    /// Records a declared parameter and binds its name.
    fn record_param(
        &mut self,
        name: &str,
        ty_name: &str,
        d: ParamDefault,
        lo: Option<Num>,
        hi: Option<Num>,
        v: Value,
    )
        requires
            old(self).scopes@.len() > 0,
            param_binding(v, name@, ty_name@),
        ensures
            declared_as(*old(self), *final(self), name@, ty_name@, Span { start: 0, end: 0 }, ParamOutcome::Declared(d, lo, hi)),
    {
        let ghost gv = v;
        let ghost before = self.params@;
        self.params.push(
            Param { name: String::from_str(name), ty_name: String::from_str(ty_name), default: d, min: lo, max: hi },
        );
        assert(self.params@.drop_last() =~= before);
        self.bind(String::from_str(name), v);
        assert(param_binding(gv, name@, ty_name@));
    }

    /// Reports a range whose minimum exceeds its maximum.
    fn report_inverted(&mut self, name_span: &Span, a: Num, b: Num)
        ensures
            pushed_one(old(self).diags@, final(self).diags@),
            inverted_error(final(self).diags@.last(), *name_span, a, b),
            old(self).same_but_diags(*final(self)),
    {
        let ta = num_text(a);
        let tb = num_text(b);
        let l1 = cat3("got ", ta.as_str(), " .. ");
        let label = cat2(l1.as_str(), tb.as_str());
        let d = Diag::error(*name_span, String::from_str("param range is inverted")).with_help(
            String::from_str("write ranges as `min .. max` where `min <= max`"),
        ).with_label(label);
        self.diags.push(d);
    }

    /// Declares a float parameter whose literal units were accepted.
    #[verifier::rlimit(40)]
    fn declare_scalar_param(
        &mut self,
        name: &str,
        name_span: &Span,
        ty_name: &str,
        default: &SExpr,
        range: Option<&(SExpr, SExpr)>,
    )
        requires
            old(self).scopes@.len() > 0,
            is_float_type(ty_name@),
        ensures
            declared_as(
                *old(self),
                *final(self),
                name@,
                ty_name@,
                *name_span,
                float_outcome(old(self).scopes@, *default, range_view(range)),
            ),
    {
        proof {
            lemma_type_names_distinct();
        }
        let dsx = match self.operand_or_report(default, "default") {
            Some(s) => s,
            None => return ,
        };
        let d = match self.require_const_param_scalar(&dsx, "default", default.span) {
            Some(v) => v,
            None => return ,
        };
        match range {
            None => {
                let v = Value::Scalar(Sx::Param(String::from_str(name)));
                assert(self.scopes@.len() > 0);
                assert(ty_name@ != "color"@);
                assert(param_binding(v, name@, ty_name@));
                self.record_param(name, ty_name, ParamDefault::Scalar(d), None, None, v);
            },
            Some(pair) => {
                let asx = match self.operand_or_report(&pair.0, "range minimum") {
                    Some(s) => s,
                    None => return ,
                };
                let bsx = match self.operand_or_report(&pair.1, "range maximum") {
                    Some(s) => s,
                    None => return ,
                };
                let a = match self.require_const_param_scalar(&asx, "range minimum", pair.0.span) {
                    Some(v) => v,
                    None => return ,
                };
                let b = match self.require_const_param_scalar(&bsx, "range maximum", pair.1.span) {
                    Some(v) => v,
                    None => return ,
                };
                if b.lt(a) {
                    self.report_inverted(name_span, a, b);
                    return ;
                }
                let v = Value::Scalar(Sx::Param(String::from_str(name)));
                self.record_param(name, ty_name, ParamDefault::Scalar(d), Some(a), Some(b), v);
            },
        }
    }

    /// Declares an `i32` (`signed`) or `u32` parameter whose literal units
    /// were accepted.
    #[verifier::rlimit(40)]
    fn declare_int_param(
        &mut self,
        name: &str,
        name_span: &Span,
        ty_name: &str,
        default: &SExpr,
        range: Option<&(SExpr, SExpr)>,
        signed: bool,
    )
        requires
            old(self).scopes@.len() > 0,
            ty_name@ == "i32"@ || ty_name@ == "u32"@,
            signed == (ty_name@ == "i32"@),
        ensures
            declared_as(
                *old(self),
                *final(self),
                name@,
                ty_name@,
                *name_span,
                int_outcome(old(self).scopes@, signed, *default, range_view(range)),
            ),
    {
        proof {
            lemma_type_names_distinct();
        }
        let dsx = match self.operand_or_report(default, "default") {
            Some(s) => s,
            None => return ,
        };
        let dv = if signed {
            match self.require_const_param_i32(&dsx, "default", default.span) {
                Some(v) => ParamDefault::Int(v),
                None => return ,
            }
        } else {
            match self.require_const_param_u32(&dsx, "default", default.span) {
                Some(v) => ParamDefault::UInt(v),
                None => return ,
            }
        };
        match range {
            None => {
                let v = Value::Scalar(Sx::Param(String::from_str(name)));
                self.record_param(name, ty_name, dv, None, None, v);
            },
            Some(pair) => {
                let asx = match self.operand_or_report(&pair.0, "range minimum") {
                    Some(s) => s,
                    None => return ,
                };
                let bsx = match self.operand_or_report(&pair.1, "range maximum") {
                    Some(s) => s,
                    None => return ,
                };
                let inverted = if signed {
                    let ai = match self.require_const_param_i32(&asx, "range minimum", pair.0.span) {
                        Some(v) => v,
                        None => return ,
                    };
                    let bi = match self.require_const_param_i32(&bsx, "range maximum", pair.1.span) {
                        Some(v) => v,
                        None => return ,
                    };
                    bi < ai
                } else {
                    let au = match self.require_const_param_u32(&asx, "range minimum", pair.0.span) {
                        Some(v) => v,
                        None => return ,
                    };
                    let bu = match self.require_const_param_u32(&bsx, "range maximum", pair.1.span) {
                        Some(v) => v,
                        None => return ,
                    };
                    bu < au
                };
                let a = match lit_num(&asx) {
                    Some(v) => v,
                    None => return ,
                };
                let b = match lit_num(&bsx) {
                    Some(v) => v,
                    None => return ,
                };
                if inverted {
                    self.report_inverted(name_span, a, b);
                    return ;
                }
                let v = Value::Scalar(Sx::Param(String::from_str(name)));
                self.record_param(name, ty_name, dv, Some(a), Some(b), v);
            },
        }
    }

    /// Declares a parameter: checks its literal units, default and range
    /// for its type, records it and binds its name; reports the first
    /// problem otherwise.
    pub fn declare_param(
        &mut self,
        name: &str,
        name_span: &Span,
        ty_name: &str,
        default: &SExpr,
        range: Option<&(SExpr, SExpr)>,
    )
        requires
            old(self).scopes@.len() > 0,
        ensures
            declared_as(
                *old(self),
                *final(self),
                name@,
                ty_name@,
                *name_span,
                spec_param_outcome(old(self).scopes@, ty_name@, *default, range_view(range)),
            ),
    {
        proof {
            lemma_type_names_distinct();
        }
        let is_float = str_eq(ty_name, "f32") || str_eq(ty_name, "f64") || str_eq(ty_name, "half");
        let is_i32 = str_eq(ty_name, "i32");
        let is_u32 = str_eq(ty_name, "u32");
        if is_float || is_i32 || is_u32 {
            if !self.validate_param_literal_units(name, name_span, ty_name, default, range) {
                assert(self.diags@.drop_last() == old(self).diags@);
                assert(self.diags@.last().severity == Severity::Error);
                return ;
            }
            if is_float {
                self.declare_scalar_param(name, name_span, ty_name, default, range);
            } else {
                self.declare_int_param(name, name_span, ty_name, default, range, is_i32);
            }
        } else if str_eq(ty_name, "bool") {
            if range.is_some() {
                let d = Diag::error(*name_span, String::from_str("bool params do not support ranges")).with_label(
                    String::from_str("remove this `in min .. max` range"),
                ).with_help(String::from_str("`param enabled: bool = true` exposes a toggle; ranges are numeric only"));
                self.diags.push(d);
                return ;
            }
            match self.require_const_param_bool(default) {
                Some(b) => {
                    let v = Value::Scalar(Sx::Param(String::from_str(name)));
                    self.record_param(name, ty_name, ParamDefault::Bool(b), None, None, v);
                },
                None => {},
            }
        } else if str_eq(ty_name, "color") {
            match range {
                Some(pair) => {
                    let d1 = decimal(pair.0.span.start as u64);
                    let d2 = decimal(pair.0.span.end as u64);
                    let d3 = decimal(pair.1.span.start as u64);
                    let d4 = decimal(pair.1.span.end as u64);
                    let h1 = cat7(
                        "`param ",
                        name,
                        ": color = ...` exposes a color directly; only scalar params support slider ranges (range written at spans ",
                        d1.as_str(),
                        "..",
                        d2.as_str(),
                        " and ",
                    );
                    let help = cat5(h1.as_str(), d3.as_str(), "..", d4.as_str(), ")");
                    let d = Diag::error(*name_span, String::from_str("color params do not support ranges")).with_label(
                        String::from_str("remove this `in min .. max` range"),
                    ).with_help(help);
                    self.diags.push(d);
                },
                None => match &default.node {
                    Expr::Color(c) => {
                        let v = Value::ColorField {
                            rgba: [
                                Sx::Param(cat2(name, ".r")),
                                Sx::Param(cat2(name, ".g")),
                                Sx::Param(cat2(name, ".b")),
                                Sx::Param(cat2(name, ".a")),
                            ],
                            space: ColorSpace::Linear,
                        };
                        self.record_param(name, ty_name, ParamDefault::Color(*c), None, None, v);
                    },
                    _ => {
                        let d = Diag::error(default.span, String::from_str("param default red channel must be a numeric literal"))
                            .with_help(String::from_str("v0 manifest output requires literal `default`, `min`, and `max` values"));
                        self.diags.push(d);
                    },
                },
            }
        } else {
            let d = Diag::error(*name_span, cat3("unsupported param type `", ty_name, "`")).with_help(
                String::from_str(
                    "v0 supports `param` declarations with `f32`, `i32`, `u32`, `bool`, `color`, `texture`, and `texture<TypeName>`",
                ),
            );
            self.diags.push(d);
        }
    }
}

} // verus!
