//! Scoring of function overloads against call arguments.
use vstd::prelude::*;
use crate::ast::{Arg, Args, BinOp, Expr, SExpr, UnOp, Unit};
use crate::enums::{split_dot, split_dot_exec};
use crate::naming::lemma_first_from_bounds;
use crate::scopes::spec_lookup;
use crate::value::Value;
use crate::checker::Checker;
use crate::num::Num;
use crate::text::str_eq;

verus! {

/// The value type of a function parameter.
#[derive(Debug)]
pub enum FnValueTy {
    Scalar,
    Vec2,
    Vec3,
    Vec4,
    Mat2,
    Mat3,
    Mat4,
    CoordLike,
    Color,
    Shape,
    Layer,
    Texture,
    Enum(String),
    Struct(String),
    TypeVar(String),
    Array(String),
}

/// Which scalar type an overload's scalar parameter is specialized to.
#[derive(Clone, Copy, Debug, PartialEq, Eq, Structural)]
pub enum ScalarSpecialization {
    Any,
    F32,
    I32,
    U32,
}

/// What an argument's syntax says about its scalar type:
/// `(integral, non-negative, explicit type, explicitly unsigned, fits i32)`.
pub type ScalarHint = (bool, bool, bool, bool, bool);

/// The shape of an argument matches a parameter type.
pub open spec fn shape_matches(param_ty: FnValueTy, shape: Seq<char>) -> bool {
    if shape == "scalar"@ {
        param_ty is Scalar || param_ty is Enum || param_ty is TypeVar
    } else if shape == "vec2"@ {
        param_ty is Vec2 || param_ty is CoordLike || param_ty is TypeVar
    } else if shape == "vec3"@ {
        param_ty is Vec3 || param_ty is TypeVar
    } else if shape == "vec4"@ {
        param_ty is Vec4 || param_ty is TypeVar
    } else if shape == "mat2"@ {
        param_ty is Mat2 || param_ty is TypeVar
    } else if shape == "mat3"@ {
        param_ty is Mat3 || param_ty is TypeVar
    } else if shape == "mat4"@ {
        param_ty is Mat4 || param_ty is TypeVar
    } else if shape == "color"@ {
        param_ty is Color || param_ty is TypeVar
    } else {
        false
    }
}

pub open spec fn spec_shape_score(param_ty: FnValueTy, hint: Option<Seq<char>>) -> Option<i32> {
    match hint {
        None => Some(0),
        Some(shape) => if shape_matches(param_ty, shape) {
            Some(3)
        } else {
            None
        },
    }
}

pub open spec fn spec_specialization_score(spec: ScalarSpecialization, hint: Option<ScalarHint>) -> Option<i32> {
    match spec {
        ScalarSpecialization::Any => Some(0),
        ScalarSpecialization::F32 => match hint {
            Some((integral, _, _, _, _)) => if integral {
                Some(1)
            } else {
                Some(3)
            },
            None => Some(1),
        },
        ScalarSpecialization::I32 => match hint {
            Some((integral, _, explicit, explicit_unsigned, fits_i32)) => if !integral {
                None
            } else if !fits_i32 || (explicit && explicit_unsigned) {
                None
            } else {
                Some(3)
            },
            None => Some(0),
        },
        ScalarSpecialization::U32 => match hint {
            Some((integral, non_negative, explicit, explicit_unsigned, _)) => if !integral {
                None
            } else if explicit && !explicit_unsigned {
                None
            } else if non_negative {
                Some(3)
            } else {
                None
            },
            None => Some(0),
        },
    }
}

/// A literal denotes a whole number.
pub open spec fn lit_integral(v: Num) -> bool {
    v.den > 0 && v.mag % v.den == 0
}

/// A whole number `n` lies in the `i32` range.
pub open spec fn fits_i32(n: int) -> bool {
    i32::MIN <= n <= i32::MAX
}

pub open spec fn spec_scalar_arg_hint(e: SExpr) -> Option<ScalarHint> {
    match e.node {
        Expr::Num(v, Unit::Unitless) => if lit_integral(v) {
            Some((true, !v.neg || v.mag == 0, false, false, fits_i32(v.numer() / (v.den as int))))
        } else {
            Some((false, false, false, false, false))
        },
        Expr::Unary(UnOp::Neg, inner) => match inner.node {
            Expr::Num(v, Unit::Unitless) => if lit_integral(v) {
                Some((true, false, true, false, fits_i32(-(v.numer() / (v.den as int)))))
            } else {
                Some((false, false, true, false, false))
            },
            _ => None,
        },
        Expr::Call { name, .. } => if name@ == "int"@ || name@ == "i32"@ {
            Some((true, false, true, false, true))
        } else if name@ == "u32"@ {
            Some((true, true, true, true, false))
        } else if name@ == "float"@ || name@ == "f32"@ || name@ == "f64"@ || name@ == "half"@ {
            Some((false, false, true, false, false))
        } else {
            None
        },
        _ => None,
    }
}

fn integral_fits(v: Num, negate: bool) -> (r: bool)
    requires
        lit_integral(v),
    ensures
        r == fits_i32(if negate { -(v.numer() / (v.den as int)) } else { v.numer() / (v.den as int) }),
{
    let q: u64 = v.mag / v.den;
    proof {
        assert(v.mag as int == (v.den as int) * (q as int)) by (nonlinear_arith)
            requires
                v.mag % v.den == 0,
                v.den > 0,
                q == v.mag / v.den,
        ;
        if v.neg {
            assert(v.numer() / (v.den as int) == -(q as int)) by (nonlinear_arith)
                requires
                    v.numer() == -(v.mag as int),
                    v.mag as int == (v.den as int) * (q as int),
                    v.den > 0,
            ;
        } else {
            assert(v.numer() / (v.den as int) == q as int) by (nonlinear_arith)
                requires
                    v.numer() == v.mag as int,
                    v.mag as int == (v.den as int) * (q as int),
                    v.den > 0,
            ;
        }
    }
    let negative = v.neg != negate;
    if negative {
        q <= 0x8000_0000
    } else {
        q <= 0x7fff_ffff
    }
}

impl Checker {
    /// The score of a non-scalar parameter for an argument of the given
    /// shape: `0` without a shape, `3` when it matches, `None` otherwise.
    pub fn non_scalar_shape_score(param_ty: &FnValueTy, hint: Option<&str>) -> (r: Option<i32>)
        ensures
            r == spec_shape_score(
                *param_ty,
                match hint {
                    Some(h) => Some(h@),
                    None => None,
                },
            ),
    {
        let shape = match hint {
            None => return Some(0),
            Some(s) => s,
        };
        let matches = if str_eq(shape, "scalar") {
            matches!(param_ty, FnValueTy::Scalar | FnValueTy::Enum(_) | FnValueTy::TypeVar(_))
        } else if str_eq(shape, "vec2") {
            matches!(param_ty, FnValueTy::Vec2 | FnValueTy::CoordLike | FnValueTy::TypeVar(_))
        } else if str_eq(shape, "vec3") {
            matches!(param_ty, FnValueTy::Vec3 | FnValueTy::TypeVar(_))
        } else if str_eq(shape, "vec4") {
            matches!(param_ty, FnValueTy::Vec4 | FnValueTy::TypeVar(_))
        } else if str_eq(shape, "mat2") {
            matches!(param_ty, FnValueTy::Mat2 | FnValueTy::TypeVar(_))
        } else if str_eq(shape, "mat3") {
            matches!(param_ty, FnValueTy::Mat3 | FnValueTy::TypeVar(_))
        } else if str_eq(shape, "mat4") {
            matches!(param_ty, FnValueTy::Mat4 | FnValueTy::TypeVar(_))
        } else if str_eq(shape, "color") {
            matches!(param_ty, FnValueTy::Color | FnValueTy::TypeVar(_))
        } else {
            false
        };
        if matches {
            Some(3)
        } else {
            None
        }
    }

    /// The score of a scalar specialization for an argument with the given hint.
    pub fn scalar_specialization_score(spec: ScalarSpecialization, hint: Option<ScalarHint>) -> (r: Option<i32>)
        ensures
            r == spec_specialization_score(spec, hint),
    {
        match spec {
            ScalarSpecialization::Any => Some(0),
            ScalarSpecialization::F32 => match hint {
                Some((true, _, _, _, _)) => Some(1),
                Some((false, _, _, _, _)) => Some(3),
                None => Some(1),
            },
            ScalarSpecialization::I32 => match hint {
                Some((true, _, explicit, explicit_unsigned, fits)) => {
                    if !fits || (explicit && explicit_unsigned) {
                        None
                    } else {
                        Some(3)
                    }
                },
                Some((false, _, _, _, _)) => None,
                None => Some(0),
            },
            ScalarSpecialization::U32 => match hint {
                Some((true, non_negative, explicit, explicit_unsigned, _)) => {
                    if explicit && !explicit_unsigned {
                        return None;
                    }
                    if non_negative {
                        Some(3)
                    } else {
                        None
                    }
                },
                Some((false, _, _, _, _)) => None,
                None => Some(0),
            },
        }
    }

    /// What the syntax of an argument says about its scalar type.
    pub fn scalar_arg_hint(expr: &SExpr) -> (r: Option<ScalarHint>)
        ensures
            r == spec_scalar_arg_hint(*expr),
    {
        match &expr.node {
            Expr::Num(v, Unit::Unitless) => {
                if v.den > 0 && v.mag % v.den == 0 {
                    let fits = integral_fits(*v, false);
                    Some((true, !v.neg || v.mag == 0, false, false, fits))
                } else {
                    Some((false, false, false, false, false))
                }
            },
            Expr::Unary(UnOp::Neg, inner) => match &inner.node {
                Expr::Num(v, Unit::Unitless) => {
                    if v.den > 0 && v.mag % v.den == 0 {
                        let fits = integral_fits(*v, true);
                        Some((true, false, true, false, fits))
                    } else {
                        Some((false, false, true, false, false))
                    }
                },
                _ => None,
            },
            Expr::Call { name, .. } => {
                if str_eq(name.as_str(), "int") || str_eq(name.as_str(), "i32") {
                    Some((true, false, true, false, true))
                } else if str_eq(name.as_str(), "u32") {
                    Some((true, true, true, true, false))
                } else if str_eq(name.as_str(), "float") || str_eq(name.as_str(), "f32") || str_eq(
                    name.as_str(),
                    "f64",
                ) || str_eq(name.as_str(), "half") {
                    Some((false, false, true, false, false))
                } else {
                    None
                }
            },
            _ => None,
        }
    }
}

/// The value a name or member path is bound to, if any.
pub open spec fn bound_value(scopes: Seq<Vec<(String, Value)>>, e: SExpr) -> Option<Value>
    decreases e,
{
    match e.node {
        Expr::Var(name) => match spec_lookup(scopes, name@) {
            Some(v) => Some(v),
            None => dotted_value(scopes, name@),
        },
        Expr::Member(base, field) => match bound_value(scopes, *base) {
            Some(Value::Struct { fields, .. }) => fields.spec_get(field@),
            _ => None,
        },
        _ => None,
    }
}

/// `a.b.c`: the value of `a` followed through the record fields `b` and `c`.
pub open spec fn dotted_value(scopes: Seq<Vec<(String, Value)>>, name: Seq<char>) -> Option<Value> {
    match split_dot(name) {
        None => spec_lookup(scopes, name),
        Some((head, rest)) => match spec_lookup(scopes, head) {
            Some(v) => walk_fields(v, rest),
            None => None,
        },
    }
}

pub open spec fn walk_fields(v: Value, path: Seq<char>) -> Option<Value>
    decreases path.len(),
{
    match v {
        Value::Struct { fields, .. } => match split_dot(path) {
            None => fields.spec_get(path),
            Some((f, more)) => match fields.spec_get(f) {
                Some(w) => {
                    proof {
                        lemma_first_from_bounds(path, '.', 0);
                    }
                    walk_fields(w, more)
                },
                None => None,
            },
        },
        _ => None,
    }
}

/// The shape a bound value reports, when it is a scalar or a vector.
pub open spec fn value_shape(v: Value) -> Option<Seq<char>> {
    match v {
        Value::Vec2(_) => Some("vec2"@),
        Value::Vec3(_) => Some("vec3"@),
        Value::Vec4(_) => Some("vec4"@),
        Value::Scalar(_) => Some("scalar"@),
        _ => None,
    }
}

/// The shape of an arithmetic result: equal shapes, or a scalar with anything.
pub open spec fn combine_shapes(a: Seq<char>, b: Seq<char>) -> Option<Seq<char>> {
    if a == b || b == "scalar"@ {
        Some(a)
    } else if a == "scalar"@ {
        Some(b)
    } else {
        None
    }
}

/// The shape an argument has, as far as its syntax and the bound names tell.
pub open spec fn spec_arg_shape(scopes: Seq<Vec<(String, Value)>>, e: SExpr) -> Option<Seq<char>>
    decreases e, 1int,
{
    match bound_value(scopes, e) {
        Some(v) => match value_shape(v) {
            Some(s) => Some(s),
            None => syntax_shape(scopes, e),
        },
        None => syntax_shape(scopes, e),
    }
}

pub open spec fn syntax_shape(scopes: Seq<Vec<(String, Value)>>, e: SExpr) -> Option<Seq<char>>
    decreases e, 0int,
{
    match e.node {
        Expr::Num(_, Unit::Unitless) => Some("scalar"@),
        Expr::Unary(UnOp::Neg, v) => spec_arg_shape(scopes, *v),
        Expr::Binary(op, a, b) => if op is Add || op is Sub || op is Mul || op is Div {
            match (spec_arg_shape(scopes, *a), spec_arg_shape(scopes, *b)) {
                (Some(x), Some(y)) => combine_shapes(x, y),
                _ => None,
            }
        } else {
            None
        },
        Expr::Color(_) => Some("color"@),
        Expr::Vec2(..) => Some("vec2"@),
        Expr::Vec3(..) => Some("vec3"@),
        Expr::Vec4(..) => Some("vec4"@),
        Expr::Var(name) => if name@ == "coord"@ || name@ == "center"@ || name@ == "resolution"@ {
            Some("vec2"@)
        } else if name@ == "time"@ || name@ == "delta"@ {
            Some("scalar"@)
        } else {
            None
        },
        Expr::Member(_, field) => {
            let n = vstd::utf8::encode_utf8(field@).len() as usize;
            if n == 1 {
                Some("scalar"@)
            } else if n == 2 {
                Some("vec2"@)
            } else if n == 3 {
                Some("vec3"@)
            } else if n == 4 {
                Some("vec4"@)
            } else {
                None
            }
        },
        Expr::Call { name, args, .. } => {
            let n = name@;
            if n == "i32"@ || n == "int"@ || n == "u32"@ || n == "float"@ || n == "f32"@ || n == "f64"@ || n
                == "half"@ {
                Some("scalar"@)
            } else if n == "vec2"@ || n == "vec3"@ || n == "vec4"@ || n == "mat2"@ || n == "mat3"@ || n
                == "mat4"@ {
                Some(n)
            } else if n == "rgb"@ || n == "rgba"@ || n == "rgb24"@ || n == "rgba32"@ {
                Some("color"@)
            } else if n == "cross"@ {
                match args {
                    Args::Cons(first, _) => match spec_arg_shape(scopes, first.value) {
                        Some(s) => if s == "vec2"@ {
                            Some("scalar"@)
                        } else if s == "vec3"@ {
                            Some("vec3"@)
                        } else {
                            None
                        },
                        None => None,
                    },
                    Args::Nil => None,
                }
            } else if n == "min"@ || n == "max"@ || n == "clamp"@ || n == "mix"@ || n == "pow"@ || n == "step"@
                || n == "smoothstep"@ {
                args_shape(scopes, args, "scalar"@)
            } else if n == "normalize"@ || n == "abs"@ || n == "sign"@ || n == "reflect"@ || n == "refract"@ || n
                == "floor"@ || n == "ceil"@ || n == "fract"@ || n == "sqrt"@ || n == "inverse_sqrt"@ || n
                == "inverseSqrt"@ || n == "inversesqrt"@ || n == "rsqrt"@ || n == "sin"@ || n == "cos"@ || n
                == "tan"@ || n == "exp"@ || n == "log"@ {
                match args {
                    Args::Cons(first, _) => spec_arg_shape(scopes, first.value),
                    Args::Nil => None,
                }
            } else {
                None
            }
        },
        _ => None,
    }
}

/// The common shape of all arguments, starting from `acc`.
pub open spec fn args_shape(scopes: Seq<Vec<(String, Value)>>, args: Args, acc: Seq<char>) -> Option<Seq<char>>
    decreases args, 0int,
{
    match args {
        Args::Nil => Some(acc),
        Args::Cons(a, rest) => match spec_arg_shape(scopes, a.value) {
            Some(next) => match combine_shapes(acc, next) {
                Some(c) => args_shape(scopes, *rest, c),
                None => None,
            },
            None => None,
        },
    }
}

fn walk_fields_exec(v: Value, path: &str) -> (r: Option<Value>)
    ensures
        r == walk_fields(v, path@),
    decreases path@.len(),
{
    match v {
        Value::Struct { fields, .. } => match split_dot_exec(path) {
            None => match fields.get(path) {
                Some(w) => Some(w.clone_value()),
                None => None,
            },
            Some((f, more)) => match fields.get(f) {
                Some(w) => {
                    proof {
                        lemma_first_from_bounds(path@, '.', 0);
                    }
                    walk_fields_exec(w.clone_value(), more)
                },
                None => None,
            },
        },
        _ => None,
    }
}

fn shape_of_value(v: &Value) -> (r: Option<&'static str>)
    ensures
        match r {
            Some(s) => value_shape(*v) == Some(s@),
            None => value_shape(*v) is None,
        },
{
    match v {
        Value::Vec2(_) => Some("vec2"),
        Value::Vec3(_) => Some("vec3"),
        Value::Vec4(_) => Some("vec4"),
        Value::Scalar(_) => Some("scalar"),
        _ => None,
    }
}

fn combine_shapes_exec(a: &'static str, b: &'static str) -> (r: Option<&'static str>)
    ensures
        match r {
            Some(s) => combine_shapes(a@, b@) == Some(s@),
            None => combine_shapes(a@, b@) is None,
        },
{
    if str_eq(a, b) || str_eq(b, "scalar") {
        Some(a)
    } else if str_eq(a, "scalar") {
        Some(b)
    } else {
        None
    }
}

impl Checker {
    /// The value a name or member path is bound to, if any.
    fn bound_value(&self, e: &SExpr) -> (r: Option<Value>)
        ensures
            r == bound_value(self.scopes@, *e),
        decreases e,
    {
        match &e.node {
            Expr::Var(name) => match self.lookup(name.as_str()) {
                Some(v) => Some(v),
                None => match split_dot_exec(name.as_str()) {
                    None => self.lookup(name.as_str()),
                    Some((head, rest)) => match self.lookup(head) {
                        Some(v) => walk_fields_exec(v, rest),
                        None => None,
                    },
                },
            },
            Expr::Member(base, field) => match self.bound_value(base) {
                Some(Value::Struct { fields, .. }) => match fields.get(field.as_str()) {
                    Some(w) => Some(w.clone_value()),
                    None => None,
                },
                _ => None,
            },
            _ => None,
        }
    }

    /// The shape an argument has, as far as its syntax and the bound names
    /// tell: `scalar`, `vec2`, `vec3`, `vec4`, `mat2`, `mat3`, `mat4` or `color`.
    pub fn arg_shape_hint(&self, expr: &SExpr) -> (r: Option<&'static str>)
        ensures
            match r {
                Some(s) => spec_arg_shape(self.scopes@, *expr) == Some(s@),
                None => spec_arg_shape(self.scopes@, *expr) is None,
            },
        decreases expr, 1int,
    {
        match self.bound_value(expr) {
            Some(v) => match shape_of_value(&v) {
                Some(s) => return Some(s),
                None => {},
            },
            None => {},
        }
        self.syntax_shape_hint(expr)
    }

    fn syntax_shape_hint(&self, expr: &SExpr) -> (r: Option<&'static str>)
        ensures
            match r {
                Some(s) => syntax_shape(self.scopes@, *expr) == Some(s@),
                None => syntax_shape(self.scopes@, *expr) is None,
            },
        decreases expr, 0int,
    {
        match &expr.node {
            Expr::Num(_, Unit::Unitless) => Some("scalar"),
            Expr::Unary(UnOp::Neg, v) => self.arg_shape_hint(v),
            Expr::Binary(op, a, b) => {
                if matches!(op, BinOp::Add | BinOp::Sub | BinOp::Mul | BinOp::Div) {
                    let x = self.arg_shape_hint(a)?;
                    let y = self.arg_shape_hint(b)?;
                    combine_shapes_exec(x, y)
                } else {
                    None
                }
            },
            Expr::Color(_) => Some("color"),
            Expr::Vec2(..) => Some("vec2"),
            Expr::Vec3(..) => Some("vec3"),
            Expr::Vec4(..) => Some("vec4"),
            Expr::Var(name) => {
                let n = name.as_str();
                if str_eq(n, "coord") || str_eq(n, "center") || str_eq(n, "resolution") {
                    Some("vec2")
                } else if str_eq(n, "time") || str_eq(n, "delta") {
                    Some("scalar")
                } else {
                    None
                }
            },
            Expr::Member(_, field) => {
                let n = field.as_str().len();
                if n == 1 {
                    Some("scalar")
                } else if n == 2 {
                    Some("vec2")
                } else if n == 3 {
                    Some("vec3")
                } else if n == 4 {
                    Some("vec4")
                } else {
                    None
                }
            },
            Expr::Call { name, args, .. } => {
                let n = name.as_str();
                if str_eq(n, "i32") || str_eq(n, "int") || str_eq(n, "u32") || str_eq(n, "float") || str_eq(n, "f32")
                    || str_eq(n, "f64") || str_eq(n, "half") {
                    Some("scalar")
                } else if str_eq(n, "vec2") {
                    Some("vec2")
                } else if str_eq(n, "vec3") {
                    Some("vec3")
                } else if str_eq(n, "vec4") {
                    Some("vec4")
                } else if str_eq(n, "mat2") {
                    Some("mat2")
                } else if str_eq(n, "mat3") {
                    Some("mat3")
                } else if str_eq(n, "mat4") {
                    Some("mat4")
                } else if str_eq(n, "rgb") || str_eq(n, "rgba") || str_eq(n, "rgb24") || str_eq(n, "rgba32") {
                    Some("color")
                } else if str_eq(n, "cross") {
                    match args {
                        Args::Cons(first, _) => {
                            let s = self.arg_shape_hint(&first.value)?;
                            if str_eq(s, "vec2") {
                                Some("scalar")
                            } else if str_eq(s, "vec3") {
                                Some("vec3")
                            } else {
                                None
                            }
                        },
                        Args::Nil => None,
                    }
                } else if str_eq(n, "min") || str_eq(n, "max") || str_eq(n, "clamp") || str_eq(n, "mix") || str_eq(n, "pow")
                    || str_eq(n, "step") || str_eq(n, "smoothstep") {
                    self.args_shape_hint(args, "scalar")
                } else if str_eq(n, "normalize") || str_eq(n, "abs") || str_eq(n, "sign") || str_eq(n, "reflect")
                    || str_eq(n, "refract") || str_eq(n, "floor") || str_eq(n, "ceil") || str_eq(n, "fract")
                    || str_eq(n, "sqrt") || str_eq(n, "inverse_sqrt") || str_eq(n, "inverseSqrt") || str_eq(n, "inversesqrt")
                    || str_eq(n, "rsqrt") || str_eq(n, "sin") || str_eq(n, "cos") || str_eq(n, "tan") || str_eq(n, "exp")
                    || str_eq(n, "log") {
                    match args {
                        Args::Cons(first, _) => self.arg_shape_hint(&first.value),
                        Args::Nil => None,
                    }
                } else {
                    None
                }
            },
            _ => None,
        }
    }

    fn args_shape_hint(&self, args: &Args, acc: &'static str) -> (r: Option<&'static str>)
        ensures
            match r {
                Some(s) => args_shape(self.scopes@, *args, acc@) == Some(s@),
                None => args_shape(self.scopes@, *args, acc@) is None,
            },
        decreases args, 0int,
    {
        match args {
            Args::Nil => Some(acc),
            Args::Cons(a, rest) => {
                let next = self.arg_shape_hint(&a.value)?;
                let c = combine_shapes_exec(acc, next)?;
                self.args_shape_hint(rest, c)
            },
        }
    }
}

} // verus!
