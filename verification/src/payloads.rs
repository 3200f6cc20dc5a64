//! Turning checked values into the lanes a material or vertex payload holds.
use vstd::prelude::*;
use crate::checker::Checker;
use crate::diag::{is_error_diag, pushed_one, Diag, Span};
use crate::num::Num;
use crate::sx::{Sx, SxArgs, SxVec, UnaryOp};
use crate::text::cat2;
use crate::value::{Fields, Value, Values};

verus! {

/// The scalar lane of a scalar-like value.
pub open spec fn scalar_lane(v: Value) -> Option<Sx> {
    match v {
        Value::Scalar(sx) | Value::Distance(sx) | Value::Coverage(sx) | Value::Mask(sx) => Some(sx),
        _ => None,
    }
}

/// The four lanes of a scalar, vector or color value, padded with zeros.
pub open spec fn vec4_lanes(v: Value) -> Option<Seq<Sx>> {
    let zero = Sx::Lit(Num::spec_zero());
    match v {
        Value::Scalar(sx) | Value::Distance(sx) | Value::Coverage(sx) | Value::Mask(sx) => Some(seq![sx, zero, zero, zero]),
        Value::Vec2((x, y)) => Some(seq![x, y, zero, zero]),
        Value::Vec3((x, y, z)) => Some(seq![x, y, z, zero]),
        Value::Vec4((x, y, z, w)) => Some(seq![x, y, z, w]),
        Value::Color { rgba, .. } => Some(seq![Sx::Lit(rgba[0]), Sx::Lit(rgba[1]), Sx::Lit(rgba[2]), Sx::Lit(rgba[3])]),
        Value::ColorField { rgba, .. } => Some(rgba@),
        _ => None,
    }
}

/// The scalar lane of `v`; otherwise an error saying what was found.
pub fn value_to_scalar_sx(v: Value, span: &Span, checker: &mut Checker) -> (r: Option<Sx>)
    ensures
        r == scalar_lane(v),
        r is Some ==> final(checker).diags@ == old(checker).diags@,
        r is None ==> pushed_one(old(checker).diags@, final(checker).diags@) && is_error_diag(
            final(checker).diags@.last(),
            *span,
            "expected scalar, found "@ + v.spec_kind(),
            None,
            Some("use a scalar expression here"@),
        ),
        old(checker).same_but_diags(*final(checker)),
{
    match v {
        Value::Scalar(sx) | Value::Distance(sx) | Value::Coverage(sx) | Value::Mask(sx) => Some(sx),
        other => {
            let d = Diag::error(*span, cat2("expected scalar, found ", other.kind()))
                .with_help(String::from_str("use a scalar expression here"));
            checker.diags.push(d);
            None
        },
    }
}

/// The four lanes a vertex payload field carries; no value gives none, and a
/// value of another kind gives an error naming `context`.
pub fn value_to_channel_vec4_payload(
    value: Option<Value>,
    span: &Span,
    checker: &mut Checker,
    context: &str,
) -> (r: Option<[Sx; 4]>)
    ensures
        match value {
            None => r is None && final(checker).diags@ == old(checker).diags@,
            Some(v) => match vec4_lanes(v) {
                Some(lanes) => r is Some && r.unwrap()@ == lanes && final(checker).diags@ == old(checker).diags@,
                None => r is None && pushed_one(old(checker).diags@, final(checker).diags@) && is_error_diag(
                    final(checker).diags@.last(),
                    *span,
                    "expected scalar/vec/color value for "@ + context@ + ", found "@ + v.spec_kind(),
                    None,
                    Some("use scalar, vec2/vec3/vec4, or color values"@),
                ),
            },
        },
        old(checker).same_but_diags(*final(checker)),
{
    let value = match value {
        Some(v) => v,
        None => return None,
    };
    match value {
        Value::Scalar(sx) | Value::Distance(sx) | Value::Coverage(sx) | Value::Mask(sx) => Some(
            [sx, Sx::Lit(Num::zero()), Sx::Lit(Num::zero()), Sx::Lit(Num::zero())],
        ),
        Value::Vec2((x, y)) => Some([x, y, Sx::Lit(Num::zero()), Sx::Lit(Num::zero())]),
        Value::Vec3((x, y, z)) => Some([x, y, z, Sx::Lit(Num::zero())]),
        Value::Vec4((x, y, z, w)) => Some([x, y, z, w]),
        Value::Color { rgba, .. } => Some([Sx::Lit(rgba[0]), Sx::Lit(rgba[1]), Sx::Lit(rgba[2]), Sx::Lit(rgba[3])]),
        Value::ColorField { rgba, .. } => Some(rgba),
        other => {
            let head = cat2("expected scalar/vec/color value for ", context);
            let d = Diag::error(*span, crate::text::cat3(head.as_str(), ", found ", other.kind()))
                .with_help(String::from_str("use scalar, vec2/vec3/vec4, or color values"));
            checker.diags.push(d);
            None
        },
    }
}

/// A material channel's value as the material description holds it.
#[derive(Debug)]
pub enum MaterialValue {
    Scalar(Sx),
    Vector(Vec<Sx>),
    Matrix(Vec<Vec<Sx>>),
    Array(Vec<MaterialValue>),
    Record(Vec<(String, MaterialValue)>),
}

/// The value is of a kind a material channel can hold: scalars, vectors,
/// colors, matrices, and arrays and records of those.
pub open spec fn material_typed(v: Value) -> bool
    decreases v, 0int,
{
    match v {
        Value::Scalar(_) | Value::Distance(_) | Value::Coverage(_) | Value::Mask(_) | Value::Vec2(_)
        | Value::Vec3(_) | Value::Vec4(_) | Value::Color { .. } | Value::ColorField { .. } | Value::Mat2(_)
        | Value::Mat3(_) => true,
        Value::Array(values) => values_material_typed(values),
        Value::Struct { fields, .. } => fields_material_typed(fields),
        _ => false,
    }
}

pub open spec fn values_material_typed(values: Values) -> bool
    decreases values, 1int,
{
    match values {
        Values::Nil => true,
        Values::Cons(v, rest) => material_typed(*v) && values_material_typed(*rest),
    }
}

pub open spec fn fields_material_typed(fields: Fields) -> bool
    decreases fields, 1int,
{
    match fields {
        Fields::Nil => true,
        Fields::Cons(_, v, rest) => material_typed(*v) && fields_material_typed(*rest),
    }
}

/// `m` is the material description of `v`: scalars as a scalar, vectors and
/// colors as their lanes, matrices as their rows, arrays and records element
/// by element, in order.
pub open spec fn material_of(v: Value, m: MaterialValue) -> bool
    decreases v, 0int,
{
    match v {
        Value::Scalar(sx) | Value::Distance(sx) | Value::Coverage(sx) | Value::Mask(sx) => m == MaterialValue::Scalar(sx),
        Value::Vec2((x, y)) => m matches MaterialValue::Vector(vs) && vs@ == seq![x, y],
        Value::Vec3((x, y, z)) => m matches MaterialValue::Vector(vs) && vs@ == seq![x, y, z],
        Value::Vec4((x, y, z, w)) => m matches MaterialValue::Vector(vs) && vs@ == seq![x, y, z, w],
        Value::Color { rgba, .. } => m matches MaterialValue::Vector(vs)
            && vs@ == seq![Sx::Lit(rgba[0]), Sx::Lit(rgba[1]), Sx::Lit(rgba[2]), Sx::Lit(rgba[3])],
        Value::ColorField { rgba, .. } => m matches MaterialValue::Vector(vs) && vs@ == rgba@,
        Value::Mat2(((a, b), (c, d))) => m matches MaterialValue::Matrix(rows) && rows@.len() == 2
            && rows@[0]@ == seq![a, b] && rows@[1]@ == seq![c, d],
        Value::Mat3(((a, b, c), (d, e, f), (g, h, i))) => m matches MaterialValue::Matrix(rows) && rows@.len() == 3
            && rows@[0]@ == seq![a, b, c] && rows@[1]@ == seq![d, e, f] && rows@[2]@ == seq![g, h, i],
        Value::Array(values) => m matches MaterialValue::Array(ms) && values_material_of(values, ms@),
        Value::Struct { fields, .. } => m matches MaterialValue::Record(fs) && fields_material_of(fields, fs@),
        _ => false,
    }
}

pub open spec fn values_material_of(values: Values, ms: Seq<MaterialValue>) -> bool
    decreases values, 1int,
{
    match values {
        Values::Nil => ms.len() == 0,
        Values::Cons(v, rest) => ms.len() > 0 && material_of(*v, ms[0]) && values_material_of(*rest, ms.drop_first()),
    }
}

pub open spec fn fields_material_of(fields: Fields, fs: Seq<(String, MaterialValue)>) -> bool
    decreases fields, 1int,
{
    match fields {
        Fields::Nil => fs.len() == 0,
        Fields::Cons(n, v, rest) => fs.len() > 0 && fs[0].0 == n && material_of(*v, fs[0].1)
            && fields_material_of(*rest, fs.drop_first()),
    }
}

fn material_values(values: Values) -> (r: Vec<MaterialValue>)
    requires
        values_material_typed(values),
    ensures
        values_material_of(values, r@),
    decreases values, 1int,
{
    match values {
        Values::Nil => Vec::new(),
        Values::Cons(v, rest) => {
            let head = material_value(*v);
            let mut tail = material_values(*rest);
            let ghost t = tail@;
            tail.insert(0, head);
            assert(tail@.drop_first() =~= t);
            tail
        },
    }
}

fn material_fields(fields: Fields) -> (r: Vec<(String, MaterialValue)>)
    requires
        fields_material_typed(fields),
    ensures
        fields_material_of(fields, r@),
    decreases fields, 1int,
{
    match fields {
        Fields::Nil => Vec::new(),
        Fields::Cons(n, v, rest) => {
            let head = material_value(*v);
            let mut tail = material_fields(*rest);
            let ghost t = tail@;
            tail.insert(0, (n, head));
            assert(tail@.drop_first() =~= t);
            tail
        },
    }
}

/// The material description of a channel value of a material type.
pub fn material_value(value: Value) -> (r: MaterialValue)
    requires
        material_typed(value),
    ensures
        material_of(value, r),
    decreases value, 0int,
{
    match value {
        Value::Scalar(v) | Value::Distance(v) | Value::Coverage(v) | Value::Mask(v) => MaterialValue::Scalar(v),
        Value::Vec2((x, y)) => MaterialValue::Vector(vec![x, y]),
        Value::Vec3((x, y, z)) => MaterialValue::Vector(vec![x, y, z]),
        Value::Vec4((x, y, z, w)) => MaterialValue::Vector(vec![x, y, z, w]),
        Value::Color { rgba, .. } => MaterialValue::Vector(
            vec![Sx::Lit(rgba[0]), Sx::Lit(rgba[1]), Sx::Lit(rgba[2]), Sx::Lit(rgba[3])],
        ),
        Value::ColorField { rgba, .. } => {
            let lanes = vec![rgba[0].clone_sx(), rgba[1].clone_sx(), rgba[2].clone_sx(), rgba[3].clone_sx()];
            assert(lanes@ =~= rgba@);
            MaterialValue::Vector(lanes)
        },
        Value::Mat2(((a, b), (c, d))) => MaterialValue::Matrix(vec![vec![a, b], vec![c, d]]),
        Value::Mat3(((a, b, c), (d, e, f), (g, h, i))) => MaterialValue::Matrix(
            vec![vec![a, b, c], vec![d, e, f], vec![g, h, i]],
        ),
        Value::Array(values) => MaterialValue::Array(material_values(values)),
        Value::Struct { fields, .. } => MaterialValue::Record(material_fields(fields)),
        _ => MaterialValue::Array(Vec::new()),
    }
}

/// The expression samples a texture or takes a screen-space derivative
/// somewhere inside it.
pub open spec fn fragment_only(sx: Sx) -> bool
    decreases sx, 0int,
{
    match sx {
        Sx::TexChannel { .. } => true,
        Sx::Unary(op, a) => op is Ddx || op is Ddy || op is Fwidth || fragment_only(*a),
        Sx::Binary(_, a, b) => fragment_only(*a) || fragment_only(*b),
        Sx::Ternary(_, a, b, c) => fragment_only(*a) || fragment_only(*b) || fragment_only(*c),
        Sx::Dot(a, b) => vec_fragment_only(a) || vec_fragment_only(b),
        Sx::Length(v) => vec_fragment_only(v),
        Sx::UserCall { args, .. } => args_fragment_only(args),
        Sx::Let { value, body, .. } => fragment_only(*value) || fragment_only(*body),
        _ => false,
    }
}

pub open spec fn vec_fragment_only(v: SxVec) -> bool
    decreases v, 1int,
{
    match v {
        SxVec::V2(a, b) => fragment_only(*a) || fragment_only(*b),
        SxVec::V3(a, b, c) => fragment_only(*a) || fragment_only(*b) || fragment_only(*c),
        SxVec::V4(a, b, c, d) => fragment_only(*a) || fragment_only(*b) || fragment_only(*c) || fragment_only(*d),
    }
}

pub open spec fn args_fragment_only(args: SxArgs) -> bool
    decreases args, 1int,
{
    match args {
        SxArgs::Nil => false,
        SxArgs::Cons(a, rest) => fragment_only(*a) || args_fragment_only(*rest),
    }
}

fn vec_fragment_only_exec(v: &SxVec) -> (r: bool)
    ensures
        r == vec_fragment_only(*v),
    decreases v, 1int,
{
    match v {
        SxVec::V2(a, b) => fragment_only_exec(a) || fragment_only_exec(b),
        SxVec::V3(a, b, c) => fragment_only_exec(a) || fragment_only_exec(b) || fragment_only_exec(c),
        SxVec::V4(a, b, c, d) => fragment_only_exec(a) || fragment_only_exec(b) || fragment_only_exec(c)
            || fragment_only_exec(d),
    }
}

fn args_fragment_only_exec(args: &SxArgs) -> (r: bool)
    ensures
        r == args_fragment_only(*args),
    decreases args, 1int,
{
    match args {
        SxArgs::Nil => false,
        SxArgs::Cons(a, rest) => fragment_only_exec(a) || args_fragment_only_exec(rest),
    }
}

/// Whether the expression samples a texture or takes a screen-space derivative.
pub fn fragment_only_exec(sx: &Sx) -> (r: bool)
    ensures
        r == fragment_only(*sx),
    decreases sx, 0int,
{
    match sx {
        Sx::TexChannel { .. } => true,
        Sx::Unary(op, a) => matches!(op, UnaryOp::Ddx | UnaryOp::Ddy | UnaryOp::Fwidth) || fragment_only_exec(a),
        Sx::Binary(_, a, b) => fragment_only_exec(a) || fragment_only_exec(b),
        Sx::Ternary(_, a, b, c) => fragment_only_exec(a) || fragment_only_exec(b) || fragment_only_exec(c),
        Sx::Dot(a, b) => vec_fragment_only_exec(a) || vec_fragment_only_exec(b),
        Sx::Length(v) => vec_fragment_only_exec(v),
        Sx::UserCall { args, .. } => args_fragment_only_exec(args),
        Sx::Let { value, body, .. } => fragment_only_exec(value) || fragment_only_exec(body),
        _ => false,
    }
}

/// The lanes of a surface vertex field use neither texture sampling nor
/// screen-space derivatives; otherwise an error naming the field.
pub fn validate_surface_vertex_expr(checker: &mut Checker, vec: &[Sx], span: &Span, field_name: &str) -> (r: bool)
    ensures
        r == (forall|i: int| 0 <= i < vec@.len() ==> !#[trigger] fragment_only(vec@[i])),
        r ==> final(checker).diags@ == old(checker).diags@,
        !r ==> pushed_one(old(checker).diags@, final(checker).diags@) && is_error_diag(
            final(checker).diags@.last(),
            *span,
            "surface vertex `"@ + field_name@ + ":` cannot use texture sampling or screen-space derivatives"@,
            None,
            Some("vertex expressions can use surface fields, params, and scalar math but not texture sampling or ddx/ddy/fwidth"@),
        ),
        old(checker).same_but_diags(*final(checker)),
{
    let mut i: usize = 0;
    while i < vec.len()
        invariant
            i <= vec@.len(),
            forall|j: int| 0 <= j < i ==> !#[trigger] fragment_only(vec@[j]),
            checker.diags@ == old(checker).diags@,
            old(checker).same_but_diags(*checker),
        decreases vec@.len() - i,
    {
        if fragment_only_exec(&vec[i]) {
            let d = Diag::error(
                *span,
                crate::text::cat3("surface vertex `", field_name, ":` cannot use texture sampling or screen-space derivatives"),
            ).with_help(String::from_str(
                "vertex expressions can use surface fields, params, and scalar math but not texture sampling or ddx/ddy/fwidth",
            ));
            checker.diags.push(d);
            return false;
        }
        i += 1;
    }
    true
}

} // verus!
