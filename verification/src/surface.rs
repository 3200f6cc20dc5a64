//! Material property declarations: channel types, channel symbols, default
//! values, and the flattening of `extends` inheritance.
use vstd::prelude::*;
use crate::ast::{Expr, SExpr, StructDecl, UnOp, Unit};
use crate::checker::Checker;
use crate::diag::{diag_view, error_view, Diag, DiagView, Span, Severity, spec_has_errors};
use crate::fold::{is_lit_like, spec_fold_static, spec_scalar_value};
use crate::num::Num;
use crate::scopes::{scopes_get, spec_lookup};
use crate::sx::Sx;
use crate::text::{cat2, cat3, str_eq};
use crate::types::{
    is_ws, lemma_match_bounds, ltrim, match_at_exec, rsplit_index, rsplit_once, rtrim,
    spec_strip_spatial, strip_spatial_type_suffix, trim, trim_bounds,
};
use crate::naming::{parse_u32, parse_u32_exec};
use crate::globals::find_struct;
use crate::types::{QualifierView, spatial_qualifier, spec_spatial_qualifier};
use crate::text::{cat5, cat7};
use crate::value::{ColorSpace, ScalarKind, Value};

verus! {

/// Scalar type names a channel may have.
pub open spec fn scalar_channel_type(base: Seq<char>) -> bool {
    base == "f32"@ || base == "f64"@ || base == "half"@ || base == "i32"@ || base == "u32"@ || base
        == "bool"@ || base == "angle"@ || base == "length"@
}

/// The channel types that get symbolic channel values.
pub open spec fn allowed_channel_type(base: Seq<char>) -> bool {
    scalar_channel_type(base) || base == "vec2"@ || base == "vec3"@ || base == "vec4"@ || base
        == "color"@
}

pub fn allowed_channel_type_exec(base: &str) -> (r: bool)
    ensures
        r == allowed_channel_type(base@),
{
    str_eq(base, "f32") || str_eq(base, "f64") || str_eq(base, "half") || str_eq(base, "i32")
        || str_eq(base, "u32") || str_eq(base, "bool") || str_eq(base, "angle") || str_eq(
        base,
        "length",
    ) || str_eq(base, "vec2") || str_eq(base, "vec3") || str_eq(base, "vec4") || str_eq(
        base,
        "color",
    )
}

/// A channel of a material properties declaration.
#[derive(Debug)]
pub struct MaterialChannelDecl {
    pub compose: Option<String>,
    pub name: String,
    pub name_span: Span,
    pub ty_name: String,
    pub ty_span: Span,
    pub default: Option<SExpr>,
    pub span: Span,
}

/// A `material_properties` declaration.
#[derive(Debug)]
pub struct MaterialPropertiesDecl {
    pub is_default: bool,
    pub name: String,
    pub name_span: Span,
    pub extends_name: Option<String>,
    pub extends_span: Option<Span>,
    pub channels: Vec<MaterialChannelDecl>,
    /// The composition the properties declare, if any.
    pub composition: Option<String>,
    /// The evaluator selected with `@evaluator(name)`, if any.
    pub evaluator: Option<String>,
    pub span: Span,
}

/// A checked channel: name, declared type, default value and composition.
#[derive(Debug)]
pub struct ValidatedMaterialChannel {
    pub name: String,
    pub ty_name: String,
    pub default_payload: Option<Value>,
    pub compose: Option<String>,
}

impl ValidatedMaterialChannel {
    pub fn clone_channel(&self) -> (r: ValidatedMaterialChannel)
        ensures
            r == *self,
    {
        ValidatedMaterialChannel {
            name: self.name.clone(),
            ty_name: self.ty_name.clone(),
            default_payload: match &self.default_payload {
                Some(v) => Some(v.clone_value()),
                None => None,
            },
            compose: match &self.compose {
                Some(c) => Some(c.clone()),
                None => None,
            },
        }
    }
}

/// The flattened channels of a material properties declaration.
#[derive(Debug)]
pub struct ResolvedMaterialProperties {
    pub channels: Vec<ValidatedMaterialChannel>,
}

/// The channel value for a channel of type `ty` from its four lanes.
pub open spec fn spec_payload_value(ty: Seq<char>, lanes: [Sx; 4]) -> Value {
    let base = spec_strip_spatial(ty);
    if base == "color"@ {
        Value::ColorField { rgba: lanes, space: ColorSpace::Srgb }
    } else if base == "vec4"@ {
        Value::Vec4((lanes[0], lanes[1], lanes[2], lanes[3]))
    } else if base == "vec3"@ {
        Value::Vec3((lanes[0], lanes[1], lanes[2]))
    } else if base == "vec2"@ {
        Value::Vec2((lanes[0], lanes[1]))
    } else {
        Value::Scalar(lanes[0])
    }
}

/// Builds a channel value of type `ty_name` from its lanes.
pub fn material_payload_value(ty_name: &str, lanes: [Sx; 4]) -> (r: Value)
    requires
        allowed_channel_type(spec_strip_spatial(ty_name@)),
    ensures
        r == spec_payload_value(ty_name@, lanes),
{
    let base = strip_spatial_type_suffix(ty_name);
    let x = lanes[0].clone_sx();
    let y = lanes[1].clone_sx();
    let z = lanes[2].clone_sx();
    let w = lanes[3].clone_sx();
    if str_eq(base, "color") {
        Value::ColorField { rgba: lanes, space: ColorSpace::Srgb }
    } else if str_eq(base, "vec4") {
        Value::Vec4((x, y, z, w))
    } else if str_eq(base, "vec3") {
        Value::Vec3((x, y, z))
    } else if str_eq(base, "vec2") {
        Value::Vec2((x, y))
    } else {
        Value::Scalar(x)
    }
}

/// `sx` reads component `c` of the channel named `name`.
pub open spec fn is_channel_lane(sx: Sx, name: Seq<char>, c: char) -> bool {
    sx matches Sx::Param(p) && p@ == name + seq!['.', c]
}

/// `lanes` are the four component reads of the channel named `name`.
pub open spec fn channel_lanes(lanes: [Sx; 4], name: Seq<char>) -> bool {
    &&& is_channel_lane(lanes[0], name, 'x')
    &&& is_channel_lane(lanes[1], name, 'y')
    &&& is_channel_lane(lanes[2], name, 'z')
    &&& is_channel_lane(lanes[3], name, 'w')
}

/// `v` is the symbolic value of the channel `ch`.
pub open spec fn is_channel_value(v: Value, ch: ValidatedMaterialChannel) -> bool {
    exists|lanes: [Sx; 4]| channel_lanes(lanes, ch.name@) && v == spec_payload_value(ch.ty_name@, lanes)
}

fn component_param(name: &str, c: char) -> (r: Sx)
    ensures
        is_channel_lane(r, name@, c),
{
    let mut s = String::from_str(name);
    crate::text::push_char(&mut s, '.');
    crate::text::push_char(&mut s, c);
    assert(s@ =~= name@ + seq!['.', c]);
    Sx::Param(s)
}

/// The symbolic value standing for a channel inside declarations.
pub fn material_channel_value(channel: &ValidatedMaterialChannel) -> (r: Value)
    requires
        allowed_channel_type(spec_strip_spatial(channel.ty_name@)),
    ensures
        is_channel_value(r, *channel),
{
    let lanes = [
        component_param(channel.name.as_str(), 'x'),
        component_param(channel.name.as_str(), 'y'),
        component_param(channel.name.as_str(), 'z'),
        component_param(channel.name.as_str(), 'w'),
    ];
    let ghost gl = lanes;
    let r = material_payload_value(channel.ty_name.as_str(), lanes);
    assert(channel_lanes(gl, channel.name@));
    r
}

/// The channel bound last to `name` among the first `n` channels with a
/// supported type.
pub open spec fn last_channel_named(chs: Seq<ValidatedMaterialChannel>, name: Seq<char>, n: int) -> Option<
    ValidatedMaterialChannel,
>
    decreases n,
{
    if n <= 0 {
        None
    } else if chs[n - 1].name@ == name && allowed_channel_type(spec_strip_spatial(chs[n - 1].ty_name@)) {
        Some(chs[n - 1])
    } else {
        last_channel_named(chs, name, n - 1)
    }
}

/// Binds the symbolic value of every channel of a supported type.
pub fn bind_declared_channel_symbols(checker: &mut Checker, channels: &Vec<ValidatedMaterialChannel>)
    requires
        old(checker).scopes@.len() > 0,
    ensures
        final(checker).scopes@.len() == old(checker).scopes@.len(),
        forall|n: Seq<char>|
            match last_channel_named(channels@, n, channels@.len() as int) {
                Some(ch) => #[trigger] scopes_get(final(checker).scopes@, n) matches Some(v) && is_channel_value(v, ch),
                None => scopes_get(final(checker).scopes@, n) == scopes_get(old(checker).scopes@, n),
            },
        final(checker).diags == old(checker).diags,
        final(checker).enum_defs == old(checker).enum_defs,
{
    let ghost start = checker.scopes@;
    let mut i: usize = 0;
    while i < channels.len()
        invariant
            i <= channels@.len(),
            checker.scopes@.len() == start.len(),
            start.len() > 0,
            forall|n: Seq<char>|
                match last_channel_named(channels@, n, i as int) {
                    Some(ch) => #[trigger] scopes_get(checker.scopes@, n) matches Some(v) && is_channel_value(v, ch),
                    None => scopes_get(checker.scopes@, n) == scopes_get(start, n),
                },
            checker.diags == old(checker).diags,
            checker.enum_defs == old(checker).enum_defs,
        decreases channels@.len() - i,
    {
        let base = strip_spatial_type_suffix(channels[i].ty_name.as_str());
        if allowed_channel_type_exec(base) {
            let value = material_channel_value(&channels[i]);
            let ghost v = value;
            checker.bind(channels[i].name.clone(), value);
            assert forall|n: Seq<char>|
                match last_channel_named(channels@, n, i + 1) {
                    Some(ch) => #[trigger] scopes_get(checker.scopes@, n) matches Some(w) && is_channel_value(w, ch),
                    None => scopes_get(checker.scopes@, n) == scopes_get(start, n),
                } by {
                if n == channels@[i as int].name@ {
                    assert(scopes_get(checker.scopes@, n) == Some(v));
                }
            }
        }
        i += 1;
    }
}

/// The lane of a scalar-like value, with its kind.
pub open spec fn spec_numeric(v: Value) -> Option<(Sx, ScalarKind)> {
    match v {
        Value::Scalar(s) => Some((s, ScalarKind::Plain)),
        Value::Distance(s) => Some((s, ScalarKind::Distance)),
        Value::Coverage(s) => Some((s, ScalarKind::Coverage)),
        Value::Mask(s) => Some((s, ScalarKind::Mask)),
        _ => None,
    }
}

/// Negation of a lane, folded when the lane is a literal.
pub open spec fn neg_lane(sx: Sx) -> Sx {
    if is_lit_like(sx) {
        spec_fold_static(Sx::Unary(crate::sx::UnaryOp::Neg, Box::new(sx)))
    } else {
        Sx::Unary(crate::sx::UnaryOp::Neg, Box::new(sx))
    }
}

/// The value of a channel default: unitless numbers, colors, names, negation
/// of scalars, and vectors of scalar components.
pub open spec fn spec_eval_default(scopes: Seq<Vec<(String, Value)>>, e: SExpr) -> Option<Value>
    decreases e, 0int,
{
    match e.node {
        Expr::Num(n, Unit::Unitless) => Some(Value::Scalar(Sx::Lit(n))),
        Expr::Color(c) => Some(Value::Color { rgba: c, space: ColorSpace::Srgb }),
        Expr::Var(name) => spec_lookup(scopes, name@),
        Expr::Unary(UnOp::Neg, inner) => match spec_eval_default(scopes, *inner) {
            Some(v) => match spec_numeric(v) {
                Some((sx, kind)) => Some(spec_scalar_value(kind, neg_lane(sx))),
                None => None,
            },
            None => None,
        },
        Expr::Vec2(a, b) => match (spec_eval_lane(scopes, *a), spec_eval_lane(scopes, *b)) {
            (Some(x), Some(y)) => Some(Value::Vec2((x, y))),
            _ => None,
        },
        Expr::Vec3(a, b, c) => match (
            spec_eval_lane(scopes, *a),
            spec_eval_lane(scopes, *b),
            spec_eval_lane(scopes, *c),
        ) {
            (Some(x), Some(y), Some(z)) => Some(Value::Vec3((x, y, z))),
            _ => None,
        },
        Expr::Vec4(a, b, c, d) => match (
            spec_eval_lane(scopes, *a),
            spec_eval_lane(scopes, *b),
            spec_eval_lane(scopes, *c),
            spec_eval_lane(scopes, *d),
        ) {
            (Some(x), Some(y), Some(z), Some(w)) => Some(Value::Vec4((x, y, z, w))),
            _ => None,
        },
        _ => None,
    }
}

/// A vector component: the lane of a scalar-valued default expression.
pub open spec fn spec_eval_lane(scopes: Seq<Vec<(String, Value)>>, e: SExpr) -> Option<Sx>
    decreases e, 1int,
{
    match spec_eval_default(scopes, e) {
        Some(v) => match spec_numeric(v) {
            Some((sx, _)) => Some(sx),
            None => None,
        },
        None => None,
    }
}

/// A value fits a declared channel type.
pub open spec fn value_matches_type(v: Value, ty: Seq<char>) -> bool {
    let base = spec_strip_spatial(ty);
    if scalar_channel_type(base) {
        spec_numeric(v) is Some
    } else if base == "vec2"@ {
        v is Vec2
    } else if base == "vec3"@ {
        v is Vec3
    } else if base == "vec4"@ {
        v is Vec4
    } else if base == "color"@ {
        v is Color || v is ColorField
    } else if base == "mat2"@ {
        v is Mat2
    } else if base == "mat3"@ {
        v is Mat3
    } else {
        false
    }
}

pub fn value_matches_type_exec(v: &Value, ty: &str) -> (r: bool)
    ensures
        r == value_matches_type(*v, ty@),
{
    let base = strip_spatial_type_suffix(ty);
    if str_eq(base, "f32") || str_eq(base, "f64") || str_eq(base, "half") || str_eq(base, "i32")
        || str_eq(base, "u32") || str_eq(base, "bool") || str_eq(base, "angle") || str_eq(
        base,
        "length",
    ) {
        matches!(v, Value::Scalar(_) | Value::Distance(_) | Value::Coverage(_) | Value::Mask(_))
    } else if str_eq(base, "vec2") {
        matches!(v, Value::Vec2(_))
    } else if str_eq(base, "vec3") {
        matches!(v, Value::Vec3(_))
    } else if str_eq(base, "vec4") {
        matches!(v, Value::Vec4(_))
    } else if str_eq(base, "color") {
        matches!(v, Value::Color { .. } | Value::ColorField { .. })
    } else if str_eq(base, "mat2") {
        matches!(v, Value::Mat2(_))
    } else if str_eq(base, "mat3") {
        matches!(v, Value::Mat3(_))
    } else {
        false
    }
}

/// The default expressions whose value needs no names: numbers, colors,
/// negated numbers, and vectors of those.
pub open spec fn spec_literal_lane(e: SExpr) -> Option<Sx> {
    match e.node {
        Expr::Num(n, Unit::Unitless) => Some(Sx::Lit(n)),
        Expr::Unary(UnOp::Neg, inner) => match inner.node {
            Expr::Num(n, Unit::Unitless) => Some(neg_lane(Sx::Lit(n))),
            _ => None,
        },
        _ => None,
    }
}

pub open spec fn spec_literal_default(e: SExpr) -> Option<Value> {
    match e.node {
        Expr::Num(n, Unit::Unitless) => Some(Value::Scalar(Sx::Lit(n))),
        Expr::Color(c) => Some(Value::Color { rgba: c, space: ColorSpace::Srgb }),
        Expr::Unary(UnOp::Neg, inner) => match spec_literal_lane(e) {
            Some(x) => Some(Value::Scalar(x)),
            None => None,
        },
        Expr::Vec2(a, b) => match (spec_literal_lane(*a), spec_literal_lane(*b)) {
            (Some(x), Some(y)) => Some(Value::Vec2((x, y))),
            _ => None,
        },
        Expr::Vec3(a, b, c) => match (spec_literal_lane(*a), spec_literal_lane(*b), spec_literal_lane(*c)) {
            (Some(x), Some(y), Some(z)) => Some(Value::Vec3((x, y, z))),
            _ => None,
        },
        Expr::Vec4(a, b, c, d) => match (
            spec_literal_lane(*a),
            spec_literal_lane(*b),
            spec_literal_lane(*c),
            spec_literal_lane(*d),
        ) {
            (Some(x), Some(y), Some(z), Some(w)) => Some(Value::Vec4((x, y, z, w))),
            _ => None,
        },
        _ => None,
    }
}

/// A literal default has the same value whatever names are in scope.
pub proof fn lemma_literal_default(scopes: Seq<Vec<(String, Value)>>, e: SExpr)
    ensures
        spec_literal_default(e) matches Some(v) ==> spec_eval_default(scopes, e) == Some(v),
        spec_literal_lane(e) matches Some(x) ==> spec_eval_lane(scopes, e) == Some(x),
    decreases e,
{
    match e.node {
        Expr::Unary(UnOp::Neg, inner) => {
            if let Expr::Num(n, Unit::Unitless) = inner.node {
                assert(spec_eval_default(scopes, *inner) == Some(Value::Scalar(Sx::Lit(n))));
            }
        },
        Expr::Vec2(a, b) => {
            lemma_literal_default(scopes, *a);
            lemma_literal_default(scopes, *b);
        },
        Expr::Vec3(a, b, c) => {
            lemma_literal_default(scopes, *a);
            lemma_literal_default(scopes, *b);
            lemma_literal_default(scopes, *c);
        },
        Expr::Vec4(a, b, c, d) => {
            lemma_literal_default(scopes, *a);
            lemma_literal_default(scopes, *b);
            lemma_literal_default(scopes, *c);
            lemma_literal_default(scopes, *d);
        },
        _ => {},
    }
}

impl Checker {
    /// Records an error.
    pub fn push_error(&mut self, d: Diag)
        requires
            d.severity == Severity::Error,
        ensures
            final(self).diags@ == old(self).diags@.push(d),
            crate::diag::grew_with_error(old(self).diags@, final(self).diags@),
            final(self).scopes == old(self).scopes,
            final(self).enum_defs == old(self).enum_defs,
            final(self).unqualified_enums == old(self).unqualified_enums,
    {
        self.diags.push(d);
        assert(self.diags@[self.diags@.len() - 1].severity == Severity::Error);
    }

    /// Evaluates a channel default expression; reports an error and gives
    /// `None` for forms a default cannot take.
    #[verifier::rlimit(40)]
    pub fn eval_default(&mut self, e: &SExpr) -> (r: Option<Value>)
        ensures
            r == spec_eval_default(old(self).scopes@, *e),
            final(self).scopes == old(self).scopes,
            final(self).enum_defs == old(self).enum_defs,
            r is Some ==> final(self).diags@ == old(self).diags@,
            r is None ==> crate::diag::grew_with_error(old(self).diags@, final(self).diags@),
        decreases e, 0int,
    {
        match &e.node {
            Expr::Num(n, u) => {
                match u {
                    Unit::Unitless => Some(Value::Scalar(Sx::Lit(*n))),
                    _ => {
                        self.push_error(
                            Diag::error(e.span, String::from_str("material channel defaults take unitless numbers")),
                        );
                        None
                    },
                }
            },
            Expr::Color(c) => Some(Value::Color { rgba: *c, space: ColorSpace::Srgb }),
            Expr::Var(name) => {
                let v = self.lookup(name.as_str());
                if v.is_none() {
                    self.push_error(Diag::error(e.span, cat3("unknown name `", name.as_str(), "`")));
                }
                v
            },
            Expr::Unary(UnOp::Neg, inner) => {
                let v = match self.eval_default(inner) {
                    Some(v) => v,
                    None => return None,
                };
                match Self::as_numeric_scalar(&v) {
                    Some((sx, kind)) => Some(Self::scalar_value_from_kind(kind, Self::fold_neg_if_literal(sx))),
                    None => {
                        self.push_error(Diag::error(e.span, cat2("cannot negate ", v.kind())));
                        None
                    },
                }
            },
            Expr::Vec2(a, b) => {
                let x = match self.eval_lane(a) {
                    Some(x) => x,
                    None => return None,
                };
                let y = match self.eval_lane(b) {
                    Some(y) => y,
                    None => return None,
                };
                Some(Value::Vec2((x, y)))
            },
            Expr::Vec3(a, b, c) => {
                let x = match self.eval_lane(a) {
                    Some(x) => x,
                    None => return None,
                };
                let y = match self.eval_lane(b) {
                    Some(y) => y,
                    None => return None,
                };
                let z = match self.eval_lane(c) {
                    Some(z) => z,
                    None => return None,
                };
                Some(Value::Vec3((x, y, z)))
            },
            Expr::Vec4(a, b, c, d) => {
                let x = match self.eval_lane(a) {
                    Some(x) => x,
                    None => return None,
                };
                let y = match self.eval_lane(b) {
                    Some(y) => y,
                    None => return None,
                };
                let z = match self.eval_lane(c) {
                    Some(z) => z,
                    None => return None,
                };
                let w = match self.eval_lane(d) {
                    Some(w) => w,
                    None => return None,
                };
                Some(Value::Vec4((x, y, z, w)))
            },
            _ => {
                self.push_error(
                    Diag::error(
                        e.span,
                        String::from_str("material channel defaults take literals, channel names, negation, and vectors of scalars"),
                    ),
                );
                None
            },
        }
    }

    /// Evaluates a vector component: a scalar-valued default expression.
    pub fn eval_lane(&mut self, e: &SExpr) -> (r: Option<Sx>)
        ensures
            r == spec_eval_lane(old(self).scopes@, *e),
            final(self).scopes == old(self).scopes,
            final(self).enum_defs == old(self).enum_defs,
            r is Some ==> final(self).diags@ == old(self).diags@,
            r is None ==> crate::diag::grew_with_error(old(self).diags@, final(self).diags@),
        decreases e, 1int,
    {
        let v = match self.eval_default(e) {
            Some(v) => v,
            None => return None,
        };
        match Self::as_numeric_scalar(&v) {
            Some((sx, _kind)) => Some(sx),
            None => {
                self.push_error(Diag::error(e.span, cat2("vector components must be scalars, found ", v.kind())));
                None
            },
        }
    }
}

pub proof fn lemma_ltrim_len(s: Seq<char>)
    ensures
        ltrim(s).len() <= s.len(),
    decreases s.len(),
{
    if s.len() > 0 && is_ws(s[0]) {
        lemma_ltrim_len(s.drop_first());
    }
}

pub proof fn lemma_rtrim_len(s: Seq<char>)
    ensures
        rtrim(s).len() <= s.len(),
    decreases s.len(),
{
    if s.len() > 0 && is_ws(s.last()) {
        lemma_rtrim_len(s.drop_last());
    }
}

pub proof fn lemma_trim_len(s: Seq<char>)
    ensures
        trim(s).len() <= s.len(),
{
    lemma_ltrim_len(s);
    lemma_rtrim_len(ltrim(s));
}

pub proof fn lemma_rsplit_len(s: Seq<char>, p: Seq<char>)
    ensures
        rsplit_once(s, p) matches Some((a, b)) ==> a.len() + p.len() + b.len() == s.len(),
{
    lemma_match_bounds(s, p, s.len() + 1int);
}

pub proof fn lemma_strip_len(ty: Seq<char>)
    ensures
        spec_strip_spatial(ty).len() <= ty.len(),
{
    let t = trim(ty);
    lemma_trim_len(ty);
    lemma_rsplit_len(t, " in "@);
    lemma_rsplit_len(t, " from "@);
    if let Some((base, _)) = rsplit_once(t, " in "@) {
        lemma_trim_len(base);
    }
    if let Some((base, _)) = rsplit_once(t, " from "@) {
        lemma_trim_len(base);
    }
}

/// `array<T, N>`: the element type and the length.
pub open spec fn spec_array_type(ty: Seq<char>) -> Option<(Seq<char>, u32)> {
    let t = trim(ty);
    if t.len() >= 7 && t.subrange(0, 6) == "array<"@ && t.last() == '>' {
        let inner = t.subrange(6, t.len() - 1);
        match rsplit_once(inner, ","@) {
            Some((el, n)) => match parse_u32(trim(n)) {
                Some(c) => if trim(el).len() > 0 {
                    Some((trim(el), c))
                } else {
                    None
                },
                None => None,
            },
            None => None,
        }
    } else {
        None
    }
}

pub proof fn lemma_array_element_shorter(ty: Seq<char>)
    ensures
        spec_array_type(ty) matches Some((el, _)) ==> el.len() < ty.len(),
{
    let t = trim(ty);
    lemma_trim_len(ty);
    if t.len() >= 7 {
        let inner = t.subrange(6, t.len() - 1);
        lemma_rsplit_len(inner, ","@);
        if let Some((el, _)) = rsplit_once(inner, ","@) {
            lemma_trim_len(el);
        }
    }
}

/// Parses `array<T, N>`.
#[verifier::rlimit(30)]
pub fn array_type(ty: &str) -> (r: Option<(&str, u32)>)
    ensures
        match spec_array_type(ty@) {
            Some((el, c)) => r matches Some(p) && p.0@ == el && p.1 == c,
            None => r is None,
        },
{
    let s = crate::text::chars_of(ty);
    let (lo, hi) = trim_bounds(&s, 0, s.len());
    let ghost t = trim(ty@);
    assert(s@.subrange(0, s@.len() as int) =~= s@);
    proof {
        reveal_strlit("array<");
        reveal_strlit(",");
    }
    if hi - lo < 7 {
        return None;
    }
    let prefix: Vec<char> = crate::text::chars_of("array<");
    let sub = crate::types::slice_vec(&s, lo, hi);
    assert(sub@ == t);
    if !match_at_exec(&sub, &prefix, 0) || sub[sub.len() - 1] != '>' {
        proof {
            if t.subrange(0, 6) == "array<"@ {
                assert(sub@.subrange(0, 6) =~= prefix@);
            }
        }
        return None;
    }
    assert(t.subrange(0, 6) =~= "array<"@);
    let comma: Vec<char> = crate::text::chars_of(",");
    let ilo = lo + 6;
    let ihi = hi - 1;
    proof {
        crate::types::lemma_sub_sub(s@, lo as int, hi as int, 6, (hi - lo - 1) as int);
    }
    let ghost inner = t.subrange(6, t.len() - 1);
    assert(inner == s@.subrange(ilo as int, ihi as int));
    match rsplit_index(&s, ilo, ihi, &comma) {
        Some(k) => {
            proof {
                lemma_match_bounds(inner, ","@, inner.len() + 1int);
            }
            let (elo, ehi) = trim_bounds(&s, ilo, ilo + k);
            let (nlo, nhi) = trim_bounds(&s, ilo + k + 1, ihi);
            proof {
                crate::types::lemma_sub_sub(s@, ilo as int, ihi as int, 0, k as int);
                crate::types::lemma_sub_sub(s@, ilo as int, ihi as int, k + 1, (ihi - ilo) as int);
            }
            let n = ty.substring_char(nlo, nhi);
            let count = match parse_u32_exec(n) {
                Some(c) => c,
                None => return None,
            };
            if elo < ehi {
                Some((ty.substring_char(elo, ehi), count))
            } else {
                None
            }
        },
        None => None,
    }
}

/// Whether `ty` (its spatial qualifier ignored) can be a material channel
/// type: a channel scalar, vector or color type, a matrix, a non-empty fixed
/// array of such, or a record of such that does not contain itself. The
/// record names in `active` are being checked already; `fuel` bounds the
/// nesting of records.
pub open spec fn spec_type_supported(
    ty: Seq<char>,
    structs: Seq<StructDecl>,
    active: Seq<Seq<char>>,
    fuel: nat,
) -> bool
    decreases fuel, 1int, ty.len(),
{
    let base = spec_strip_spatial(ty);
    if allowed_channel_type(base) || base == "mat2"@ || base == "mat3"@ || base == "mat4"@ {
        true
    } else {
        match spec_array_type(base) {
            Some((el, c)) => {
                proof {
                    lemma_strip_len(ty);
                    lemma_array_element_shorter(base);
                }
                c > 0 && spec_type_supported(el, structs, active, fuel)
            },
            None => match find_struct(structs, base) {
                Some(rec) => if active.contains(base) || fuel == 0 {
                    false
                } else {
                    fields_supported(
                        rec.fields@,
                        structs,
                        active.push(base),
                        (fuel - 1) as nat,
                        rec.fields@.len() as int,
                    )
                },
                None => false,
            },
        }
    }
}

/// The first `n` fields all have supported types.
pub open spec fn fields_supported(
    fields: Seq<crate::ast::StructFieldDecl>,
    structs: Seq<StructDecl>,
    active: Seq<Seq<char>>,
    fuel: nat,
    n: int,
) -> bool
    decreases fuel, 2int, n,
{
    if n <= 0 {
        true
    } else {
        fields_supported(fields, structs, active, fuel, n - 1) && spec_type_supported(
            fields[n - 1].ty_name@,
            structs,
            active,
            fuel,
        )
    }
}

pub proof fn lemma_fields_supported_mono(
    fields: Seq<crate::ast::StructFieldDecl>,
    structs: Seq<StructDecl>,
    active: Seq<Seq<char>>,
    fuel: nat,
    m: int,
    n: int,
)
    requires
        0 <= m <= n,
    ensures
        fields_supported(fields, structs, active, fuel, n) ==> fields_supported(fields, structs, active, fuel, m),
    decreases n - m,
{
    if m < n {
        lemma_fields_supported_mono(fields, structs, active, fuel, m, n - 1);
    }
}

pub open spec fn struct_names(structs: Seq<StructDecl>) -> Seq<Seq<char>> {
    Seq::new(structs.len(), |i: int| structs[i].name@)
}

/// A duplicate-free sequence drawn from `b` is no longer than `b`.
pub proof fn lemma_distinct_subset_len(a: Seq<Seq<char>>, b: Seq<Seq<char>>)
    requires
        a.no_duplicates(),
        forall|i: int| 0 <= i < a.len() ==> b.contains(#[trigger] a[i]),
    ensures
        a.len() <= b.len(),
{
    broadcast use vstd::seq_lib::seq_to_set_is_finite;
    a.unique_seq_to_set();
    b.lemma_cardinality_of_set();
    assert forall|x: Seq<char>| a.to_set().contains(x) implies b.to_set().contains(x) by {
        let i = choose|i: int| 0 <= i < a.len() && a[i] == x;
        assert(b.contains(a[i]));
    }
    vstd::set_lib::lemma_len_subset(a.to_set(), b.to_set());
}

pub proof fn lemma_find_struct_name(structs: Seq<StructDecl>, name: Seq<char>)
    ensures
        find_struct(structs, name) is Some ==> struct_names(structs).contains(name),
    decreases structs.len(),
{
    if structs.len() > 0 {
        lemma_find_struct_name(structs.drop_last(), name);
        if find_struct(structs, name) is Some {
            if structs.last().name@ == name {
                assert(struct_names(structs)[structs.len() - 1] == name);
            } else {
                let i = choose|i: int| 0 <= i < struct_names(structs.drop_last()).len() && struct_names(structs.drop_last())[i] == name;
                assert(struct_names(structs)[i] == name);
            }
        }
    }
}

/// Whether `ty` can be a material channel type (see [`spec_type_supported`]).
pub fn material_value_type_supported(ty: &str, structs: &[StructDecl], active: &mut Vec<String>) -> (r: bool)
    requires
        crate::text::string_views(old(active)@).no_duplicates(),
        forall|i: int| 0 <= i < old(active)@.len() ==> struct_names(structs@).contains(#[trigger] old(active)@[i]@),
    ensures
        r == spec_type_supported(
            ty@,
            structs@,
            crate::text::string_views(old(active)@),
            (structs@.len() - old(active)@.len()) as nat,
        ),
        final(active)@ == old(active)@,
    decreases structs@.len() - old(active)@.len(), ty@.len(),
{
    proof {
        lemma_distinct_subset_len(crate::text::string_views(active@), struct_names(structs@));
    }
    let base = strip_spatial_type_suffix(ty);
    if allowed_channel_type_exec(base) || str_eq(base, "mat2") || str_eq(base, "mat3") || str_eq(base, "mat4") {
        return true;
    }
    match array_type(base) {
        Some((element, count)) => {
            proof {
                lemma_strip_len(ty@);
                lemma_array_element_shorter(base@);
            }
            return count > 0 && material_value_type_supported(element, structs, active);
        },
        None => {},
    }
    let k = match find_struct_index_last(structs, base) {
        Some(k) => k,
        None => return false,
    };
    let ghost names = crate::text::string_views(active@);
    if crate::enums::contains_name(active, base) {
        return false;
    }
    proof {
        lemma_find_struct_name(structs@, base@);
        let pushed = names.push(base@);
        assert(pushed.no_duplicates());
        lemma_distinct_subset_len(pushed, struct_names(structs@));
    }
    let ghost before = active@;
    active.push(String::from_str(base));
    let ghost pushed_view = crate::text::string_views(active@);
    assert(pushed_view =~= names.push(base@));
    let rec = &structs[k];
    assert(!names.contains(base@)) by {
        assert(crate::enums::spec_names(before) =~= names);
    }
    let mut i: usize = 0;
    while i < rec.fields.len()
        invariant
            before == old(active)@,
            before.len() + 1 <= structs@.len(),
            *rec == structs@[k as int],
            find_struct(structs@, base@) == Some(structs@[k as int]),
            !names.contains(base@),
            base@ == spec_strip_spatial(ty@),
            spec_array_type(base@) is None,
            !(allowed_channel_type(base@) || base@ == "mat2"@ || base@ == "mat3"@ || base@ == "mat4"@),
            active@ == before.push(active@.last()),
            active@.len() == before.len() + 1,
            crate::text::string_views(active@) == names.push(base@),
            names == crate::text::string_views(before),
            crate::text::string_views(active@).no_duplicates(),
            forall|j: int| 0 <= j < active@.len() ==> struct_names(structs@).contains(#[trigger] active@[j]@),
            i <= rec.fields@.len(),
            fields_supported(
                rec.fields@,
                structs@,
                names.push(base@),
                (structs@.len() - before.len() - 1) as nat,
                i as int,
            ),
        decreases rec.fields@.len() - i,
    {
        let ok = material_value_type_supported(rec.fields[i].ty_name.as_str(), structs, active);
        if !ok {
            proof {
                lemma_fields_supported_mono(
                    rec.fields@,
                    structs@,
                    names.push(base@),
                    (structs@.len() - before.len() - 1) as nat,
                    i + 1,
                    rec.fields@.len() as int,
                );
            }
            active.pop();
            assert(active@ =~= before);
            return false;
        }
        i += 1;
    }
    active.pop();
    assert(active@ =~= before);
    true
}

/// The position of the struct declaration named `name` (the last one).
pub fn find_struct_index_last(structs: &[StructDecl], name: &str) -> (r: Option<usize>)
    ensures
        r matches Some(i) ==> i < structs@.len() && find_struct(structs@, name@) == Some(structs@[i as int]),
        r is None ==> find_struct(structs@, name@) is None,
{
    let mut k: usize = structs.len();
    assert(structs@.take(k as int) =~= structs@);
    while k > 0
        invariant
            k <= structs@.len(),
            find_struct(structs@, name@) == find_struct(structs@.take(k as int), name@),
        decreases k,
    {
        assert(structs@.take(k as int).drop_last() =~= structs@.take(k - 1));
        if str_eq(structs[k - 1].name.as_str(), name) {
            return Some(k - 1);
        }
        k -= 1;
    }
    None
}

/// The index of the last channel named `n`.
pub open spec fn last_named(chs: Seq<ValidatedMaterialChannel>, n: Seq<char>) -> Option<int>
    decreases chs.len(),
{
    if chs.len() == 0 {
        None
    } else if chs.last().name@ == n {
        Some(chs.len() - 1)
    } else {
        last_named(chs.drop_last(), n)
    }
}

pub proof fn lemma_last_named(chs: Seq<ValidatedMaterialChannel>, n: Seq<char>)
    ensures
        last_named(chs, n) matches Some(i) ==> 0 <= i < chs.len() && chs[i].name@ == n,
        last_named(chs, n) is None ==> forall|j: int| 0 <= j < chs.len() ==> chs[j].name@ != n,
    decreases chs.len(),
{
    if chs.len() > 0 {
        lemma_last_named(chs.drop_last(), n);
        if chs.last().name@ != n {
            assert forall|j: int| 0 <= j < chs.len() - 1 implies chs[j] == chs.drop_last()[j] by {}
        }
    }
}

/// Inherited channels with the declaration's own channels applied in order:
/// a channel that is already there keeps its place and type and takes the
/// new default and composition when given; a new one is appended. `vals`
/// are the evaluated defaults of the own channels.
pub open spec fn merge_channels(
    parent: Seq<ValidatedMaterialChannel>,
    own: Seq<MaterialChannelDecl>,
    vals: Seq<Option<Value>>,
) -> Seq<ValidatedMaterialChannel>
    decreases own.len(),
{
    if own.len() == 0 {
        parent
    } else {
        let acc = merge_channels(parent, own.drop_last(), vals.drop_last());
        let c = own.last();
        let v = vals.last();
        match last_named(acc, c.name@) {
            Some(i) => acc.update(
                i,
                ValidatedMaterialChannel {
                    name: acc[i].name,
                    ty_name: acc[i].ty_name,
                    default_payload: if v is Some { v } else { acc[i].default_payload },
                    compose: if c.compose is Some { c.compose } else { acc[i].compose },
                },
            ),
            None => acc.push(
                ValidatedMaterialChannel {
                    name: c.name,
                    ty_name: c.ty_name,
                    default_payload: v,
                    compose: c.compose,
                },
            ),
        }
    }
}

/// Two channel types may stand for each other: their spatial qualifiers
/// agree, or one of them has none.
pub open spec fn qualifiers_compatible(a: Seq<char>, b: Seq<char>) -> bool {
    match (spec_spatial_qualifier(a), spec_spatial_qualifier(b)) {
        (Some(x), Some(y)) => x == y,
        _ => true,
    }
}

/// The own channels are well-formed on top of `parent`: names are unique,
/// types supported, defaults fit their types (and are the literal's value
/// for literal defaults), and overrides keep the inherited base type and a
/// compatible spatial qualifier.
pub open spec fn channels_valid(
    parent: Seq<ValidatedMaterialChannel>,
    own: Seq<MaterialChannelDecl>,
    vals: Seq<Option<Value>>,
    structs: Seq<StructDecl>,
) -> bool
    decreases own.len(),
{
    if own.len() == 0 {
        vals.len() == 0
    } else {
        let c = own.last();
        let acc = merge_channels(parent, own.drop_last(), vals.drop_last());
        &&& vals.len() == own.len()
        &&& channels_valid(parent, own.drop_last(), vals.drop_last(), structs)
        &&& forall|j: int| 0 <= j < own.len() - 1 ==> (#[trigger] own[j]).name@ != c.name@
        &&& spec_type_supported(spec_strip_spatial(c.ty_name@), structs, Seq::empty(), structs.len())
        &&& (c.default is None <==> vals.last() is None)
        &&& (vals.last() matches Some(v) ==> value_matches_type(v, c.ty_name@) && (spec_literal_default(
            c.default->0,
        ) matches Some(w) ==> v == w))
        &&& (last_named(acc, c.name@) matches Some(i) ==> spec_strip_spatial(acc[i].ty_name@)
            == spec_strip_spatial(c.ty_name@) && qualifiers_compatible(acc[i].ty_name@, c.ty_name@))
    }
}

/// The values of the own channels' defaults when each is a literal.
pub open spec fn literal_vals(own: Seq<MaterialChannelDecl>) -> Seq<Option<Value>> {
    Seq::new(
        own.len(),
        |i: int|
            match own[i].default {
                Some(e) => spec_literal_default(e),
                None => None,
            },
    )
}

/// Every given default is a literal.
pub open spec fn literal_defaults(own: Seq<MaterialChannelDecl>) -> bool {
    forall|i: int|
        0 <= i < own.len() ==> ((#[trigger] own[i]).default matches Some(e) ==> spec_literal_default(e) is Some)
}

/// The own channels, with literal defaults, are well-formed on top of `parent`.
pub open spec fn channels_clean(
    parent: Seq<ValidatedMaterialChannel>,
    own: Seq<MaterialChannelDecl>,
    structs: Seq<StructDecl>,
) -> bool {
    literal_defaults(own) && channels_valid(parent, own, literal_vals(own), structs)
}

/// What a well-formed prefix of channels with literal defaults, ending at
/// channel `k`, says of channel `k` and of the channels before it.
pub proof fn lemma_clean_step(
    parent: Seq<ValidatedMaterialChannel>,
    own: Seq<MaterialChannelDecl>,
    structs: Seq<StructDecl>,
    k: int,
)
    requires
        0 <= k < own.len(),
        channels_clean(parent, own.take(k + 1), structs),
    ensures
        channels_clean(parent, own.take(k), structs),
        literal_vals(own.take(k + 1)) == literal_vals(own.take(k)).push(
            match own[k].default {
                Some(e) => spec_literal_default(e),
                None => None,
            },
        ),
        forall|j: int| 0 <= j < k ==> own[j].name@ != own[k].name@,
        spec_type_supported(spec_strip_spatial(own[k].ty_name@), structs, Seq::empty(), structs.len()),
        own[k].default matches Some(e) ==> (spec_literal_default(e) matches Some(w) && value_matches_type(
            w,
            own[k].ty_name@,
        )),
        last_named(merge_channels(parent, own.take(k), literal_vals(own.take(k))), own[k].name@) matches Some(
            i,
        ) ==> spec_strip_spatial(
            merge_channels(parent, own.take(k), literal_vals(own.take(k)))[i].ty_name@,
        ) == spec_strip_spatial(own[k].ty_name@) && qualifiers_compatible(
            merge_channels(parent, own.take(k), literal_vals(own.take(k)))[i].ty_name@,
            own[k].ty_name@,
        ),
{
    let o = own.take(k + 1);
    let lv = literal_vals(o);
    assert(o.drop_last() =~= own.take(k));
    assert(lv.drop_last() =~= literal_vals(own.take(k)));
    assert(o.last() == own[k]);
    assert(lv =~= literal_vals(own.take(k)).push(
        match own[k].default {
            Some(e) => spec_literal_default(e),
            None => None,
        },
    ));
    assert forall|j: int| 0 <= j < k implies own[j].name@ != own[k].name@ by {
        assert(o[j] == own[j]);
    }
    assert forall|j: int| 0 <= j < k implies ((#[trigger] own.take(k)[j]).default matches Some(e)
        ==> spec_literal_default(e) is Some) by {
        assert(own.take(k)[j] == o[j]);
    }
    if let Some(e) = own[k].default {
        assert(o[k] == own[k]);
        assert(spec_literal_default(e) is Some);
    }
}

/// Channel `k` overrides an inherited channel of the same base type with a
/// different spatial qualifier, the channels before it being well-formed.
pub open spec fn override_conflict_at(
    parent: Seq<ValidatedMaterialChannel>,
    own: Seq<MaterialChannelDecl>,
    structs: Seq<StructDecl>,
    k: int,
) -> bool {
    let c = own[k];
    let acc = merge_channels(parent, own.take(k), literal_vals(own.take(k)));
    &&& 0 <= k < own.len()
    &&& channels_clean(parent, own.take(k), structs)
    &&& forall|j: int| 0 <= j < k ==> own[j].name@ != c.name@
    &&& spec_type_supported(spec_strip_spatial(c.ty_name@), structs, Seq::empty(), structs.len())
    &&& (c.default matches Some(e) ==> spec_literal_default(e) is Some)
    &&& last_named(acc, c.name@) matches Some(i) && spec_strip_spatial(acc[i].ty_name@) == spec_strip_spatial(
        c.ty_name@,
    ) && !qualifiers_compatible(acc[i].ty_name@, c.ty_name@)
}

/// The error for the override of `override_conflict_at`.
pub open spec fn override_conflict_diag(
    decl_name: Seq<char>,
    parent: Seq<ValidatedMaterialChannel>,
    own: Seq<MaterialChannelDecl>,
    k: int,
) -> DiagView {
    let c = own[k];
    let acc = merge_channels(parent, own.take(k), literal_vals(own.take(k)));
    let i = last_named(acc, c.name@)->0;
    error_view(
        c.ty_span,
        "material_properties `"@ + decl_name + "` overrides inherited channel `"@ + c.name@
            + "` with type `"@ + c.ty_name@ + "`, but the inherited channel uses `"@ + acc[i].ty_name@
            + "` and no implicit space transform is available"@,
        None,
        Some(
            "use matching space qualifiers, keep one side unqualified, or apply an explicit transform before assigning across spaces"@,
        ),
    )
}

/// No error among the diagnostics from position `from` on.
pub open spec fn no_errors_from(ds: Seq<Diag>, from: int) -> bool {
    forall|i: int| from <= i < ds.len() ==> ds[i].severity != Severity::Error
}

pub open spec fn extends(before: Seq<Diag>, after: Seq<Diag>) -> bool {
    before.len() <= after.len() && forall|i: int| 0 <= i < before.len() ==> after[i] == before[i]
}

pub(crate) fn clone_channels(chs: &Vec<ValidatedMaterialChannel>) -> (r: Vec<ValidatedMaterialChannel>)
    ensures
        r@ == chs@,
{
    let mut out: Vec<ValidatedMaterialChannel> = Vec::new();
    let mut i: usize = 0;
    while i < chs.len()
        invariant
            i <= chs@.len(),
            out@ == chs@.take(i as int),
        decreases chs@.len() - i,
    {
        out.push(chs[i].clone_channel());
        assert(out@ =~= chs@.take(i + 1));
        i += 1;
    }
    assert(chs@.take(chs@.len() as int) =~= chs@);
    out
}

fn last_named_exec(chs: &Vec<ValidatedMaterialChannel>, n: &str) -> (r: Option<usize>)
    ensures
        r matches Some(x) ==> last_named(chs@, n@) == Some(x as int),
        r is None ==> last_named(chs@, n@) is None,
{
    let mut k: usize = chs.len();
    assert(chs@.take(k as int) =~= chs@);
    while k > 0
        invariant
            k <= chs@.len(),
            last_named(chs@, n@) == last_named(chs@.take(k as int), n@),
        decreases k,
    {
        assert(chs@.take(k as int).drop_last() =~= chs@.take(k - 1));
        if str_eq(chs[k - 1].name.as_str(), n) {
            return Some(k - 1);
        }
        k -= 1;
    }
    None
}

/// The index of the first channel named `n`.
pub open spec fn first_named(chs: Seq<ValidatedMaterialChannel>, n: Seq<char>) -> Option<int>
    decreases chs.len(),
{
    if chs.len() == 0 {
        None
    } else if chs[0].name@ == n {
        Some(0)
    } else {
        match first_named(chs.drop_first(), n) {
            Some(i) => Some(i + 1),
            None => None,
        }
    }
}

pub proof fn lemma_first_named(chs: Seq<ValidatedMaterialChannel>, n: Seq<char>)
    ensures
        first_named(chs, n) matches Some(i) ==> 0 <= i < chs.len() && chs[i].name@ == n,
    decreases chs.len(),
{
    if chs.len() > 0 {
        lemma_first_named(chs.drop_first(), n);
    }
}

/// The channels a declaration binds as symbols: the inherited ones, an
/// overridden one taking the overriding declaration's type in its place, then
/// the new ones in order, with no default yet.
pub open spec fn bound_channels(
    parent: Seq<ValidatedMaterialChannel>,
    own: Seq<MaterialChannelDecl>,
) -> Seq<ValidatedMaterialChannel>
    decreases own.len(),
{
    if own.len() == 0 {
        parent
    } else {
        let acc = bound_channels(parent, own.drop_last());
        let c = own.last();
        match first_named(acc, c.name@) {
            Some(i) => acc.update(i, ValidatedMaterialChannel { ty_name: c.ty_name, ..acc[i] }),
            None => acc.push(
                ValidatedMaterialChannel {
                    name: c.name,
                    ty_name: c.ty_name,
                    default_payload: None,
                    compose: c.compose,
                },
            ),
        }
    }
}

/// The index of the first channel named `n`.
fn first_named_exec(chs: &Vec<ValidatedMaterialChannel>, n: &str) -> (r: Option<usize>)
    ensures
        match r {
            Some(i) => first_named(chs@, n@) == Some(i as int),
            None => first_named(chs@, n@) is None,
        },
{
    let mut pos: usize = 0;
    assert(chs@.skip(0) =~= chs@);
    while pos < chs.len()
        invariant
            pos <= chs@.len(),
            first_named(chs@, n@) == match first_named(chs@.skip(pos as int), n@) {
                Some(i) => Some(i + pos),
                None => None,
            },
        decreases chs@.len() - pos,
    {
        assert(chs@.skip(pos as int).drop_first() =~= chs@.skip(pos + 1));
        assert(chs@.skip(pos as int)[0] == chs@[pos as int]);
        if str_eq(chs[pos].name.as_str(), n) {
            return Some(pos);
        }
        pos += 1;
    }
    None
}

/// The channels a declaration binds as symbols: the inherited ones, with the
/// types of overridden ones replaced, then the new ones.
fn bound_channels_of(decl: &MaterialPropertiesDecl, parent: &Vec<ValidatedMaterialChannel>) -> (r: Vec<
    ValidatedMaterialChannel,
>)
    ensures
        r@ == bound_channels(parent@, decl.channels@),
{
    let mut bound = clone_channels(parent);
    let mut k: usize = 0;
    assert(decl.channels@.take(0) =~= Seq::<MaterialChannelDecl>::empty());
    while k < decl.channels.len()
        invariant
            k <= decl.channels@.len(),
            bound@ == bound_channels(parent@, decl.channels@.take(k as int)),
        decreases decl.channels@.len() - k,
    {
        let ch = &decl.channels[k];
        proof {
            let t = decl.channels@.take(k + 1);
            assert(t.drop_last() =~= decl.channels@.take(k as int));
            assert(t.last() == decl.channels@[k as int]);
            lemma_first_named(bound@, ch.name@);
        }
        match first_named_exec(&bound, ch.name.as_str()) {
            Some(pos) => {
                let mut entry = bound[pos].clone_channel();
                entry.ty_name = ch.ty_name.clone();
                bound.set(pos, entry);
            },
            None => {
                bound.push(
                    ValidatedMaterialChannel {
                        name: ch.name.clone(),
                        ty_name: ch.ty_name.clone(),
                        default_payload: None,
                        compose: match &ch.compose {
                            Some(c) => Some(c.clone()),
                            None => None,
                        },
                    },
                );
            },
        }
        k += 1;
    }
    assert(decl.channels@.take(decl.channels@.len() as int) =~= decl.channels@);
    bound
}

fn push_err(diags: &mut Vec<Diag>, span: Span, message: String, help: &str)
    ensures
        final(diags)@.len() == old(diags)@.len() + 1,
        extends(old(diags)@, final(diags)@),
        final(diags)@.last().severity == Severity::Error,
        diag_view(final(diags)@.last()) == error_view(span, message@, None, Some(help@)),
{
    diags.push(Diag::error(span, message).with_help(String::from_str(help)));
}

/// Checks the own channels of `decl` on top of the inherited `parent`
/// channels and returns the flattened channels; diagnostics are appended.
#[verifier::rlimit(80)]
#[verifier::spinoff_prover]
pub fn resolve_channels(
    decl: &MaterialPropertiesDecl,
    parent: Vec<ValidatedMaterialChannel>,
    structs: &[StructDecl],
    diags: &mut Vec<Diag>,
) -> (r: Vec<ValidatedMaterialChannel>)
    ensures
        extends(old(diags)@, final(diags)@),
        no_errors_from(final(diags)@, old(diags)@.len() as int) ==> exists|vals: Seq<Option<Value>>|
            r@ == merge_channels(parent@, decl.channels@, vals) && channels_valid(
                parent@,
                decl.channels@,
                vals,
                structs@,
            ),
        channels_clean(parent@, decl.channels@, structs@) ==> final(diags)@ == old(diags)@ && r@
            == merge_channels(parent@, decl.channels@, literal_vals(decl.channels@)),
        forall|k: int|
            #[trigger] override_conflict_at(parent@, decl.channels@, structs@, k) ==> exists|i: int|
                old(diags)@.len() <= i < final(diags)@.len() && diag_view(final(diags)@[i])
                    == override_conflict_diag(decl.name@, parent@, decl.channels@, k),
{
    let bound = bound_channels_of(decl, &parent);
    let mut checker = Checker::new();
    bind_declared_channel_symbols(&mut checker, &bound);
    let ghost scopes = checker.scopes@;
    let ghost d0 = diags@.len() as int;
    let ghost diags0 = diags@;
    let mut channels = parent;
    let ghost parent_view = channels@;
    let mut seen: Vec<String> = Vec::new();
    let ghost mut vals: Seq<Option<Value>> = Seq::empty();
    let mut k: usize = 0;
    assert(decl.channels@.take(0) =~= Seq::<MaterialChannelDecl>::empty());
    while k < decl.channels.len()
        invariant
            k <= decl.channels@.len(),
            vals.len() == k,
            checker.scopes@ == scopes,
            extends(diags0, diags@),
            d0 == diags0.len(),
            forall|j: int| 0 <= j < k ==> crate::enums::spec_names(seen@).contains(#[trigger] decl.channels@[j].name@),
            forall|x: int| 0 <= x < seen@.len() ==> exists|j: int| 0 <= j < k && decl.channels@[j].name@ == #[trigger] seen@[x]@,
            (no_errors_from(diags@, d0) && no_errors_from(checker.diags@, 0)) ==> channels@ == merge_channels(
                parent_view,
                decl.channels@.take(k as int),
                vals,
            ) && channels_valid(parent_view, decl.channels@.take(k as int), vals, structs@),
            channels_clean(parent_view, decl.channels@.take(k as int), structs@) ==> diags@ == diags0
                && checker.diags@.len() == 0 && vals == literal_vals(decl.channels@.take(k as int)),
            forall|j: int|
                0 <= j < k && #[trigger] override_conflict_at(parent_view, decl.channels@, structs@, j)
                    ==> exists|i: int|
                    d0 <= i < diags@.len() && diag_view(diags@[i]) == override_conflict_diag(
                        decl.name@,
                        parent_view,
                        decl.channels@,
                        j,
                    ),
        decreases decl.channels@.len() - k,
    {
        let ch = &decl.channels[k];
        let ghost own = decl.channels@.take(k + 1);
        proof {
            assert(own.drop_last() =~= decl.channels@.take(k as int));
            assert(own.last() == *ch);
            lemma_literal_default(checker.scopes@, ch.default->0);
            if channels_clean(parent_view, decl.channels@.take(k + 1), structs@) {
                lemma_clean_step(parent_view, decl.channels@, structs@, k as int);
            }
        }
        let ghost next_clean = channels_clean(parent_view, decl.channels@.take(k + 1), structs@);
        let ghost conflict_here = override_conflict_at(parent_view, decl.channels@, structs@, k as int);
        let ghost pre_clean = channels_clean(parent_view, decl.channels@.take(k as int), structs@);
        let ghost prev_ok = no_errors_from(diags@, d0) && no_errors_from(checker.diags@, 0);
        let ghost acc = channels@;
        let ghost diags_start = diags@;
        let ghost cdiags_start = checker.diags@;
        if crate::enums::contains_name(&seen, ch.name.as_str()) {
            proof {
                if next_clean || conflict_here {
                    let x = choose|x: int|
                        0 <= x < crate::enums::spec_names(seen@).len()
                            && crate::enums::spec_names(seen@)[x] == ch.name@;
                    assert(seen@[x]@ == ch.name@);
                    assert(false);
                }
            }
            let m = cat5("duplicate channel `", ch.name.as_str(), "` in material_properties `", decl.name.as_str(), "`");
            push_err(diags, ch.name_span, m, "channel names must be unique within a material_properties declaration");
            proof {
                vals = vals.push(None);
            }
            k += 1;
            continue;
        }
        let ghost old_seen = seen@;
        seen.push(ch.name.clone());
        proof {
            assert forall|j: int| 0 <= j < k + 1 implies crate::enums::spec_names(seen@).contains(
                #[trigger] decl.channels@[j].name@,
            ) by {
                if j < k {
                    let x = choose|x: int|
                        0 <= x < crate::enums::spec_names(old_seen).len()
                            && crate::enums::spec_names(old_seen)[x] == decl.channels@[j].name@;
                    assert(crate::enums::spec_names(seen@)[x] == decl.channels@[j].name@);
                } else {
                    assert(crate::enums::spec_names(seen@)[seen@.len() - 1] == ch.name@);
                }
            }
            assert forall|x: int| 0 <= x < seen@.len() implies exists|j: int|
                0 <= j < k + 1 && decl.channels@[j].name@ == #[trigger] seen@[x]@ by {
                if x < old_seen.len() {
                    assert(seen@[x] == old_seen[x]);
                } else {
                    assert(decl.channels@[k as int].name@ == seen@[x]@);
                }
            }
        }
        let base = strip_spatial_type_suffix(ch.ty_name.as_str());
        let mut active: Vec<String> = Vec::new();
        proof {
            assert(crate::text::string_views(active@) =~= Seq::<Seq<char>>::empty());
        }
        if !material_value_type_supported(base, structs, &mut active) {
            let a = cat5("unsupported material channel type `", ch.ty_name.as_str(), "` for `", decl.name.as_str(), ".");
            let m = cat3(a.as_str(), ch.name.as_str(), "`");
            push_err(diags, ch.ty_span, m, "use scalar, vector, color, matrix, fixed-size array, or nonrecursive record types (spatial qualifiers are allowed)");
            proof {
                vals = vals.push(None);
            }
            k += 1;
            continue;
        }
        let payload: Option<Value> = match &ch.default {
            Some(e) => {
                proof {
                    lemma_literal_default(checker.scopes@, *e);
                }
                let v = match checker.eval_default(e) {
                    Some(v) => v,
                    None => {
                        proof {
                            vals = vals.push(None);
                        }
                        k += 1;
                        continue;
                    },
                };
                if !value_matches_type_exec(&v, ch.ty_name.as_str()) {
                    let a = cat5("default for material_properties channel `", decl.name.as_str(), ".", ch.name.as_str(), "` does not match declared type `");
                    let m = cat3(a.as_str(), ch.ty_name.as_str(), "`");
                    push_err(diags, e.span, m, "adjust the default expression to match the channel type");
                }
                Some(v)
            },
            None => None,
        };
        let ghost pv = payload;
        proof {
            lemma_last_named(channels@, ch.name@);
        }
        match last_named_exec(&channels, ch.name.as_str()) {
            Some(index) => {
                let existing_ty = channels[index].ty_name.clone();
                let eb = strip_spatial_type_suffix(existing_ty.as_str());
                let cb = strip_spatial_type_suffix(ch.ty_name.as_str());
                if !str_eq(eb, cb) {
                    let a = cat5("material_properties `", decl.name.as_str(), "` overrides inherited channel `", ch.name.as_str(), "` with type `");
                    let m = cat5(a.as_str(), ch.ty_name.as_str(), "`, but the inherited channel uses `", existing_ty.as_str(), "`");
                    push_err(diags, ch.ty_span, m, "match the inherited channel type or rename the channel");
                    proof {
                        vals = vals.push(pv);
                    }
                    k += 1;
                    continue;
                }
                let iq = spatial_qualifier(existing_ty.as_str());
                let oq = spatial_qualifier(ch.ty_name.as_str());
                let conflict = match (&iq, &oq) {
                    (Some(a), Some(b)) => !a.same_as(b),
                    _ => false,
                };
                if conflict {
                    let a = cat5("material_properties `", decl.name.as_str(), "` overrides inherited channel `", ch.name.as_str(), "` with type `");
                    let m = cat5(a.as_str(), ch.ty_name.as_str(), "`, but the inherited channel uses `", existing_ty.as_str(), "` and no implicit space transform is available");
                    push_err(diags, ch.ty_span, m, "use matching space qualifiers, keep one side unqualified, or apply an explicit transform before assigning across spaces");
                    proof {
                        vals = vals.push(pv);
                    }
                    k += 1;
                    continue;
                }
                let mut entry = channels[index].clone_channel();
                if payload.is_some() {
                    entry.default_payload = payload;
                }
                if ch.compose.is_some() {
                    entry.compose = match &ch.compose {
                        Some(c) => Some(c.clone()),
                        None => None,
                    };
                }
                channels.set(index, entry);
                proof {
                    let nv = vals.push(pv);
                    assert(nv.drop_last() =~= vals);
                    assert(nv.last() == pv);
                    assert(last_named(acc, ch.name@) == Some(index as int));
                    if prev_ok {
                        assert(merge_channels(parent_view, own.drop_last(), nv.drop_last()) == acc);
                        assert(channels@ =~= merge_channels(parent_view, own, nv));
                    }
                }
            },
            None => {
                channels.push(ValidatedMaterialChannel {
                    name: ch.name.clone(),
                    ty_name: ch.ty_name.clone(),
                    default_payload: payload,
                    compose: match &ch.compose {
                        Some(c) => Some(c.clone()),
                        None => None,
                    },
                });
                proof {
                    let nv = vals.push(pv);
                    assert(nv.drop_last() =~= vals);
                    assert(nv.last() == pv);
                    if prev_ok {
                        assert(merge_channels(parent_view, own.drop_last(), nv.drop_last()) == acc);
                        assert(channels@ =~= merge_channels(parent_view, own, nv));
                    }
                }
            },
        }
        proof {
            let newvals = vals.push(pv);
            assert(newvals.drop_last() =~= vals);
            if no_errors_from(diags@, d0) && no_errors_from(checker.diags@, 0) {
                assert(extends(diags_start, diags@));
                assert(extends(cdiags_start, checker.diags@));
                assert(no_errors_from(diags_start, d0));
                assert(no_errors_from(cdiags_start, 0));
                assert(prev_ok);
                assert(acc == merge_channels(parent_view, decl.channels@.take(k as int), vals));
                assert(channels@ =~= merge_channels(parent_view, own, newvals));
                assert(channels_valid(parent_view, own, newvals, structs@));
            }
            vals = newvals;
        }
        k += 1;
    }
    assert(decl.channels@.take(decl.channels@.len() as int) =~= decl.channels@);
    let ghost before_append = diags@;
    let ghost cd = checker.diags@;
    diags.append(&mut checker.diags);
    proof {
        assert(diags@ == before_append + cd);
        if channels_clean(parent_view, decl.channels@, structs@) {
            assert(cd.len() == 0);
            assert(diags@ =~= diags0);
        }
        assert forall|j: int| #[trigger] override_conflict_at(parent_view, decl.channels@, structs@, j) implies exists|i: int|
            d0 <= i < diags@.len() && diag_view(diags@[i]) == override_conflict_diag(
                decl.name@,
                parent_view,
                decl.channels@,
                j,
            ) by {
            let i = choose|i: int|
                d0 <= i < before_append.len() && diag_view(before_append[i]) == override_conflict_diag(
                    decl.name@,
                    parent_view,
                    decl.channels@,
                    j,
                );
            assert(diags@[i] == before_append[i]);
        }
        if no_errors_from(diags@, d0) {
            assert forall|i: int| 0 <= i < cd.len() implies cd[i].severity != Severity::Error by {
                assert(diags@[before_append.len() + i] == cd[i]);
            }
            assert forall|i: int| d0 <= i < before_append.len() implies before_append[i].severity != Severity::Error by {
                assert(diags@[i] == before_append[i]);
            }
        }
    }
    channels
}

/// Where the resolution of a declaration stands.
#[derive(Clone, Copy, Debug, PartialEq, Eq, Structural)]
pub enum ResolutionState {
    Resolving,
    Resolved,
    Failed,
}

/// The state recorded last for `n`.
pub open spec fn state_of(states: Seq<(String, ResolutionState)>, n: Seq<char>) -> Option<ResolutionState>
    decreases states.len(),
{
    if states.len() == 0 {
        None
    } else if states.last().0@ == n {
        Some(states.last().1)
    } else {
        state_of(states.drop_last(), n)
    }
}

/// The resolved properties recorded last for `n`.
pub open spec fn entry_of(resolved: Seq<(String, ResolvedMaterialProperties)>, n: Seq<char>) -> Option<
    ResolvedMaterialProperties,
>
    decreases resolved.len(),
{
    if resolved.len() == 0 {
        None
    } else if resolved.last().0@ == n {
        Some(resolved.last().1)
    } else {
        entry_of(resolved.drop_last(), n)
    }
}

/// The index of the first declaration named `n`.
pub open spec fn decl_index(decls: Seq<MaterialPropertiesDecl>, n: Seq<char>) -> Option<int>
    decreases decls.len(),
{
    if decls.len() == 0 {
        None
    } else {
        match decl_index(decls.drop_last(), n) {
            Some(i) => Some(i),
            None => if decls.last().name@ == n {
                Some(decls.len() - 1)
            } else {
                None
            },
        }
    }
}

pub open spec fn decl_names(decls: Seq<MaterialPropertiesDecl>) -> Seq<Seq<char>> {
    Seq::new(decls.len(), |i: int| decls[i].name@)
}

/// The channels inherited by `d`, as resolved in `prefix`.
pub open spec fn parent_channels(
    prefix: Seq<(String, ResolvedMaterialProperties)>,
    d: MaterialPropertiesDecl,
) -> Seq<ValidatedMaterialChannel> {
    match d.extends_name {
        Some(p) => match entry_of(prefix, p@) {
            Some(pp) => pp.channels@,
            None => Seq::empty(),
        },
        None => Seq::empty(),
    }
}

/// Entry `i` holds its declaration's channels flattened onto the channels
/// of its parent as resolved before it.
pub open spec fn entry_ok(
    resolved: Seq<(String, ResolvedMaterialProperties)>,
    i: int,
    decls: Seq<MaterialPropertiesDecl>,
    structs: Seq<StructDecl>,
) -> bool {
    match decl_index(decls, resolved[i].0@) {
        Some(di) => exists|vals: Seq<Option<Value>>|
            resolved[i].1.channels@ == #[trigger] merge_channels(
                parent_channels(resolved.take(i), decls[di]),
                decls[di].channels@,
                vals,
            ) && channels_valid(
                parent_channels(resolved.take(i), decls[di]),
                decls[di].channels@,
                vals,
                structs,
            ),
        None => false,
    }
}

pub open spec fn table_ok(
    resolved: Seq<(String, ResolvedMaterialProperties)>,
    decls: Seq<MaterialPropertiesDecl>,
    structs: Seq<StructDecl>,
) -> bool {
    forall|i: int| 0 <= i < resolved.len() ==> #[trigger] entry_ok(resolved, i, decls, structs)
}

/// The name the declaration `n` extends, when `n` is declared.
pub open spec fn parent_name(decls: Seq<MaterialPropertiesDecl>, n: Seq<char>) -> Option<Seq<char>> {
    match decl_index(decls, n) {
        Some(di) => match decls[di].extends_name {
            Some(p) => Some(p@),
            None => None,
        },
        None => None,
    }
}

/// The flattened channels of the declaration named `n`, when its chain of
/// declared ancestors ends within `fuel` steps and every declaration on it
/// has well-formed channels with literal defaults; an undeclared parent
/// contributes no channels.
pub open spec fn flat_channels(
    decls: Seq<MaterialPropertiesDecl>,
    structs: Seq<StructDecl>,
    n: Seq<char>,
    fuel: nat,
) -> Option<Seq<ValidatedMaterialChannel>>
    decreases fuel,
{
    match decl_index(decls, n) {
        None => None,
        Some(di) => {
            let d = decls[di];
            let inherited = match d.extends_name {
                None => Some(Seq::empty()),
                Some(p) => if decl_index(decls, p@) is None {
                    Some(Seq::empty())
                } else if fuel == 0 {
                    None
                } else {
                    flat_channels(decls, structs, p@, (fuel - 1) as nat)
                },
            };
            match inherited {
                Some(pc) => if channels_clean(pc, d.channels@, structs) {
                    Some(merge_channels(pc, d.channels@, literal_vals(d.channels@)))
                } else {
                    None
                },
                None => None,
            }
        },
    }
}

/// Every declaration resolves: distinct names, at most one default, and a
/// well-formed inheritance chain under each of them.
pub open spec fn properties_resolvable(decls: Seq<MaterialPropertiesDecl>, structs: Seq<StructDecl>) -> bool {
    &&& default_decls(decls).len() <= 1
    &&& names_distinct(decls)
    &&& forall|j: int|
        #![trigger decls[j]]
        0 <= j < decls.len() ==> exists|g: nat| (#[trigger] flat_channels(decls, structs, decls[j].name@, g)) is Some
}

/// The channels the declaration `d` inherits, as `flat_channels` takes them.
pub open spec fn inherited_channels(
    decls: Seq<MaterialPropertiesDecl>,
    structs: Seq<StructDecl>,
    d: MaterialPropertiesDecl,
    fuel: nat,
) -> Option<Seq<ValidatedMaterialChannel>> {
    match d.extends_name {
        None => Some(Seq::empty()),
        Some(p) => if decl_index(decls, p@) is None {
            Some(Seq::empty())
        } else if fuel == 0 {
            None
        } else {
            flat_channels(decls, structs, p@, (fuel - 1) as nat)
        },
    }
}

/// The declaration named `n` inherits well-formed channels, and its channel
/// `k` overrides one of them across spaces.
pub open spec fn decl_conflict(
    decls: Seq<MaterialPropertiesDecl>,
    structs: Seq<StructDecl>,
    n: Seq<char>,
    fuel: nat,
    k: int,
) -> bool {
    decl_index(decls, n) matches Some(di) && inherited_channels(decls, structs, decls[di], fuel) matches Some(
        pc,
    ) && override_conflict_at(pc, decls[di].channels@, structs, k)
}

/// The error reported for the override of `decl_conflict`.
pub open spec fn decl_conflict_diag(
    decls: Seq<MaterialPropertiesDecl>,
    structs: Seq<StructDecl>,
    n: Seq<char>,
    fuel: nat,
    k: int,
) -> DiagView {
    let di = decl_index(decls, n)->0;
    override_conflict_diag(n, inherited_channels(decls, structs, decls[di], fuel)->0, decls[di].channels@, k)
}

/// Some diagnostic in `diags` reads `d`.
pub open spec fn reported(diags: Seq<Diag>, d: DiagView) -> bool {
    exists|i: int| 0 <= i < diags.len() && diag_view(diags[i]) == d
}

/// Each name on the stack is extended by the one before it.
pub open spec fn stack_chain(decls: Seq<MaterialPropertiesDecl>, stack: Seq<String>) -> bool {
    forall|i: int| 0 <= i < stack.len() - 1 ==> parent_name(decls, (#[trigger] stack[i])@) == Some(stack[i + 1]@)
}

/// What a resolution in progress keeps of well-formed declarations: their
/// recorded entries are their flattened channels and they never fail.
pub open spec fn flat_inv(
    decls: Seq<MaterialPropertiesDecl>,
    structs: Seq<StructDecl>,
    states: Seq<(String, ResolutionState)>,
    resolved: Seq<(String, ResolvedMaterialProperties)>,
    stack: Seq<String>,
    diags: Seq<Diag>,
) -> bool {
    &&& forall|n: Seq<char>, g: nat, k: int|
        #[trigger] decl_conflict(decls, structs, n, g, k) && state_of(states, n) is Some && state_of(states, n)
            != Some(ResolutionState::Resolving) ==> reported(diags, decl_conflict_diag(decls, structs, n, g, k))
    &&& forall|n: Seq<char>, g: nat|
        #[trigger] flat_channels(decls, structs, n, g) matches Some(x) ==> (entry_of(resolved, n) matches Some(
            e,
        ) ==> e.channels@ == x)
    &&& forall|n: Seq<char>, g: nat|
        (#[trigger] flat_channels(decls, structs, n, g)) is Some ==> state_of(states, n) != Some(
            ResolutionState::Failed,
        )
    &&& stack_chain(decls, stack)
}

/// Appending diagnostics keeps what the bookkeeping says.
pub proof fn lemma_flat_inv_diags(
    decls: Seq<MaterialPropertiesDecl>,
    structs: Seq<StructDecl>,
    states: Seq<(String, ResolutionState)>,
    resolved: Seq<(String, ResolvedMaterialProperties)>,
    stack: Seq<String>,
    d1: Seq<Diag>,
    d2: Seq<Diag>,
)
    requires
        flat_inv(decls, structs, states, resolved, stack, d1),
        extends(d1, d2),
    ensures
        flat_inv(decls, structs, states, resolved, stack, d2),
{
    assert forall|n: Seq<char>, g: nat, k: int|
        #[trigger] decl_conflict(decls, structs, n, g, k) && state_of(states, n) is Some && state_of(states, n)
            != Some(ResolutionState::Resolving) implies reported(d2, decl_conflict_diag(decls, structs, n, g, k)) by {
        let i = choose|i: int| 0 <= i < d1.len() && diag_view(d1[i]) == decl_conflict_diag(decls, structs, n, g, k);
        assert(d2[i] == d1[i]);
    }
}

/// Recording a state for `e.0` keeps the bookkeeping, provided a failed
/// declaration has no flattened channels and a finished one with a conflicting
/// override has had it reported.
pub proof fn lemma_flat_inv_push_state(
    decls: Seq<MaterialPropertiesDecl>,
    structs: Seq<StructDecl>,
    states: Seq<(String, ResolutionState)>,
    resolved: Seq<(String, ResolvedMaterialProperties)>,
    stack: Seq<String>,
    diags: Seq<Diag>,
    e: (String, ResolutionState),
)
    requires
        flat_inv(decls, structs, states, resolved, stack, diags),
        e.1 == ResolutionState::Failed ==> forall|g: nat| #[trigger] flat_channels(decls, structs, e.0@, g) is None,
        e.1 != ResolutionState::Resolving ==> forall|g: nat, k: int|
            #[trigger] decl_conflict(decls, structs, e.0@, g, k) ==> reported(
                diags,
                decl_conflict_diag(decls, structs, e.0@, g, k),
            ),
    ensures
        flat_inv(decls, structs, states.push(e), resolved, stack, diags),
{
    assert forall|n: Seq<char>| state_of(states.push(e), n) == if e.0@ == n {
        Some(e.1)
    } else {
        state_of(states, n)
    } by {
        lemma_state_push(states, e, n);
    }
}

/// Recording an entry keeps the bookkeeping, provided the entry holds the
/// declaration's flattened channels whenever it has them.
pub proof fn lemma_flat_inv_push_entry(
    decls: Seq<MaterialPropertiesDecl>,
    structs: Seq<StructDecl>,
    states: Seq<(String, ResolutionState)>,
    resolved: Seq<(String, ResolvedMaterialProperties)>,
    stack: Seq<String>,
    diags: Seq<Diag>,
    e: (String, ResolvedMaterialProperties),
)
    requires
        flat_inv(decls, structs, states, resolved, stack, diags),
        forall|g: nat|
            (#[trigger] flat_channels(decls, structs, e.0@, g)) is Some ==> e.1.channels@ == flat_channels(
                decls,
                structs,
                e.0@,
                g,
            )->0,
    ensures
        flat_inv(decls, structs, states, resolved.push(e), stack, diags),
{
    assert forall|n: Seq<char>| entry_of(resolved.push(e), n) == if e.0@ == n {
        Some(e.1)
    } else {
        entry_of(resolved, n)
    } by {
        lemma_entry_push(resolved, e, n);
    }
}

/// The names on the stack from the position of `name` on, and `name` itself,
/// form an inheritance cycle: none has flattened channels or a reportable
/// conflicting override.
pub proof fn lemma_stack_cycle(
    decls: Seq<MaterialPropertiesDecl>,
    structs: Seq<StructDecl>,
    stack: Seq<String>,
    name: Seq<char>,
    start: int,
)
    requires
        0 <= start < stack.len(),
        stack[start]@ == name,
        stack_chain(decls, stack),
        parent_name(decls, stack.last()@) == Some(name),
        forall|j: int| 0 <= j < stack.len() ==> decl_index(decls, (#[trigger] stack[j])@) is Some,
    ensures
        forall|g: nat, j: int| start <= j < stack.len() ==> #[trigger] flat_channels(decls, structs, stack[j]@, g) is None,
        forall|g: nat| #[trigger] flat_channels(decls, structs, name, g) is None,
        forall|g: nat, k: int, j: int|
            start <= j < stack.len() ==> !(#[trigger] decl_conflict(decls, structs, stack[j]@, g, k)),
        forall|g: nat, k: int| !(#[trigger] decl_conflict(decls, structs, name, g, k)),
{
    let c = crate::text::string_views(stack).subrange(start, stack.len() as int);
    assert forall|j: int| 0 <= j < c.len() implies decl_index(decls, #[trigger] c[j]) is Some by {
        assert(c[j] == stack[start + j]@);
    }
    assert forall|j: int|
        0 <= j < c.len() implies parent_name(decls, #[trigger] c[j]) == Some(
            if j + 1 < c.len() {
                c[j + 1]
            } else {
                c[0]
            },
        ) by {
        assert(c[j] == stack[start + j]@);
        if j + 1 < c.len() {
            assert(c[j + 1] == stack[start + j + 1]@);
            assert(parent_name(decls, stack[start + j]@) == Some(stack[start + j + 1]@));
        } else {
            assert(c[0] == stack[start]@);
            assert(stack[start + j] == stack.last());
        }
    }
    assert forall|g: nat, j: int| start <= j < stack.len() implies #[trigger] flat_channels(
        decls,
        structs,
        stack[j]@,
        g,
    ) is None by {
        lemma_cycle_unresolvable(decls, structs, c, g);
        assert(c[j - start] == stack[j]@);
    }
    assert forall|g: nat| #[trigger] flat_channels(decls, structs, name, g) is None by {
        lemma_cycle_unresolvable(decls, structs, c, g);
        assert(c[0] == stack[start]@);
    }
    assert forall|g: nat, k: int, j: int| start <= j < stack.len() implies !(#[trigger] decl_conflict(
        decls,
        structs,
        stack[j]@,
        g,
        k,
    )) by {
        let q = if j + 1 < stack.len() {
            stack[j + 1]@
        } else {
            name
        };
        if j + 1 < stack.len() {
            assert(parent_name(decls, stack[j]@) == Some(stack[j + 1]@));
        }
        assert(decl_index(decls, q) is Some);
        if g > 0 {
            assert(flat_channels(decls, structs, q, (g - 1) as nat) is None);
        }
    }
    assert forall|g: nat, k: int| !(#[trigger] decl_conflict(decls, structs, name, g, k)) by {
        let q = if start + 1 < stack.len() {
            stack[start + 1]@
        } else {
            name
        };
        if start + 1 < stack.len() {
            assert(parent_name(decls, stack[start]@) == Some(stack[start + 1]@));
        }
        assert(decl_index(decls, q) is Some);
        if g > 0 {
            assert(flat_channels(decls, structs, q, (g - 1) as nat) is None);
        }
    }
}

/// No declaration on an inheritance cycle has flattened channels.
pub proof fn lemma_cycle_unresolvable(
    decls: Seq<MaterialPropertiesDecl>,
    structs: Seq<StructDecl>,
    c: Seq<Seq<char>>,
    g: nat,
)
    requires
        c.len() > 0,
        forall|j: int| 0 <= j < c.len() ==> decl_index(decls, #[trigger] c[j]) is Some,
        forall|j: int|
            0 <= j < c.len() ==> parent_name(decls, #[trigger] c[j]) == Some(
                if j + 1 < c.len() {
                    c[j + 1]
                } else {
                    c[0]
                },
            ),
    ensures
        forall|j: int| 0 <= j < c.len() ==> (#[trigger] flat_channels(decls, structs, c[j], g)) is None,
    decreases g,
{
    if g > 0 {
        lemma_cycle_unresolvable(decls, structs, c, (g - 1) as nat);
    }
    assert forall|j: int| 0 <= j < c.len() implies (#[trigger] flat_channels(decls, structs, c[j], g)) is None by {
        let q = if j + 1 < c.len() {
            c[j + 1]
        } else {
            c[0]
        };
        assert(decl_index(decls, q) is Some);
        if g > 0 {
            if j + 1 < c.len() {
                assert(flat_channels(decls, structs, c[j + 1], (g - 1) as nat) is None);
            } else {
                assert(flat_channels(decls, structs, c[0], (g - 1) as nat) is None);
            }
        }
    }
}

/// A name with a recorded entry is declared.
pub proof fn lemma_entry_declared(
    resolved: Seq<(String, ResolvedMaterialProperties)>,
    decls: Seq<MaterialPropertiesDecl>,
    structs: Seq<StructDecl>,
    n: Seq<char>,
)
    requires
        table_ok(resolved, decls, structs),
        entry_of(resolved, n) is Some,
    ensures
        decl_index(decls, n) is Some,
    decreases resolved.len(),
{
    if resolved.last().0@ == n {
        assert(entry_ok(resolved, resolved.len() - 1, decls, structs));
    } else {
        let r2 = resolved.drop_last();
        assert forall|i: int| 0 <= i < r2.len() implies #[trigger] entry_ok(r2, i, decls, structs) by {
            assert(entry_ok(resolved, i, decls, structs));
            assert(r2.take(i) =~= resolved.take(i));
            assert(r2[i] == resolved[i]);
        }
        lemma_entry_declared(r2, decls, structs, n);
    }
}

/// The bookkeeping of a resolution in progress.
pub open spec fn res_inv(
    decls: Seq<MaterialPropertiesDecl>,
    structs: Seq<StructDecl>,
    states: Seq<(String, ResolutionState)>,
    resolved: Seq<(String, ResolvedMaterialProperties)>,
    stack: Seq<String>,
    diags: Seq<Diag>,
) -> bool {
    &&& forall|n: Seq<char>| (#[trigger] entry_of(resolved, n) is Some) == (state_of(states, n) == Some(ResolutionState::Resolved))
    &&& crate::text::string_views(stack).no_duplicates()
    &&& forall|j: int| 0 <= j < stack.len() ==> (#[trigger] state_of(states, stack[j]@)) is Some
        && state_of(states, stack[j]@) != Some(ResolutionState::Resolved)
        && decl_index(decls, stack[j]@) is Some
    &&& forall|n: Seq<char>| #[trigger] state_of(states, n) == Some(ResolutionState::Resolving)
        ==> crate::text::string_views(stack).contains(n)
    &&& table_ok(resolved, decls, structs)
    &&& forall|n: Seq<char>| decl_index(decls, n) is Some && #[trigger] state_of(states, n) == Some(
        ResolutionState::Failed,
    ) ==> spec_has_errors(diags)
}

pub proof fn lemma_state_push(states: Seq<(String, ResolutionState)>, e: (String, ResolutionState), n: Seq<char>)
    ensures
        state_of(states.push(e), n) == if e.0@ == n { Some(e.1) } else { state_of(states, n) },
{
    assert(states.push(e).drop_last() =~= states);
}

pub proof fn lemma_entry_push(
    resolved: Seq<(String, ResolvedMaterialProperties)>,
    e: (String, ResolvedMaterialProperties),
    n: Seq<char>,
)
    ensures
        entry_of(resolved.push(e), n) == if e.0@ == n { Some(e.1) } else { entry_of(resolved, n) },
{
    assert(resolved.push(e).drop_last() =~= resolved);
}

pub proof fn lemma_decl_index(decls: Seq<MaterialPropertiesDecl>, n: Seq<char>)
    ensures
        decl_index(decls, n) matches Some(i) ==> 0 <= i < decls.len() && decls[i].name@ == n,
        decl_index(decls, n) is None ==> forall|j: int| 0 <= j < decls.len() ==> decls[j].name@ != n,
    decreases decls.len(),
{
    if decls.len() > 0 {
        lemma_decl_index(decls.drop_last(), n);
        assert forall|j: int| 0 <= j < decls.len() - 1 implies decls[j] == decls.drop_last()[j] by {}
    }
}

pub proof fn lemma_table_push(
    resolved: Seq<(String, ResolvedMaterialProperties)>,
    e: (String, ResolvedMaterialProperties),
    decls: Seq<MaterialPropertiesDecl>,
    structs: Seq<StructDecl>,
)
    requires
        table_ok(resolved, decls, structs),
        entry_ok(resolved.push(e), resolved.len() as int, decls, structs),
    ensures
        table_ok(resolved.push(e), decls, structs),
{
    let r2 = resolved.push(e);
    assert forall|i: int| 0 <= i < r2.len() implies #[trigger] entry_ok(r2, i, decls, structs) by {
        if i < resolved.len() {
            assert(entry_ok(resolved, i, decls, structs));
            assert(r2.take(i) =~= resolved.take(i));
            assert(r2[i] == resolved[i]);
            if let Some(di) = decl_index(decls, resolved[i].0@) {
                let vals = choose|vals: Seq<Option<Value>>|
                    resolved[i].1.channels@ == #[trigger] merge_channels(
                        parent_channels(resolved.take(i), decls[di]),
                        decls[di].channels@,
                        vals,
                    ) && channels_valid(
                        parent_channels(resolved.take(i), decls[di]),
                        decls[di].channels@,
                        vals,
                        structs,
                    );
                assert(r2[i].1.channels@ == merge_channels(
                    parent_channels(r2.take(i), decls[di]),
                    decls[di].channels@,
                    vals,
                ));
            }
        }
    }
}

fn state_of_exec(states: &Vec<(String, ResolutionState)>, n: &str) -> (r: Option<ResolutionState>)
    ensures
        r == state_of(states@, n@),
{
    let mut k: usize = states.len();
    assert(states@.take(k as int) =~= states@);
    while k > 0
        invariant
            k <= states@.len(),
            state_of(states@, n@) == state_of(states@.take(k as int), n@),
        decreases k,
    {
        assert(states@.take(k as int).drop_last() =~= states@.take(k - 1));
        if str_eq(states[k - 1].0.as_str(), n) {
            return Some(states[k - 1].1);
        }
        k -= 1;
    }
    None
}

pub(crate) fn entry_index_exec(resolved: &Vec<(String, ResolvedMaterialProperties)>, n: &str) -> (r: Option<usize>)
    ensures
        r matches Some(i) ==> i < resolved@.len() && entry_of(resolved@, n@) == Some(resolved@[i as int].1),
        r is None ==> entry_of(resolved@, n@) is None,
{
    let mut k: usize = resolved.len();
    assert(resolved@.take(k as int) =~= resolved@);
    while k > 0
        invariant
            k <= resolved@.len(),
            entry_of(resolved@, n@) == entry_of(resolved@.take(k as int), n@),
        decreases k,
    {
        assert(resolved@.take(k as int).drop_last() =~= resolved@.take(k - 1));
        if str_eq(resolved[k - 1].0.as_str(), n) {
            return Some(k - 1);
        }
        k -= 1;
    }
    None
}

pub(crate) fn decl_index_exec(decls: &[MaterialPropertiesDecl], n: &str) -> (r: Option<usize>)
    ensures
        r matches Some(i) ==> decl_index(decls@, n@) == Some(i as int),
        r is None ==> decl_index(decls@, n@) is None,
{
    proof {
        lemma_decl_index(decls@, n@);
    }
    let mut k: usize = 0;
    while k < decls.len()
        invariant
            k <= decls@.len(),
            forall|j: int| 0 <= j < k ==> decls@[j].name@ != n@,
        decreases decls@.len() - k,
    {
        if str_eq(decls[k].name.as_str(), n) {
            proof {
                lemma_first_decl(decls@, n@, k as int);
            }
            return Some(k);
        }
        k += 1;
    }
    None
}

pub proof fn lemma_first_decl(decls: Seq<MaterialPropertiesDecl>, n: Seq<char>, k: int)
    requires
        0 <= k < decls.len(),
        decls[k].name@ == n,
        forall|j: int| 0 <= j < k ==> decls[j].name@ != n,
    ensures
        decl_index(decls, n) == Some(k),
    decreases decls.len(),
{
    if k < decls.len() - 1 {
        lemma_first_decl(decls.drop_last(), n, k);
    } else {
        lemma_decl_index(decls.drop_last(), n);
    }
}

fn clone_props(p: &ResolvedMaterialProperties) -> (r: ResolvedMaterialProperties)
    ensures
        r.channels@ == p.channels@,
{
    ResolvedMaterialProperties { channels: clone_channels(&p.channels) }
}

pub proof fn lemma_inv_diags_grow(
    decls: Seq<MaterialPropertiesDecl>,
    structs: Seq<StructDecl>,
    states: Seq<(String, ResolutionState)>,
    resolved: Seq<(String, ResolvedMaterialProperties)>,
    stack: Seq<String>,
    diags: Seq<Diag>,
    diags2: Seq<Diag>,
)
    requires
        res_inv(decls, structs, states, resolved, stack, diags),
        extends(diags, diags2),
    ensures
        res_inv(decls, structs, states, resolved, stack, diags2),
{
    if spec_has_errors(diags) {
        let i = choose|i: int| 0 <= i < diags.len() && diags[i].severity == Severity::Error;
        assert(diags2[i] == diags[i]);
    }
}

pub proof fn lemma_inv_push_failed(
    decls: Seq<MaterialPropertiesDecl>,
    structs: Seq<StructDecl>,
    states: Seq<(String, ResolutionState)>,
    resolved: Seq<(String, ResolvedMaterialProperties)>,
    stack: Seq<String>,
    diags: Seq<Diag>,
    nm: String,
)
    requires
        res_inv(decls, structs, states, resolved, stack, diags),
        entry_of(resolved, nm@) is None,
        decl_index(decls, nm@) is Some ==> spec_has_errors(diags),
    ensures
        res_inv(decls, structs, states.push((nm, ResolutionState::Failed)), resolved, stack, diags),
{
    let st2 = states.push((nm, ResolutionState::Failed));
    assert forall|n: Seq<char>| #[trigger] state_of(st2, n) == if nm@ == n {
        Some(ResolutionState::Failed)
    } else {
        state_of(states, n)
    } by {
        lemma_state_push(states, (nm, ResolutionState::Failed), n);
    }
    assert forall|n: Seq<char>| (#[trigger] entry_of(resolved, n) is Some) == (state_of(st2, n) == Some(ResolutionState::Resolved)) by {
        if n != nm@ {
            assert(state_of(st2, n) == state_of(states, n));
        }
    }
    assert forall|j: int| 0 <= j < stack.len() implies (#[trigger] state_of(st2, stack[j]@)) is Some
        && state_of(st2, stack[j]@) != Some(ResolutionState::Resolved)
        && decl_index(decls, stack[j]@) is Some by {
        assert(state_of(states, stack[j]@) is Some);
    }
    assert forall|n: Seq<char>| #[trigger] state_of(st2, n) == Some(ResolutionState::Resolving)
        implies crate::text::string_views(stack).contains(n) by {
        assert(state_of(states, n) == Some(ResolutionState::Resolving));
    }
    assert forall|n: Seq<char>| decl_index(decls, n) is Some && #[trigger] state_of(st2, n) == Some(
        ResolutionState::Failed,
    ) implies spec_has_errors(diags) by {
        if n != nm@ {
            assert(state_of(states, n) == Some(ResolutionState::Failed));
        }
    }
}

pub proof fn lemma_inv_push_resolving(
    decls: Seq<MaterialPropertiesDecl>,
    structs: Seq<StructDecl>,
    states: Seq<(String, ResolutionState)>,
    resolved: Seq<(String, ResolvedMaterialProperties)>,
    stack: Seq<String>,
    diags: Seq<Diag>,
    nm: String,
)
    requires
        res_inv(decls, structs, states, resolved, stack, diags),
        state_of(states, nm@) is None,
        decl_index(decls, nm@) is Some,
    ensures
        res_inv(
            decls,
            structs,
            states.push((nm, ResolutionState::Resolving)),
            resolved,
            stack.push(nm),
            diags,
        ),
        crate::text::string_views(stack.push(nm)).len() <= decls.len(),
{
    let st2 = states.push((nm, ResolutionState::Resolving));
    let sk2 = stack.push(nm);
    assert forall|n: Seq<char>| #[trigger] state_of(st2, n) == if nm@ == n {
        Some(ResolutionState::Resolving)
    } else {
        state_of(states, n)
    } by {
        lemma_state_push(states, (nm, ResolutionState::Resolving), n);
    }
    assert(crate::text::string_views(sk2) =~= crate::text::string_views(stack).push(nm@));
    assert(!crate::text::string_views(stack).contains(nm@)) by {
        if crate::text::string_views(stack).contains(nm@) {
            let j = choose|j: int| 0 <= j < crate::text::string_views(stack).len() && crate::text::string_views(stack)[j] == nm@;
            assert(state_of(states, stack[j]@) is Some);
        }
    }
    assert(crate::text::string_views(sk2).no_duplicates());
    assert forall|n: Seq<char>| (#[trigger] entry_of(resolved, n) is Some) == (state_of(st2, n) == Some(ResolutionState::Resolved)) by {
        if n != nm@ {
            assert(state_of(st2, n) == state_of(states, n));
        }
    }
    assert forall|j: int| 0 <= j < sk2.len() implies (#[trigger] state_of(st2, sk2[j]@)) is Some
        && state_of(st2, sk2[j]@) != Some(ResolutionState::Resolved)
        && decl_index(decls, sk2[j]@) is Some by {
        if j < stack.len() {
            assert(sk2[j] == stack[j]);
            assert(state_of(states, stack[j]@) is Some);
        }
    }
    assert forall|n: Seq<char>| #[trigger] state_of(st2, n) == Some(ResolutionState::Resolving)
        implies crate::text::string_views(sk2).contains(n) by {
        if n == nm@ {
            assert(crate::text::string_views(sk2)[stack.len() as int] == n);
        } else {
            assert(state_of(states, n) == Some(ResolutionState::Resolving));
            let j = choose|j: int| 0 <= j < crate::text::string_views(stack).len() && crate::text::string_views(stack)[j] == n;
            assert(crate::text::string_views(sk2)[j] == n);
        }
    }
    assert forall|n: Seq<char>| decl_index(decls, n) is Some && #[trigger] state_of(st2, n) == Some(
        ResolutionState::Failed,
    ) implies spec_has_errors(diags) by {
        assert(state_of(states, n) == Some(ResolutionState::Failed));
    }
    assert forall|j: int| 0 <= j < crate::text::string_views(sk2).len() implies decl_names(decls).contains(
        #[trigger] crate::text::string_views(sk2)[j],
    ) by {
        assert(crate::text::string_views(sk2)[j] == sk2[j]@);
        assert(state_of(st2, sk2[j]@) is Some);
        assert(decl_index(decls, sk2[j]@) is Some);
        let di = decl_index(decls, sk2[j]@)->0;
        lemma_decl_index(decls, sk2[j]@);
        assert(decl_names(decls)[di] == sk2[j]@);
    }
    lemma_distinct_subset_len(crate::text::string_views(sk2), decl_names(decls));
}

pub proof fn lemma_finish_failed(
    decls: Seq<MaterialPropertiesDecl>,
    structs: Seq<StructDecl>,
    states: Seq<(String, ResolutionState)>,
    resolved: Seq<(String, ResolvedMaterialProperties)>,
    stack: Seq<String>,
    diags: Seq<Diag>,
    nm: String,
)
    requires
        res_inv(decls, structs, states, resolved, stack.push(nm), diags),
        entry_of(resolved, nm@) is None,
        spec_has_errors(diags),
    ensures
        res_inv(decls, structs, states.push((nm, ResolutionState::Failed)), resolved, stack, diags),
{
    let st2 = states.push((nm, ResolutionState::Failed));
    let sk2 = stack.push(nm);
    assert forall|n: Seq<char>| #[trigger] state_of(st2, n) == if nm@ == n {
        Some(ResolutionState::Failed)
    } else {
        state_of(states, n)
    } by {
        lemma_state_push(states, (nm, ResolutionState::Failed), n);
    }
    assert(crate::text::string_views(sk2) =~= crate::text::string_views(stack).push(nm@));
    assert(crate::text::string_views(stack) =~= crate::text::string_views(sk2).drop_last());
    assert forall|i: int, j: int| 0 <= i < j < crate::text::string_views(stack).len()
        implies crate::text::string_views(stack)[i] != crate::text::string_views(stack)[j] by {
        assert(crate::text::string_views(sk2)[i] != crate::text::string_views(sk2)[j]);
    }
    assert forall|j: int| 0 <= j < stack.len() implies crate::text::string_views(stack)[j] != nm@ by {
        assert(crate::text::string_views(sk2)[j] != crate::text::string_views(sk2)[stack.len() as int]);
    }
    assert forall|n: Seq<char>| (#[trigger] entry_of(resolved, n) is Some) == (state_of(st2, n) == Some(ResolutionState::Resolved)) by {
        if n != nm@ {
            assert(state_of(st2, n) == state_of(states, n));
        }
    }
    assert forall|j: int| 0 <= j < stack.len() implies (#[trigger] state_of(st2, stack[j]@)) is Some
        && state_of(st2, stack[j]@) != Some(ResolutionState::Resolved)
        && decl_index(decls, stack[j]@) is Some by {
        assert(sk2[j] == stack[j]);
        assert(crate::text::string_views(stack)[j] == stack[j]@);
        assert(state_of(states, sk2[j]@) is Some);
    }
    assert forall|n: Seq<char>| #[trigger] state_of(st2, n) == Some(ResolutionState::Resolving)
        implies crate::text::string_views(stack).contains(n) by {
        assert(state_of(states, n) == Some(ResolutionState::Resolving));
        let j = choose|j: int| 0 <= j < crate::text::string_views(sk2).len() && crate::text::string_views(sk2)[j] == n;
        assert(j < stack.len());
        assert(crate::text::string_views(stack)[j] == n);
    }
    assert forall|n: Seq<char>| decl_index(decls, n) is Some && #[trigger] state_of(st2, n) == Some(
        ResolutionState::Failed,
    ) implies spec_has_errors(diags) by {}
}

pub proof fn lemma_finish_resolved(
    decls: Seq<MaterialPropertiesDecl>,
    structs: Seq<StructDecl>,
    states: Seq<(String, ResolutionState)>,
    resolved: Seq<(String, ResolvedMaterialProperties)>,
    stack: Seq<String>,
    diags: Seq<Diag>,
    nm: String,
    props: ResolvedMaterialProperties,
)
    requires
        res_inv(decls, structs, states, resolved, stack.push(nm), diags),
        entry_of(resolved, nm@) is None,
        entry_ok(resolved.push((nm, props)), resolved.len() as int, decls, structs),
    ensures
        res_inv(
            decls,
            structs,
            states.push((nm, ResolutionState::Resolved)),
            resolved.push((nm, props)),
            stack,
            diags,
        ),
{
    let st2 = states.push((nm, ResolutionState::Resolved));
    let r2 = resolved.push((nm, props));
    let sk2 = stack.push(nm);
    assert forall|n: Seq<char>| #[trigger] state_of(st2, n) == if nm@ == n {
        Some(ResolutionState::Resolved)
    } else {
        state_of(states, n)
    } by {
        lemma_state_push(states, (nm, ResolutionState::Resolved), n);
    }
    assert forall|n: Seq<char>| #[trigger] entry_of(r2, n) == if nm@ == n {
        Some(props)
    } else {
        entry_of(resolved, n)
    } by {
        lemma_entry_push(resolved, (nm, props), n);
    }
    assert(crate::text::string_views(sk2) =~= crate::text::string_views(stack).push(nm@));
    assert forall|i: int, j: int| 0 <= i < j < crate::text::string_views(stack).len()
        implies crate::text::string_views(stack)[i] != crate::text::string_views(stack)[j] by {
        assert(crate::text::string_views(sk2)[i] != crate::text::string_views(sk2)[j]);
    }
    assert forall|j: int| 0 <= j < stack.len() implies crate::text::string_views(stack)[j] != nm@ by {
        assert(crate::text::string_views(sk2)[j] != crate::text::string_views(sk2)[stack.len() as int]);
    }
    assert forall|n: Seq<char>| (#[trigger] entry_of(r2, n) is Some) == (state_of(st2, n) == Some(ResolutionState::Resolved)) by {
        if n != nm@ {
            assert(state_of(st2, n) == state_of(states, n));
            assert(entry_of(r2, n) == entry_of(resolved, n));
        }
    }
    assert forall|j: int| 0 <= j < stack.len() implies (#[trigger] state_of(st2, stack[j]@)) is Some
        && state_of(st2, stack[j]@) != Some(ResolutionState::Resolved)
        && decl_index(decls, stack[j]@) is Some by {
        assert(sk2[j] == stack[j]);
        assert(crate::text::string_views(stack)[j] == stack[j]@);
        assert(state_of(states, sk2[j]@) is Some);
    }
    assert forall|n: Seq<char>| #[trigger] state_of(st2, n) == Some(ResolutionState::Resolving)
        implies crate::text::string_views(stack).contains(n) by {
        assert(state_of(states, n) == Some(ResolutionState::Resolving));
        let j = choose|j: int| 0 <= j < crate::text::string_views(sk2).len() && crate::text::string_views(sk2)[j] == n;
        assert(j < stack.len());
        assert(crate::text::string_views(stack)[j] == n);
    }
    assert forall|n: Seq<char>| decl_index(decls, n) is Some && #[trigger] state_of(st2, n) == Some(
        ResolutionState::Failed,
    ) implies spec_has_errors(diags) by {
        assert(state_of(states, n) == Some(ResolutionState::Failed));
    }
    lemma_table_push(resolved, (nm, props), decls, structs);
}

fn errors_from(diags: &Vec<Diag>, from: usize) -> (r: bool)
    requires
        from <= diags@.len(),
    ensures
        r == !no_errors_from(diags@, from as int),
{
    let mut i = from;
    while i < diags.len()
        invariant
            from <= i <= diags@.len(),
            forall|j: int| from <= j < i ==> diags@[j].severity != Severity::Error,
        decreases diags@.len() - i,
    {
        if diags[i].severity == Severity::Error {
            return true;
        }
        i += 1;
    }
    false
}

/// The position of the first entry of `stack` named `name`.
fn stack_position(stack: &Vec<String>, name: &str) -> (r: Option<usize>)
    ensures
        r matches Some(i) ==> i < stack@.len() && stack@[i as int]@ == name@,
        r is None ==> !crate::text::string_views(stack@).contains(name@),
{
    let mut i: usize = 0;
    while i < stack.len()
        invariant
            i <= stack@.len(),
            forall|j: int| 0 <= j < i ==> stack@[j]@ != name@,
        decreases stack@.len() - i,
    {
        if str_eq(stack[i].as_str(), name) {
            return Some(i);
        }
        i += 1;
    }
    proof {
        if crate::text::string_views(stack@).contains(name@) {
            let j = choose|j: int| 0 <= j < crate::text::string_views(stack@).len() && crate::text::string_views(stack@)[j] == name@;
            assert(stack@[j]@ == name@);
        }
    }
    None
}

/// Resolves the declaration named `name`: its parent first, then its own
/// channels on top; a declaration met again while it is being resolved is
/// an inheritance cycle.
fn resolve_decl(
    name: &str,
    decls: &[MaterialPropertiesDecl],
    structs: &[StructDecl],
    resolved: &mut Vec<(String, ResolvedMaterialProperties)>,
    states: &mut Vec<(String, ResolutionState)>,
    stack: &mut Vec<String>,
    diags: &mut Vec<Diag>,
) -> (r: Option<ResolvedMaterialProperties>)
    requires
        res_inv(decls@, structs@, old(states)@, old(resolved)@, old(stack)@, old(diags)@),
        flat_inv(decls@, structs@, old(states)@, old(resolved)@, old(stack)@, old(diags)@),
        old(stack)@.len() > 0 ==> parent_name(decls@, old(stack)@.last()@) == Some(name@),
    ensures
        res_inv(decls@, structs@, final(states)@, final(resolved)@, final(stack)@, final(diags)@),
        flat_inv(decls@, structs@, final(states)@, final(resolved)@, final(stack)@, final(diags)@),
        forall|g: nat|
            #[trigger] flat_channels(decls@, structs@, name@, g) matches Some(x) ==> (r matches Some(v)
                && v.channels@ == x) && final(diags)@ == old(diags)@,
        decl_index(decls@, name@) is None ==> r is None && final(diags)@ == old(diags)@,
        final(stack)@ == old(stack)@,
        state_of(final(states)@, name@) is Some,
        forall|n: Seq<char>| state_of(old(states)@, n) is Some ==> #[trigger] state_of(final(states)@, n) is Some,
        forall|n: Seq<char>|
            state_of(old(states)@, n) is Some ==> #[trigger] entry_of(final(resolved)@, n) == entry_of(
                old(resolved)@,
                n,
            ),
        extends(old(diags)@, final(diags)@),
        match r {
            Some(v) => entry_of(final(resolved)@, name@) matches Some(e) && e.channels@ == v.channels@,
            None => entry_of(final(resolved)@, name@) is None,
        },
    decreases decls@.len() - old(stack)@.len(),
{
    let ghost states0 = states@;
    match state_of_exec(states, name) {
        Some(ResolutionState::Resolved) => {
            proof {
                assert(entry_of(resolved@, name@) is Some);
                lemma_entry_declared(resolved@, decls@, structs@, name@);
            }
            return match entry_index_exec(resolved, name) {
                Some(i) => Some(clone_props(&resolved[i].1)),
                None => None,
            };
        },
        Some(ResolutionState::Failed) => {
            return None;
        },
        Some(ResolutionState::Resolving) => {
            let ghost diags0 = diags@;
            proof {
                assert(crate::text::string_views(stack@).contains(name@));
            }
            let start = match stack_position(stack, name) {
                Some(i) => i,
                None => {
                    return None;
                },
            };
            proof {
                assert forall|j: int| 0 <= j < stack@.len() implies decl_index(decls@, (#[trigger] stack@[j])@) is Some by {
                    assert(state_of(states@, stack@[j]@) is Some);
                }
                lemma_stack_cycle(decls@, structs@, stack@, name@, start as int);
            }
            let mut chain: Vec<String> = Vec::new();
            let mut j = start;
            while j < stack.len()
                invariant
                    start <= j <= stack@.len(),
                decreases stack@.len() - j,
            {
                chain.push(stack[j].clone());
                j += 1;
            }
            chain.push(String::from_str(name));
            let di = match decl_index_exec(decls, name) {
                Some(di) => di,
                None => {
                    proof {
                        assert(state_of(states@, stack@[start as int]@) is Some);
                    }
                    return None;
                },
            };
            proof {
                lemma_decl_index(decls@, name@);
            }
            let joined = crate::text::join(&chain, " -> ");
            let message = cat3("cyclic material_properties inheritance involving `", name, "`");
            let help = cat2("inheritance chain: ", joined.as_str());
            let d = Diag::error(decls[di].name_span, message).with_label(String::from_str("inheritance cycle")).with_help(help);
            diags.push(d);
            proof {
                assert(diags@[diags@.len() - 1].severity == Severity::Error);
                lemma_inv_diags_grow(decls@, structs@, states@, resolved@, stack@, diags0, diags@);
                lemma_flat_inv_diags(decls@, structs@, states@, resolved@, stack@, diags0, diags@);
            }
            let mut k = start;
            while k < stack.len()
                invariant
                    start <= k <= stack@.len(),
                    res_inv(decls@, structs@, states@, resolved@, stack@, diags@),
                    flat_inv(decls@, structs@, states@, resolved@, stack@, diags@),
                    forall|g: nat, j: int| start <= j < stack@.len() ==> #[trigger] flat_channels(
                        decls@,
                        structs@,
                        stack@[j]@,
                        g,
                    ) is None,
                    forall|g: nat| #[trigger] flat_channels(decls@, structs@, name@, g) is None,
                    forall|g: nat, kk: int, j: int|
                        start <= j < stack@.len() ==> !(#[trigger] decl_conflict(decls@, structs@, stack@[j]@, g, kk)),
                    forall|g: nat, kk: int| !(#[trigger] decl_conflict(decls@, structs@, name@, g, kk)),
                    spec_has_errors(diags@),
                    forall|n: Seq<char>| state_of(states0, n) is Some ==> #[trigger] state_of(states@, n) is Some,
                    state_of(states@, name@) is Some,
                decreases stack@.len() - k,
            {
                let item = stack[k].clone();
                proof {
                    assert(item@ == stack@[k as int]@);
                    assert forall|g: nat| #[trigger] flat_channels(decls@, structs@, item@, g) is None by {
                        assert(flat_channels(decls@, structs@, stack@[k as int]@, g) is None);
                    }
                    assert forall|g: nat, kk: int| !(#[trigger] decl_conflict(decls@, structs@, item@, g, kk)) by {
                        assert(!decl_conflict(decls@, structs@, stack@[k as int]@, g, kk));
                    }
                    lemma_flat_inv_push_state(
                        decls@,
                        structs@,
                        states@,
                        resolved@,
                        stack@,
                        diags@,
                        (item, ResolutionState::Failed),
                    );
                    assert(state_of(states@, stack@[k as int]@) is Some);
                    assert(entry_of(resolved@, item@) is None);
                    lemma_inv_push_failed(decls@, structs@, states@, resolved@, stack@, diags@, item);
                    assert forall|n: Seq<char>| state_of(states@, n) is Some implies #[trigger] state_of(states@.push((item, ResolutionState::Failed)), n) is Some by {
                        lemma_state_push(states@, (item, ResolutionState::Failed), n);
                    }
                }
                states.push((item, ResolutionState::Failed));
                k += 1;
            }
            let nm = String::from_str(name);
            proof {
                lemma_flat_inv_push_state(
                    decls@,
                    structs@,
                    states@,
                    resolved@,
                    stack@,
                    diags@,
                    (nm, ResolutionState::Failed),
                );
                lemma_inv_push_failed(decls@, structs@, states@, resolved@, stack@, diags@, nm);
                assert forall|n: Seq<char>| state_of(states@, n) is Some implies #[trigger] state_of(states@.push((nm, ResolutionState::Failed)), n) is Some by {
                    lemma_state_push(states@, (nm, ResolutionState::Failed), n);
                }
                lemma_state_push(states@, (nm, ResolutionState::Failed), name@);
            }
            states.push((nm, ResolutionState::Failed));
            return None;
        },
        None => {},
    }
    let di = match decl_index_exec(decls, name) {
        Some(di) => di,
        None => {
            let nm = String::from_str(name);
            proof {
                lemma_flat_inv_push_state(
                    decls@,
                    structs@,
                    states@,
                    resolved@,
                    stack@,
                    diags@,
                    (nm, ResolutionState::Failed),
                );
                lemma_inv_push_failed(decls@, structs@, states@, resolved@, stack@, diags@, nm);
                assert forall|n: Seq<char>| state_of(states@, n) is Some implies #[trigger] state_of(states@.push((nm, ResolutionState::Failed)), n) is Some by {
                    lemma_state_push(states@, (nm, ResolutionState::Failed), n);
                }
                lemma_state_push(states@, (nm, ResolutionState::Failed), name@);
            }
            states.push((nm, ResolutionState::Failed));
            return None;
        },
    };
    proof {
        lemma_decl_index(decls@, name@);
    }
    let decl = &decls[di];
    let nm = String::from_str(name);
    proof {
        lemma_inv_push_resolving(decls@, structs@, states@, resolved@, stack@, diags@, nm);
        assert forall|n: Seq<char>| state_of(states@, n) is Some implies #[trigger] state_of(states@.push((nm, ResolutionState::Resolving)), n) is Some by {
            lemma_state_push(states@, (nm, ResolutionState::Resolving), n);
        }
        lemma_state_push(states@, (nm, ResolutionState::Resolving), name@);
        lemma_flat_inv_push_state(decls@, structs@, states@, resolved@, stack@, diags@, (nm, ResolutionState::Resolving));
    }
    states.push((nm.clone(), ResolutionState::Resolving));
    let ghost stack0 = stack@;
    let ghost resolved0 = resolved@;
    stack.push(nm.clone());
    assert(stack@ == stack0.push(nm));
    proof {
        assert forall|i: int| 0 <= i < stack@.len() - 1 implies parent_name(decls@, (#[trigger] stack@[i])@)
            == Some(stack@[i + 1]@) by {
            if i + 1 < stack0.len() {
                assert(stack@[i] == stack0[i]);
                assert(stack@[i + 1] == stack0[i + 1]);
            } else {
                assert(stack@[i] == stack0.last());
            }
        }
        assert(flat_inv(decls@, structs@, states@, resolved@, stack@, diags@));
    }
    let diag_start = diags.len();
    let ghost diags0 = diags@;
    let ghost states1 = states@;
    let mut parent: Vec<ValidatedMaterialChannel> = Vec::new();
    match &decl.extends_name {
        Some(p) => {
            proof {
                assert(parent_name(decls@, stack@.last()@) == Some(p@));
            }
            match resolve_decl(p.as_str(), decls, structs, resolved, states, stack, diags) {
                Some(pr) => {
                    parent = pr.channels;
                },
                None => {},
            }
        },
        None => {},
    }
    proof {
        assert forall|g: nat| #[trigger] inherited_channels(decls@, structs@, *decl, g) is Some implies parent@
            == inherited_channels(decls@, structs@, *decl, g)->0 && diags@ == diags0 by {
            match decl.extends_name {
                Some(p) => {
                    if decl_index(decls@, p@) is Some {
                        assert(flat_channels(decls@, structs@, p@, (g - 1) as nat) is Some);
                    }
                },
                None => {},
            }
        }
    }
    let ghost resolved1 = resolved@;
    proof {
        assert(parent@ == parent_channels(resolved1, *decl));
        assert(entry_of(resolved1, name@) is None);
    }
    let ghost diags1 = diags@;
    let ghost parent_view = parent@;
    let channels = resolve_channels(decl, parent, structs, diags);
    proof {
        lemma_inv_diags_grow(decls@, structs@, states@, resolved@, stack@, diags1, diags@);
        lemma_flat_inv_diags(decls@, structs@, states@, resolved@, stack@, diags1, diags@);
        assert forall|g: nat| #[trigger] flat_channels(decls@, structs@, name@, g) is Some implies channels@
            == flat_channels(decls@, structs@, name@, g)->0 && diags@ == diags0 by {
            assert(inherited_channels(decls@, structs@, *decl, g) is Some);
        }
        assert forall|g: nat, kk: int| #[trigger] decl_conflict(decls@, structs@, name@, g, kk) implies reported(
            diags@,
            decl_conflict_diag(decls@, structs@, name@, g, kk),
        ) by {
            assert(inherited_channels(decls@, structs@, *decl, g) is Some);
            assert(parent_view == inherited_channels(decls@, structs@, *decl, g)->0);
            assert(override_conflict_at(parent_view, decl.channels@, structs@, kk));
            let i = choose|i: int|
                diags1.len() <= i < diags@.len() && diag_view(diags@[i]) == override_conflict_diag(
                    decl.name@,
                    parent_view,
                    decl.channels@,
                    kk,
                );
        }
    }
    stack.pop();
    assert(stack@ == stack0);
    proof {
        assert(flat_inv(decls@, structs@, states@, resolved@, stack@, diags@));
    }
    if errors_from(diags, diag_start) {
        proof {
            assert forall|g: nat| #[trigger] flat_channels(decls@, structs@, name@, g) is None by {
                if flat_channels(decls@, structs@, name@, g) is Some {
                    assert(diags@ == diags0);
                    assert(diags@.len() == diag_start);
                }
            }
            lemma_flat_inv_push_state(decls@, structs@, states@, resolved@, stack@, diags@, (nm, ResolutionState::Failed));
            let i = choose|i: int| diag_start <= i < diags@.len() && diags@[i].severity == Severity::Error;
            assert(spec_has_errors(diags@));
            lemma_finish_failed(decls@, structs@, states@, resolved@, stack0, diags@, nm);
            assert forall|n: Seq<char>| state_of(states@, n) is Some implies #[trigger] state_of(states@.push((nm, ResolutionState::Failed)), n) is Some by {
                lemma_state_push(states@, (nm, ResolutionState::Failed), n);
            }
            lemma_state_push(states@, (nm, ResolutionState::Failed), name@);
        }
        states.push((nm, ResolutionState::Failed));
        return None;
    }
    let props = ResolvedMaterialProperties { channels };
    let copy = clone_props(&props);
    proof {
        assert(no_errors_from(diags@, diags1.len() as int));
        let r2 = resolved@.push((nm, copy));
        assert(r2.take(resolved@.len() as int) =~= resolved@);
        assert(r2[resolved@.len() as int].0@ == name@);
        assert(decl_index(decls@, name@) == Some(di as int));
        assert(entry_ok(r2, resolved@.len() as int, decls@, structs@));
        lemma_finish_resolved(decls@, structs@, states@, resolved@, stack0, diags@, nm, copy);
        assert forall|n: Seq<char>| state_of(states@, n) is Some implies #[trigger] state_of(states@.push((nm, ResolutionState::Resolved)), n) is Some by {
            lemma_state_push(states@, (nm, ResolutionState::Resolved), n);
        }
        assert forall|n: Seq<char>| n != name@ implies #[trigger] entry_of(r2, n) == entry_of(resolved@, n) by {
            lemma_entry_push(resolved@, (nm, copy), n);
        }
        lemma_entry_push(resolved@, (nm, copy), name@);
        lemma_state_push(states@, (nm, ResolutionState::Resolved), name@);
        lemma_flat_inv_push_entry(decls@, structs@, states@, resolved@, stack@, diags@, (nm, copy));
        lemma_flat_inv_push_state(decls@, structs@, states@, r2, stack@, diags@, (nm, ResolutionState::Resolved));
    }
    resolved.push((nm.clone(), copy));
    states.push((nm, ResolutionState::Resolved));
    Some(props)
}

/// The resolved material properties, by declaration name.
#[derive(Debug)]
pub struct ResolvedTable {
    pub entries: Vec<(String, ResolvedMaterialProperties)>,
}

impl ResolvedTable {
    /// The properties resolved for `name`.
    pub fn get(&self, name: &str) -> (r: Option<&ResolvedMaterialProperties>)
        ensures
            match entry_of(self.entries@, name@) {
                Some(e) => r matches Some(x) && *x == e,
                None => r is None,
            },
    {
        match entry_index_exec(&self.entries, name) {
            Some(i) => Some(&self.entries[i].1),
            None => None,
        }
    }
}

/// The positions of the declarations marked as the default, in order.
pub open spec fn default_decls(decls: Seq<MaterialPropertiesDecl>) -> Seq<int>
    decreases decls.len(),
{
    if decls.len() == 0 {
        Seq::empty()
    } else if decls.last().is_default {
        default_decls(decls.drop_last()).push(decls.len() - 1)
    } else {
        default_decls(decls.drop_last())
    }
}

pub proof fn lemma_default_decls_prefix(decls: Seq<MaterialPropertiesDecl>, m: int)
    requires
        0 <= m <= decls.len(),
    ensures
        default_decls(decls.take(m)).len() <= default_decls(decls).len(),
        forall|i: int|
            0 <= i < default_decls(decls.take(m)).len() ==> default_decls(decls)[i] == #[trigger] default_decls(
                decls.take(m),
            )[i],
    decreases decls.len() - m,
{
    if m < decls.len() {
        lemma_default_decls_prefix(decls.drop_last(), m);
        assert(decls.drop_last().take(m) =~= decls.take(m));
    } else {
        assert(decls.take(m) =~= decls);
    }
}

pub open spec fn names_distinct(decls: Seq<MaterialPropertiesDecl>) -> bool {
    forall|i: int, j: int| 0 <= i < j < decls.len() ==> decls[i].name@ != decls[j].name@
}

/// Validates material properties declarations and flattens their
/// `extends` inheritance: each declaration's channels are its parent's
/// channels with its own applied on top.
pub fn validate_material_properties(
    material_properties: &[MaterialPropertiesDecl],
    structs: &[StructDecl],
) -> (r: Result<ResolvedTable, Vec<Diag>>)
    ensures
        default_decls(material_properties@).len() > 1 ==> (r matches Err(ds) && ds@.len() == 1
            && crate::diag::is_error_diag(
            ds@[0],
            material_properties@[default_decls(material_properties@)[1]].name_span,
            "multiple @default_material declarations are ambiguous"@,
            None,
            Some("select exactly one engine default profile; named profiles remain available explicitly"@),
        )),
        r matches Err(ds) ==> spec_has_errors(ds@),
        r matches Ok(t) ==> {
            &&& default_decls(material_properties@).len() <= 1
            &&& names_distinct(material_properties@)
            &&& forall|j: int|
                0 <= j < material_properties@.len() ==> (#[trigger] entry_of(
                    t.entries@,
                    material_properties@[j].name@,
                )) is Some
            &&& forall|i: int|
                0 <= i < t.entries@.len() ==> (#[trigger] decl_index(material_properties@, t.entries@[i].0@)) is Some
            &&& table_ok(t.entries@, material_properties@, structs@)
            &&& forall|n: Seq<char>, g: nat|
                (#[trigger] flat_channels(material_properties@, structs@, n, g)) is Some ==> (entry_of(
                    t.entries@,
                    n,
                ) matches Some(e) && e.channels@ == flat_channels(material_properties@, structs@, n, g)->0)
        },
        properties_resolvable(material_properties@, structs@) ==> r is Ok,
        default_decls(material_properties@).len() <= 1 ==> forall|n: Seq<char>, g: nat, k: int|
            #[trigger] decl_conflict(material_properties@, structs@, n, g, k) ==> (r matches Err(ds) && reported(
                ds@,
                decl_conflict_diag(material_properties@, structs@, n, g, k),
            )),
{
    let ghost decls = material_properties@;
    let mut first_default: Option<usize> = None;
    let mut k: usize = 0;
    while k < material_properties.len()
        invariant
            decls == material_properties@,
            k <= decls.len(),
            match first_default {
                None => default_decls(decls.take(k as int)).len() == 0,
                Some(f) => default_decls(decls.take(k as int)).len() == 1 && default_decls(decls.take(k as int))[0] == f,
            },
        decreases decls.len() - k,
    {
        assert(decls.take(k + 1).drop_last() =~= decls.take(k as int));
        if material_properties[k].is_default {
            if first_default.is_some() {
                proof {
                    lemma_default_prefix(decls, k + 1);
                    assert(default_decls(decls.take(k + 1))[1] == k);
                    lemma_default_decls_prefix(decls, k + 1);
                }
                let mut ds: Vec<Diag> = Vec::new();
                ds.push(
                    Diag::error(
                        material_properties[k].name_span,
                        String::from_str("multiple @default_material declarations are ambiguous"),
                    ).with_help(
                        String::from_str(
                            "select exactly one engine default profile; named profiles remain available explicitly",
                        ),
                    ),
                );
                proof {
                    assert(ds@[0].severity == Severity::Error);
                }
                return Err(ds);
            }
            first_default = Some(k);
        }
        k += 1;
    }
    assert(decls.take(decls.len() as int) =~= decls);
    let mut diags: Vec<Diag> = Vec::new();
    let mut k: usize = 0;
    while k < material_properties.len()
        invariant
            decls == material_properties@,
            default_decls(decls).len() <= 1,
            k <= decls.len(),
            (exists|i: int, j: int| 0 <= i < j < k && decls[i].name@ == decls[j].name@) ==> spec_has_errors(diags@),
            names_distinct(decls) ==> diags@.len() == 0,
        decreases decls.len() - k,
    {
        let decl = &material_properties[k];
        proof {
            lemma_decl_index(decls, decl.name@);
        }
        match decl_index_exec(material_properties, decl.name.as_str()) {
            Some(first) => {
                if first < k {
                    proof {
                        assert(decls[first as int].name@ == decls[k as int].name@);
                    }
                    let first_span = material_properties[first].name_span;
                    let message = cat3("duplicate material_properties declaration `", decl.name.as_str(), "`");
                    let a = crate::text::decimal(first_span.start as u64);
                    let b = crate::text::decimal(first_span.end as u64);
                    let help = cat5("first declaration appears at bytes ", a.as_str(), "..", b.as_str(), "");
                    diags.push(Diag::error(decl.name_span, message).with_help(help));
                    assert(diags@[diags@.len() - 1].severity == Severity::Error);
                } else {
                    proof {
                        assert forall|i: int| 0 <= i < k implies decls[i].name@ != decls[k as int].name@ by {
                            if decls[i].name@ == decls[k as int].name@ {
                                lemma_first_decl_le(decls, decl.name@, i);
                            }
                        }
                        if spec_has_errors(diags@) {
                        } else {
                            assert(!(exists|i: int, j: int| 0 <= i < j < k + 1 && decls[i].name@ == decls[j].name@));
                        }
                    }
                }
            },
            None => {},
        }
        k += 1;
    }
    let mut resolved: Vec<(String, ResolvedMaterialProperties)> = Vec::new();
    let mut states: Vec<(String, ResolutionState)> = Vec::new();
    let mut stack: Vec<String> = Vec::new();
    proof {
        assert(crate::text::string_views(stack@) =~= Seq::<Seq<char>>::empty());
        assert(res_inv(decls, structs@, states@, resolved@, stack@, diags@));
        assert(flat_inv(decls, structs@, states@, resolved@, stack@, diags@));
    }
    let ghost diags_before = diags@;
    let mut k: usize = 0;
    while k < material_properties.len()
        invariant
            decls == material_properties@,
            default_decls(decls).len() <= 1,
            k <= decls.len(),
            stack@.len() == 0,
            res_inv(decls, structs@, states@, resolved@, stack@, diags@),
            flat_inv(decls, structs@, states@, resolved@, stack@, diags@),
            properties_resolvable(decls, structs@) ==> diags@ == diags_before,
            extends(diags_before, diags@),
            !names_distinct(decls) ==> spec_has_errors(diags_before),
            forall|j: int| 0 <= j < k ==> (#[trigger] state_of(states@, decls[j].name@)) is Some,
        decreases decls.len() - k,
    {
        proof {
            if properties_resolvable(decls, structs@) {
                assert(exists|g: nat| (#[trigger] flat_channels(decls, structs@, decls[k as int].name@, g)) is Some);
            }
        }
        let _ = resolve_decl(
            material_properties[k].name.as_str(),
            material_properties,
            structs,
            &mut resolved,
            &mut states,
            &mut stack,
            &mut diags,
        );
        k += 1;
    }
    proof {
        assert forall|n: Seq<char>, g: nat, kk: int| #[trigger] decl_conflict(decls, structs@, n, g, kk) implies reported(
            diags@,
            decl_conflict_diag(decls, structs@, n, g, kk),
        ) && spec_has_errors(diags@) by {
            lemma_decl_index(decls, n);
            let di = decl_index(decls, n)->0;
            assert(state_of(states@, decls[di].name@) is Some);
            if state_of(states@, n) == Some(ResolutionState::Resolving) {
                assert(crate::text::string_views(stack@).contains(n));
                assert(crate::text::string_views(stack@).len() == 0);
            }
            let i = choose|i: int|
                0 <= i < diags@.len() && diag_view(diags@[i]) == decl_conflict_diag(decls, structs@, n, g, kk);
            assert(diags@[i].severity == Severity::Error);
        }
    }
    if crate::diag::has_errors(&diags) {
        return Err(diags);
    }
    proof {
        if !names_distinct(decls) {
            let i = choose|i: int| 0 <= i < diags_before.len() && diags_before[i].severity == Severity::Error;
            assert(diags@[i] == diags_before[i]);
        }
        assert(!spec_has_errors(diags@));
        assert forall|j: int| 0 <= j < decls.len() implies (#[trigger] entry_of(resolved@, decls[j].name@)) is Some by {
            let n = decls[j].name@;
            assert(state_of(states@, decls[j].name@) is Some);
            lemma_decl_index(decls, n);
            assert(decl_index(decls, n) is Some);
            if state_of(states@, n) == Some(ResolutionState::Resolving) {
                assert(crate::text::string_views(stack@).contains(n));
                assert(crate::text::string_views(stack@).len() == 0);
                assert(false);
            } else if state_of(states@, n) == Some(ResolutionState::Failed) {
                assert(spec_has_errors(diags@));
                assert(false);
            }
            assert(state_of(states@, n) == Some(ResolutionState::Resolved));
        }
        assert forall|i: int| 0 <= i < resolved@.len() implies (#[trigger] decl_index(decls, resolved@[i].0@)) is Some by {
            assert(entry_ok(resolved@, i, decls, structs@));
        }
        assert forall|n: Seq<char>, g: nat|
            (#[trigger] flat_channels(decls, structs@, n, g)) is Some implies (entry_of(resolved@, n) matches Some(
            e,
        ) && e.channels@ == flat_channels(decls, structs@, n, g)->0) by {
            lemma_decl_index(decls, n);
            let di = decl_index(decls, n)->0;
            assert(entry_of(resolved@, decls[di].name@) is Some);
        }
    }
    Ok(ResolvedTable { entries: resolved })
}

pub proof fn lemma_default_prefix(decls: Seq<MaterialPropertiesDecl>, n: int)
    requires
        1 <= n <= decls.len(),
        decls[n - 1].is_default,
    ensures
        default_decls(decls.take(n)) == default_decls(decls.take(n - 1)).push(n - 1),
{
    assert(decls.take(n).drop_last() =~= decls.take(n - 1));
}

pub proof fn lemma_first_decl_le(decls: Seq<MaterialPropertiesDecl>, n: Seq<char>, i: int)
    requires
        0 <= i < decls.len(),
        decls[i].name@ == n,
    ensures
        decl_index(decls, n) matches Some(f) && f <= i,
    decreases decls.len(),
{
    lemma_decl_index(decls, n);
    if i < decls.len() - 1 {
        lemma_first_decl_le(decls.drop_last(), n, i);
    }
}

} // verus!
