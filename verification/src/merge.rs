//! Merging the values of the two branches of a conditional into one value
//! that selects lane by lane.
use vstd::prelude::*;
use crate::checker::Checker;
use crate::diag::{Diag, Span, Severity, opt_view};
use crate::fold::{spec_color_to_field, spec_select_on_cond, spec_working_space};
use crate::sx::Sx;
use crate::text::{cat3, cat5};
use crate::value::{ColorSpace, Fields, Value, Values};

verus! {

/// A layer made by the checker.
#[derive(Debug, PartialEq)]
pub enum LayerNode {
    /// Shows `then_layer` where `cond` holds and `else_layer` elsewhere.
    If { cond: Sx, then_layer: u32, else_layer: u32 },
}

/// The four lanes of a color or color field, with its color space.
pub open spec fn color_lanes(v: Value) -> Option<([Sx; 4], ColorSpace)> {
    match v {
        Value::Color { rgba, space } => Some((spec_color_to_field(rgba), space)),
        Value::ColorField { rgba, space } => Some((rgba, space)),
        _ => None,
    }
}

pub open spec fn select4(cond: Sx, a: [Sx; 4], b: [Sx; 4]) -> [Sx; 4] {
    [
        spec_select_on_cond(cond, a[0], b[0]),
        spec_select_on_cond(cond, a[1], b[1]),
        spec_select_on_cond(cond, a[2], b[2]),
        spec_select_on_cond(cond, a[3], b[3]),
    ]
}

/// Two colors merge in their shared space, or else both in linear space.
pub open spec fn merge_colors(cond: Sx, a: ([Sx; 4], ColorSpace), b: ([Sx; 4], ColorSpace)) -> Value {
    let same = a.1 == b.1;
    let fa = if same { a.0 } else { spec_working_space(a.0, a.1) };
    let fb = if same { b.0 } else { spec_working_space(b.0, b.1) };
    Value::ColorField { rgba: select4(cond, fa, fb), space: if same { a.1 } else { ColorSpace::Linear } }
}

/// The merge of `a` (where `cond` holds) and `b` (elsewhere), with the
/// layers it adds after `layers`; or the kinds of the first pair of values
/// that cannot be merged.
pub open spec fn spec_merge(cond: Sx, a: Value, b: Value, layers: Seq<LayerNode>) -> Result<
    (Value, Seq<LayerNode>),
    (Seq<char>, Seq<char>),
>
    decreases a, 0int,
{
    match (a, b) {
        (Value::Scalar(x), Value::Scalar(y)) => Ok((Value::Scalar(spec_select_on_cond(cond, x, y)), layers)),
        (Value::Distance(x), Value::Distance(y)) => Ok((Value::Distance(spec_select_on_cond(cond, x, y)), layers)),
        (Value::Coverage(x), Value::Coverage(y)) => Ok((Value::Coverage(spec_select_on_cond(cond, x, y)), layers)),
        (Value::Mask(x), Value::Mask(y)) => Ok((Value::Mask(spec_select_on_cond(cond, x, y)), layers)),
        (Value::Vec2((ax, ay)), Value::Vec2((bx, by))) => Ok((
            Value::Vec2((spec_select_on_cond(cond, ax, bx), spec_select_on_cond(cond, ay, by))),
            layers,
        )),
        (Value::Vec3((ax, ay, az)), Value::Vec3((bx, by, bz))) => Ok((
            Value::Vec3(
                (
                    spec_select_on_cond(cond, ax, bx),
                    spec_select_on_cond(cond, ay, by),
                    spec_select_on_cond(cond, az, bz),
                ),
            ),
            layers,
        )),
        (Value::Vec4((ax, ay, az, aw)), Value::Vec4((bx, by, bz, bw))) => Ok((
            Value::Vec4(
                (
                    spec_select_on_cond(cond, ax, bx),
                    spec_select_on_cond(cond, ay, by),
                    spec_select_on_cond(cond, az, bz),
                    spec_select_on_cond(cond, aw, bw),
                ),
            ),
            layers,
        )),
        (Value::Layer(t), Value::Layer(e)) => Ok((
            Value::Layer(layers.len() as u32),
            layers.push(LayerNode::If { cond, then_layer: t, else_layer: e }),
        )),
        (Value::Struct { ty_name: an, fields: af }, Value::Struct { ty_name: bn, fields: bf }) => {
            if an@ == bn@ && af.spec_len() == bf.spec_len() {
                match spec_merge_fields(cond, af, bf, layers) {
                    Ok((fs, ls)) => Ok((Value::Struct { ty_name: an, fields: fs }, ls)),
                    Err(e) => Err(e),
                }
            } else {
                Err((a.spec_kind(), b.spec_kind()))
            }
        },
        (Value::Array(av), Value::Array(bv)) => {
            if av.spec_len() == bv.spec_len() {
                match spec_merge_list(cond, av, bv, layers) {
                    Ok((vs, ls)) => Ok((Value::Array(vs), ls)),
                    Err(e) => Err(e),
                }
            } else {
                Err((a.spec_kind(), b.spec_kind()))
            }
        },
        _ => match (color_lanes(a), color_lanes(b)) {
            (Some(ca), Some(cb)) => Ok((merge_colors(cond, ca, cb), layers)),
            _ => Err((a.spec_kind(), b.spec_kind())),
        },
    }
}

/// Element-wise merge of two arrays of the same length.
pub open spec fn spec_merge_list(cond: Sx, a: Values, b: Values, layers: Seq<LayerNode>) -> Result<
    (Values, Seq<LayerNode>),
    (Seq<char>, Seq<char>),
>
    decreases a, 1int,
{
    match (a, b) {
        (Values::Cons(x, xs), Values::Cons(y, ys)) => match spec_merge(cond, *x, *y, layers) {
            Ok((v, l1)) => match spec_merge_list(cond, *xs, *ys, l1) {
                Ok((vs, l2)) => Ok((Values::Cons(Box::new(v), Box::new(vs)), l2)),
                Err(e) => Err(e),
            },
            Err(e) => Err(e),
        },
        _ => Ok((Values::Nil, layers)),
    }
}

/// Field-wise merge of two records: each field of `a` with the field of the
/// same name in `b`.
pub open spec fn spec_merge_fields(cond: Sx, a: Fields, b: Fields, layers: Seq<LayerNode>) -> Result<
    (Fields, Seq<LayerNode>),
    (Seq<char>, Seq<char>),
>
    decreases a, 1int,
{
    match a {
        Fields::Nil => Ok((Fields::Nil, layers)),
        Fields::Cons(n, v, rest) => match b.spec_get(n@) {
            Some(w) => match spec_merge(cond, *v, w, layers) {
                Ok((m, l1)) => match spec_merge_fields(cond, *rest, b, l1) {
                    Ok((fs, l2)) => Ok((Fields::Cons(n, Box::new(m), Box::new(fs)), l2)),
                    Err(e) => Err(e),
                },
                Err(e) => Err(e),
            },
            None => Err(("struct"@, "struct"@)),
        },
    }
}

fn select4_exec(cond: &Sx, a: &[Sx; 4], b: &[Sx; 4]) -> (r: [Sx; 4])
    ensures
        r == select4(*cond, *a, *b),
{
    let r = [
        Checker::select_sx_on_cond(cond.clone_sx(), a[0].clone_sx(), b[0].clone_sx()),
        Checker::select_sx_on_cond(cond.clone_sx(), a[1].clone_sx(), b[1].clone_sx()),
        Checker::select_sx_on_cond(cond.clone_sx(), a[2].clone_sx(), b[2].clone_sx()),
        Checker::select_sx_on_cond(cond.clone_sx(), a[3].clone_sx(), b[3].clone_sx()),
    ];
    assert(r@ =~= select4(*cond, *a, *b)@);
    proof {
        vstd::array::axiom_array_ext_equal(r, select4(*cond, *a, *b));
    }
    r
}

fn color_lanes_exec(v: &Value) -> (r: Option<([Sx; 4], ColorSpace)>)
    ensures
        r == color_lanes(*v),
{
    match v {
        Value::Color { rgba, space } => Some((Checker::color_to_field(*rgba), *space)),
        Value::ColorField { rgba, space } => Some((crate::value::clone_sx_array(rgba), *space)),
        _ => None,
    }
}

fn merge_colors_exec(cond: &Sx, a: ([Sx; 4], ColorSpace), b: ([Sx; 4], ColorSpace)) -> (r: Value)
    ensures
        r == merge_colors(*cond, a, b),
{
    let same = a.1 == b.1;
    let (fa, sa) = a;
    let (fb, sb) = b;
    let fa = if same { fa } else { Checker::to_working_color_space(fa, sa) };
    let fb = if same { fb } else { Checker::to_working_color_space(fb, sb) };
    Value::ColorField { rgba: select4_exec(cond, &fa, &fb), space: if same { sa } else { ColorSpace::Linear } }
}

impl Checker {
    fn incompatible_branches(&mut self, fn_name: &str, source_file: &str, a: &Value, b: &Value, span: Span)
        ensures
            final(self).diags@ == old(self).diags@.push(final(self).diags@.last()),
            final(self).diags@.last().severity == Severity::Error,
            final(self).diags@.last().span == span,
            final(self).diags@.last().message@ == "function `"@ + fn_name@ + "` has incompatible `if` branch value kinds: "@
                + a.spec_kind() + " vs "@ + b.spec_kind(),
            opt_view(final(self).diags@.last().file) == Some(source_file@),
            opt_view(final(self).diags@.last().help) == Some("make both branches return the same value kind"@),
            final(self).layers == old(self).layers,
            final(self).scopes == old(self).scopes,
    {
        let head = cat3("function `", fn_name, "` has incompatible `if` branch value kinds: ");
        let message = cat3(head.as_str(), a.kind(), " vs ");
        let message = crate::text::cat2(message.as_str(), b.kind());
        let d = Diag::error(span, message)
            .with_file(String::from_str(source_file))
            .with_help(String::from_str("make both branches return the same value kind"));
        self.diags.push(d);
    }
}

impl Checker {
    /// Merges the values of the two branches of a conditional: lanes select
    /// on `cond`, layers become conditional layers, records and arrays merge
    /// element by element; other pairs are an error.
    pub fn merge_conditional_values(
        &mut self,
        fn_name: &str,
        source_file: &str,
        cond: Sx,
        then_value: Value,
        else_value: Value,
        span: Span,
    ) -> (r: Option<Value>)
        ensures
            match spec_merge(cond, then_value, else_value, old(self).layers@) {
                Ok((v, ls)) => r == Some(v) && final(self).layers@ == ls && final(self).diags@ == old(self).diags@,
                Err((ka, kb)) => r is None && final(self).diags@.len() == old(self).diags@.len() + 1
                    && final(self).diags@.drop_last() == old(self).diags@
                    && final(self).diags@.last().severity == Severity::Error
                    && final(self).diags@.last().span == span
                    && final(self).diags@.last().message@ == "function `"@ + fn_name@
                    + "` has incompatible `if` branch value kinds: "@ + ka + " vs "@ + kb,
            },
            final(self).scopes == old(self).scopes,
        decreases then_value, 0int,
    {
        match (then_value, else_value) {
            (Value::Scalar(a), Value::Scalar(b)) => Some(Value::Scalar(Self::select_sx_on_cond(cond, a, b))),
            (Value::Distance(a), Value::Distance(b)) => Some(Value::Distance(Self::select_sx_on_cond(cond, a, b))),
            (Value::Coverage(a), Value::Coverage(b)) => Some(Value::Coverage(Self::select_sx_on_cond(cond, a, b))),
            (Value::Mask(a), Value::Mask(b)) => Some(Value::Mask(Self::select_sx_on_cond(cond, a, b))),
            (Value::Vec2((ax, ay)), Value::Vec2((bx, by))) => {
                let x = Self::select_sx_on_cond(cond.clone_sx(), ax, bx);
                let y = Self::select_sx_on_cond(cond, ay, by);
                Some(Value::Vec2((x, y)))
            },
            (Value::Vec3((ax, ay, az)), Value::Vec3((bx, by, bz))) => {
                let x = Self::select_sx_on_cond(cond.clone_sx(), ax, bx);
                let y = Self::select_sx_on_cond(cond.clone_sx(), ay, by);
                let z = Self::select_sx_on_cond(cond, az, bz);
                Some(Value::Vec3((x, y, z)))
            },
            (Value::Vec4((ax, ay, az, aw)), Value::Vec4((bx, by, bz, bw))) => {
                let x = Self::select_sx_on_cond(cond.clone_sx(), ax, bx);
                let y = Self::select_sx_on_cond(cond.clone_sx(), ay, by);
                let z = Self::select_sx_on_cond(cond.clone_sx(), az, bz);
                let w = Self::select_sx_on_cond(cond, aw, bw);
                Some(Value::Vec4((x, y, z, w)))
            },
            (Value::Layer(then_layer), Value::Layer(else_layer)) => {
                let id: u32 = #[verifier::truncate] (self.layers.len() as u32);
                self.layers.push(LayerNode::If { cond, then_layer, else_layer });
                Some(Value::Layer(id))
            },
            (Value::Struct { ty_name, fields: a }, Value::Struct { ty_name: b_name, fields: b }) => {
                if crate::text::str_eq(ty_name.as_str(), b_name.as_str()) && a.same_len(&b) {
                    let fields = self.merge_fields(fn_name, source_file, cond, a, &b, span)?;
                    Some(Value::Struct { ty_name, fields })
                } else {
                    let av = Value::Struct { ty_name, fields: a };
                    let bv = Value::Struct { ty_name: b_name, fields: b };
                    self.incompatible_branches(fn_name, source_file, &av, &bv, span);
                    None
                }
            },
            (Value::Array(a), Value::Array(b)) => {
                if a.same_len(&b) {
                    let values = self.merge_list(fn_name, source_file, cond, a, b, span)?;
                    Some(Value::Array(values))
                } else {
                    let av = Value::Array(a);
                    let bv = Value::Array(b);
                    self.incompatible_branches(fn_name, source_file, &av, &bv, span);
                    None
                }
            },
            (a, b) => {
                match (color_lanes_exec(&a), color_lanes_exec(&b)) {
                    (Some(ca), Some(cb)) => Some(merge_colors_exec(&cond, ca, cb)),
                    _ => {
                        self.incompatible_branches(fn_name, source_file, &a, &b, span);
                        None
                    },
                }
            },
        }
    }

    fn merge_list(
        &mut self,
        fn_name: &str,
        source_file: &str,
        cond: Sx,
        a: Values,
        b: Values,
        span: Span,
    ) -> (r: Option<Values>)
        ensures
            match spec_merge_list(cond, a, b, old(self).layers@) {
                Ok((vs, ls)) => r == Some(vs) && final(self).layers@ == ls && final(self).diags@ == old(self).diags@,
                Err((ka, kb)) => r is None && final(self).diags@.len() == old(self).diags@.len() + 1
                    && final(self).diags@.drop_last() == old(self).diags@
                    && final(self).diags@.last().severity == Severity::Error
                    && final(self).diags@.last().span == span
                    && final(self).diags@.last().message@ == "function `"@ + fn_name@
                    + "` has incompatible `if` branch value kinds: "@ + ka + " vs "@ + kb,
            },
            final(self).scopes == old(self).scopes,
        decreases a, 1int,
    {
        match (a, b) {
            (Values::Cons(x, xs), Values::Cons(y, ys)) => {
                let v = self.merge_conditional_values(fn_name, source_file, cond.clone_sx(), *x, *y, span)?;
                let vs = self.merge_list(fn_name, source_file, cond, *xs, *ys, span)?;
                Some(Values::Cons(Box::new(v), Box::new(vs)))
            },
            _ => Some(Values::Nil),
        }
    }

    fn merge_fields(
        &mut self,
        fn_name: &str,
        source_file: &str,
        cond: Sx,
        a: Fields,
        b: &Fields,
        span: Span,
    ) -> (r: Option<Fields>)
        ensures
            match spec_merge_fields(cond, a, *b, old(self).layers@) {
                Ok((fs, ls)) => r == Some(fs) && final(self).layers@ == ls && final(self).diags@ == old(self).diags@,
                Err((ka, kb)) => r is None && final(self).diags@.len() == old(self).diags@.len() + 1
                    && final(self).diags@.drop_last() == old(self).diags@
                    && final(self).diags@.last().severity == Severity::Error
                    && final(self).diags@.last().span == span
                    && final(self).diags@.last().message@ == "function `"@ + fn_name@
                    + "` has incompatible `if` branch value kinds: "@ + ka + " vs "@ + kb,
            },
            final(self).scopes == old(self).scopes,
        decreases a, 1int,
    {
        match a {
            Fields::Nil => Some(Fields::Nil),
            Fields::Cons(n, v, rest) => {
                let w = match b.get(n.as_str()) {
                    Some(w) => w.clone_value(),
                    None => {
                        let sv = Value::Struct { ty_name: n, fields: Fields::Nil };
                        self.incompatible_branches(fn_name, source_file, &sv, &sv, span);
                        return None;
                    },
                };
                let m = self.merge_conditional_values(fn_name, source_file, cond.clone_sx(), *v, w, span)?;
                let fs = self.merge_fields(fn_name, source_file, cond, *rest, b, span)?;
                Some(Fields::Cons(n, Box::new(m), Box::new(fs)))
            },
        }
    }
}

} // verus!
