//! Span bookkeeping for workbook tooling: the kind of every evaluated
//! expression, and the tightest value enclosing a requested byte range.
use vstd::prelude::*;
use crate::checker::Checker;
use crate::diag::{Diag, Span};
use crate::num::Num;
use crate::sx::Sx;
use crate::value::{Value, clone_sx2, clone_sx3, clone_sx4, clone_sx_array};

verus! {

/// The kind of value an expression span evaluated to.
#[derive(Clone, Copy, Debug, PartialEq, Eq, Structural)]
pub enum SpanValueKind {
    Layer,
    Shape,
    Color,
    ColorField,
    Scalar,
    Vec2,
    Vec3,
    Vec4,
}

/// A value captured at a span.
#[derive(Debug, PartialEq)]
pub enum SpanCapture {
    Layer(u32),
    Shape(u32),
    Color([Num; 4]),
    ColorField([Sx; 4]),
    Scalar(Sx),
    Vec2((Sx, Sx)),
    Vec3((Sx, Sx, Sx)),
    Vec4((Sx, Sx, Sx, Sx)),
}

/// The result of a workbook-aware check: its diagnostics, the span log, and
/// the capture at the requested range.
#[derive(Debug)]
pub struct WorkbookCheckResult {
    pub diags: Vec<Diag>,
    pub span_log: Vec<(Span, SpanValueKind)>,
    pub captured: Option<SpanCapture>,
}

/// The logged kind of a value; `None` for the error value, which is not logged.
pub open spec fn spec_span_kind(v: Value) -> Option<SpanValueKind> {
    match v {
        Value::Error => None,
        Value::Layer(_) => Some(SpanValueKind::Layer),
        Value::Shape(_) => Some(SpanValueKind::Shape),
        Value::Color { .. } => Some(SpanValueKind::Color),
        Value::ColorField { .. } => Some(SpanValueKind::ColorField),
        Value::Vec2(_) => Some(SpanValueKind::Vec2),
        Value::Vec3(_) => Some(SpanValueKind::Vec3),
        Value::Vec4(_) => Some(SpanValueKind::Vec4),
        _ => Some(SpanValueKind::Scalar),
    }
}

/// What can be captured of a value.
pub open spec fn spec_capture(v: Value) -> Option<SpanCapture> {
    match v {
        Value::Layer(id) => Some(SpanCapture::Layer(id)),
        Value::Shape(id) => Some(SpanCapture::Shape(id)),
        Value::Color { rgba, .. } => Some(SpanCapture::Color(rgba)),
        Value::ColorField { rgba, .. } => Some(SpanCapture::ColorField(rgba)),
        Value::Scalar(sx) => Some(SpanCapture::Scalar(sx)),
        Value::Distance(sx) => Some(SpanCapture::Scalar(sx)),
        Value::Coverage(sx) => Some(SpanCapture::Scalar(sx)),
        Value::Mask(sx) => Some(SpanCapture::Scalar(sx)),
        Value::Vec2(v) => Some(SpanCapture::Vec2(v)),
        Value::Vec3(v) => Some(SpanCapture::Vec3(v)),
        Value::Vec4(v) => Some(SpanCapture::Vec4(v)),
        _ => None,
    }
}

/// The span `start..end` encloses the capture target.
pub open spec fn encloses_target(target: Option<(usize, usize)>, start: usize, end: usize) -> bool {
    match target {
        Some((ts, te)) => start <= ts && te <= end,
        None => false,
    }
}

/// The capture after recording a value at `start..end`: it replaces the
/// previous one when the span encloses the target, is strictly smaller than
/// the previous capture's span, and the value can be captured.
pub open spec fn spec_next_capture(
    target: Option<(usize, usize)>,
    captured: Option<(usize, SpanCapture)>,
    start: usize,
    end: usize,
    v: Value,
) -> Option<(usize, SpanCapture)> {
    if v !is Error && encloses_target(target, start, end) && (match captured {
        Some((prev, _)) => end - start < prev,
        None => true,
    }) && spec_capture(v) is Some {
        Some(((end - start) as usize, spec_capture(v)->0))
    } else {
        captured
    }
}

fn capture_of(v: &Value) -> (r: Option<SpanCapture>)
    ensures
        r == spec_capture(*v),
{
    match v {
        Value::Layer(id) => Some(SpanCapture::Layer(*id)),
        Value::Shape(id) => Some(SpanCapture::Shape(*id)),
        Value::Color { rgba, .. } => Some(SpanCapture::Color(*rgba)),
        Value::ColorField { rgba, .. } => Some(SpanCapture::ColorField(clone_sx_array(rgba))),
        Value::Scalar(sx) => Some(SpanCapture::Scalar(sx.clone_sx())),
        Value::Distance(sx) => Some(SpanCapture::Scalar(sx.clone_sx())),
        Value::Coverage(sx) => Some(SpanCapture::Scalar(sx.clone_sx())),
        Value::Mask(sx) => Some(SpanCapture::Scalar(sx.clone_sx())),
        Value::Vec2(v) => Some(SpanCapture::Vec2(clone_sx2(v))),
        Value::Vec3(v) => Some(SpanCapture::Vec3(clone_sx3(v))),
        Value::Vec4(v) => Some(SpanCapture::Vec4(clone_sx4(v))),
        _ => None,
    }
}

impl Checker {
    /// Records the kind of a value evaluated at `span_start..span_end` and
    /// keeps the tightest capture of the target range.
    pub fn record_span_value(&mut self, span_start: usize, span_end: usize, value: &Value)
        requires
            encloses_target(old(self).capture_target, span_start, span_end) ==> span_start <= span_end,
        ensures
            final(self).span_log@ == if value !is Error && old(self).workbook_enabled {
                old(self).span_log@.push((Span { start: span_start, end: span_end }, spec_span_kind(*value)->0))
            } else {
                old(self).span_log@
            },
            final(self).captured == spec_next_capture(
                old(self).capture_target,
                old(self).captured,
                span_start,
                span_end,
                *value,
            ),
            final(self).capture_target == old(self).capture_target,
            final(self).workbook_enabled == old(self).workbook_enabled,
            final(self).scopes == old(self).scopes,
            final(self).diags == old(self).diags,
    {
        let kind = match value {
            Value::Error => return,
            Value::Layer(_) => SpanValueKind::Layer,
            Value::Shape(_) => SpanValueKind::Shape,
            Value::Color { .. } => SpanValueKind::Color,
            Value::ColorField { .. } => SpanValueKind::ColorField,
            Value::Vec2(_) => SpanValueKind::Vec2,
            Value::Vec3(_) => SpanValueKind::Vec3,
            Value::Vec4(_) => SpanValueKind::Vec4,
            _ => SpanValueKind::Scalar,
        };
        if self.workbook_enabled {
            self.span_log.push((Span { start: span_start, end: span_end }, kind));
        }
        if let Some((tgt_start, tgt_end)) = self.capture_target {
            if span_start <= tgt_start && tgt_end <= span_end {
                let span_size = span_end - span_start;
                let is_better = match &self.captured {
                    None => true,
                    Some((prev_size, _)) => span_size < *prev_size,
                };
                if is_better {
                    if let Some(cap) = capture_of(value) {
                        self.captured = Some((span_size, cap));
                    }
                }
            }
        }
    }
}

/// Recording never loosens the capture: a capture present before stays, or
/// is replaced by one whose span is no larger and encloses the target.
pub proof fn law_capture_tightens(
    target: Option<(usize, usize)>,
    captured: Option<(usize, SpanCapture)>,
    start: usize,
    end: usize,
    v: Value,
)
    requires
        encloses_target(target, start, end) ==> start <= end,
    ensures
        (captured matches Some((prev, _)) ==> spec_next_capture(target, captured, start, end, v) matches Some(
            (now, _),
        ) && now <= prev),
        spec_next_capture(target, captured, start, end, v) != captured ==> encloses_target(target, start, end)
            && spec_next_capture(target, captured, start, end, v) == Some(((end - start) as usize, spec_capture(v)->0)),
{
}

} // verus!
