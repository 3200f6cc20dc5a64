//! The checker's evaluation state.
use vstd::prelude::*;
use crate::diag::Diag;
use crate::enums::EnumDef;
use crate::diag::Span;
use crate::workbook::{SpanCapture, SpanValueKind};
use crate::merge::LayerNode;
use crate::value::{Fields, Value};
use crate::invariance::UserHelper;
use crate::binops::ShapeNode;
use crate::declare::Param;

verus! {

/// A lexical scope: bindings in insertion order.
pub type Scope = Vec<(String, Value)>;

/// A named style: property bindings applied together.
#[derive(Debug)]
pub struct StyleDef {
    pub props: Fields,
}

/// Mutable state threaded through one check pass.
pub struct Checker {
    /// Lexical value scopes, innermost last.
    pub scopes: Vec<Scope>,
    /// Lexical style scopes, innermost last.
    pub style_scopes: Vec<Vec<(String, StyleDef)>>,
    /// Open write-tracking frames: `(scope index, name)` pairs assigned so far.
    pub assignment_scopes: Vec<Vec<(usize, String)>>,
    /// Diagnostics reported so far.
    pub diags: Vec<Diag>,
    /// Counter for fresh `let` names introduced by rewrites.
    pub let_counter: u64,
    /// Declared enums, by name, in declaration order.
    pub enum_defs: Vec<(String, EnumDef)>,
    /// The enums whose variants may be written without the enum's name.
    pub unqualified_enums: Vec<String>,
    /// Whether every evaluated expression's span and kind is logged.
    pub workbook_enabled: bool,
    /// The logged `(span, kind)` pairs, in evaluation order.
    pub span_log: Vec<(Span, SpanValueKind)>,
    /// The byte range whose tightest enclosing value is captured.
    pub capture_target: Option<(usize, usize)>,
    /// The tightest capture so far, with the size of its span.
    pub captured: Option<(usize, SpanCapture)>,
    /// The layers made while checking, by id.
    pub layers: Vec<LayerNode>,
    /// The lowered user helpers, in definition order.
    pub user_helpers: Vec<UserHelper>,
    /// The shapes made by combining others, by id.
    pub shapes: Vec<ShapeNode>,
    /// The declared parameters, in declaration order.
    pub params: Vec<Param>,
}

impl Checker {
    /// `after` differs from `self` in its diagnostics at most.
    pub open spec fn same_but_diags(self, after: Checker) -> bool {
        &&& after.scopes == self.scopes
        &&& after.style_scopes == self.style_scopes
        &&& after.assignment_scopes == self.assignment_scopes
        &&& after.let_counter == self.let_counter
        &&& after.enum_defs == self.enum_defs
        &&& after.unqualified_enums == self.unqualified_enums
        &&& after.workbook_enabled == self.workbook_enabled
        &&& after.span_log == self.span_log
        &&& after.capture_target == self.capture_target
        &&& after.captured == self.captured
        &&& after.layers == self.layers
        &&& after.user_helpers == self.user_helpers
        &&& after.shapes == self.shapes
        &&& after.params == self.params
    }

    /// A checker with one empty root scope.
    pub fn new() -> (c: Checker)
        ensures
            c.scopes@.len() == 1,
            c.scopes@[0]@.len() == 0,
            c.style_scopes@.len() == 1,
            c.style_scopes@[0]@.len() == 0,
            c.assignment_scopes@.len() == 0,
            c.diags@.len() == 0,
            c.let_counter == 0,
            c.enum_defs@.len() == 0,
            c.unqualified_enums@.len() == 0,
            !c.workbook_enabled,
            c.span_log@.len() == 0,
            c.capture_target is None,
            c.captured is None,
            c.layers@.len() == 0,
            c.user_helpers@.len() == 0,
            c.shapes@.len() == 0,
            c.params@.len() == 0,
    {
        let mut scopes: Vec<Scope> = Vec::new();
        scopes.push(Vec::new());
        let mut style_scopes: Vec<Vec<(String, StyleDef)>> = Vec::new();
        style_scopes.push(Vec::new());
        Checker {
            scopes,
            style_scopes,
            assignment_scopes: Vec::new(),
            diags: Vec::new(),
            let_counter: 0,
            enum_defs: Vec::new(),
            unqualified_enums: Vec::new(),
            workbook_enabled: false,
            span_log: Vec::new(),
            capture_target: None,
            captured: None,
            layers: Vec::new(),
            user_helpers: Vec::new(),
            shapes: Vec::new(),
            params: Vec::new(),
        }
    }
}

} // verus!
