//! Diagnostics reported by the checker.
use vstd::prelude::*;

verus! {

/// A byte range of the checked source.
#[derive(Clone, Copy, Debug, PartialEq, Eq, Structural)]
pub struct Span {
    pub start: usize,
    pub end: usize,
}

#[derive(Clone, Copy, Debug, PartialEq, Eq, Structural)]
pub enum Severity {
    Error,
    Warning,
}

/// One diagnostic: where, how severe, what, and an optional hint.
#[derive(Debug)]
pub struct Diag {
    pub severity: Severity,
    pub span: Span,
    pub message: String,
    pub label: Option<String>,
    pub help: Option<String>,
    pub file: Option<String>,
}

impl Diag {
    pub fn error(span: Span, message: String) -> (d: Diag)
        ensures
            d.severity == Severity::Error,
            d.span == span,
            d.message == message,
            d.label is None,
            d.help is None,
            d.file is None,
    {
        Diag { severity: Severity::Error, span, message, label: None, help: None, file: None }
    }

    pub fn warning(span: Span, message: String) -> (d: Diag)
        ensures
            d.severity == Severity::Warning,
            d.span == span,
            d.message == message,
            d.label is None,
            d.help is None,
            d.file is None,
    {
        Diag { severity: Severity::Warning, span, message, label: None, help: None, file: None }
    }

    pub fn with_help(self, help: String) -> (d: Diag)
        ensures
            d.severity == self.severity,
            d.span == self.span,
            d.message == self.message,
            d.label == self.label,
            d.help == Some(help),
            d.file == self.file,
    {
        Diag { help: Some(help), ..self }
    }

    pub fn with_label(self, label: String) -> (d: Diag)
        ensures
            d.severity == self.severity,
            d.span == self.span,
            d.message == self.message,
            d.label == Some(label),
            d.help == self.help,
            d.file == self.file,
    {
        Diag { label: Some(label), ..self }
    }

    pub fn with_file(self, file: String) -> (d: Diag)
        ensures
            d.severity == self.severity,
            d.span == self.span,
            d.message == self.message,
            d.label == self.label,
            d.help == self.help,
            d.file == Some(file),
    {
        Diag { file: Some(file), ..self }
    }
}

pub open spec fn opt_view(o: Option<String>) -> Option<Seq<char>> {
    match o {
        Some(s) => Some(s@),
        None => None,
    }
}

/// `d` is the error at `span` with exactly this message, label and help.
pub open spec fn is_error_diag(
    d: Diag,
    span: Span,
    message: Seq<char>,
    label: Option<Seq<char>>,
    help: Option<Seq<char>>,
) -> bool {
    &&& d.severity == Severity::Error
    &&& d.span == span
    &&& d.message@ == message
    &&& opt_view(d.label) == label
    &&& opt_view(d.help) == help
    &&& d.file is None
}

/// What a diagnostic says: severity, span, message, label, help and file.
pub type DiagView = (Severity, Span, Seq<char>, Option<Seq<char>>, Option<Seq<char>>, Option<Seq<char>>);

pub open spec fn diag_view(d: Diag) -> DiagView {
    (d.severity, d.span, d.message@, opt_view(d.label), opt_view(d.help), opt_view(d.file))
}

pub open spec fn diag_views(ds: Seq<Diag>) -> Seq<DiagView> {
    Seq::new(ds.len(), |i: int| diag_view(ds[i]))
}

/// The view of an error without a file.
pub open spec fn error_view(
    span: Span,
    message: Seq<char>,
    label: Option<Seq<char>>,
    help: Option<Seq<char>>,
) -> DiagView {
    (Severity::Error, span, message, label, help, None)
}

/// `after` is `before` with one more diagnostic appended.
pub open spec fn pushed_one(before: Seq<Diag>, after: Seq<Diag>) -> bool {
    &&& after.len() == before.len() + 1
    &&& forall|i: int| 0 <= i < before.len() ==> after[i] == before[i]
}

/// `after` extends `before` with at least one more diagnostic, an error among them.
pub open spec fn grew_with_error(before: Seq<Diag>, after: Seq<Diag>) -> bool {
    &&& after.len() > before.len()
    &&& forall|i: int| 0 <= i < before.len() ==> after[i] == before[i]
    &&& exists|i: int| before.len() <= i < after.len() && after[i].severity == Severity::Error
}

/// Some diagnostic in `diags` is an error.
pub open spec fn spec_has_errors(diags: Seq<Diag>) -> bool {
    exists|i: int| 0 <= i < diags.len() && diags[i].severity == Severity::Error
}

/// Whether any diagnostic is an error.
pub fn has_errors(diags: &[Diag]) -> (r: bool)
    ensures
        r == spec_has_errors(diags@),
{
    let mut i: usize = 0;
    while i < diags.len()
        invariant
            i <= diags@.len(),
            forall|j: int| 0 <= j < i ==> diags@[j].severity != Severity::Error,
        decreases diags@.len() - i,
    {
        if diags[i].severity == Severity::Error {
            return true;
        }
        i += 1;
    }
    false
}

} // verus!
