//! The slice of the source syntax tree that the checker reads.
use vstd::prelude::*;
use crate::diag::Span;
use crate::num::Num;

verus! {

/// Binary operators of the surface language.
#[derive(Clone, Copy, Debug, PartialEq, Eq, Structural)]
pub enum BinOp {
    Add,
    Sub,
    Mul,
    Div,
    Mod,
    Eq,
    Ne,
    Lt,
    Le,
    Gt,
    Ge,
    LogicalAnd,
    LogicalOr,
    Union,
    Intersect,
    Shl,
    Shr,
    BitXor,
}

impl BinOp {
    pub open spec fn is_arith(self) -> bool {
        self is Add || self is Sub || self is Mul || self is Div
    }
}

#[derive(Clone, Copy, Debug, PartialEq, Eq, Structural)]
pub enum UnOp {
    Neg,
    Not,
}

/// Units a numeric literal may carry.
#[derive(Clone, Copy, Debug, PartialEq, Eq, Structural)]
pub enum Unit {
    Unitless,
    Px,
    Uv,
    Vw,
    Vh,
    Vmin,
    Vmax,
    Deg,
    Turn,
    Sec,
    MilliSec,
}

/// An expression of the surface language.
#[derive(Debug, PartialEq)]
pub enum Expr {
    Num(Num, Unit),
    Var(String),
    Color([Num; 4]),
    Unary(UnOp, Box<SExpr>),
    Binary(BinOp, Box<SExpr>, Box<SExpr>),
    Vec2(Box<SExpr>, Box<SExpr>),
    Vec3(Box<SExpr>, Box<SExpr>, Box<SExpr>),
    Vec4(Box<SExpr>, Box<SExpr>, Box<SExpr>, Box<SExpr>),
    Member(Box<SExpr>, String),
    Call { name: String, name_span: Span, args: Args },
}

/// An expression with its source span.
#[derive(Debug, PartialEq)]
pub struct SExpr {
    pub node: Expr,
    pub span: Span,
}

/// A call argument, optionally named.
#[derive(Debug, PartialEq)]
pub struct Arg {
    pub name: Option<String>,
    pub value: SExpr,
}

/// Call arguments, in order.
#[derive(Debug, PartialEq)]
pub enum Args {
    Nil,
    Cons(Box<Arg>, Box<Args>),
}

impl Args {
    pub open spec fn spec_len(self) -> nat
        decreases self,
    {
        match self {
            Args::Nil => 0,
            Args::Cons(_, rest) => 1 + rest.spec_len(),
        }
    }

    pub fn clone_args(&self) -> (r: Args)
        ensures
            r == *self,
        decreases self,
    {
        match self {
            Args::Nil => Args::Nil,
            Args::Cons(a, rest) => {
                let name = match &a.name {
                    Some(n) => Some(n.clone()),
                    None => None,
                };
                Args::Cons(
                    Box::new(Arg { name, value: a.value.clone_sexpr() }),
                    Box::new(rest.clone_args()),
                )
            },
        }
    }
}

impl SExpr {
    pub fn clone_sexpr(&self) -> (r: SExpr)
        ensures
            r == *self,
        decreases self,
    {
        let node = match &self.node {
            Expr::Num(v, u) => Expr::Num(*v, *u),
            Expr::Var(s) => Expr::Var(s.clone()),
            Expr::Color(c) => Expr::Color(*c),
            Expr::Unary(op, a) => Expr::Unary(*op, Box::new(a.clone_sexpr())),
            Expr::Binary(op, a, b) => Expr::Binary(
                *op,
                Box::new(a.clone_sexpr()),
                Box::new(b.clone_sexpr()),
            ),
            Expr::Vec2(a, b) => Expr::Vec2(Box::new(a.clone_sexpr()), Box::new(b.clone_sexpr())),
            Expr::Vec3(a, b, c) => Expr::Vec3(
                Box::new(a.clone_sexpr()),
                Box::new(b.clone_sexpr()),
                Box::new(c.clone_sexpr()),
            ),
            Expr::Vec4(a, b, c, d) => Expr::Vec4(
                Box::new(a.clone_sexpr()),
                Box::new(b.clone_sexpr()),
                Box::new(c.clone_sexpr()),
                Box::new(d.clone_sexpr()),
            ),
            Expr::Member(a, f) => Expr::Member(Box::new(a.clone_sexpr()), f.clone()),
            Expr::Call { name, name_span, args } => Expr::Call {
                name: name.clone(),
                name_span: *name_span,
                args: args.clone_args(),
            },
        };
        SExpr { node, span: self.span }
    }
}

/// A field of a struct declaration.
#[derive(Debug)]
pub struct StructFieldDecl {
    pub name: String,
    pub ty_name: String,
    pub ty_span: Span,
}

/// A struct declaration.
#[derive(Debug)]
pub struct StructDecl {
    pub name: String,
    pub fields: Vec<StructFieldDecl>,
}

/// A global `param` declaration.
#[derive(Debug)]
pub struct GlobalParamDecl {
    pub name: String,
    pub name_span: Span,
    pub ty_name: String,
    pub ty_span: Span,
    pub default: Option<SExpr>,
    pub span: Span,
}

/// The spans of a local function declaration.
#[derive(Debug)]
pub struct LocalFnSpans {
    pub name_span: Span,
    pub span: Span,
}

/// A statement, as far as its source spans go.
#[derive(Debug)]
pub enum Stmt {
    Param { span: Span },
    TextureBinding { span: Span },
    Let { name_span: Span, span: Span },
    Const { name_span: Span, span: Span },
    Assign { name_span: Span, span: Span },
    Store { span: Span },
    For { span: Span },
    If { span: Span },
    Match { span: Span },
    LetScatter { name_span: Span, scatter: SExpr },
    SpaceDecl { span: Span },
    StyleDecl { span: Span },
    CanvasSpace { span: Span },
    InSpace { span: Span },
    InContext { span: Span },
    Block { span: Span },
    Sequence { span: Span },
    Compose { span: Span },
    ComposePiped { span: Span },
    SurfaceVertex { span: Span },
    ReturnVoid { span: Span },
    Return { span: Span },
    Break { span: Span },
    LocalFnDecl(LocalFnSpans),
    Expr(SExpr),
}

/// An entry of a `compose` block, as far as its source spans go.
#[derive(Debug)]
pub enum ComposeEntry {
    Expr { expr: SExpr },
    Block { span: Span },
    If { span: Span },
    InSpace { span: Span },
    For { span: Span },
}

/// The span a diagnostic about a statement points at.
pub open spec fn spec_stmt_span(stmt: Stmt) -> Span {
    match stmt {
        Stmt::Let { name_span, .. } | Stmt::Const { name_span, .. } | Stmt::LetScatter { name_span, .. } => name_span,
        Stmt::LocalFnDecl(f) => f.span,
        Stmt::Expr(e) => e.span,
        Stmt::Param { span } | Stmt::TextureBinding { span } | Stmt::Assign { span, .. } | Stmt::Store { span }
        | Stmt::For { span } | Stmt::If { span } | Stmt::Match { span } | Stmt::SpaceDecl { span }
        | Stmt::StyleDecl { span } | Stmt::CanvasSpace { span } | Stmt::InSpace { span }
        | Stmt::InContext { span } | Stmt::Block { span } | Stmt::Sequence { span } | Stmt::Compose { span }
        | Stmt::ComposePiped { span } | Stmt::SurfaceVertex { span } | Stmt::ReturnVoid { span }
        | Stmt::Return { span } | Stmt::Break { span } => span,
    }
}

/// Where a statement inside a function body is reported, and what it is called.
pub open spec fn spec_fn_stmt_span_kind(stmt: Stmt) -> (Span, Seq<char>) {
    match stmt {
        Stmt::Param { span } => (span, "param"@),
        Stmt::TextureBinding { span } => (span, "uniform texture binding"@),
        Stmt::Let { name_span, .. } => (name_span, "let"@),
        Stmt::Const { name_span, .. } => (name_span, "const"@),
        Stmt::Assign { name_span, .. } => (name_span, "assignment"@),
        Stmt::Store { span } => (span, "indexed assignment"@),
        Stmt::For { span } => (span, "for-loop"@),
        Stmt::If { span } => (span, "if"@),
        Stmt::Match { span } => (span, "match"@),
        Stmt::LetScatter { scatter, .. } => (scatter.span, "scatter"@),
        Stmt::SpaceDecl { span } => (span, "space declaration"@),
        Stmt::StyleDecl { span } => (span, "style declaration"@),
        Stmt::CanvasSpace { span } => (span, "canvas_space declaration"@),
        Stmt::Compose { span } => (span, "compose"@),
        Stmt::ComposePiped { span } => (span, "compose with pipes"@),
        Stmt::SurfaceVertex { span } => (span, "surface vertex"@),
        Stmt::Return { span } | Stmt::ReturnVoid { span } => (span, "return"@),
        Stmt::Break { span } => (span, "break"@),
        Stmt::InSpace { span } => (span, "in-space block"@),
        Stmt::InContext { span } => (span, "in-context block"@),
        Stmt::Block { span } => (span, "grouped block"@),
        Stmt::Sequence { span } => (span, "statement sequence"@),
        Stmt::LocalFnDecl(f) => (f.name_span, "local fn declaration"@),
        Stmt::Expr(e) => (e.span, "expression"@),
    }
}

pub fn stmt_span(stmt: &Stmt) -> (r: Span)
    ensures
        r == spec_stmt_span(*stmt),
{
    match stmt {
        Stmt::Let { name_span, .. } | Stmt::Const { name_span, .. } | Stmt::LetScatter { name_span, .. } => *name_span,
        Stmt::LocalFnDecl(f) => f.span,
        Stmt::Expr(e) => e.span,
        Stmt::Param { span } | Stmt::TextureBinding { span } | Stmt::Assign { span, .. } | Stmt::Store { span }
        | Stmt::For { span } | Stmt::If { span } | Stmt::Match { span } | Stmt::SpaceDecl { span }
        | Stmt::StyleDecl { span } | Stmt::CanvasSpace { span } | Stmt::InSpace { span }
        | Stmt::InContext { span } | Stmt::Block { span } | Stmt::Sequence { span } | Stmt::Compose { span }
        | Stmt::ComposePiped { span } | Stmt::SurfaceVertex { span } | Stmt::ReturnVoid { span }
        | Stmt::Return { span } | Stmt::Break { span } => *span,
    }
}

pub fn fn_stmt_span_kind(stmt: &Stmt) -> (r: (Span, &'static str))
    ensures
        r.0 == spec_fn_stmt_span_kind(*stmt).0,
        r.1@ == spec_fn_stmt_span_kind(*stmt).1,
{
    match stmt {
        Stmt::Param { span } => (*span, "param"),
        Stmt::TextureBinding { span } => (*span, "uniform texture binding"),
        Stmt::Let { name_span, .. } => (*name_span, "let"),
        Stmt::Const { name_span, .. } => (*name_span, "const"),
        Stmt::Assign { name_span, .. } => (*name_span, "assignment"),
        Stmt::Store { span } => (*span, "indexed assignment"),
        Stmt::For { span } => (*span, "for-loop"),
        Stmt::If { span } => (*span, "if"),
        Stmt::Match { span } => (*span, "match"),
        Stmt::LetScatter { scatter, .. } => (scatter.span, "scatter"),
        Stmt::SpaceDecl { span } => (*span, "space declaration"),
        Stmt::StyleDecl { span } => (*span, "style declaration"),
        Stmt::CanvasSpace { span } => (*span, "canvas_space declaration"),
        Stmt::Compose { span } => (*span, "compose"),
        Stmt::ComposePiped { span } => (*span, "compose with pipes"),
        Stmt::SurfaceVertex { span } => (*span, "surface vertex"),
        Stmt::Return { span } | Stmt::ReturnVoid { span } => (*span, "return"),
        Stmt::Break { span } => (*span, "break"),
        Stmt::InSpace { span } => (*span, "in-space block"),
        Stmt::InContext { span } => (*span, "in-context block"),
        Stmt::Block { span } => (*span, "grouped block"),
        Stmt::Sequence { span } => (*span, "statement sequence"),
        Stmt::LocalFnDecl(f) => (f.name_span, "local fn declaration"),
        Stmt::Expr(e) => (e.span, "expression"),
    }
}

/// The span of a `compose` entry.
pub fn compose_entry_span(entry: &ComposeEntry) -> (r: Span)
    ensures
        r == match *entry {
            ComposeEntry::Expr { expr } => expr.span,
            ComposeEntry::Block { span } | ComposeEntry::If { span } | ComposeEntry::InSpace { span }
            | ComposeEntry::For { span } => span,
        },
{
    match entry {
        ComposeEntry::Expr { expr } => expr.span,
        ComposeEntry::Block { span } | ComposeEntry::If { span } | ComposeEntry::InSpace { span }
        | ComposeEntry::For { span } => *span,
    }
}

} // verus!
