//! The syntax-tree model the analyzer walks.
//!
//! The analyzer consumes a parsed program tree produced by an external
//! parser.  The tree is modeled here as plain data: every node carries its
//! source span (byte offsets into the original source), and shapes outside
//! the analyzed fragment are represented by `Other`, which the walker does
//! not descend into and the evaluator treats as unknown.

use vstd::prelude::*;

verus! {

/// A half-open byte range `[lo, hi)` into the analyzed source text.
#[derive(Clone, Copy, PartialEq, Eq, Structural, Debug)]
pub struct Span {
    pub lo: u32,
    pub hi: u32,
}

/// A bare identifier reference or binding name.
pub struct Ident {
    pub sym: String,
    pub span: Span,
}

/// The `this` expression.
pub struct ThisExpr {
    pub span: Span,
}

#[derive(Clone, Copy, PartialEq, Eq, Structural, Debug)]
pub enum MetaPropKind {
    NewTarget,
    ImportMeta,
}

/// A meta-property expression: `new.target` or `import.meta`.
pub struct MetaPropExpr {
    pub kind: MetaPropKind,
    pub span: Span,
}

/// A literal. Numbers and big integers are modeled as signed machine
/// integers; the analyzer only reads them as property keys and constants.
pub enum Lit {
    Str(String),
    Num(i64),
    Bool(bool),
    Null,
    BigInt(i64),
    Regex { exp: String, flags: String },
}

#[derive(Clone, Copy, PartialEq, Eq, Structural, Debug)]
pub enum UnaryOp {
    TypeOf,
    Bang,
    Minus,
    Plus,
    Void,
    Delete,
}

#[derive(Clone, Copy, PartialEq, Eq, Structural, Debug)]
pub enum BinaryOp {
    Add,
    Sub,
    Mul,
    Div,
    EqEq,
    NotEq,
    EqEqEq,
    NotEqEq,
    Lt,
    LtEq,
    Gt,
    GtEq,
    LogicalAnd,
    LogicalOr,
    NullishCoalescing,
}

impl BinaryOp {
    /// The short-circuiting operators `&&`, `||` and `??`.
    pub open spec fn spec_is_logical(self) -> bool {
        self is LogicalAnd || self is LogicalOr || self is NullishCoalescing
    }

    #[verifier::when_used_as_spec(spec_is_logical)]
    pub fn is_logical(self) -> (r: bool)
        ensures
            r == self.spec_is_logical(),
    {
        match self {
            BinaryOp::LogicalAnd => true,
            BinaryOp::LogicalOr => true,
            BinaryOp::NullishCoalescing => true,
            _ => false,
        }
    }
}

/// A property access on `obj`: either `.name` or a computed `[key]` access.
pub enum MemberProp {
    Ident { sym: String, span: Span },
    Computed { key: Box<Expr>, span: Span },
}

/// A member (property access) expression.
pub struct MemberExpr {
    pub obj: Box<Expr>,
    pub prop: MemberProp,
    pub span: Span,
}

/// What a call applies: an ordinary expression, `super`, or `import`.
pub enum Callee {
    Expr(Box<Expr>),
    Super(Span),
    Import(Span),
}

pub struct CallExpr {
    pub callee: Callee,
    pub args: Vec<Expr>,
    pub span: Span,
}

pub struct NewExpr {
    pub callee: Box<Expr>,
    pub args: Vec<Expr>,
    pub span: Span,
}

pub struct UnaryExpr {
    pub op: UnaryOp,
    pub arg: Box<Expr>,
    pub span: Span,
}

/// A binary expression; the short-circuiting logical operators share this
/// node shape and are told apart by `op.is_logical()`.
pub struct BinExpr {
    pub op: BinaryOp,
    pub left: Box<Expr>,
    pub right: Box<Expr>,
    pub span: Span,
}

/// A conditional (ternary) expression `test ? cons : alt`.
pub struct CondExpr {
    pub test: Box<Expr>,
    pub cons: Box<Expr>,
    pub alt: Box<Expr>,
    pub span: Span,
}

pub struct ArrayLit {
    pub elems: Vec<Expr>,
    pub span: Span,
}

/// One literal chunk of a template literal, already cooked.
pub struct TplElement {
    pub cooked: String,
    pub span: Span,
}

/// A template literal: `quasis` has one more element than `exprs`.
pub struct Tpl {
    pub quasis: Vec<TplElement>,
    pub exprs: Vec<Expr>,
    pub span: Span,
}

pub struct AssignExpr {
    pub target: Box<Expr>,
    pub value: Box<Expr>,
    pub span: Span,
}

pub struct AwaitExpr {
    pub arg: Box<Expr>,
    pub span: Span,
}

pub enum Expr {
    Ident(Ident),
    This(ThisExpr),
    MetaProp(MetaPropExpr),
    Lit { lit: Lit, span: Span },
    Member(MemberExpr),
    Call(CallExpr),
    New(NewExpr),
    Unary(UnaryExpr),
    Bin(BinExpr),
    Cond(CondExpr),
    Array(ArrayLit),
    Tpl(Tpl),
    Assign(AssignExpr),
    Await(AwaitExpr),
    /// An expression shape outside the analyzed fragment.
    Other { span: Span },
}

impl Expr {
    pub open spec fn spec_span(&self) -> Span {
        match self {
            Expr::Ident(i) => i.span,
            Expr::This(t) => t.span,
            Expr::MetaProp(m) => m.span,
            Expr::Lit { span, .. } => *span,
            Expr::Member(m) => m.span,
            Expr::Call(c) => c.span,
            Expr::New(n) => n.span,
            Expr::Unary(u) => u.span,
            Expr::Bin(b) => b.span,
            Expr::Cond(c) => c.span,
            Expr::Array(a) => a.span,
            Expr::Tpl(t) => t.span,
            Expr::Assign(a) => a.span,
            Expr::Await(a) => a.span,
            Expr::Other { span } => *span,
        }
    }

    #[verifier::when_used_as_spec(spec_span)]
    pub fn span(&self) -> (s: Span)
        ensures
            s == self.spec_span(),
    {
        match self {
            Expr::Ident(i) => i.span,
            Expr::This(t) => t.span,
            Expr::MetaProp(m) => m.span,
            Expr::Lit { span, .. } => *span,
            Expr::Member(m) => m.span,
            Expr::Call(c) => c.span,
            Expr::New(n) => n.span,
            Expr::Unary(u) => u.span,
            Expr::Bin(b) => b.span,
            Expr::Cond(c) => c.span,
            Expr::Array(a) => a.span,
            Expr::Tpl(t) => t.span,
            Expr::Assign(a) => a.span,
            Expr::Await(a) => a.span,
            Expr::Other { span } => *span,
        }
    }
}

/// A rest element `...arg` in a destructuring pattern.
pub struct RestPat {
    pub arg: Box<Pat>,
    pub span: Span,
}

/// A pattern with a default value: `left = right`.
pub struct AssignPat {
    pub left: Box<Pat>,
    pub right: Box<Expr>,
    pub span: Span,
}

pub struct ArrayPat {
    /// `None` is an elision (hole) in the pattern.
    pub elems: Vec<Option<Pat>>,
    pub span: Span,
}

pub enum ObjectPatProp {
    /// `key: value` — only the value pattern binds names.
    KeyValue { value: Box<Pat>, span: Span },
    /// Shorthand `key` or `key = default`.
    Assign { key: Ident, default: Option<Box<Expr>>, span: Span },
    Rest(RestPat),
}

pub struct ObjectPat {
    pub props: Vec<ObjectPatProp>,
    pub span: Span,
}

pub enum Pat {
    Ident(Ident),
    Array(ArrayPat),
    Assign(AssignPat),
    Object(ObjectPat),
    Rest(RestPat),
    /// A pattern shape that binds no names in the analyzed fragment.
    Other { span: Span },
}

pub struct ExprStmt {
    pub expr: Expr,
    pub span: Span,
}

pub struct BlockStmt {
    pub stmts: Vec<Stmt>,
    pub span: Span,
}

pub struct IfStmt {
    pub test: Box<Expr>,
    pub cons: Box<Stmt>,
    pub alt: Option<Box<Stmt>>,
    pub span: Span,
}

#[derive(Clone, Copy, PartialEq, Eq, Structural, Debug)]
pub enum VarDeclKind {
    Var,
    Let,
    Const,
}

pub struct VarDeclarator {
    pub name: Pat,
    pub init: Option<Box<Expr>>,
    pub span: Span,
}

pub struct VarDecl {
    pub kind: VarDeclKind,
    pub decls: Vec<VarDeclarator>,
    pub span: Span,
}

pub struct ForOfStmt {
    pub is_await: bool,
    pub left: Box<Pat>,
    pub right: Box<Expr>,
    pub body: Box<Stmt>,
    pub span: Span,
}

pub enum Stmt {
    Expr(ExprStmt),
    Block(BlockStmt),
    If(IfStmt),
    Decl(VarDecl),
    ForOf(ForOfStmt),
    Empty { span: Span },
    /// A statement shape outside the analyzed fragment.
    Other { span: Span },
}

/// An ES module declaration (import/export shape); its handling belongs to
/// plugins, so the model carries only the distinction and the span.
pub enum ModuleDecl {
    Import { span: Span },
    Other { span: Span },
}

pub enum ModuleItem {
    ModuleDecl(ModuleDecl),
    Stmt(Stmt),
}

pub struct Module {
    pub body: Vec<ModuleItem>,
    pub span: Span,
}

pub struct Script {
    pub body: Vec<Stmt>,
    pub span: Span,
}

/// A parsed program in module or script form.
pub enum Program {
    Module(Module),
    Script(Script),
}

} // verus!
