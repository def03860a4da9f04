//! The syntax tree of checked programs, as the compiler and the evaluator read it.

use vstd::prelude::*;
use crate::ir::FloatLit;

verus! {

/// Literal and identifier atoms.
#[derive(Debug)]
pub enum AtomKind {
    Int(i64),
    Float(FloatLit),
    Bool(bool),
    StringLit(String),
    Ident(String),
}

/// Primitive types.
#[derive(Debug, Clone, Copy, PartialEq, Eq, Structural)]
pub enum PrimType {
    Int,
    Float,
    Bool,
    String,
    Unit,
}

/// Type annotations.
#[derive(Debug)]
pub enum TypeExpr {
    Prim(PrimType),
    Named(String),
}

/// A clause of a `match`: the variant it selects, the names it binds, and its body.
#[derive(Debug)]
pub struct MatchClause {
    pub variant: String,
    pub patterns: Vec<String>,
    pub body: Box<Expr>,
}

/// Expressions.
#[derive(Debug)]
pub enum Expr {
    Atom(AtomKind),
    /// Application of a named operator or function.
    App(String, Vec<Expr>),
    /// Application of a computed function value.
    AppExpr(Box<Expr>, Vec<Expr>),
    If { cond: Box<Expr>, then_branch: Box<Expr>, else_branch: Box<Expr> },
    Def(String, Box<Expr>),
    Defn { name: String, params: Vec<String>, body: Box<Expr>, ret_type: Option<TypeExpr> },
    Let { name: String, value: Box<Expr>, body: Box<Expr> },
    LetMut { name: String, value: Box<Expr>, body: Box<Expr> },
    Fn { params: Vec<String>, body: Box<Expr> },
    While { condition: Box<Expr>, body: Box<Expr> },
    For { name: String, iterator: Box<Expr>, body: Box<Expr> },
    Cond(Vec<(Expr, Expr)>),
    Match { scrutinee: Box<Expr>, clauses: Vec<MatchClause> },
    TryCatch { body: Box<Expr>, catch_var: String, handler: Box<Expr> },
    Spawn(Box<Expr>),
    Send { target: Box<Expr>, message: Box<Expr> },
    FfiCall { name: String, args: Vec<Expr>, timeout_ms: u64 },
    FfiPin(Box<Expr>),
    Assert { condition: Box<Expr>, message: String },
    Deftype { name: String },
    TraitDecl { name: String },
    Impl { trait_name: String, target: String },
    Use { path: String },
    Export(Box<Expr>),
    Pub(Box<Expr>),
    Requires(Box<Expr>),
    Ensures { condition: Box<Expr>, body: Box<Expr> },
    Invariant(Box<Expr>),
    Contracts(Box<Expr>),
    Recover { handlers: Vec<(String, Expr)>, body: Box<Expr> },
    Checkpoint(Box<Expr>),
    Begin(Vec<Expr>),
    Quote(Box<Expr>),
    Test { name: String, body: Box<Expr>, keywords: Vec<(String, String)> },
    TestSuite { name: String, tests: Vec<Expr>, keywords: Vec<(String, String)> },
}

/// A program: its top-level definitions and its main body.
#[derive(Debug)]
pub struct Program {
    pub defs: Vec<Expr>,
    pub body: Expr,
}

impl Program {
    /// A program from its definitions and body.
    pub fn new(defs: Vec<Expr>, body: Expr) -> (p: Program)
        ensures
            p.defs == defs,
            p.body == body,
    {
        Program { defs, body }
    }
}

} // verus!
