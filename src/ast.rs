use std::rc::Rc;
use vstd::prelude::*;

verus! {

/// Prefix operators.
#[derive(Clone, Copy, PartialEq, Eq, Structural, Debug)]
pub enum PrefixOp {
    Plus,
    Minus,
    Not,
}

/// Infix operators.
#[derive(Clone, Copy, PartialEq, Eq, Structural, Debug)]
pub enum BinOp {
    Add,
    Sub,
    Mul,
    Div,
    Rem,
    Eq,
    NotEq,
    Lt,
    Gt,
    LtEq,
    GtEq,
}

/// An expression with the source position it was read at.
#[derive(Debug)]
pub struct Expr {
    pub kind: ExprKind,
    pub line: usize,
    pub col: usize,
}

#[derive(Debug)]
pub enum ExprKind {
    Int(i64),
    Bool(bool),
    Str(String),
    Null,
    Ident(String),
    Prefix { op: PrefixOp, right: Box<Expr> },
    Infix { op: BinOp, left: Box<Expr>, right: Box<Expr> },
    If { condition: Box<Expr>, consequence: Vec<Stmt>, alternative: Vec<Stmt> },
    FnLiteral(Rc<FnDef>),
    Call { function: Box<Expr>, arguments: Vec<Expr> },
    Assign { target: Box<Expr>, value: Box<Expr> },
    List(Vec<Expr>),
    Dict(Vec<(Expr, Expr)>),
    Index { base: Box<Expr>, index: Box<Expr> },
    While { condition: Box<Expr>, body: Vec<Stmt> },
    ForRange { var: String, arguments: Vec<Expr>, body: Vec<Stmt> },
}

/// The parameters and the body of a function, shared by the syntax tree and by every closure
/// made from it.
#[derive(Debug)]
pub struct FnDef {
    pub params: Vec<String>,
    pub body: Vec<Stmt>,
}

/// A statement.
#[derive(Debug)]
pub enum Stmt {
    Var { name: String, value: Expr },
    Return { value: Expr, line: usize, col: usize },
    Break { line: usize, col: usize },
    Continue { line: usize, col: usize },
    Expr(Expr),
    Fn { name: String, def: Rc<FnDef>, line: usize, col: usize },
}

} // verus!
