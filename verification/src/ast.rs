//! The syntax tree the generator consumes. The tree is produced elsewhere and
//! is read-only here; nothing in it is validated beyond what lowering needs.
use vstd::prelude::*;

verus! {

/// Kind of an expression node.
#[derive(Clone, Copy, Debug, PartialEq, Eq, Structural)]
pub enum ExprKind {
    /// A reference to a named variable.
    Variable,
    /// An integer literal.
    Constant,
    /// An operator applied to operands, or a call.
    Operation,
    /// Any kind the generator has no lowering for.
    Other,
}

/// Operator of an operation node.
#[derive(Clone, Copy, Debug, PartialEq, Eq, Structural)]
pub enum OpCode {
    Multiply,
    Divide,
    Add,
    Subtract,
    Negate,
    BitOr,
    BitAnd,
    BitXor,
    ShiftLeft,
    ShiftRight,
    FunctionCall,
    /// Any operator the generator has no lowering for.
    Other,
}

/// Kind of a statement node.
#[derive(Clone, Copy, Debug, PartialEq, Eq, Structural)]
pub enum StmtKind {
    Assign,
    Return,
    Empty,
}

/// Kind of a top-level declaration.
#[derive(Clone, Copy, Debug, PartialEq, Eq, Structural)]
pub enum DeclKind {
    Function,
    /// Any declaration the generator skips.
    Other,
}

/// An expression node.
///
/// `name` is the variable's name for a variable reference and the callee's
/// symbol for a call; it is empty for anonymous nodes. `value` is the literal
/// of a constant. `op`, `left`, `right` and `arguments` are read for
/// operations only.
#[derive(Debug)]
pub struct Expr {
    pub kind: ExprKind,
    pub name: String,
    pub value: i64,
    pub op: OpCode,
    pub left: Option<Box<Expr>>,
    pub right: Option<Box<Expr>>,
    pub arguments: Vec<Expr>,
}

/// A statement node: `name` is the target of an assignment, `expr` the
/// assigned or returned expression.
#[derive(Debug)]
pub struct Stmt {
    pub kind: StmtKind,
    pub name: String,
    pub expr: Option<Expr>,
}

/// A top-level declaration; for a function, its symbol, the names of its
/// formal arguments in declaration order, and its body.
#[derive(Debug)]
pub struct Decl {
    pub kind: DeclKind,
    pub name: String,
    pub arguments: Vec<String>,
    pub statements: Vec<Stmt>,
}

impl Expr {
    /// A reference to the variable `name`.
    pub fn variable(name: String) -> (e: Expr)
        ensures
            e.kind == ExprKind::Variable,
            e.name == name,
            e.left is None,
            e.right is None,
            e.arguments@.len() == 0,
    {
        Expr {
            kind: ExprKind::Variable,
            name,
            value: 0,
            op: OpCode::Other,
            left: None,
            right: None,
            arguments: Vec::new(),
        }
    }

    /// The literal `value`.
    pub fn constant(value: i64) -> (e: Expr)
        ensures
            e.kind == ExprKind::Constant,
            e.value == value,
            e.name@.len() == 0,
            e.left is None,
            e.right is None,
            e.arguments@.len() == 0,
    {
        Expr {
            kind: ExprKind::Constant,
            name: String::new(),
            value,
            op: OpCode::Other,
            left: None,
            right: None,
            arguments: Vec::new(),
        }
    }

    /// The operator `op` applied to `left` and `right`.
    pub fn binary(op: OpCode, left: Expr, right: Expr) -> (e: Expr)
        ensures
            e.kind == ExprKind::Operation,
            e.op == op,
            e.name@.len() == 0,
            e.left == Some(Box::new(left)),
            e.right == Some(Box::new(right)),
            e.arguments@.len() == 0,
    {
        Expr {
            kind: ExprKind::Operation,
            name: String::new(),
            value: 0,
            op,
            left: Some(Box::new(left)),
            right: Some(Box::new(right)),
            arguments: Vec::new(),
        }
    }

    /// The operator `op` applied to the single operand `operand`.
    pub fn unary(op: OpCode, operand: Expr) -> (e: Expr)
        ensures
            e.kind == ExprKind::Operation,
            e.op == op,
            e.name@.len() == 0,
            e.left == Some(Box::new(operand)),
            e.right is None,
            e.arguments@.len() == 0,
    {
        Expr {
            kind: ExprKind::Operation,
            name: String::new(),
            value: 0,
            op,
            left: Some(Box::new(operand)),
            right: None,
            arguments: Vec::new(),
        }
    }

    /// A call of `callee` with `arguments`.
    pub fn call(callee: String, arguments: Vec<Expr>) -> (e: Expr)
        ensures
            e.kind == ExprKind::Operation,
            e.op == OpCode::FunctionCall,
            e.name == callee,
            e.left is None,
            e.right is None,
            e.arguments == arguments,
    {
        Expr {
            kind: ExprKind::Operation,
            name: callee,
            value: 0,
            op: OpCode::FunctionCall,
            left: None,
            right: None,
            arguments,
        }
    }
}

impl Stmt {
    /// The assignment of `value` to the variable `name`.
    pub fn assign(name: String, value: Expr) -> (s: Stmt)
        ensures
            s.kind == StmtKind::Assign,
            s.name == name,
            s.expr == Some(value),
    {
        Stmt { kind: StmtKind::Assign, name, expr: Some(value) }
    }

    /// A return, of `value` if there is one.
    pub fn ret(value: Option<Expr>) -> (s: Stmt)
        ensures
            s.kind == StmtKind::Return,
            s.name@.len() == 0,
            s.expr == value,
    {
        Stmt { kind: StmtKind::Return, name: String::new(), expr: value }
    }

    /// The empty statement.
    pub fn empty() -> (s: Stmt)
        ensures
            s.kind == StmtKind::Empty,
            s.name@.len() == 0,
            s.expr is None,
    {
        Stmt { kind: StmtKind::Empty, name: String::new(), expr: None }
    }
}

impl Decl {
    /// The function `name` with the formal arguments `arguments` and the body
    /// `statements`.
    pub fn function(name: String, arguments: Vec<String>, statements: Vec<Stmt>) -> (d: Decl)
        ensures
            d.kind == DeclKind::Function,
            d.name == name,
            d.arguments == arguments,
            d.statements == statements,
    {
        Decl { kind: DeclKind::Function, name, arguments, statements }
    }
}

} // verus!
