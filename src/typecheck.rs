use vstd::prelude::*;

use crate::parser::{Block, Expr, Program, Stmt};

verus! {

/// Every value of the language is an `int`, so the one type rule that can
/// fail is assignability: only a variable can be assigned to.
#[derive(PartialEq, Eq, Structural, Clone, Copy, Debug)]
pub enum TypeErrorKind {
    NotAssignable,
}

/// A type error, with the function (by the token of its name) in which it stands.
#[derive(PartialEq, Eq, Structural, Clone, Copy, Debug)]
pub struct TypeError {
    pub kind: TypeErrorKind,
    pub function: usize,
}

/// Whether every assignment in `e` has a variable as its target.
pub open spec fn expr_ok(e: Expr) -> bool
    decreases e,
{
    match e {
        Expr::Int(_) | Expr::Var(_) => true,
        Expr::Unary(_, a) => expr_ok(*a),
        Expr::Binary(_, a, b) => expr_ok(*a) && expr_ok(*b),
        Expr::Assign(a, b) => (*a is Var) && expr_ok(*a) && expr_ok(*b),
    }
}

pub open spec fn stmt_ok(st: Stmt) -> bool
    decreases st,
{
    match st {
        Stmt::Return(e) | Stmt::Expression(e) => expr_ok(e),
        Stmt::Declare(_, Some(e)) => expr_ok(e),
        Stmt::If(c, a, b) => expr_ok(c) && stmt_ok(*a) && match b {
            Some(b) => stmt_ok(*b),
            None => true,
        },
        Stmt::While(c, body) => expr_ok(c) && stmt_ok(*body),
        Stmt::For(init, c, p, body) => stmt_ok(*init) && match c {
            Some(c) => expr_ok(c),
            None => true,
        } && match p {
            Some(p) => expr_ok(p),
            None => true,
        } && stmt_ok(*body),
        Stmt::Compound(b) => block_ok(*b),
        _ => true,
    }
}

pub open spec fn block_ok(b: Block) -> bool
    decreases b,
{
    match b {
        Block::End => true,
        Block::Item(st, rest) => stmt_ok(st) && block_ok(*rest),
    }
}

/// The outcome of type checking `p`: the first function, in order, that
/// breaks a rule.
pub open spec fn typecheck_spec(p: Program) -> Result<(), TypeError>
    decreases p,
{
    match p {
        Program::End => Ok(()),
        Program::Function(name, body, rest) => if block_ok(body) {
            typecheck_spec(*rest)
        } else {
            Err(TypeError { kind: TypeErrorKind::NotAssignable, function: name })
        },
    }
}

fn check_expr(e: &Expr) -> (r: bool)
    ensures
        r == expr_ok(*e),
    decreases e,
{
    match e {
        Expr::Int(_) => true,
        Expr::Var(_) => true,
        Expr::Unary(_, a) => check_expr(a),
        Expr::Binary(_, a, b) => check_expr(a) && check_expr(b),
        Expr::Assign(a, b) => matches!(&**a, Expr::Var(_)) && check_expr(a) && check_expr(b),
    }
}

fn check_stmt(st: &Stmt) -> (r: bool)
    ensures
        r == stmt_ok(*st),
    decreases st,
{
    match st {
        Stmt::Return(e) => check_expr(e),
        Stmt::Expression(e) => check_expr(e),
        Stmt::Declare(_, init) => match init {
            Some(e) => check_expr(e),
            None => true,
        },
        Stmt::If(c, a, b) => check_expr(c) && check_stmt(a) && match b {
            Some(b) => check_stmt(b),
            None => true,
        },
        Stmt::While(c, body) => check_expr(c) && check_stmt(body),
        Stmt::For(init, c, p, body) => check_stmt(init) && match c {
            Some(c) => check_expr(c),
            None => true,
        } && match p {
            Some(p) => check_expr(p),
            None => true,
        } && check_stmt(body),
        Stmt::Compound(b) => check_block(b),
        Stmt::Empty => true,
        Stmt::Break(_) => true,
        Stmt::Continue(_) => true,
    }
}

fn check_block(b: &Block) -> (r: bool)
    ensures
        r == block_ok(*b),
    decreases b,
{
    match b {
        Block::End => true,
        Block::Item(st, rest) => check_stmt(st) && check_block(rest),
    }
}

/// Checks the type rules of a resolved program, function by function.
pub fn typecheck(p: &Program) -> (r: Result<(), TypeError>)
    ensures
        r == typecheck_spec(*p),
    decreases p,
{
    match p {
        Program::End => Ok(()),
        Program::Function(name, body, rest) => {
            if check_block(body) {
                typecheck(rest)
            } else {
                Err(TypeError { kind: TypeErrorKind::NotAssignable, function: *name })
            }
        },
    }
}

} // verus!
