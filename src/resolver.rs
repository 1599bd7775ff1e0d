use vstd::prelude::*;

use crate::lexer::{chars_of, Token};
use crate::parser::{Block, Expr, Program, Stmt};

verus! {

#[derive(PartialEq, Eq, Structural, Clone, Copy, Debug)]
pub enum SemanticErrorKind {
    UndeclaredIdentifier,
    DuplicateDeclaration,
    /// `break` or `continue` outside any loop.
    MisplacedLoopControl,
}

/// A violated scoping rule and the index of the token at fault.
#[derive(PartialEq, Eq, Structural, Clone, Copy, Debug)]
pub struct SemanticError {
    pub kind: SemanticErrorKind,
    pub token: usize,
}

/// The characters of token `i` in the source `s` (empty for a token that
/// does not exist or whose span lies outside `s`).
pub open spec fn name_of(s: Seq<char>, t: Seq<Token>, i: usize) -> Seq<char> {
    if i < t.len() && t[i as int].start <= t[i as int].end <= s.len() {
        s.subrange(t[i as int].start as int, t[i as int].end as int)
    } else {
        Seq::empty()
    }
}

/// Whether one of the declarations `decls[from..]` declares the name of token `i`.
pub open spec fn declares(s: Seq<char>, t: Seq<Token>, decls: Seq<usize>, from: int, i: usize) -> bool {
    exists|k: int| from <= k < decls.len() && name_of(s, t, #[trigger] decls[k]) == name_of(s, t, i)
}

pub open spec fn semantic_error<T>(kind: SemanticErrorKind, token: usize) -> Result<T, SemanticError> {
    Err(SemanticError { kind, token })
}

/// The declaration among `decls[..k]` nearest the end that declares the name
/// of token `i`.
pub open spec fn lookup_spec(s: Seq<char>, t: Seq<Token>, decls: Seq<usize>, k: int, i: usize) -> Option<
    usize,
>
    decreases k,
{
    if k <= 0 || k > decls.len() {
        None
    } else if name_of(s, t, decls[k - 1]) == name_of(s, t, i) {
        Some(decls[k - 1])
    } else {
        lookup_spec(s, t, decls, k - 1, i)
    }
}

/// Binds the names that an expression uses, left to right, each to the
/// innermost declaration of it in scope: `decls` holds the declarations in
/// scope, as the indices of their name tokens, innermost last. In the result a
/// variable is named by the token of its declaration.
pub open spec fn resolve_expr_spec(s: Seq<char>, t: Seq<Token>, decls: Seq<usize>, e: Expr) -> Result<
    Expr,
    SemanticError,
>
    decreases e,
{
    match e {
        Expr::Int(v) => Ok(Expr::Int(v)),
        Expr::Var(i) => match lookup_spec(s, t, decls, decls.len() as int, i) {
            Some(d) => Ok(Expr::Var(d)),
            None => semantic_error(SemanticErrorKind::UndeclaredIdentifier, i),
        },
        Expr::Unary(op, a) => match resolve_expr_spec(s, t, decls, *a) {
            Ok(a2) => Ok(Expr::Unary(op, Box::new(a2))),
            Err(err) => Err(err),
        },
        Expr::Binary(op, a, b) => match resolve_expr_spec(s, t, decls, *a) {
            Ok(a2) => match resolve_expr_spec(s, t, decls, *b) {
                Ok(b2) => Ok(Expr::Binary(op, Box::new(a2), Box::new(b2))),
                Err(err) => Err(err),
            },
            Err(err) => Err(err),
        },
        Expr::Assign(a, b) => match resolve_expr_spec(s, t, decls, *a) {
            Ok(a2) => match resolve_expr_spec(s, t, decls, *b) {
                Ok(b2) => Ok(Expr::Assign(Box::new(a2), Box::new(b2))),
                Err(err) => Err(err),
            },
            Err(err) => Err(err),
        },
    }
}

/// Resolves an expression that may be missing.
pub open spec fn resolve_optional_spec(s: Seq<char>, t: Seq<Token>, decls: Seq<usize>, e: Option<Expr>) -> Result<
    Option<Expr>,
    SemanticError,
> {
    match e {
        Some(e) => match resolve_expr_spec(s, t, decls, e) {
            Ok(e2) => Ok(Some(e2)),
            Err(err) => Err(err),
        },
        None => Ok(None),
    }
}

/// Resolves a statement whose innermost scope begins at `decls[cur]`: the
/// resolved statement and the declarations in scope after it. A statement
/// nested in `if`, `while` or braces has a scope of its own.
pub open spec fn resolve_stmt_spec(
    s: Seq<char>,
    t: Seq<Token>,
    decls: Seq<usize>,
    cur: int,
    st: Stmt,
    in_loop: bool,
) -> Result<(Stmt, Seq<usize>), SemanticError>
    decreases st,
{
    match st {
        Stmt::Return(e) => match resolve_expr_spec(s, t, decls, e) {
            Ok(e2) => Ok((Stmt::Return(e2), decls)),
            Err(err) => Err(err),
        },
        Stmt::Expression(e) => match resolve_expr_spec(s, t, decls, e) {
            Ok(e2) => Ok((Stmt::Expression(e2), decls)),
            Err(err) => Err(err),
        },
        Stmt::Empty => Ok((Stmt::Empty, decls)),
        Stmt::Declare(i, init) => if declares(s, t, decls, cur, i) {
            semantic_error(SemanticErrorKind::DuplicateDeclaration, i)
        } else {
            match init {
                Some(e) => match resolve_expr_spec(s, t, decls.push(i), e) {
                    Ok(e2) => Ok((Stmt::Declare(i, Some(e2)), decls.push(i))),
                    Err(err) => Err(err),
                },
                None => Ok((Stmt::Declare(i, None), decls.push(i))),
            }
        },
        Stmt::If(c, a, b) => match resolve_expr_spec(s, t, decls, c) {
            Ok(c2) => match resolve_stmt_spec(s, t, decls, decls.len() as int, *a, in_loop) {
                Ok((a2, _)) => match b {
                    Some(b) => match resolve_stmt_spec(s, t, decls, decls.len() as int, *b, in_loop) {
                        Ok((b2, _)) => Ok((Stmt::If(c2, Box::new(a2), Some(Box::new(b2))), decls)),
                        Err(err) => Err(err),
                    },
                    None => Ok((Stmt::If(c2, Box::new(a2), None), decls)),
                },
                Err(err) => Err(err),
            },
            Err(err) => Err(err),
        },
        Stmt::While(c, body) => match resolve_expr_spec(s, t, decls, c) {
            Ok(c2) => match resolve_stmt_spec(s, t, decls, decls.len() as int, *body, true) {
                Ok((body2, _)) => Ok((Stmt::While(c2, Box::new(body2)), decls)),
                Err(err) => Err(err),
            },
            Err(err) => Err(err),
        },
        Stmt::For(init, c, p, body) => match resolve_stmt_spec(
            s,
            t,
            decls,
            decls.len() as int,
            *init,
            in_loop,
        ) {
            Ok((init2, d1)) => match resolve_optional_spec(s, t, d1, c) {
                Ok(c2) => match resolve_optional_spec(s, t, d1, p) {
                    Ok(p2) => match resolve_stmt_spec(s, t, d1, d1.len() as int, *body, true) {
                        Ok((body2, _)) => Ok(
                            (Stmt::For(Box::new(init2), c2, p2, Box::new(body2)), decls),
                        ),
                        Err(err) => Err(err),
                    },
                    Err(err) => Err(err),
                },
                Err(err) => Err(err),
            },
            Err(err) => Err(err),
        },
        Stmt::Break(i) => if in_loop {
            Ok((Stmt::Break(i), decls))
        } else {
            semantic_error(SemanticErrorKind::MisplacedLoopControl, i)
        },
        Stmt::Continue(i) => if in_loop {
            Ok((Stmt::Continue(i), decls))
        } else {
            semantic_error(SemanticErrorKind::MisplacedLoopControl, i)
        },
        Stmt::Compound(b) => match resolve_block_spec(s, t, decls, decls.len() as int, *b, in_loop) {
            Ok((b2, _)) => Ok((Stmt::Compound(Box::new(b2)), decls)),
            Err(err) => Err(err),
        },
    }
}

/// Resolves the items of a block in order, each seeing the declarations
/// before it.
pub open spec fn resolve_block_spec(
    s: Seq<char>,
    t: Seq<Token>,
    decls: Seq<usize>,
    cur: int,
    b: Block,
    in_loop: bool,
) -> Result<(Block, Seq<usize>), SemanticError>
    decreases b,
{
    match b {
        Block::End => Ok((Block::End, decls)),
        Block::Item(st, rest) => match resolve_stmt_spec(s, t, decls, cur, st, in_loop) {
            Ok((st2, d)) => match resolve_block_spec(s, t, d, cur, *rest, in_loop) {
                Ok((rest2, d2)) => Ok((Block::Item(st2, Box::new(rest2)), d2)),
                Err(err) => Err(err),
            },
            Err(err) => Err(err),
        },
    }
}

/// Resolves each function in order; a function body is a scope of its own.
pub open spec fn resolve_spec(s: Seq<char>, t: Seq<Token>, p: Program) -> Result<Program, SemanticError> {
    resolve_functions_spec(s, t, p, Seq::empty())
}

/// Resolves the functions of `p` after those named by the tokens `seen`: a
/// function may not reuse the name of an earlier one.
pub open spec fn resolve_functions_spec(s: Seq<char>, t: Seq<Token>, p: Program, seen: Seq<usize>) -> Result<
    Program,
    SemanticError,
>
    decreases p,
{
    match p {
        Program::End => Ok(Program::End),
        Program::Function(name, body, rest) => if declares(s, t, seen, 0, name) {
            semantic_error(SemanticErrorKind::DuplicateDeclaration, name)
        } else {
            match resolve_block_spec(s, t, Seq::empty(), 0, body, false) {
                Ok((body2, _)) => match resolve_functions_spec(s, t, *rest, seen.push(name)) {
                    Ok(rest2) => Ok(Program::Function(name, body2, Box::new(rest2))),
                    Err(err) => Err(err),
                },
                Err(err) => Err(err),
            }
        },
    }
}

/// The span of token `i` in `s`, empty where the token or its span is missing.
fn span(s: &Vec<char>, t: &Vec<Token>, i: usize) -> (r: (usize, usize))
    ensures
        r.0 <= r.1 <= s@.len(),
        name_of(s@, t@, i) == s@.subrange(r.0 as int, r.1 as int),
{
    if i < t.len() && t[i].start <= t[i].end && t[i].end <= s.len() {
        (t[i].start, t[i].end)
    } else {
        assert(s@.subrange(0, 0) =~= Seq::<char>::empty());
        (0, 0)
    }
}

fn same_name(s: &Vec<char>, t: &Vec<Token>, i: usize, j: usize) -> (r: bool)
    ensures
        r == (name_of(s@, t@, i) == name_of(s@, t@, j)),
{
    let (a0, a1) = span(s, t, i);
    let (b0, b1) = span(s, t, j);
    if a1 - a0 != b1 - b0 {
        assert(name_of(s@, t@, i).len() != name_of(s@, t@, j).len());
        return false;
    }
    let n = a1 - a0;
    let ghost sa = s@.subrange(a0 as int, a1 as int);
    let ghost sb = s@.subrange(b0 as int, b1 as int);
    let mut k: usize = 0;
    while k < n
        invariant
            a0 <= a1 <= s@.len(),
            b0 <= b1 <= s@.len(),
            n == a1 - a0,
            n == b1 - b0,
            k <= n,
            sa == s@.subrange(a0 as int, a1 as int),
            sa == name_of(s@, t@, i),
            sb == name_of(s@, t@, j),
            sb == s@.subrange(b0 as int, b1 as int),
            forall|m: int| 0 <= m < k ==> sa[m] == sb[m],
        decreases n - k,
    {
        if s[a0 + k] != s[b0 + k] {
            assert(sa[k as int] == s@[a0 + k]);
            assert(sb[k as int] == s@[b0 + k]);
            assert(sa[k as int] != sb[k as int]);
            return false;
        }
        assert(sa[k as int] == s@[a0 + k]);
        assert(sb[k as int] == s@[b0 + k]);
        k = k + 1;
    }
    assert(sa =~= sb);
    true
}

fn declared(s: &Vec<char>, t: &Vec<Token>, decls: &Vec<usize>, from: usize, i: usize) -> (r: bool)
    requires
        from <= decls@.len(),
    ensures
        r == declares(s@, t@, decls@, from as int, i),
{
    let mut k: usize = from;
    while k < decls.len()
        invariant
            from <= k <= decls@.len(),
            forall|m: int| from <= m < k ==> name_of(s@, t@, #[trigger] decls@[m]) != name_of(s@, t@, i),
        decreases decls@.len() - k,
    {
        if same_name(s, t, decls[k], i) {
            return true;
        }
        k = k + 1;
    }
    false
}

fn lookup(s: &Vec<char>, t: &Vec<Token>, decls: &Vec<usize>, i: usize) -> (r: Option<usize>)
    ensures
        r == lookup_spec(s@, t@, decls@, decls@.len() as int, i),
{
    let mut k: usize = decls.len();
    while k > 0
        invariant
            k <= decls@.len(),
            lookup_spec(s@, t@, decls@, decls@.len() as int, i) == lookup_spec(s@, t@, decls@, k as int, i),
        decreases k,
    {
        if same_name(s, t, decls[k - 1], i) {
            return Some(decls[k - 1]);
        }
        k = k - 1;
    }
    None
}

fn resolve_expr(s: &Vec<char>, t: &Vec<Token>, decls: &Vec<usize>, e: &Expr) -> (r: Result<Expr, SemanticError>)
    ensures
        r == resolve_expr_spec(s@, t@, decls@, *e),
    decreases e,
{
    match e {
        Expr::Int(v) => Ok(Expr::Int(*v)),
        Expr::Var(i) => match lookup(s, t, decls, *i) {
            Some(d) => Ok(Expr::Var(d)),
            None => Err(SemanticError { kind: SemanticErrorKind::UndeclaredIdentifier, token: *i }),
        },
        Expr::Unary(op, a) => match resolve_expr(s, t, decls, a) {
            Ok(a2) => Ok(Expr::Unary(*op, Box::new(a2))),
            Err(err) => Err(err),
        },
        Expr::Binary(op, a, b) => match resolve_expr(s, t, decls, a) {
            Ok(a2) => match resolve_expr(s, t, decls, b) {
                Ok(b2) => Ok(Expr::Binary(*op, Box::new(a2), Box::new(b2))),
                Err(err) => Err(err),
            },
            Err(err) => Err(err),
        },
        Expr::Assign(a, b) => match resolve_expr(s, t, decls, a) {
            Ok(a2) => match resolve_expr(s, t, decls, b) {
                Ok(b2) => Ok(Expr::Assign(Box::new(a2), Box::new(b2))),
                Err(err) => Err(err),
            },
            Err(err) => Err(err),
        },
    }
}

fn resolve_optional(s: &Vec<char>, t: &Vec<Token>, decls: &Vec<usize>, e: &Option<Expr>) -> (r: Result<
    Option<Expr>,
    SemanticError,
>)
    ensures
        r == resolve_optional_spec(s@, t@, decls@, *e),
{
    match e {
        Some(e) => match resolve_expr(s, t, decls, e) {
            Ok(e2) => Ok(Some(e2)),
            Err(err) => Err(err),
        },
        None => Ok(None),
    }
}

fn resolve_stmt(
    s: &Vec<char>,
    t: &Vec<Token>,
    decls: &mut Vec<usize>,
    cur: usize,
    st: &Stmt,
    in_loop: bool,
) -> (r: Result<Stmt, SemanticError>)
    requires
        cur <= old(decls)@.len(),
    ensures
        r matches Ok(st2) ==> resolve_stmt_spec(s@, t@, old(decls)@, cur as int, *st, in_loop) == Ok::<
            (Stmt, Seq<usize>),
            SemanticError,
        >((st2, final(decls)@)),
        r is Ok ==> final(decls)@.len() >= old(decls)@.len() && final(decls)@.subrange(
            0,
            old(decls)@.len() as int,
        ) == old(decls)@,
        r matches Err(e) ==> resolve_stmt_spec(s@, t@, old(decls)@, cur as int, *st, in_loop) == Err::<
            (Stmt, Seq<usize>),
            SemanticError,
        >(e),
    decreases st,
{
    let ghost d0 = decls@;
    match st {
        Stmt::Return(e) => match resolve_expr(s, t, decls, e) {
            Ok(e2) => Ok(Stmt::Return(e2)),
            Err(err) => Err(err),
        },
        Stmt::Expression(e) => match resolve_expr(s, t, decls, e) {
            Ok(e2) => Ok(Stmt::Expression(e2)),
            Err(err) => Err(err),
        },
        Stmt::Empty => Ok(Stmt::Empty),
        Stmt::Declare(i, init) => {
            if declared(s, t, decls, cur, *i) {
                return Err(SemanticError { kind: SemanticErrorKind::DuplicateDeclaration, token: *i });
            }
            decls.push(*i);
            assert(decls@.subrange(0, d0.len() as int) =~= d0);
            match init {
                Some(e) => match resolve_expr(s, t, decls, e) {
                    Ok(e2) => Ok(Stmt::Declare(*i, Some(e2))),
                    Err(err) => Err(err),
                },
                None => Ok(Stmt::Declare(*i, None)),
            }
        },
        Stmt::If(c, a, b) => {
            let c2 = match resolve_expr(s, t, decls, c) {
                Ok(c2) => c2,
                Err(err) => {
                    return Err(err);
                },
            };
            let mark = decls.len();
            let a2 = match resolve_stmt(s, t, decls, mark, a, in_loop) {
                Ok(a2) => a2,
                Err(err) => {
                    return Err(err);
                },
            };
            decls.truncate(mark);
            match b {
                Some(b) => {
                    let b2 = match resolve_stmt(s, t, decls, mark, b, in_loop) {
                        Ok(b2) => b2,
                        Err(err) => {
                            return Err(err);
                        },
                    };
                    decls.truncate(mark);
                    assert(decls@.subrange(0, d0.len() as int) =~= d0);
                    Ok(Stmt::If(c2, Box::new(a2), Some(Box::new(b2))))
                },
                None => {
                    assert(decls@.subrange(0, d0.len() as int) =~= d0);
                    Ok(Stmt::If(c2, Box::new(a2), None))
                },
            }
        },
        Stmt::While(c, body) => {
            let c2 = match resolve_expr(s, t, decls, c) {
                Ok(c2) => c2,
                Err(err) => {
                    return Err(err);
                },
            };
            let mark = decls.len();
            let body2 = match resolve_stmt(s, t, decls, mark, body, true) {
                Ok(body2) => body2,
                Err(err) => {
                    return Err(err);
                },
            };
            decls.truncate(mark);
            assert(decls@.subrange(0, d0.len() as int) =~= d0);
            Ok(Stmt::While(c2, Box::new(body2)))
        },
        Stmt::For(init, c, p, body) => {
            let mark = decls.len();
            let init2 = match resolve_stmt(s, t, decls, mark, init, in_loop) {
                Ok(x) => x,
                Err(err) => {
                    return Err(err);
                },
            };
            let c2 = match resolve_optional(s, t, decls, c) {
                Ok(x) => x,
                Err(err) => {
                    return Err(err);
                },
            };
            let p2 = match resolve_optional(s, t, decls, p) {
                Ok(x) => x,
                Err(err) => {
                    return Err(err);
                },
            };
            let ghost d1 = decls@;
            let inner = decls.len();
            let body2 = match resolve_stmt(s, t, decls, inner, body, true) {
                Ok(x) => x,
                Err(err) => {
                    return Err(err);
                },
            };
            proof {
                assert(decls@.subrange(0, mark as int) =~= d1.subrange(0, mark as int));
            }
            decls.truncate(mark);
            assert(decls@.subrange(0, d0.len() as int) =~= d0);
            Ok(Stmt::For(Box::new(init2), c2, p2, Box::new(body2)))
        },
        Stmt::Break(i) => {
            if in_loop {
                Ok(Stmt::Break(*i))
            } else {
                Err(SemanticError { kind: SemanticErrorKind::MisplacedLoopControl, token: *i })
            }
        },
        Stmt::Continue(i) => {
            if in_loop {
                Ok(Stmt::Continue(*i))
            } else {
                Err(SemanticError { kind: SemanticErrorKind::MisplacedLoopControl, token: *i })
            }
        },
        Stmt::Compound(b) => {
            let mark = decls.len();
            let b2 = match resolve_block(s, t, decls, mark, b, in_loop) {
                Ok(b2) => b2,
                Err(err) => {
                    return Err(err);
                },
            };
            decls.truncate(mark);
            assert(decls@.subrange(0, d0.len() as int) =~= d0);
            Ok(Stmt::Compound(Box::new(b2)))
        },
    }
}

fn resolve_block(
    s: &Vec<char>,
    t: &Vec<Token>,
    decls: &mut Vec<usize>,
    cur: usize,
    b: &Block,
    in_loop: bool,
) -> (r: Result<Block, SemanticError>)
    requires
        cur <= old(decls)@.len(),
    ensures
        r matches Ok(b2) ==> resolve_block_spec(s@, t@, old(decls)@, cur as int, *b, in_loop) == Ok::<
            (Block, Seq<usize>),
            SemanticError,
        >((b2, final(decls)@)),
        r is Ok ==> final(decls)@.len() >= old(decls)@.len() && final(decls)@.subrange(
            0,
            old(decls)@.len() as int,
        ) == old(decls)@,
        r matches Err(e) ==> resolve_block_spec(s@, t@, old(decls)@, cur as int, *b, in_loop) == Err::<
            (Block, Seq<usize>),
            SemanticError,
        >(e),
    decreases b,
{
    let ghost d0 = decls@;
    match b {
        Block::End => Ok(Block::End),
        Block::Item(st, rest) => {
            let st2 = match resolve_stmt(s, t, decls, cur, st, in_loop) {
                Ok(st2) => st2,
                Err(err) => {
                    return Err(err);
                },
            };
            let ghost d1 = decls@;
            match resolve_block(s, t, decls, cur, rest, in_loop) {
                Ok(rest2) => {
                    assert(decls@.subrange(0, d0.len() as int) =~= decls@.subrange(
                        0,
                        d1.len() as int,
                    ).subrange(0, d0.len() as int));
                    Ok(Block::Item(st2, Box::new(rest2)))
                },
                Err(err) => Err(err),
            }
        },
    }
}

fn resolve_functions(s: &Vec<char>, t: &Vec<Token>, p: &Program, seen: &mut Vec<usize>) -> (r: Result<
    Program,
    SemanticError,
>)
    ensures
        r == resolve_functions_spec(s@, t@, *p, old(seen)@),
    decreases p,
{
    match p {
        Program::End => Ok(Program::End),
        Program::Function(name, body, rest) => {
            if declared(s, t, seen, 0, *name) {
                return Err(SemanticError { kind: SemanticErrorKind::DuplicateDeclaration, token: *name });
            }
            let mut decls: Vec<usize> = Vec::new();
            match resolve_block(s, t, &mut decls, 0, body, false) {
                Ok(body2) => {
                    seen.push(*name);
                    match resolve_functions(s, t, rest, seen) {
                        Ok(rest2) => Ok(Program::Function(*name, body2, Box::new(rest2))),
                        Err(err) => Err(err),
                    }
                },
                Err(err) => Err(err),
            }
        },
    }
}

/// Resolves the names of a parsed program: every name used is bound to the
/// innermost enclosing declaration of it, no scope declares a name twice, no
/// two functions share a name, and
/// `break` and `continue` stand inside loops. The first violation, in source
/// order, is reported.
pub fn resolve(source: &str, tokens: &Vec<Token>, program: &Program) -> (r: Result<Program, SemanticError>)
    ensures
        r == resolve_spec(source@, tokens@, *program),
{
    let chars = chars_of(source);
    let mut seen: Vec<usize> = Vec::new();
    resolve_functions(&chars, tokens, program, &mut seen)
}

} // verus!
