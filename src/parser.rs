use vstd::prelude::*;

use crate::lexer::{Keyword, Punct, Token, TokenKind};

verus! {

#[derive(PartialEq, Eq, Structural, Clone, Copy, Debug)]
pub enum UnaryOp {
    Negate,
    Not,
    Complement,
}

#[derive(PartialEq, Eq, Structural, Clone, Copy, Debug)]
pub enum BinaryOp {
    Or,
    And,
    Equal,
    NotEqual,
    Less,
    LessEqual,
    Greater,
    GreaterEqual,
    Add,
    Subtract,
    Multiply,
    Divide,
    Remainder,
}

/// An expression; a variable is named by the index of its identifier token.
#[derive(PartialEq, Eq, Debug)]
pub enum Expr {
    Int(u64),
    Var(usize),
    Unary(UnaryOp, Box<Expr>),
    Binary(BinaryOp, Box<Expr>, Box<Expr>),
    Assign(Box<Expr>, Box<Expr>),
}

#[derive(PartialEq, Eq, Debug)]
pub enum Stmt {
    Return(Expr),
    Expression(Expr),
    Empty,
    /// `int name [= init];`, the name given by its token index.
    Declare(usize, Option<Expr>),
    If(Expr, Box<Stmt>, Option<Box<Stmt>>),
    While(Expr, Box<Stmt>),
    /// `for (init cond; post) body`: `init` is a declaration, an expression
    /// statement or `;`; a missing condition is always true.
    For(Box<Stmt>, Option<Expr>, Option<Expr>, Box<Stmt>),
    /// `break;` and `continue;`, with the index of their keyword token.
    Break(usize),
    Continue(usize),
    Compound(Box<Block>),
}

/// The items of a block, in order.
#[derive(PartialEq, Eq, Debug)]
pub enum Block {
    End,
    Item(Stmt, Box<Block>),
}

/// The function definitions of a program, in order; a function is named by
/// the index of its identifier token.
#[derive(PartialEq, Eq, Debug)]
pub enum Program {
    End,
    Function(usize, Block, Box<Program>),
}

/// What the parser was looking for when it failed.
#[derive(PartialEq, Eq, Structural, Clone, Copy, Debug)]
pub enum Expected {
    Punct(Punct),
    Keyword(Keyword),
    Identifier,
    Expression,
    /// Nesting deeper than the parser's bound; `parse_program` allows one
    /// level more than there are tokens.
    Shallower,
}

/// A parse failure: what was expected, the token found instead (none at the
/// end of input), and the index of that token.
#[derive(PartialEq, Eq, Structural, Clone, Copy, Debug)]
pub struct ParseError {
    pub expected: Expected,
    pub found: Option<TokenKind>,
    pub pos: usize,
}

pub type ParserResult<T> = Result<T, ParseError>;

pub open spec fn kind_at(t: Seq<Token>, pos: int) -> Option<TokenKind> {
    if 0 <= pos < t.len() {
        Some(t[pos].kind)
    } else {
        None
    }
}

pub open spec fn fail<T>(t: Seq<Token>, expected: Expected, pos: int) -> ParserResult<(T, int)> {
    Err(ParseError { expected, found: kind_at(t, pos), pos: pos as usize })
}

/// The position after the punctuation `p` expected at `pos`.
pub open spec fn expect_spec(t: Seq<Token>, pos: int, p: Punct) -> ParserResult<((), int)> {
    if kind_at(t, pos) == Some(TokenKind::Punct(p)) {
        Ok(((), pos + 1))
    } else {
        fail(t, Expected::Punct(p), pos)
    }
}

/// The binary operator of token kind `k` and its binding strength (higher
/// binds tighter).
pub open spec fn binary_op_spec(k: Option<TokenKind>) -> Option<(BinaryOp, nat)> {
    match k {
        Some(TokenKind::Punct(p)) => match p {
            Punct::Or => Some((BinaryOp::Or, 1)),
            Punct::And => Some((BinaryOp::And, 2)),
            Punct::Equal => Some((BinaryOp::Equal, 3)),
            Punct::NotEqual => Some((BinaryOp::NotEqual, 3)),
            Punct::Less => Some((BinaryOp::Less, 4)),
            Punct::LessEqual => Some((BinaryOp::LessEqual, 4)),
            Punct::Greater => Some((BinaryOp::Greater, 4)),
            Punct::GreaterEqual => Some((BinaryOp::GreaterEqual, 4)),
            Punct::Plus => Some((BinaryOp::Add, 5)),
            Punct::Minus => Some((BinaryOp::Subtract, 5)),
            Punct::Star => Some((BinaryOp::Multiply, 6)),
            Punct::Slash => Some((BinaryOp::Divide, 6)),
            Punct::Percent => Some((BinaryOp::Remainder, 6)),
            _ => None,
        },
        _ => None,
    }
}

pub open spec fn unary_op_spec(k: Option<TokenKind>) -> Option<UnaryOp> {
    match k {
        Some(TokenKind::Punct(Punct::Minus)) => Some(UnaryOp::Negate),
        Some(TokenKind::Punct(Punct::Bang)) => Some(UnaryOp::Not),
        Some(TokenKind::Punct(Punct::Tilde)) => Some(UnaryOp::Complement),
        _ => None,
    }
}

/// Recursive descent over `t` from `pos`. Each function gives the tree and the
/// position after it; `fuel` bounds the depth of nesting.
pub open spec fn primary_spec(t: Seq<Token>, pos: int, fuel: nat) -> ParserResult<(Expr, int)>
    decreases fuel, 0nat,
{
    match kind_at(t, pos) {
        Some(TokenKind::IntLiteral(v)) => Ok((Expr::Int(v), pos + 1)),
        Some(TokenKind::Identifier) => Ok((Expr::Var(pos as usize), pos + 1)),
        Some(TokenKind::Punct(Punct::OpenParen)) => if fuel == 0 {
            fail(t, Expected::Shallower, pos)
        } else {
            match expr_spec(t, pos + 1, (fuel - 1) as nat) {
                Ok((e, j)) => match expect_spec(t, j, Punct::CloseParen) {
                    Ok((_, k)) => Ok((e, k)),
                    Err(err) => Err(err),
                },
                Err(err) => Err(err),
            }
        },
        _ => fail(t, Expected::Expression, pos),
    }
}

pub open spec fn unary_spec(t: Seq<Token>, pos: int, fuel: nat) -> ParserResult<(Expr, int)>
    decreases fuel, 1nat,
{
    match unary_op_spec(kind_at(t, pos)) {
        Some(op) => if fuel == 0 {
            fail(t, Expected::Shallower, pos)
        } else {
            match unary_spec(t, pos + 1, (fuel - 1) as nat) {
                Ok((e, j)) => Ok((Expr::Unary(op, Box::new(e)), j)),
                Err(err) => Err(err),
            }
        },
        None => primary_spec(t, pos, fuel),
    }
}

/// Precedence climbing: operators binding at least `min` after `lhs`.
pub open spec fn binary_rest_spec(
    t: Seq<Token>,
    lhs: Expr,
    pos: int,
    min: nat,
    fuel: nat,
) -> ParserResult<(Expr, int)>
    decreases fuel, 2nat,
{
    match binary_op_spec(kind_at(t, pos)) {
        Some((op, prec)) => if prec < min {
            Ok((lhs, pos))
        } else if fuel == 0 {
            fail(t, Expected::Shallower, pos)
        } else {
            match binary_spec(t, pos + 1, prec + 1, (fuel - 1) as nat) {
                Ok((rhs, j)) => binary_rest_spec(
                    t,
                    Expr::Binary(op, Box::new(lhs), Box::new(rhs)),
                    j,
                    min,
                    (fuel - 1) as nat,
                ),
                Err(err) => Err(err),
            }
        },
        None => Ok((lhs, pos)),
    }
}

pub open spec fn binary_spec(t: Seq<Token>, pos: int, min: nat, fuel: nat) -> ParserResult<
    (Expr, int),
>
    decreases fuel, 3nat,
{
    match unary_spec(t, pos, fuel) {
        Ok((lhs, j)) => binary_rest_spec(t, lhs, j, min, fuel),
        Err(err) => Err(err),
    }
}

/// An expression: assignment binds loosest and groups to the right.
pub open spec fn expr_spec(t: Seq<Token>, pos: int, fuel: nat) -> ParserResult<(Expr, int)>
    decreases fuel, 4nat,
{
    match binary_spec(t, pos, 1, fuel) {
        Ok((lhs, j)) => if kind_at(t, j) == Some(TokenKind::Punct(Punct::Assign)) {
            if fuel == 0 {
                fail(t, Expected::Shallower, j)
            } else {
                match expr_spec(t, j + 1, (fuel - 1) as nat) {
                    Ok((rhs, k)) => Ok((Expr::Assign(Box::new(lhs), Box::new(rhs)), k)),
                    Err(err) => Err(err),
                }
            }
        } else {
            Ok((lhs, j))
        },
        Err(err) => Err(err),
    }
}


/// `return e;`, `e;`, `;`, `int x [= e];`, `if (c) s [else s]`,
/// `while (c) s`, `break;`, `continue;` or a block.
pub open spec fn statement_spec(t: Seq<Token>, pos: int, fuel: nat) -> ParserResult<(Stmt, int)>
    decreases fuel, 5nat,
{
    match kind_at(t, pos) {
        Some(TokenKind::Keyword(Keyword::Return)) => match expr_spec(t, pos + 1, fuel) {
            Ok((e, j)) => match expect_spec(t, j, Punct::Semicolon) {
                Ok((_, k)) => Ok((Stmt::Return(e), k)),
                Err(err) => Err(err),
            },
            Err(err) => Err(err),
        },
        Some(TokenKind::Keyword(Keyword::Int)) => if kind_at(t, pos + 1) != Some(
            TokenKind::Identifier,
        ) {
            fail(t, Expected::Identifier, pos + 1)
        } else if kind_at(t, pos + 2) == Some(TokenKind::Punct(Punct::Assign)) {
            match expr_spec(t, pos + 3, fuel) {
                Ok((e, j)) => match expect_spec(t, j, Punct::Semicolon) {
                    Ok((_, k)) => Ok((Stmt::Declare((pos + 1) as usize, Some(e)), k)),
                    Err(err) => Err(err),
                },
                Err(err) => Err(err),
            }
        } else {
            match expect_spec(t, pos + 2, Punct::Semicolon) {
                Ok((_, k)) => Ok((Stmt::Declare((pos + 1) as usize, None), k)),
                Err(err) => Err(err),
            }
        },
        Some(TokenKind::Keyword(Keyword::If)) => if fuel == 0 {
            fail(t, Expected::Shallower, pos)
        } else {
            match condition_spec(t, pos + 1, fuel) {
                Ok((c, j)) => match statement_spec(t, j, (fuel - 1) as nat) {
                    Ok((then_branch, k)) => if kind_at(t, k) == Some(
                        TokenKind::Keyword(Keyword::Else),
                    ) {
                        match statement_spec(t, k + 1, (fuel - 1) as nat) {
                            Ok((else_branch, m)) => Ok(
                                (
                                    Stmt::If(
                                        c,
                                        Box::new(then_branch),
                                        Some(Box::new(else_branch)),
                                    ),
                                    m,
                                ),
                            ),
                            Err(err) => Err(err),
                        }
                    } else {
                        Ok((Stmt::If(c, Box::new(then_branch), None), k))
                    },
                    Err(err) => Err(err),
                },
                Err(err) => Err(err),
            }
        },
        Some(TokenKind::Keyword(Keyword::For)) => if fuel == 0 {
            fail(t, Expected::Shallower, pos)
        } else {
            match expect_spec(t, pos + 1, Punct::OpenParen) {
                Ok((_, j)) => match statement_spec(t, j, (fuel - 1) as nat) {
                    Ok((init, k)) => if !(init is Declare || init is Expression || init is Empty) {
                        fail(t, Expected::Expression, j)
                    } else {
                        match optional_expr_spec(t, k, Punct::Semicolon, fuel) {
                            Ok((cond, m)) => match optional_expr_spec(t, m, Punct::CloseParen, fuel) {
                                Ok((post, n)) => match statement_spec(t, n, (fuel - 1) as nat) {
                                    Ok((body, q)) => Ok(
                                        (Stmt::For(Box::new(init), cond, post, Box::new(body)), q),
                                    ),
                                    Err(err) => Err(err),
                                },
                                Err(err) => Err(err),
                            },
                            Err(err) => Err(err),
                        }
                    },
                    Err(err) => Err(err),
                },
                Err(err) => Err(err),
            }
        },
        Some(TokenKind::Keyword(Keyword::While)) => if fuel == 0 {
            fail(t, Expected::Shallower, pos)
        } else {
            match condition_spec(t, pos + 1, fuel) {
                Ok((c, j)) => match statement_spec(t, j, (fuel - 1) as nat) {
                    Ok((body, k)) => Ok((Stmt::While(c, Box::new(body)), k)),
                    Err(err) => Err(err),
                },
                Err(err) => Err(err),
            }
        },
        Some(TokenKind::Keyword(Keyword::Break)) => match expect_spec(t, pos + 1, Punct::Semicolon) {
            Ok((_, k)) => Ok((Stmt::Break(pos as usize), k)),
            Err(err) => Err(err),
        },
        Some(TokenKind::Keyword(Keyword::Continue)) => match expect_spec(
            t,
            pos + 1,
            Punct::Semicolon,
        ) {
            Ok((_, k)) => Ok((Stmt::Continue(pos as usize), k)),
            Err(err) => Err(err),
        },
        Some(TokenKind::Punct(Punct::Semicolon)) => Ok((Stmt::Empty, pos + 1)),
        Some(TokenKind::Punct(Punct::OpenBrace)) => if fuel == 0 {
            fail(t, Expected::Shallower, pos)
        } else {
            match block_spec(t, pos + 1, (fuel - 1) as nat) {
                Ok((b, j)) => Ok((Stmt::Compound(Box::new(b)), j)),
                Err(err) => Err(err),
            }
        },
        _ => match expr_spec(t, pos, fuel) {
            Ok((e, j)) => match expect_spec(t, j, Punct::Semicolon) {
                Ok((_, k)) => Ok((Stmt::Expression(e), k)),
                Err(err) => Err(err),
            },
            Err(err) => Err(err),
        },
    }
}

/// An expression that may be missing, then the punctuation `closer`.
pub open spec fn optional_expr_spec(t: Seq<Token>, pos: int, closer: Punct, fuel: nat) -> ParserResult<
    (Option<Expr>, int),
> {
    if kind_at(t, pos) == Some(TokenKind::Punct(closer)) {
        Ok((None, pos + 1))
    } else {
        match expr_spec(t, pos, fuel) {
            Ok((e, j)) => match expect_spec(t, j, closer) {
                Ok((_, k)) => Ok((Some(e), k)),
                Err(err) => Err(err),
            },
            Err(err) => Err(err),
        }
    }
}

/// `( e )`, the condition of an `if` or a `while`.
pub open spec fn condition_spec(t: Seq<Token>, pos: int, fuel: nat) -> ParserResult<(Expr, int)>
    decreases fuel, 4nat,
{
    match expect_spec(t, pos, Punct::OpenParen) {
        Ok((_, j)) => match expr_spec(t, j, fuel) {
            Ok((c, k)) => match expect_spec(t, k, Punct::CloseParen) {
                Ok((_, m)) => Ok((c, m)),
                Err(err) => Err(err),
            },
            Err(err) => Err(err),
        },
        Err(err) => Err(err),
    }
}

/// The items of a block after its `{`, through the closing `}`.
pub open spec fn block_spec(t: Seq<Token>, pos: int, fuel: nat) -> ParserResult<(Block, int)>
    decreases fuel, 6nat,
{
    match kind_at(t, pos) {
        Some(TokenKind::Punct(Punct::CloseBrace)) => Ok((Block::End, pos + 1)),
        None => fail(t, Expected::Punct(Punct::CloseBrace), pos),
        _ => match statement_spec(t, pos, fuel) {
            Ok((first, j)) => if fuel == 0 {
                fail(t, Expected::Shallower, j)
            } else {
                match block_spec(t, j, (fuel - 1) as nat) {
                    Ok((rest, k)) => Ok((Block::Item(first, Box::new(rest)), k)),
                    Err(err) => Err(err),
                }
            },
            Err(err) => Err(err),
        },
    }
}

/// `int name ( [void] ) { ... }`: the index of the name token and the body.
pub open spec fn function_spec(t: Seq<Token>, pos: int, fuel: nat) -> ParserResult<
    ((usize, Block), int),
> {
    if kind_at(t, pos) != Some(TokenKind::Keyword(Keyword::Int)) {
        fail(t, Expected::Keyword(Keyword::Int), pos)
    } else if kind_at(t, pos + 1) != Some(TokenKind::Identifier) {
        fail(t, Expected::Identifier, pos + 1)
    } else {
        match expect_spec(t, pos + 2, Punct::OpenParen) {
            Ok((_, j)) => {
                let j2 = if kind_at(t, j) == Some(TokenKind::Keyword(Keyword::Void)) {
                    j + 1
                } else {
                    j
                };
                match expect_spec(t, j2, Punct::CloseParen) {
                    Ok((_, k)) => match expect_spec(t, k, Punct::OpenBrace) {
                        Ok((_, m)) => match block_spec(t, m, fuel) {
                            Ok((b, n)) => Ok((((pos + 1) as usize, b), n)),
                            Err(err) => Err(err),
                        },
                        Err(err) => Err(err),
                    },
                    Err(err) => Err(err),
                }
            },
            Err(err) => Err(err),
        }
    }
}

/// Function definitions from `pos` to the end of input.
pub open spec fn program_spec(t: Seq<Token>, pos: int, fuel: nat) -> ParserResult<(Program, int)>
    decreases fuel,
{
    if pos >= t.len() {
        Ok((Program::End, pos))
    } else {
        match function_spec(t, pos, fuel) {
            Ok(((name, body), j)) => if fuel == 0 {
                fail(t, Expected::Shallower, j)
            } else {
                match program_spec(t, j, (fuel - 1) as nat) {
                    Ok((rest, k)) => Ok((Program::Function(name, body, Box::new(rest)), k)),
                    Err(err) => Err(err),
                }
            },
            Err(err) => Err(err),
        }
    }
}

/// The program that the tokens `t` spell, or the first place where they
/// depart from the grammar; tokens left over after the last function are an
/// error.
pub open spec fn parse_spec(t: Seq<Token>) -> ParserResult<Program> {
    match program_spec(t, 0, (t.len() + 1) as nat) {
        Ok((p, _)) => Ok(p),
        Err(err) => Err(err),
    }
}

fn kind_at_exec(t: &Vec<Token>, pos: usize) -> (r: Option<TokenKind>)
    ensures
        r == kind_at(t@, pos as int),
        r is Some <==> pos < t@.len(),
        r is Some ==> pos < usize::MAX,
{
    if pos < t.len() {
        Some(t[pos].kind)
    } else {
        None
    }
}

fn error_at(t: &Vec<Token>, expected: Expected, pos: usize) -> (r: ParseError)
    ensures
        r == (ParseError { expected, found: kind_at(t@, pos as int), pos }),
{
    ParseError { expected, found: kind_at_exec(t, pos), pos }
}

fn expect(t: &Vec<Token>, pos: usize, p: Punct) -> (r: ParserResult<usize>)
    requires
        pos <= t@.len(),
    ensures
        r matches Ok(j) ==> expect_spec(t@, pos as int, p) == Ok::<((), int), ParseError>(
            ((), j as int),
        ) && j <= t@.len(),
        r matches Err(e) ==> expect_spec(t@, pos as int, p) == Err::<((), int), ParseError>(e),
{
    if pos < t.len() && t[pos].kind == TokenKind::Punct(p) {
        Ok(pos + 1)
    } else {
        Err(error_at(t, Expected::Punct(p), pos))
    }
}

fn binary_op(k: Option<TokenKind>) -> (r: Option<(BinaryOp, usize)>)
    ensures
        binary_op_spec(k) matches Some((op, prec)) ==> r == Some((op, prec as usize)) && prec <= 6,
        binary_op_spec(k) is None ==> r is None,
{
    match k {
        Some(TokenKind::Punct(p)) => match p {
            Punct::Or => Some((BinaryOp::Or, 1)),
            Punct::And => Some((BinaryOp::And, 2)),
            Punct::Equal => Some((BinaryOp::Equal, 3)),
            Punct::NotEqual => Some((BinaryOp::NotEqual, 3)),
            Punct::Less => Some((BinaryOp::Less, 4)),
            Punct::LessEqual => Some((BinaryOp::LessEqual, 4)),
            Punct::Greater => Some((BinaryOp::Greater, 4)),
            Punct::GreaterEqual => Some((BinaryOp::GreaterEqual, 4)),
            Punct::Plus => Some((BinaryOp::Add, 5)),
            Punct::Minus => Some((BinaryOp::Subtract, 5)),
            Punct::Star => Some((BinaryOp::Multiply, 6)),
            Punct::Slash => Some((BinaryOp::Divide, 6)),
            Punct::Percent => Some((BinaryOp::Remainder, 6)),
            _ => None,
        },
        _ => None,
    }
}

fn unary_op(k: Option<TokenKind>) -> (r: Option<UnaryOp>)
    ensures
        r == unary_op_spec(k),
{
    match k {
        Some(TokenKind::Punct(Punct::Minus)) => Some(UnaryOp::Negate),
        Some(TokenKind::Punct(Punct::Bang)) => Some(UnaryOp::Not),
        Some(TokenKind::Punct(Punct::Tilde)) => Some(UnaryOp::Complement),
        _ => None,
    }
}

fn primary(t: &Vec<Token>, pos: usize, fuel: usize) -> (r: ParserResult<(Expr, usize)>)
    requires
        pos <= t@.len(),
    ensures
        r matches Ok((e, j)) ==> primary_spec(t@, pos as int, fuel as nat) == Ok::<(Expr, int), ParseError>(
            (e, j as int),
        ) && j <= t@.len(),
        r matches Err(e) ==> primary_spec(t@, pos as int, fuel as nat) == Err::<(Expr, int), ParseError>(e),
    decreases fuel, 0nat,
{
    match kind_at_exec(t, pos) {
        Some(TokenKind::IntLiteral(v)) => Ok((Expr::Int(v), pos + 1)),
        Some(TokenKind::Identifier) => Ok((Expr::Var(pos), pos + 1)),
        Some(TokenKind::Punct(Punct::OpenParen)) => {
            if fuel == 0 {
                return Err(error_at(t, Expected::Shallower, pos));
            }
            match expr(t, pos + 1, fuel - 1) {
                Ok((e, j)) => match expect(t, j, Punct::CloseParen) {
                    Ok(k) => Ok((e, k)),
                    Err(err) => Err(err),
                },
                Err(err) => Err(err),
            }
        },
        _ => Err(error_at(t, Expected::Expression, pos)),
    }
}

fn unary(t: &Vec<Token>, pos: usize, fuel: usize) -> (r: ParserResult<(Expr, usize)>)
    requires
        pos <= t@.len(),
    ensures
        r matches Ok((e, j)) ==> unary_spec(t@, pos as int, fuel as nat) == Ok::<(Expr, int), ParseError>(
            (e, j as int),
        ) && j <= t@.len(),
        r matches Err(e) ==> unary_spec(t@, pos as int, fuel as nat) == Err::<(Expr, int), ParseError>(e),
    decreases fuel, 1nat,
{
    match unary_op(kind_at_exec(t, pos)) {
        Some(op) => {
            if fuel == 0 {
                return Err(error_at(t, Expected::Shallower, pos));
            }
            match unary(t, pos + 1, fuel - 1) {
                Ok((e, j)) => Ok((Expr::Unary(op, Box::new(e)), j)),
                Err(err) => Err(err),
            }
        },
        None => primary(t, pos, fuel),
    }
}

fn binary_rest(t: &Vec<Token>, lhs: Expr, pos: usize, min: usize, fuel: usize) -> (r: ParserResult<
    (Expr, usize),
>)
    requires
        pos <= t@.len(),
        min <= 7,
    ensures
        r matches Ok((e, j)) ==> binary_rest_spec(t@, lhs, pos as int, min as nat, fuel as nat)
            == Ok::<(Expr, int), ParseError>((e, j as int)) && j <= t@.len(),
        r matches Err(e) ==> binary_rest_spec(t@, lhs, pos as int, min as nat, fuel as nat) == Err::<
            (Expr, int),
            ParseError,
        >(e),
    decreases fuel, 2nat,
{
    match binary_op(kind_at_exec(t, pos)) {
        Some((op, prec)) => {
            if prec < min {
                return Ok((lhs, pos));
            }
            if fuel == 0 {
                return Err(error_at(t, Expected::Shallower, pos));
            }
            match binary(t, pos + 1, prec + 1, fuel - 1) {
                Ok((rhs, j)) => binary_rest(
                    t,
                    Expr::Binary(op, Box::new(lhs), Box::new(rhs)),
                    j,
                    min,
                    fuel - 1,
                ),
                Err(err) => Err(err),
            }
        },
        None => Ok((lhs, pos)),
    }
}

fn binary(t: &Vec<Token>, pos: usize, min: usize, fuel: usize) -> (r: ParserResult<(Expr, usize)>)
    requires
        pos <= t@.len(),
        min <= 7,
    ensures
        r matches Ok((e, j)) ==> binary_spec(t@, pos as int, min as nat, fuel as nat) == Ok::<
            (Expr, int),
            ParseError,
        >((e, j as int)) && j <= t@.len(),
        r matches Err(e) ==> binary_spec(t@, pos as int, min as nat, fuel as nat) == Err::<
            (Expr, int),
            ParseError,
        >(e),
    decreases fuel, 3nat,
{
    match unary(t, pos, fuel) {
        Ok((lhs, j)) => binary_rest(t, lhs, j, min, fuel),
        Err(err) => Err(err),
    }
}

fn expr(t: &Vec<Token>, pos: usize, fuel: usize) -> (r: ParserResult<(Expr, usize)>)
    requires
        pos <= t@.len(),
    ensures
        r matches Ok((e, j)) ==> expr_spec(t@, pos as int, fuel as nat) == Ok::<(Expr, int), ParseError>(
            (e, j as int),
        ) && j <= t@.len(),
        r matches Err(e) ==> expr_spec(t@, pos as int, fuel as nat) == Err::<(Expr, int), ParseError>(e),
    decreases fuel, 4nat,
{
    match binary(t, pos, 1, fuel) {
        Ok((lhs, j)) => {
            if j < t.len() && t[j].kind == TokenKind::Punct(Punct::Assign) {
                if fuel == 0 {
                    return Err(error_at(t, Expected::Shallower, j));
                }
                match expr(t, j + 1, fuel - 1) {
                    Ok((rhs, k)) => Ok((Expr::Assign(Box::new(lhs), Box::new(rhs)), k)),
                    Err(err) => Err(err),
                }
            } else {
                Ok((lhs, j))
            }
        },
        Err(err) => Err(err),
    }
}


fn statement(t: &Vec<Token>, pos: usize, fuel: usize) -> (r: ParserResult<(Stmt, usize)>)
    requires
        pos <= t@.len(),
    ensures
        r matches Ok((st, j)) ==> statement_spec(t@, pos as int, fuel as nat) == Ok::<(Stmt, int), ParseError>(
            (st, j as int),
        ) && j <= t@.len(),
        r matches Err(e) ==> statement_spec(t@, pos as int, fuel as nat) == Err::<(Stmt, int), ParseError>(e),
    decreases fuel, 5nat,
{
    let k0 = kind_at_exec(t, pos);
    match k0 {
        Some(TokenKind::Keyword(Keyword::Return)) => match expr(t, pos + 1, fuel) {
            Ok((e, j)) => match expect(t, j, Punct::Semicolon) {
                Ok(k) => Ok((Stmt::Return(e), k)),
                Err(err) => Err(err),
            },
            Err(err) => Err(err),
        },
        Some(TokenKind::Keyword(Keyword::Int)) => {
            if kind_at_exec(t, pos + 1) != Some(TokenKind::Identifier) {
                return Err(error_at(t, Expected::Identifier, pos + 1));
            }
            if kind_at_exec(t, pos + 2) == Some(TokenKind::Punct(Punct::Assign)) {
                match expr(t, pos + 3, fuel) {
                    Ok((e, j)) => match expect(t, j, Punct::Semicolon) {
                        Ok(k) => Ok((Stmt::Declare(pos + 1, Some(e)), k)),
                        Err(err) => Err(err),
                    },
                    Err(err) => Err(err),
                }
            } else {
                match expect(t, pos + 2, Punct::Semicolon) {
                    Ok(k) => Ok((Stmt::Declare(pos + 1, None), k)),
                    Err(err) => Err(err),
                }
            }
        },
        Some(TokenKind::Keyword(Keyword::If)) => {
            if fuel == 0 {
                return Err(error_at(t, Expected::Shallower, pos));
            }
            match condition(t, pos + 1, fuel) {
                Ok((c, j)) => match statement(t, j, fuel - 1) {
                    Ok((then_branch, k)) => {
                        if kind_at_exec(t, k) == Some(TokenKind::Keyword(Keyword::Else)) {
                            match statement(t, k + 1, fuel - 1) {
                                Ok((else_branch, m)) => Ok(
                                    (
                                        Stmt::If(
                                            c,
                                            Box::new(then_branch),
                                            Some(Box::new(else_branch)),
                                        ),
                                        m,
                                    ),
                                ),
                                Err(err) => Err(err),
                            }
                        } else {
                            Ok((Stmt::If(c, Box::new(then_branch), None), k))
                        }
                    },
                    Err(err) => Err(err),
                },
                Err(err) => Err(err),
            }
        },
        Some(TokenKind::Keyword(Keyword::For)) => {
            if fuel == 0 {
                return Err(error_at(t, Expected::Shallower, pos));
            }
            let j = match expect(t, pos + 1, Punct::OpenParen) {
                Ok(j) => j,
                Err(err) => {
                    return Err(err);
                },
            };
            let (init, k) = match statement(t, j, fuel - 1) {
                Ok(r) => r,
                Err(err) => {
                    return Err(err);
                },
            };
            if !(matches!(init, Stmt::Declare(..)) || matches!(init, Stmt::Expression(_)) || matches!(
                init,
                Stmt::Empty
            )) {
                return Err(error_at(t, Expected::Expression, j));
            }
            let (cond, m) = match optional_expr(t, k, Punct::Semicolon, fuel) {
                Ok(r) => r,
                Err(err) => {
                    return Err(err);
                },
            };
            let (post, n) = match optional_expr(t, m, Punct::CloseParen, fuel) {
                Ok(r) => r,
                Err(err) => {
                    return Err(err);
                },
            };
            match statement(t, n, fuel - 1) {
                Ok((body, q)) => Ok((Stmt::For(Box::new(init), cond, post, Box::new(body)), q)),
                Err(err) => Err(err),
            }
        },
        Some(TokenKind::Keyword(Keyword::While)) => {
            if fuel == 0 {
                return Err(error_at(t, Expected::Shallower, pos));
            }
            match condition(t, pos + 1, fuel) {
                Ok((c, j)) => match statement(t, j, fuel - 1) {
                    Ok((body, k)) => Ok((Stmt::While(c, Box::new(body)), k)),
                    Err(err) => Err(err),
                },
                Err(err) => Err(err),
            }
        },
        Some(TokenKind::Keyword(Keyword::Break)) => match expect(t, pos + 1, Punct::Semicolon) {
            Ok(k) => Ok((Stmt::Break(pos), k)),
            Err(err) => Err(err),
        },
        Some(TokenKind::Keyword(Keyword::Continue)) => match expect(t, pos + 1, Punct::Semicolon) {
            Ok(k) => Ok((Stmt::Continue(pos), k)),
            Err(err) => Err(err),
        },
        Some(TokenKind::Punct(Punct::Semicolon)) => Ok((Stmt::Empty, pos + 1)),
        Some(TokenKind::Punct(Punct::OpenBrace)) => {
            if fuel == 0 {
                return Err(error_at(t, Expected::Shallower, pos));
            }
            match block(t, pos + 1, fuel - 1) {
                Ok((b, j)) => Ok((Stmt::Compound(Box::new(b)), j)),
                Err(err) => Err(err),
            }
        },
        _ => match expr(t, pos, fuel) {
            Ok((e, j)) => match expect(t, j, Punct::Semicolon) {
                Ok(k) => Ok((Stmt::Expression(e), k)),
                Err(err) => Err(err),
            },
            Err(err) => Err(err),
        },
    }
}

fn optional_expr(t: &Vec<Token>, pos: usize, closer: Punct, fuel: usize) -> (r: ParserResult<
    (Option<Expr>, usize),
>)
    requires
        pos <= t@.len(),
    ensures
        r matches Ok((e, j)) ==> optional_expr_spec(t@, pos as int, closer, fuel as nat) == Ok::<
            (Option<Expr>, int),
            ParseError,
        >((e, j as int)) && j <= t@.len(),
        r matches Err(e) ==> optional_expr_spec(t@, pos as int, closer, fuel as nat) == Err::<
            (Option<Expr>, int),
            ParseError,
        >(e),
{
    if kind_at_exec(t, pos) == Some(TokenKind::Punct(closer)) {
        return Ok((None, pos + 1));
    }
    match expr(t, pos, fuel) {
        Ok((e, j)) => match expect(t, j, closer) {
            Ok(k) => Ok((Some(e), k)),
            Err(err) => Err(err),
        },
        Err(err) => Err(err),
    }
}

fn condition(t: &Vec<Token>, pos: usize, fuel: usize) -> (r: ParserResult<(Expr, usize)>)
    requires
        pos <= t@.len(),
    ensures
        r matches Ok((e, j)) ==> condition_spec(t@, pos as int, fuel as nat) == Ok::<(Expr, int), ParseError>(
            (e, j as int),
        ) && j <= t@.len(),
        r matches Err(e) ==> condition_spec(t@, pos as int, fuel as nat) == Err::<(Expr, int), ParseError>(e),
{
    match expect(t, pos, Punct::OpenParen) {
        Ok(j) => match expr(t, j, fuel) {
            Ok((c, k)) => match expect(t, k, Punct::CloseParen) {
                Ok(m) => Ok((c, m)),
                Err(err) => Err(err),
            },
            Err(err) => Err(err),
        },
        Err(err) => Err(err),
    }
}

fn block(t: &Vec<Token>, pos: usize, fuel: usize) -> (r: ParserResult<(Block, usize)>)
    requires
        pos <= t@.len(),
    ensures
        r matches Ok((b, j)) ==> block_spec(t@, pos as int, fuel as nat) == Ok::<(Block, int), ParseError>(
            (b, j as int),
        ) && j <= t@.len(),
        r matches Err(e) ==> block_spec(t@, pos as int, fuel as nat) == Err::<(Block, int), ParseError>(e),
    decreases fuel, 6nat,
{
    match kind_at_exec(t, pos) {
        Some(TokenKind::Punct(Punct::CloseBrace)) => Ok((Block::End, pos + 1)),
        None => Err(error_at(t, Expected::Punct(Punct::CloseBrace), pos)),
        _ => match statement(t, pos, fuel) {
            Ok((first, j)) => {
                if fuel == 0 {
                    return Err(error_at(t, Expected::Shallower, j));
                }
                match block(t, j, fuel - 1) {
                    Ok((rest, k)) => Ok((Block::Item(first, Box::new(rest)), k)),
                    Err(err) => Err(err),
                }
            },
            Err(err) => Err(err),
        },
    }
}

fn function(t: &Vec<Token>, pos: usize, fuel: usize) -> (r: ParserResult<((usize, Block), usize)>)
    requires
        pos <= t@.len(),
    ensures
        r matches Ok((f, j)) ==> function_spec(t@, pos as int, fuel as nat) == Ok::<
            ((usize, Block), int),
            ParseError,
        >((f, j as int)) && j <= t@.len(),
        r matches Err(e) ==> function_spec(t@, pos as int, fuel as nat) == Err::<
            ((usize, Block), int),
            ParseError,
        >(e),
{
    if kind_at_exec(t, pos) != Some(TokenKind::Keyword(Keyword::Int)) {
        return Err(error_at(t, Expected::Keyword(Keyword::Int), pos));
    }
    if kind_at_exec(t, pos + 1) != Some(TokenKind::Identifier) {
        return Err(error_at(t, Expected::Identifier, pos + 1));
    }
    match expect(t, pos + 2, Punct::OpenParen) {
        Ok(j) => {
            let j2 = if kind_at_exec(t, j) == Some(TokenKind::Keyword(Keyword::Void)) {
                j + 1
            } else {
                j
            };
            match expect(t, j2, Punct::CloseParen) {
                Ok(k) => match expect(t, k, Punct::OpenBrace) {
                    Ok(m) => match block(t, m, fuel) {
                        Ok((b, n)) => Ok(((pos + 1, b), n)),
                        Err(err) => Err(err),
                    },
                    Err(err) => Err(err),
                },
                Err(err) => Err(err),
            }
        },
        Err(err) => Err(err),
    }
}

fn program(t: &Vec<Token>, pos: usize, fuel: usize) -> (r: ParserResult<(Program, usize)>)
    requires
        pos <= t@.len(),
    ensures
        r matches Ok((p, j)) ==> program_spec(t@, pos as int, fuel as nat) == Ok::<(Program, int), ParseError>(
            (p, j as int),
        ),
        r matches Err(e) ==> program_spec(t@, pos as int, fuel as nat) == Err::<(Program, int), ParseError>(e),
    decreases fuel,
{
    if pos >= t.len() {
        return Ok((Program::End, pos));
    }
    match function(t, pos, fuel) {
        Ok(((name, body), j)) => {
            if fuel == 0 {
                return Err(error_at(t, Expected::Shallower, j));
            }
            match program(t, j, fuel - 1) {
                Ok((rest, k)) => Ok((Program::Function(name, body, Box::new(rest)), k)),
                Err(err) => Err(err),
            }
        },
        Err(err) => Err(err),
    }
}

/// Parses a whole token sequence into a program.
pub fn parse_program(t: &Vec<Token>) -> (r: ParserResult<Program>)
    requires
        t@.len() < usize::MAX,
    ensures
        r matches Ok(p) ==> parse_spec(t@) == Ok::<Program, ParseError>(p),
        r matches Err(e) ==> parse_spec(t@) == Err::<Program, ParseError>(e),
{
    match program(t, 0, t.len() + 1) {
        Ok((p, _)) => Ok(p),
        Err(err) => Err(err),
    }
}

} // verus!
