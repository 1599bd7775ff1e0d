use c_compiler::lexer::{run_lexer, Keyword, Punct, TokenKind};
use c_compiler::parser::{parse_program, BinaryOp, Block, Expected, Expr, Program, Stmt, UnaryOp};

fn parse(src: &str) -> Result<Program, c_compiler::parser::ParseError> {
    parse_program(&run_lexer(src).unwrap())
}

#[test]
fn parse_return_sum() {
    let p = parse("int main() { return 1 + 2; }").unwrap();
    let expected = Program::Function(
        1,
        Block::Item(
            Stmt::Return(Expr::Binary(BinaryOp::Add, Box::new(Expr::Int(1)), Box::new(Expr::Int(2)))),
            Box::new(Block::End),
        ),
        Box::new(Program::End),
    );
    assert_eq!(p, expected);
}

#[test]
fn parse_unbalanced_braces() {
    let e = parse("int main() { if (1) { return 1; }").unwrap_err();
    assert_eq!(e.expected, Expected::Punct(Punct::CloseBrace));
    assert_eq!(e.found, None);
    assert_eq!(e.pos, 14);
}

#[test]
fn parse_precedence_and_associativity() {
    let p = parse("int f(void) { a = b = 1 + 2 * -3 < 4 || c; }").unwrap();
    let three = Expr::Unary(UnaryOp::Negate, Box::new(Expr::Int(3)));
    let mul = Expr::Binary(BinaryOp::Multiply, Box::new(Expr::Int(2)), Box::new(three));
    let add = Expr::Binary(BinaryOp::Add, Box::new(Expr::Int(1)), Box::new(mul));
    let less = Expr::Binary(BinaryOp::Less, Box::new(add), Box::new(Expr::Int(4)));
    let or = Expr::Binary(BinaryOp::Or, Box::new(less), Box::new(Expr::Var(19)));
    let inner = Expr::Assign(Box::new(Expr::Var(8)), Box::new(or));
    let outer = Expr::Assign(Box::new(Expr::Var(6)), Box::new(inner));
    match p {
        Program::Function(_, Block::Item(Stmt::Expression(e), _), _) => assert_eq!(e, outer),
        other => panic!("unexpected tree {:?}", other),
    }
}

#[test]
fn parse_left_associative_subtraction() {
    let p = parse("int f() { return 5 - 2 - 1; }").unwrap();
    let left = Expr::Binary(BinaryOp::Subtract, Box::new(Expr::Int(5)), Box::new(Expr::Int(2)));
    let all = Expr::Binary(BinaryOp::Subtract, Box::new(left), Box::new(Expr::Int(1)));
    match p {
        Program::Function(_, Block::Item(Stmt::Return(e), _), _) => assert_eq!(e, all),
        other => panic!("unexpected tree {:?}", other),
    }
}

#[test]
fn parse_statements() {
    let p = parse("int main() { int x = 0; while (x < 3) { if (x == 1) break; else x = x + 1; } ; continue; }");
    assert!(p.is_ok());
}

#[test]
fn parse_rejects_trailing_tokens() {
    let e = parse("int main() { return 0; } }").unwrap_err();
    assert_eq!(e.expected, Expected::Keyword(Keyword::Int));
    assert_eq!(e.found, Some(TokenKind::Punct(Punct::CloseBrace)));
    assert_eq!(e.pos, 9);
}

#[test]
fn parse_missing_semicolon() {
    let e = parse("int main() { return 0 }").unwrap_err();
    assert_eq!(e.expected, Expected::Punct(Punct::Semicolon));
    assert_eq!(e.found, Some(TokenKind::Punct(Punct::CloseBrace)));
}

#[test]
fn parse_empty_program() {
    assert_eq!(parse("").unwrap(), Program::End);
}

#[test]
fn parse_two_functions() {
    let p = parse("int a() { } int b() { return 0; }").unwrap();
    match p {
        Program::Function(1, Block::End, rest) => match *rest {
            Program::Function(7, _, end) => assert_eq!(*end, Program::End),
            other => panic!("unexpected tree {:?}", other),
        },
        other => panic!("unexpected tree {:?}", other),
    }
}

#[test]
fn parse_for_loop_forms() {
    assert!(parse("int main() { for (int i = 0; i < 3; i = i + 1) ; return 0; }").is_ok());
    assert!(parse("int main() { int i; for (i = 0; ; ) break; for (;;) {} }").is_ok());
    let e = parse("int main() { for ({ } ;;) ; }").unwrap_err();
    assert_eq!(e.expected, Expected::Expression);
    assert_eq!(e.pos, 7);
}
