use c_compiler::lexer::run_lexer;
use c_compiler::parser::{parse_program, BinaryOp, Block, Expr, Program, Stmt};
use c_compiler::resolver::{resolve, SemanticError, SemanticErrorKind};

fn check(src: &str) -> Result<(), SemanticError> {
    let toks = run_lexer(src).unwrap();
    let program = parse_program(&toks).unwrap();
    resolve(src, &toks, &program).map(|_| ())
}

#[test]
fn resolve_undeclared_identifier() {
    let src = "int f() { return x; }";
    let e = check(src).unwrap_err();
    assert_eq!(e.kind, SemanticErrorKind::UndeclaredIdentifier);
    assert_eq!(e.token, 6);
    let toks = run_lexer(src).unwrap();
    assert_eq!((toks[e.token].start, toks[e.token].end), (17, 18));
}

#[test]
fn resolve_duplicate_in_same_block() {
    let e = check("int main() { int x; int x; return 0; }").unwrap_err();
    assert_eq!(e.kind, SemanticErrorKind::DuplicateDeclaration);
    assert_eq!(e.token, 9);
}

#[test]
fn resolve_allows_shadowing_in_inner_block() {
    assert_eq!(check("int main() { int x = 1; { int x = 2; x = x + 1; } return x; }"), Ok(()));
}

#[test]
fn resolve_inner_declaration_ends_with_block() {
    let e = check("int main() { { int y; } return y; }").unwrap_err();
    assert_eq!(e.kind, SemanticErrorKind::UndeclaredIdentifier);
    assert_eq!(e.token, 11);
}

#[test]
fn resolve_use_before_declaration() {
    let e = check("int main() { a = 1; int a; }").unwrap_err();
    assert_eq!(e.kind, SemanticErrorKind::UndeclaredIdentifier);
    assert_eq!(e.token, 5);
}

#[test]
fn resolve_loop_control_placement() {
    assert_eq!(check("int main() { while (1) { if (1) break; continue; } return 0; }"), Ok(()));
    let e = check("int main() { if (1) break; return 0; }").unwrap_err();
    assert_eq!(e.kind, SemanticErrorKind::MisplacedLoopControl);
    assert_eq!(e.token, 9);
}

#[test]
fn resolve_reports_first_error_in_order() {
    let e = check("int main() { return a + b; }").unwrap_err();
    assert_eq!(e.token, 6);
}

#[test]
fn resolve_functions_have_separate_scopes() {
    let e = check("int f() { int x; return x; } int g() { return x; }").unwrap_err();
    assert_eq!(e.kind, SemanticErrorKind::UndeclaredIdentifier);
    assert_eq!(e.token, 18);
}

#[test]
fn return_sum_passes_front_end() {
    assert_eq!(check("int main() { return 1 + 2; }"), Ok(()));
}

#[test]
fn resolve_binds_uses_to_nearest_declaration() {
    let src = "int main() { int x = 1; { int x = 2; x = x + 1; } return x; }";
    let toks = run_lexer(src).unwrap();
    let resolved = resolve(src, &toks, &parse_program(&toks).unwrap()).unwrap();
    let body = match resolved {
        Program::Function(1, body, _) => body,
        other => panic!("unexpected tree {:?}", other),
    };
    let (inner, rest) = match body {
        Block::Item(_, rest) => match *rest {
            Block::Item(Stmt::Compound(inner), rest) => (inner, rest),
            other => panic!("unexpected block {:?}", other),
        },
        other => panic!("unexpected block {:?}", other),
    };
    let assign = Expr::Assign(
        Box::new(Expr::Var(12)),
        Box::new(Expr::Binary(BinaryOp::Add, Box::new(Expr::Var(12)), Box::new(Expr::Int(1)))),
    );
    match *inner {
        Block::Item(Stmt::Declare(12, _), next) => match *next {
            Block::Item(Stmt::Expression(e), _) => assert_eq!(e, assign),
            other => panic!("unexpected block {:?}", other),
        },
        other => panic!("unexpected block {:?}", other),
    }
    match *rest {
        Block::Item(Stmt::Return(e), _) => assert_eq!(e, Expr::Var(6)),
        other => panic!("unexpected block {:?}", other),
    }
}

#[test]
fn resolve_rejects_duplicate_function() {
    let e = check("int f() { } int f() { return 0; }").unwrap_err();
    assert_eq!(e.kind, SemanticErrorKind::DuplicateDeclaration);
    assert_eq!(e.token, 7);
    assert_eq!(check("int f() { } int g() { return 0; }"), Ok(()));
}

#[test]
fn resolve_for_scope_ends_with_loop() {
    assert_eq!(check("int main() { for (int i = 0; i < 2; i = i + 1) continue; return 0; }"), Ok(()));
    let e = check("int main() { for (int i = 0; i < 2; i = i + 1) ; return i; }").unwrap_err();
    assert_eq!(e.kind, SemanticErrorKind::UndeclaredIdentifier);
}
