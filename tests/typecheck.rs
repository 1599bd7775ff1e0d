use c_compiler::lexer::run_lexer;
use c_compiler::parser::parse_program;
use c_compiler::resolver::resolve;
use c_compiler::typecheck::{typecheck, TypeError, TypeErrorKind};

fn check(src: &str) -> Result<(), TypeError> {
    let toks = run_lexer(src).unwrap();
    let program = resolve(src, &toks, &parse_program(&toks).unwrap()).unwrap();
    typecheck(&program)
}

#[test]
fn typecheck_accepts_variable_targets() {
    assert_eq!(check("int main() { int a; int b; a = b = 2; return a + 2 * b; }"), Ok(()));
    assert_eq!(check("int main() { return 1 + 2; }"), Ok(()));
}

#[test]
fn typecheck_rejects_assignment_to_value() {
    let e = check("int f() { return 0; } int main() { int a; if (a) { 1 = a; } return a; }").unwrap_err();
    assert_eq!(e, TypeError { kind: TypeErrorKind::NotAssignable, function: 10 });
    assert!(check("int main() { int a; a + 1 = 2; return 0; }").is_err());
    assert!(check("int main() { int a; while (a) -a = 1; return 0; }").is_err());
}
