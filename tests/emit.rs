use c_compiler::emit::{codegen, compile_ir, emit_asm};
use c_compiler::ir::generate_ir;
use c_compiler::lexer::run_lexer;
use c_compiler::parser::parse_program;
use c_compiler::resolver::resolve;

fn assembly(src: &str) -> String {
    let toks = run_lexer(src).unwrap();
    let ir = generate_ir(&resolve(src, &toks, &parse_program(&toks).unwrap()).unwrap());
    compile_ir(&ir, src, &toks)
}

#[test]
fn emit_return_sum() {
    let expected = "  .intel_syntax noprefix\n  .text\n  .globl main\nmain:\n  push rbp\n  mov rbp, rsp\n  sub rsp, 16*0+16\n  mov rax, 1\n  mov r10, 2\n  add rax, r10\n  mov QWORD PTR [rbp-16*0-8], rax\n  mov rax, QWORD PTR [rbp-16*0-8]\n  mov rsp, rbp\n  pop rbp\n  ret\n  mov rax, 0\n  mov rsp, rbp\n  pop rbp\n  ret\n  .section .note.GNU-stack,\"\",@progbits\n";
    assert_eq!(assembly("int main() { return 1 + 2; }"), expected);
}

#[test]
fn emit_is_deterministic() {
    let src = "int main() { int a = 5; while (a > 1 && a != 3) a = a - 1; return a % 2; }";
    assert_eq!(assembly(src), assembly(src));
}

#[test]
fn emit_labels_and_slots() {
    let text = assembly("int f() { int x = 12; if (x < 3) return 1; return x / 4; }");
    assert!(text.contains("  .globl f\nf:\n"));
    assert!(text.contains("  mov QWORD PTR [rbp-16*6-16], rax\n"));
    assert!(text.contains("  je .Lf_"));
    assert!(text.contains("  cqo\n  idiv r10\n"));
    assert!(text.contains("  setl al\n"));
}

#[test]
fn codegen_frames_cover_every_slot() {
    let src = "int main() { int a = 1; int b = a + 2; return b * a; }";
    let toks = run_lexer(src).unwrap();
    let ir = generate_ir(&resolve(src, &toks, &parse_program(&toks).unwrap()).unwrap());
    let m = codegen(&ir, src, &toks);
    assert_eq!(m.len(), 1);
    assert_eq!(m[0].name, "main");
    assert_eq!(m[0].body, ir[0].body);
    assert_eq!(m[0].frame_units, 11);
    assert_eq!(emit_asm(&m), compile_ir(&ir, src, &toks));
}
