use c_compiler::ir::{generate_ir, Instr, IrFunction, Val};
use c_compiler::lexer::run_lexer;
use c_compiler::parser::{parse_program, BinaryOp};
use c_compiler::resolver::resolve;

fn lower(src: &str) -> Vec<IrFunction> {
    let toks = run_lexer(src).unwrap();
    let program = resolve(src, &toks, &parse_program(&toks).unwrap()).unwrap();
    generate_ir(&program)
}

fn reads(i: &Instr) -> Vec<Val> {
    match *i {
        Instr::Copy(v, _) | Instr::Unary(_, v, _) => vec![v],
        Instr::Binary(_, a, b, _) => vec![a, b],
        Instr::JumpIfZero(v, _) | Instr::JumpIfNotZero(v, _) | Instr::Return(v) => vec![v],
        _ => vec![],
    }
}

fn writes(i: &Instr) -> Option<Val> {
    match *i {
        Instr::Copy(_, d) | Instr::Unary(_, _, d) | Instr::Binary(_, _, _, d) => Some(d),
        _ => None,
    }
}

fn temps_written_first(body: &[Instr]) -> bool {
    body.iter().enumerate().all(|(k, ins)| {
        reads(ins).iter().all(|v| match v {
            Val::Temp(_) => body[..k].iter().any(|w| writes(w) == Some(*v)),
            _ => true,
        })
    })
}

fn branches_land_on_labels(body: &[Instr]) -> bool {
    body.iter().all(|ins| match *ins {
        Instr::Jump(l) | Instr::JumpIfZero(_, l) | Instr::JumpIfNotZero(_, l) => {
            body.iter().any(|w| *w == Instr::Label(l))
        }
        _ => true,
    })
}

#[test]
fn ir_return_sum() {
    let fns = lower("int main() { return 1 + 2; }");
    assert_eq!(fns.len(), 1);
    assert_eq!(fns[0].name, 1);
    assert_eq!(
        fns[0].body,
        vec![
            Instr::Binary(BinaryOp::Add, Val::Constant(1), Val::Constant(2), Val::Temp(0)),
            Instr::Return(Val::Temp(0)),
            Instr::Return(Val::Constant(0)),
        ]
    );
}

#[test]
fn ir_short_circuit_and() {
    let fns = lower("int main() { return 1 && 0; }");
    assert_eq!(
        fns[0].body,
        vec![
            Instr::JumpIfZero(Val::Constant(1), 0),
            Instr::JumpIfZero(Val::Constant(0), 0),
            Instr::Copy(Val::Constant(1), Val::Temp(2)),
            Instr::Jump(3),
            Instr::Label(0),
            Instr::Copy(Val::Constant(0), Val::Temp(2)),
            Instr::Label(3),
            Instr::Return(Val::Temp(2)),
            Instr::Return(Val::Constant(0)),
        ]
    );
}

#[test]
fn ir_while_loop() {
    let fns = lower("int main() { int x = 0; while (x < 3) x = x + 1; return x; }");
    assert_eq!(
        fns[0].body,
        vec![
            Instr::Copy(Val::Constant(0), Val::Var(6)),
            Instr::Label(1),
            Instr::Binary(BinaryOp::Less, Val::Var(6), Val::Constant(3), Val::Temp(2)),
            Instr::JumpIfZero(Val::Temp(2), 3),
            Instr::Binary(BinaryOp::Add, Val::Var(6), Val::Constant(1), Val::Temp(4)),
            Instr::Copy(Val::Temp(4), Val::Var(6)),
            Instr::Jump(1),
            Instr::Label(3),
            Instr::Return(Val::Var(6)),
            Instr::Return(Val::Constant(0)),
        ]
    );
}

#[test]
fn ir_temps_written_before_read() {
    let src = "int main() { int a = 1; int b = 2; if (a < b || !a && -b) { while (a) { a = a - 1; if (a == 2) break; else continue; } } else b = ~a * (b + 3) % 4; return a / b; } int g() { }";
    let fns = lower(src);
    assert_eq!(fns.len(), 2);
    for f in &fns {
        assert!(temps_written_first(&f.body));
        assert!(branches_land_on_labels(&f.body));
    }
    assert_eq!(fns[1].body, vec![Instr::Return(Val::Constant(0))]);
}

#[test]
fn ir_is_deterministic() {
    let src = "int main() { int a = 5; return a * 2 - 1; }";
    assert_eq!(lower(src)[0].body, lower(src)[0].body);
}

#[test]
fn ir_for_loop_runs_post_before_condition() {
    let fns = lower("int main() { int s = 0; for (int i = 0; i < 3; i = i + 1) s = s + i; return s; }");
    assert_eq!(
        fns[0].body,
        vec![
            Instr::Copy(Val::Constant(0), Val::Var(6)),
            Instr::Copy(Val::Constant(0), Val::Var(13)),
            Instr::Jump(2),
            Instr::Label(3),
            Instr::Binary(BinaryOp::Add, Val::Var(13), Val::Constant(1), Val::Temp(4)),
            Instr::Copy(Val::Temp(4), Val::Var(13)),
            Instr::Label(2),
            Instr::Binary(BinaryOp::Less, Val::Var(13), Val::Constant(3), Val::Temp(7)),
            Instr::JumpIfZero(Val::Temp(7), 8),
            Instr::Binary(BinaryOp::Add, Val::Var(6), Val::Var(13), Val::Temp(9)),
            Instr::Copy(Val::Temp(9), Val::Var(6)),
            Instr::Jump(3),
            Instr::Label(8),
            Instr::Return(Val::Var(6)),
            Instr::Return(Val::Constant(0)),
        ]
    );
}

#[test]
fn ir_for_without_clauses() {
    let fns = lower("int main() { int a = 0; for (;;) { a = a + 1; if (a > 5) break; else continue; } return a; }");
    assert!(temps_written_first(&fns[0].body));
    assert!(branches_land_on_labels(&fns[0].body));
    assert!(fns[0].body.contains(&Instr::JumpIfZero(Val::Constant(1), 4)));
}
