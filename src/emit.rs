use vstd::prelude::*;

use crate::ir::{Instr, IrFunction, Val};
use crate::lexer::Token;
use crate::parser::{BinaryOp, UnaryOp};
use crate::resolver::name_of;

verus! {

/// A function ready for emission: its name, the number of 16-byte stack
/// units its frame reserves beyond the first, and its instructions, whose
/// operands each have a stack slot of their own (see `slot_offset`).
#[derive(PartialEq, Eq, Debug)]
pub struct MachineFunction {
    pub name: String,
    pub frame_units: usize,
    pub body: Vec<Instr>,
}

/// Where an operand lives below the frame pointer, in bytes: temporary `n`
/// at `16n + 8`, variable `d` at `16d + 16`; each slot is 8 bytes wide.
pub open spec fn slot_offset(v: Val) -> int {
    match v {
        Val::Temp(n) => 16 * n + 8,
        Val::Var(d) => 16 * d + 16,
        Val::Constant(_) => 0,
    }
}

/// Each temporary and each variable keeps one slot of its own for the whole
/// function, so no two live ranges, overlapping or not, share a location:
/// the 8-byte slots of two different operands are disjoint.
pub proof fn lemma_slots_disjoint(a: Val, b: Val)
    requires
        !(a is Constant),
        !(b is Constant),
        a != b,
    ensures
        slot_offset(a) + 8 <= slot_offset(b) || slot_offset(b) + 8 <= slot_offset(a),
{
}

/// The largest slot index (temporary or variable) used in `s`.
pub open spec fn max_index(s: Seq<Instr>) -> nat
    decreases s.len(),
{
    if s.len() == 0 {
        0
    } else {
        let m = max_index(s.drop_last());
        let k = instr_max(s.last());
        if k > m {
            k
        } else {
            m
        }
    }
}

pub open spec fn val_index(v: Val) -> nat {
    match v {
        Val::Temp(n) => n as nat,
        Val::Var(d) => d as nat,
        Val::Constant(_) => 0,
    }
}

pub open spec fn max2(a: nat, b: nat) -> nat {
    if a > b {
        a
    } else {
        b
    }
}

pub open spec fn instr_max(i: Instr) -> nat {
    match i {
        Instr::Copy(a, b) => max2(val_index(a), val_index(b)),
        Instr::Unary(_, a, b) => max2(val_index(a), val_index(b)),
        Instr::Binary(_, a, b, c) => max2(max2(val_index(a), val_index(b)), val_index(c)),
        Instr::JumpIfZero(v, _) => val_index(v),
        Instr::JumpIfNotZero(v, _) => val_index(v),
        Instr::Return(v) => val_index(v),
        _ => 0,
    }
}

fn val_idx(v: Val) -> (r: usize)
    ensures
        r as nat == val_index(v),
{
    match v {
        Val::Temp(n) => n,
        Val::Var(d) => d,
        Val::Constant(_) => 0,
    }
}

fn mx(a: usize, b: usize) -> (r: usize)
    ensures
        r as nat == max2(a as nat, b as nat),
{
    if a > b {
        a
    } else {
        b
    }
}

fn instr_idx(i: Instr) -> (r: usize)
    ensures
        r as nat == instr_max(i),
{
    match i {
        Instr::Copy(a, b) => mx(val_idx(a), val_idx(b)),
        Instr::Unary(_, a, b) => mx(val_idx(a), val_idx(b)),
        Instr::Binary(_, a, b, c) => mx(mx(val_idx(a), val_idx(b)), val_idx(c)),
        Instr::JumpIfZero(v, _) => val_idx(v),
        Instr::JumpIfNotZero(v, _) => val_idx(v),
        Instr::Return(v) => val_idx(v),
        _ => 0,
    }
}

fn frame_of(body: &Vec<Instr>) -> (r: usize)
    ensures
        r as nat == max_index(body@),
{
    let mut m: usize = 0;
    let mut k: usize = 0;
    while k < body.len()
        invariant
            k <= body@.len(),
            m as nat == max_index(body@.subrange(0, k as int)),
        decreases body@.len() - k,
    {
        assert(body@.subrange(0, k + 1).drop_last() =~= body@.subrange(0, k as int));
        m = mx(instr_idx(body[k]), m);
        k = k + 1;
    }
    assert(body@.subrange(0, k as int) =~= body@);
    m
}

/// Code generation: each function keeps its instructions, its name is taken
/// from the source, and its frame holds one slot for every temporary and
/// variable it uses. It cannot fail on IR.
pub fn codegen(ir: &Vec<IrFunction>, source: &str, tokens: &Vec<Token>) -> (r: Vec<MachineFunction>)
    ensures
        r@.len() == ir@.len(),
        forall|i: int|
            0 <= i < r@.len() ==> {
                &&& (#[trigger] r@[i]).name@ == name_of(source@, tokens@, ir@[i].name)
                &&& r@[i].body@ == ir@[i].body@
                &&& r@[i].frame_units as nat == max_index(ir@[i].body@)
            },
{
    let mut r: Vec<MachineFunction> = Vec::new();
    let mut k: usize = 0;
    while k < ir.len()
        invariant
            k <= ir@.len(),
            r@.len() == k,
            forall|i: int|
                0 <= i < k ==> {
                    &&& (#[trigger] r@[i]).name@ == name_of(source@, tokens@, ir@[i].name)
                    &&& r@[i].body@ == ir@[i].body@
                    &&& r@[i].frame_units as nat == max_index(ir@[i].body@)
                },
        decreases ir@.len() - k,
    {
        let f = &ir[k];
        let name = token_text(source, tokens, f.name);
        let frame_units = frame_of(&f.body);
        r.push(MachineFunction { name, frame_units, body: f.body.clone() });
        k = k + 1;
    }
    r
}

fn token_text(source: &str, t: &Vec<Token>, i: usize) -> (r: String)
    ensures
        r@ == name_of(source@, t@, i),
{
    let n = source.unicode_len();
    if i < t.len() && t[i].start <= t[i].end && t[i].end <= n {
        String::from_str(source.substring_char(t[i].start, t[i].end))
    } else {
        String::new()
    }
}


pub open spec fn digit_text(d: nat) -> Seq<char> {
    if d == 0 {
        "0"@
    } else
    if d == 1 {
        "1"@
    } else
    if d == 2 {
        "2"@
    } else
    if d == 3 {
        "3"@
    } else
    if d == 4 {
        "4"@
    } else
    if d == 5 {
        "5"@
    } else
    if d == 6 {
        "6"@
    } else
    if d == 7 {
        "7"@
    } else
    if d == 8 {
        "8"@
    } else {
        "9"@
    }
}

fn digit_str(d: u64) -> (r: &'static str)
    requires
        d < 10,
    ensures
        r@ == digit_text(d as nat),
{
    if d == 0 {
        "0"
    } else
    if d == 1 {
        "1"
    } else
    if d == 2 {
        "2"
    } else
    if d == 3 {
        "3"
    } else
    if d == 4 {
        "4"
    } else
    if d == 5 {
        "5"
    } else
    if d == 6 {
        "6"
    } else
    if d == 7 {
        "7"
    } else
    if d == 8 {
        "8"
    } else {
        "9"
    }
}

/// The decimal digits of `n`.
pub open spec fn dec(n: nat) -> Seq<char>
    decreases n,
{
    if n < 10 {
        digit_text(n)
    } else {
        dec(n / 10) + digit_text(n % 10)
    }
}

fn push_dec(out: &mut String, n: u64)
    ensures
        final(out)@ == old(out)@ + dec(n as nat),
    decreases n,
{
    let ghost s0 = out@;
    if n >= 10 {
        push_dec(out, n / 10);
    }
    out.append(digit_str(n % 10));
    if n >= 10 {
        assert(out@ =~= s0 + dec(n as nat));
    }
}

fn push_dec_usize(out: &mut String, n: usize)
    ensures
        final(out)@ == old(out)@ + dec(n as nat),
    decreases n,
{
    let ghost s0 = out@;
    if n >= 10 {
        push_dec_usize(out, n / 10);
    }
    out.append(digit_str((n % 10) as u64));
    if n >= 10 {
        assert(out@ =~= s0 + dec(n as nat));
    }
}

/// An operand as Intel-syntax text: a constant, or its stack slot.
pub open spec fn operand_text(v: Val) -> Seq<char> {
    match v {
        Val::Constant(c) => dec(c as nat),
        Val::Temp(n) => "QWORD PTR [rbp-16*"@ + dec(n as nat) + "-8]"@,
        Val::Var(d) => "QWORD PTR [rbp-16*"@ + dec(d as nat) + "-16]"@,
    }
}

fn push_operand(out: &mut String, v: Val)
    ensures
        final(out)@ == old(out)@ + operand_text(v),
{
    let ghost s0 = out@;
    match v {
        Val::Constant(c) => push_dec(out, c),
        Val::Temp(n) => {
            out.append("QWORD PTR [rbp-16*");
            push_dec_usize(out, n);
            out.append("-8]");
        },
        Val::Var(d) => {
            out.append("QWORD PTR [rbp-16*");
            push_dec_usize(out, d);
            out.append("-16]");
        },
    }
    assert(out@ =~= s0 + operand_text(v));
}

/// The instructions that combine `rax` and `r10` into `rax`. `&&` and `||`
/// never reach here: lowering turns them into branches.
pub open spec fn binary_text(op: BinaryOp) -> Seq<char> {
    if op == BinaryOp::Add {
        "  add rax, r10\n"@
    } else if op == BinaryOp::Subtract {
        "  sub rax, r10\n"@
    } else if op == BinaryOp::Multiply {
        "  imul rax, r10\n"@
    } else if op == BinaryOp::Divide {
        "  cqo\n  idiv r10\n"@
    } else if op == BinaryOp::Remainder {
        "  cqo\n  idiv r10\n  mov rax, rdx\n"@
    } else if op == BinaryOp::Equal {
        "  cmp rax, r10\n  mov eax, 0\n  sete al\n"@
    } else if op == BinaryOp::NotEqual {
        "  cmp rax, r10\n  mov eax, 0\n  setne al\n"@
    } else if op == BinaryOp::Less {
        "  cmp rax, r10\n  mov eax, 0\n  setl al\n"@
    } else if op == BinaryOp::LessEqual {
        "  cmp rax, r10\n  mov eax, 0\n  setle al\n"@
    } else if op == BinaryOp::Greater {
        "  cmp rax, r10\n  mov eax, 0\n  setg al\n"@
    } else if op == BinaryOp::GreaterEqual {
        "  cmp rax, r10\n  mov eax, 0\n  setge al\n"@
    } else if op == BinaryOp::And {
        "  and rax, r10\n"@
    } else {
        "  or rax, r10\n"@
    }
}

fn binary_str(op: BinaryOp) -> (r: &'static str)
    ensures
        r@ == binary_text(op),
{
    if op == BinaryOp::Add {
        "  add rax, r10\n"
    } else if op == BinaryOp::Subtract {
        "  sub rax, r10\n"
    } else if op == BinaryOp::Multiply {
        "  imul rax, r10\n"
    } else if op == BinaryOp::Divide {
        "  cqo\n  idiv r10\n"
    } else if op == BinaryOp::Remainder {
        "  cqo\n  idiv r10\n  mov rax, rdx\n"
    } else if op == BinaryOp::Equal {
        "  cmp rax, r10\n  mov eax, 0\n  sete al\n"
    } else if op == BinaryOp::NotEqual {
        "  cmp rax, r10\n  mov eax, 0\n  setne al\n"
    } else if op == BinaryOp::Less {
        "  cmp rax, r10\n  mov eax, 0\n  setl al\n"
    } else if op == BinaryOp::LessEqual {
        "  cmp rax, r10\n  mov eax, 0\n  setle al\n"
    } else if op == BinaryOp::Greater {
        "  cmp rax, r10\n  mov eax, 0\n  setg al\n"
    } else if op == BinaryOp::GreaterEqual {
        "  cmp rax, r10\n  mov eax, 0\n  setge al\n"
    } else if op == BinaryOp::And {
        "  and rax, r10\n"
    } else {
        "  or rax, r10\n"
    }
}

pub open spec fn unary_text(op: UnaryOp) -> Seq<char> {
    if op == UnaryOp::Negate {
        "  neg rax\n"@
    } else if op == UnaryOp::Complement {
        "  not rax\n"@
    } else {
        "  cmp rax, 0\n  mov eax, 0\n  sete al\n"@
    }
}

fn unary_str(op: UnaryOp) -> (r: &'static str)
    ensures
        r@ == unary_text(op),
{
    if op == UnaryOp::Negate {
        "  neg rax\n"
    } else if op == UnaryOp::Complement {
        "  not rax\n"
    } else {
        "  cmp rax, 0\n  mov eax, 0\n  sete al\n"
    }
}

/// A label of function `name`, unique across the program.
pub open spec fn label_text(name: Seq<char>, l: usize) -> Seq<char> {
    ".L"@ + name + "_"@ + dec(l as nat)
}

pub open spec fn load_text(v: Val) -> Seq<char> {
    "  mov rax, "@ + operand_text(v) + "\n"@
}

pub open spec fn store_text(v: Val) -> Seq<char> {
    "  mov "@ + operand_text(v) + ", rax\n"@
}

/// The assembly lines of one instruction of function `name`; the result of
/// a function is returned in `rax`.
pub open spec fn instr_text(name: Seq<char>, i: Instr) -> Seq<char> {
    match i {
        Instr::Copy(a, d) => load_text(a) + store_text(d),
        Instr::Unary(op, a, d) => load_text(a) + unary_text(op) + store_text(d),
        Instr::Binary(op, a, b, d) => load_text(a) + "  mov r10, "@ + operand_text(b) + "\n"@
            + binary_text(op) + store_text(d),
        Instr::Jump(l) => "  jmp "@ + label_text(name, l) + "\n"@,
        Instr::JumpIfZero(v, l) => load_text(v) + "  cmp rax, 0\n  je "@ + label_text(name, l) + "\n"@,
        Instr::JumpIfNotZero(v, l) => load_text(v) + "  cmp rax, 0\n  jne "@ + label_text(name, l)
            + "\n"@,
        Instr::Label(l) => label_text(name, l) + ":\n"@,
        Instr::Return(v) => load_text(v) + "  mov rsp, rbp\n  pop rbp\n  ret\n"@,
    }
}

fn push_load(out: &mut String, v: Val)
    ensures
        final(out)@ == old(out)@ + load_text(v),
{
    let ghost s0 = out@;
    out.append("  mov rax, ");
    push_operand(out, v);
    out.append("\n");
    assert(out@ =~= s0 + load_text(v));
}

fn push_store(out: &mut String, v: Val)
    ensures
        final(out)@ == old(out)@ + store_text(v),
{
    let ghost s0 = out@;
    out.append("  mov ");
    push_operand(out, v);
    out.append(", rax\n");
    assert(out@ =~= s0 + store_text(v));
}

fn push_label(out: &mut String, name: &str, l: usize)
    ensures
        final(out)@ == old(out)@ + label_text(name@, l),
{
    let ghost s0 = out@;
    out.append(".L");
    out.append(name);
    out.append("_");
    push_dec_usize(out, l);
    assert(out@ =~= s0 + label_text(name@, l));
}

fn push_instr(out: &mut String, name: &str, i: Instr)
    ensures
        final(out)@ == old(out)@ + instr_text(name@, i),
{
    let ghost s0 = out@;
    match i {
        Instr::Copy(a, d) => {
            push_load(out, a);
            push_store(out, d);
        },
        Instr::Unary(op, a, d) => {
            push_load(out, a);
            out.append(unary_str(op));
            push_store(out, d);
        },
        Instr::Binary(op, a, b, d) => {
            push_load(out, a);
            out.append("  mov r10, ");
            push_operand(out, b);
            out.append("\n");
            out.append(binary_str(op));
            push_store(out, d);
        },
        Instr::Jump(l) => {
            out.append("  jmp ");
            push_label(out, name, l);
            out.append("\n");
        },
        Instr::JumpIfZero(v, l) => {
            push_load(out, v);
            out.append("  cmp rax, 0\n  je ");
            push_label(out, name, l);
            out.append("\n");
        },
        Instr::JumpIfNotZero(v, l) => {
            push_load(out, v);
            out.append("  cmp rax, 0\n  jne ");
            push_label(out, name, l);
            out.append("\n");
        },
        Instr::Label(l) => {
            push_label(out, name, l);
            out.append(":\n");
        },
        Instr::Return(v) => {
            push_load(out, v);
            out.append("  mov rsp, rbp\n  pop rbp\n  ret\n");
        },
    }
    assert(out@ =~= s0 + instr_text(name@, i));
}

pub open spec fn body_text(name: Seq<char>, s: Seq<Instr>) -> Seq<char>
    decreases s.len(),
{
    if s.len() == 0 {
        Seq::empty()
    } else {
        body_text(name, s.drop_last()) + instr_text(name, s.last())
    }
}

/// A function: its global name, the prologue that saves the frame pointer
/// and reserves `16 * frame_units + 16` bytes (a multiple of 16), then its
/// instructions.
pub open spec fn function_text(name: Seq<char>, frame_units: nat, body: Seq<Instr>) -> Seq<char> {
    "  .globl "@ + name + "\n"@ + name + ":\n  push rbp\n  mov rbp, rsp\n  sub rsp, 16*"@ + dec(
        frame_units,
    ) + "+16\n"@ + body_text(name, body)
}

pub open spec fn functions_text(m: Seq<MachineFunction>) -> Seq<char>
    decreases m.len(),
{
    if m.len() == 0 {
        Seq::empty()
    } else {
        functions_text(m.drop_last()) + function_text(
            m.last().name@,
            m.last().frame_units as nat,
            m.last().body@,
        )
    }
}

/// The assembly text of a program, functions in order.
pub open spec fn asm_text(m: Seq<MachineFunction>) -> Seq<char> {
    "  .intel_syntax noprefix\n  .text\n"@ + functions_text(m)
        + "  .section .note.GNU-stack,\"\",@progbits\n"@
}

fn push_function(out: &mut String, f: &MachineFunction)
    ensures
        final(out)@ == old(out)@ + function_text(f.name@, f.frame_units as nat, f.body@),
{
    let ghost s0 = out@;
    out.append("  .globl ");
    out.append(f.name.as_str());
    out.append("\n");
    out.append(f.name.as_str());
    out.append(":\n  push rbp\n  mov rbp, rsp\n  sub rsp, 16*");
    push_dec_usize(out, f.frame_units);
    out.append("+16\n");
    let ghost s1 = out@;
    let mut k: usize = 0;
    while k < f.body.len()
        invariant
            k <= f.body@.len(),
            out@ == s1 + body_text(f.name@, f.body@.subrange(0, k as int)),
        decreases f.body@.len() - k,
    {
        assert(f.body@.subrange(0, k + 1).drop_last() =~= f.body@.subrange(0, k as int));
        push_instr(out, f.name.as_str(), f.body[k]);
        k = k + 1;
        assert(out@ =~= s1 + body_text(f.name@, f.body@.subrange(0, k as int)));
    }
    assert(f.body@.subrange(0, k as int) =~= f.body@);
    assert(out@ =~= s0 + function_text(f.name@, f.frame_units as nat, f.body@));
}

/// Serialises a machine program as assembly text, deterministically.
pub fn emit_asm(m: &Vec<MachineFunction>) -> (r: String)
    ensures
        r@ == asm_text(m@),
{
    let mut out = String::new();
    out.append("  .intel_syntax noprefix\n  .text\n");
    let ghost s1 = out@;
    let mut k: usize = 0;
    while k < m.len()
        invariant
            k <= m@.len(),
            out@ == s1 + functions_text(m@.subrange(0, k as int)),
        decreases m@.len() - k,
    {
        assert(m@.subrange(0, k + 1).drop_last() =~= m@.subrange(0, k as int));
        push_function(&mut out, &m[k]);
        k = k + 1;
        assert(out@ =~= s1 + functions_text(m@.subrange(0, k as int)));
    }
    assert(m@.subrange(0, k as int) =~= m@);
    out.append("  .section .note.GNU-stack,\"\",@progbits\n");
    assert(out@ =~= asm_text(m@));
    out
}


/// The text of the IR functions `ir` in order, each named from the source
/// `s` by its token in `t`, with the frame that code generation gives it.
pub open spec fn ir_functions_text(ir: Seq<IrFunction>, s: Seq<char>, t: Seq<Token>) -> Seq<char>
    decreases ir.len(),
{
    if ir.len() == 0 {
        Seq::empty()
    } else {
        ir_functions_text(ir.drop_last(), s, t) + function_text(
            name_of(s, t, ir.last().name),
            max_index(ir.last().body@),
            ir.last().body@,
        )
    }
}

/// The assembly text of IR `ir`: what `emit_asm(codegen(ir, s, t))` gives.
pub open spec fn ir_asm_text(ir: Seq<IrFunction>, s: Seq<char>, t: Seq<Token>) -> Seq<char> {
    "  .intel_syntax noprefix\n  .text\n"@ + ir_functions_text(ir, s, t)
        + "  .section .note.GNU-stack,\"\",@progbits\n"@
}

proof fn lemma_functions_text(m: Seq<MachineFunction>, ir: Seq<IrFunction>, s: Seq<char>, t: Seq<Token>)
    requires
        m.len() == ir.len(),
        forall|i: int|
            0 <= i < m.len() ==> {
                &&& (#[trigger] m[i]).name@ == name_of(s, t, ir[i].name)
                &&& m[i].body@ == ir[i].body@
                &&& m[i].frame_units as nat == max_index(ir[i].body@)
            },
    ensures
        functions_text(m) == ir_functions_text(ir, s, t),
    decreases m.len(),
{
    if m.len() > 0 {
        let m2 = m.drop_last();
        let ir2 = ir.drop_last();
        assert forall|i: int| 0 <= i < m2.len() implies {
            &&& (#[trigger] m2[i]).name@ == name_of(s, t, ir2[i].name)
            &&& m2[i].body@ == ir2[i].body@
            &&& m2[i].frame_units as nat == max_index(ir2[i].body@)
        } by {
            assert(m2[i] == m[i]);
            assert(ir2[i] == ir[i]);
        }
        lemma_functions_text(m2, ir2, s, t);
        assert(m.last() == m[m.len() - 1]);
    }
}

/// Code generation followed by emission: the assembly text of `ir`.
pub fn compile_ir(ir: &Vec<IrFunction>, source: &str, tokens: &Vec<Token>) -> (r: String)
    ensures
        r@ == ir_asm_text(ir@, source@, tokens@),
{
    let m = codegen(ir, source, tokens);
    proof {
        lemma_functions_text(m@, ir@, source@, tokens@);
    }
    emit_asm(&m)
}
} // verus!
