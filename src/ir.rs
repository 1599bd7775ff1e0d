use vstd::prelude::*;

use crate::parser::{BinaryOp, Block, Expr, Program, Stmt, UnaryOp};

verus! {

/// An operand: a constant, a temporary, or a variable named by the token of
/// its declaration. A temporary is named by the index of the instruction
/// that first writes it.
#[derive(PartialEq, Eq, Structural, Clone, Copy, Debug)]
pub enum Val {
    Constant(u64),
    Temp(usize),
    Var(usize),
}

/// A flat instruction; a label is named by the index of the instruction that
/// first refers to it or places it.
#[derive(PartialEq, Eq, Structural, Clone, Copy, Debug)]
pub enum Instr {
    /// `Copy(src, dst)`
    Copy(Val, Val),
    /// `Unary(op, src, dst)`
    Unary(UnaryOp, Val, Val),
    /// `Binary(op, lhs, rhs, dst)`
    Binary(BinaryOp, Val, Val, Val),
    Jump(usize),
    JumpIfZero(Val, usize),
    JumpIfNotZero(Val, usize),
    Label(usize),
    Return(Val),
}

/// One function of the IR: the token of its name and its instructions.
#[derive(PartialEq, Eq, Debug)]
pub struct IrFunction {
    pub name: usize,
    pub body: Vec<Instr>,
}

/// Whether instruction `i` writes temporary `n`.
pub open spec fn defines(i: Instr, n: usize) -> bool {
    match i {
        Instr::Copy(_, d) => d == Val::Temp(n),
        Instr::Unary(_, _, d) => d == Val::Temp(n),
        Instr::Binary(_, _, _, d) => d == Val::Temp(n),
        _ => false,
    }
}

/// Whether instruction `i` reads temporary `n`.
pub open spec fn reads(i: Instr, n: usize) -> bool {
    match i {
        Instr::Copy(v, _) => v == Val::Temp(n),
        Instr::Unary(_, v, _) => v == Val::Temp(n),
        Instr::Binary(_, a, b, _) => a == Val::Temp(n) || b == Val::Temp(n),
        Instr::JumpIfZero(v, _) => v == Val::Temp(n),
        Instr::JumpIfNotZero(v, _) => v == Val::Temp(n),
        Instr::Return(v) => v == Val::Temp(n),
        _ => false,
    }
}

/// Whether one of `s[..k]` writes temporary `n`.
pub open spec fn defined_in(s: Seq<Instr>, k: int, n: usize) -> bool {
    exists|j: int| 0 <= j < k && #[trigger] defines(s[j], n)
}

/// Every temporary that an instruction reads is written by an instruction
/// before it.
pub open spec fn temps_defined_before_use(s: Seq<Instr>) -> bool {
    forall|k: int, n: usize| 0 <= k < s.len() && #[trigger] reads(s[k], n) ==> defined_in(s, k, n)
}

/// The invariants of a function body: temporaries are written before they
/// are read, and branches land on labels of the same function.
pub open spec fn valid_ir(s: Seq<Instr>) -> bool {
    temps_defined_before_use(s) && branch_targets_exist(s)
}

/// Whether operand `v`, if a temporary, is written somewhere in `s`.
pub open spec fn available(s: Seq<Instr>, v: Val) -> bool {
    v matches Val::Temp(n) ==> defined_in(s, s.len() as int, n)
}

proof fn lemma_push(s: Seq<Instr>, x: Instr)
    requires
        temps_defined_before_use(s),
        forall|n: usize| reads(x, n) ==> defined_in(s, s.len() as int, n),
    ensures
        temps_defined_before_use(s.push(x)),
        forall|v: Val| available(s, v) ==> available(s.push(x), v),
{
    let t = s.push(x);
    assert forall|k: int, n: usize| 0 <= k < t.len() && #[trigger] reads(t[k], n) implies defined_in(
        t,
        k,
        n,
    ) by {
        if k < s.len() {
            assert(t[k] == s[k]);
        }
        let j = choose|j: int| 0 <= j < k && #[trigger] defines(s[j], n);
        assert(t[j] == s[j]);
    }
    assert forall|v: Val| available(s, v) implies available(t, v) by {
        if let Val::Temp(n) = v {
            let j = choose|j: int| 0 <= j < s.len() && #[trigger] defines(s[j], n);
            assert(t[j] == s[j]);
        }
    }
}

/// The label that instruction `i` may jump to.
pub open spec fn target(i: Instr) -> Option<usize> {
    match i {
        Instr::Jump(l) => Some(l),
        Instr::JumpIfZero(_, l) => Some(l),
        Instr::JumpIfNotZero(_, l) => Some(l),
        _ => None,
    }
}

/// Whether `s` places label `l`.
pub open spec fn has_label(s: Seq<Instr>, l: usize) -> bool {
    exists|j: int| 0 <= j < s.len() && s[j] == Instr::Label(l)
}

/// Every branch of `s` targets a label that `s` places.
pub open spec fn branch_targets_exist(s: Seq<Instr>) -> bool {
    forall|k: int| 0 <= k < s.len() && (#[trigger] target(s[k])) is Some ==> has_label(s, target(s[k])->Some_0)
}

/// The branches of `s[lo..]` target labels that `s` places, or labels in `pending`.
pub open spec fn closed(s: Seq<Instr>, lo: int, pending: Set<usize>) -> bool {
    forall|k: int|
        lo <= k < s.len() && (#[trigger] target(s[k])) is Some ==> has_label(s, target(s[k])->Some_0)
            || pending.contains(target(s[k])->Some_0)
}

pub open spec fn is_prefix(s: Seq<Instr>, t: Seq<Instr>) -> bool {
    s.len() <= t.len() && forall|k: int| 0 <= k < s.len() ==> #[trigger] t[k] == s[k]
}

/// The labels that `break` and `continue` may jump to.
pub open spec fn loop_set(loop_labels: Option<(usize, usize)>) -> Set<usize> {
    match loop_labels {
        Some((exit, start)) => set![exit, start],
        None => Set::empty(),
    }
}

proof fn lemma_prefix_labels(s: Seq<Instr>, t: Seq<Instr>, l: usize)
    requires
        is_prefix(s, t),
        has_label(s, l),
    ensures
        has_label(t, l),
{
    let j = choose|j: int| 0 <= j < s.len() && s[j] == Instr::Label(l);
    assert(t[j] == s[j]);
}

proof fn lemma_concat(t: Seq<Instr>, u: Seq<Instr>, lo: int, x: Set<usize>, y: Set<usize>)
    requires
        0 <= lo <= t.len(),
        closed(t, lo, x),
        is_prefix(t, u),
        closed(u, t.len() as int, y),
        y.subset_of(x),
    ensures
        closed(u, lo, x),
{
    assert forall|k: int| lo <= k < u.len() && (#[trigger] target(u[k])) is Some implies has_label(
        u,
        target(u[k])->Some_0,
    ) || x.contains(target(u[k])->Some_0) by {
        if k < t.len() {
            assert(u[k] == t[k]);
            if has_label(t, target(t[k])->Some_0) {
                lemma_prefix_labels(t, u, target(t[k])->Some_0);
            }
        }
    }
}

proof fn lemma_widen(s: Seq<Instr>, lo: int, x: Set<usize>, y: Set<usize>)
    requires
        closed(s, lo, x),
        x.subset_of(y),
    ensures
        closed(s, lo, y),
{
}

proof fn lemma_discharge(s: Seq<Instr>, lo: int, x: Set<usize>, l: usize)
    requires
        closed(s, lo, x),
        has_label(s, l),
    ensures
        closed(s, lo, x.remove(l)),
{
}

/// The lowering of `e` when its first instruction lands at index `base`:
/// the instructions and the operand that holds the value. `a && b` tests `a`
/// and skips `b` when it is zero; `a || b` skips `b` when `a` is not zero;
/// the result is 1 or 0.
pub open spec fn lower_expr(e: Expr, base: int) -> (Seq<Instr>, Val)
    decreases e,
{
    match e {
        Expr::Int(v) => (Seq::empty(), Val::Constant(v)),
        Expr::Var(d) => (Seq::empty(), Val::Var(d)),
        Expr::Unary(op, a) => {
            let (ia, va) = lower_expr(*a, base);
            let d = (base + ia.len()) as usize;
            (ia.push(Instr::Unary(op, va, Val::Temp(d))), Val::Temp(d))
        },
        Expr::Binary(op, a, b) => {
            let (ia, va) = lower_expr(*a, base);
            if op == BinaryOp::And || op == BinaryOp::Or {
                let skip = (base + ia.len()) as usize;
                let (ib, vb) = lower_expr(*b, skip + 1);
                let p = skip + 1 + ib.len();
                let d = (p + 1) as usize;
                let end = (p + 2) as usize;
                let (test_a, test_b, taken, fallen) = if op == BinaryOp::And {
                    (
                        Instr::JumpIfZero(va, skip),
                        Instr::JumpIfZero(vb, skip),
                        0u64,
                        1u64,
                    )
                } else {
                    (
                        Instr::JumpIfNotZero(va, skip),
                        Instr::JumpIfNotZero(vb, skip),
                        1u64,
                        0u64,
                    )
                };
                (
                    ia.push(test_a) + ib + seq![
                        test_b,
                        Instr::Copy(Val::Constant(fallen), Val::Temp(d)),
                        Instr::Jump(end),
                        Instr::Label(skip),
                        Instr::Copy(Val::Constant(taken), Val::Temp(d)),
                        Instr::Label(end),
                    ],
                    Val::Temp(d),
                )
            } else {
                let (ib, vb) = lower_expr(*b, base + ia.len());
                let d = (base + ia.len() + ib.len()) as usize;
                ((ia + ib).push(Instr::Binary(op, va, vb, Val::Temp(d))), Val::Temp(d))
            }
        },
        Expr::Assign(a, b) => match *a {
            Expr::Var(d) => {
                let (ib, vb) = lower_expr(*b, base);
                (ib.push(Instr::Copy(vb, Val::Var(d))), Val::Var(d))
            },
            _ => {
                let (ia, _) = lower_expr(*a, base);
                let (ib, vb) = lower_expr(*b, base + ia.len());
                (ia + ib, vb)
            },
        },
    }
}

/// The lowering of a statement whose first instruction lands at `base`.
pub open spec fn lower_stmt(st: Stmt, loop_labels: Option<(usize, usize)>, base: int) -> Seq<Instr>
    decreases st,
{
    match st {
        Stmt::Return(e) => {
            let (ie, v) = lower_expr(e, base);
            ie.push(Instr::Return(v))
        },
        Stmt::Expression(e) => lower_expr(e, base).0,
        Stmt::Empty => Seq::empty(),
        Stmt::Declare(d, init) => match init {
            Some(e) => {
                let (ie, v) = lower_expr(e, base);
                ie.push(Instr::Copy(v, Val::Var(d)))
            },
            None => Seq::empty(),
        },
        Stmt::If(c, a, b) => {
            let (ic, v) = lower_expr(c, base);
            let else_label = (base + ic.len()) as usize;
            let ia = lower_stmt(*a, loop_labels, else_label + 1);
            match b {
                Some(b) => {
                    let end = (else_label + 1 + ia.len()) as usize;
                    let ib = lower_stmt(*b, loop_labels, end + 2);
                    ic.push(Instr::JumpIfZero(v, else_label)) + ia + seq![
                        Instr::Jump(end),
                        Instr::Label(else_label),
                    ] + ib.push(Instr::Label(end))
                },
                None => ic.push(Instr::JumpIfZero(v, else_label)) + ia.push(Instr::Label(else_label)),
            }
        },
        Stmt::While(c, body) => {
            let start = base as usize;
            let (ic, v) = lower_expr(c, base + 1);
            let exit = (base + 1 + ic.len()) as usize;
            let ib = lower_stmt(*body, Some((exit, start)), exit + 1);
            seq![Instr::Label(start)] + ic.push(Instr::JumpIfZero(v, exit)) + ib + seq![
                Instr::Jump(start),
                Instr::Label(exit),
            ]
        },
        Stmt::Break(_) => match loop_labels {
            Some((exit, _)) => seq![Instr::Jump(exit)],
            None => Seq::empty(),
        },
        Stmt::Continue(_) => match loop_labels {
            Some((_, start)) => seq![Instr::Jump(start)],
            None => Seq::empty(),
        },
        Stmt::For(init, c, p, body) => {
            let ii = lower_stmt(*init, loop_labels, base);
            let top = (base + ii.len()) as usize;
            let cont = (top + 1) as usize;
            let ip = match p {
                Some(e) => lower_expr(e, cont + 1).0,
                None => Seq::empty(),
            };
            let top_at = cont + 1 + ip.len();
            let (ic, v) = match c {
                Some(e) => lower_expr(e, top_at + 1),
                None => (Seq::empty(), Val::Constant(1)),
            };
            let exit = (top_at + 1 + ic.len()) as usize;
            let ib = lower_stmt(*body, Some((exit, cont)), exit + 1);
            ii + seq![Instr::Jump(top), Instr::Label(cont)] + ip + seq![Instr::Label(top)] + ic.push(
                Instr::JumpIfZero(v, exit),
            ) + ib + seq![Instr::Jump(cont), Instr::Label(exit)]
        },
        Stmt::Compound(b) => lower_block(*b, loop_labels, base),
    }
}

pub open spec fn lower_block(b: Block, loop_labels: Option<(usize, usize)>, base: int) -> Seq<Instr>
    decreases b,
{
    match b {
        Block::End => Seq::empty(),
        Block::Item(st, rest) => {
            let i1 = lower_stmt(st, loop_labels, base);
            i1 + lower_block(*rest, loop_labels, base + i1.len())
        },
    }
}

/// The IR of a program: for each function in order, the token of its name
/// and its body, which ends with `return 0` for a run off the end.
pub open spec fn lower_program(p: Program) -> Seq<(usize, Seq<Instr>)>
    decreases p,
{
    match p {
        Program::End => Seq::empty(),
        Program::Function(name, body, rest) => seq![
            (name, lower_block(body, None, 0).push(Instr::Return(Val::Constant(0)))),
        ] + lower_program(*rest),
    }
}

fn emit(out: &mut Vec<Instr>, x: Instr)
    requires
        temps_defined_before_use(old(out)@),
        forall|n: usize| reads(x, n) ==> defined_in(old(out)@, old(out)@.len() as int, n),
    ensures
        final(out)@ == old(out)@.push(x),
        temps_defined_before_use(final(out)@),
        forall|v: Val| available(old(out)@, v) ==> available(final(out)@, v),
        is_prefix(old(out)@, final(out)@),
        x matches Instr::Label(l) ==> has_label(final(out)@, l),
        forall|lo: int, p: Set<usize>|
            #![trigger closed(final(out)@, lo, p)]
            0 <= lo <= old(out)@.len() && closed(old(out)@, lo, p) && (target(x) matches Some(l)
                ==> p.contains(l)) ==> closed(final(out)@, lo, p),
{
    proof {
        lemma_push(out@, x);
    }
    let ghost s = out@;
    out.push(x);
    proof {
        if let Instr::Label(l) = x {
            assert(out@[s.len() as int] == x);
        }
        assert forall|lo: int, p: Set<usize>|
            0 <= lo <= s.len() && closed(s, lo, p) && (target(x) matches Some(l) ==> p.contains(l))
                implies #[trigger] closed(out@, lo, p) by {
            assert forall|k: int| lo <= k < out@.len() && (#[trigger] target(out@[k])) is Some implies has_label(
                out@,
                target(out@[k])->Some_0,
            ) || p.contains(target(out@[k])->Some_0) by {
                if k < s.len() {
                    assert(out@[k] == s[k]);
                    if has_label(s, target(s[k])->Some_0) {
                        lemma_prefix_labels(s, out@, target(s[k])->Some_0);
                    }
                }
            }
        }
    }
}


/// The temporary that the next instruction pushed onto `out` may write.
fn fresh(out: &Vec<Instr>) -> (r: usize)
    ensures
        r == out@.len(),
{
    out.len()
}

proof fn lemma_written_last(s: Seq<Instr>, n: usize)
    requires
        s.len() == n + 1,
        defines(s[n as int], n),
    ensures
        available(s, Val::Temp(n)),
{
    assert(defines(s[n as int], n));
}

/// Lowers an expression, appending its instructions to `out`; gives the
/// operand that holds its value. `&&` and `||` are lowered to branches, so
/// the right operand is evaluated only when it decides the result.
#[verifier::rlimit(100)]
fn gen_expr(e: &Expr, out: &mut Vec<Instr>) -> (r: Val)
    requires
        temps_defined_before_use(old(out)@),
    ensures
        temps_defined_before_use(final(out)@),
        available(final(out)@, r),
        forall|v: Val| available(old(out)@, v) ==> available(final(out)@, v),
        is_prefix(old(out)@, final(out)@),
        closed(final(out)@, old(out)@.len() as int, Set::empty()),
        final(out)@ == old(out)@ + lower_expr(*e, old(out)@.len() as int).0,
        r == lower_expr(*e, old(out)@.len() as int).1,
    decreases e,
{
    let ghost s0 = out@;
    let ghost lo = s0.len() as int;
    let ghost none = Set::<usize>::empty();
    match e {
        Expr::Int(v) => {
            assert(out@ =~= s0 + lower_expr(*e, lo).0);
            Val::Constant(*v)
        },
        Expr::Var(d) => {
            assert(out@ =~= s0 + lower_expr(*e, lo).0);
            Val::Var(*d)
        },
        Expr::Unary(op, a) => {
            let va = gen_expr(a, out);
            let d = fresh(out);
            emit(out, Instr::Unary(*op, va, Val::Temp(d)));
            proof {
                lemma_written_last(out@, d);
                assert(closed(out@, lo, none));
            }
            assert(out@ =~= s0 + lower_expr(*e, lo).0);
            Val::Temp(d)
        },
        Expr::Binary(BinaryOp::And, a, b) => {
            let va = gen_expr(a, out);
            let if_false = fresh(out);
            let ghost p1 = set![if_false];
            proof {
                lemma_widen(out@, lo, none, p1);
            }
            emit(out, Instr::JumpIfZero(va, if_false));
            assert(closed(out@, lo, p1));
            let ghost s2 = out@;
            let vb = gen_expr(b, out);
            proof {
                lemma_concat(s2, out@, lo, p1, none);
            }
            emit(out, Instr::JumpIfZero(vb, if_false));
            assert(closed(out@, lo, p1));
            let d = fresh(out);
            emit(out, Instr::Copy(Val::Constant(1), Val::Temp(d)));
            assert(closed(out@, lo, p1));
            proof {
                lemma_written_last(out@, d);
            }
            let end = fresh(out);
            let ghost p2 = set![if_false, end];
            proof {
                lemma_widen(out@, lo, p1, p2);
            }
            emit(out, Instr::Jump(end));
            assert(closed(out@, lo, p2));
            emit(out, Instr::Label(if_false));
            assert(closed(out@, lo, p2));
            let ghost s7 = out@;
            emit(out, Instr::Copy(Val::Constant(0), Val::Temp(d)));
            assert(closed(out@, lo, p2));
            emit(out, Instr::Label(end));
            proof {
                assert(closed(out@, lo, p2));
                lemma_prefix_labels(s7, out@, if_false);
                lemma_discharge(out@, lo, p2, if_false);
                lemma_discharge(out@, lo, p2.remove(if_false), end);
                assert(p2.remove(if_false).remove(end) =~= none);
            }
            assert(out@ =~= s0 + lower_expr(*e, lo).0);
            Val::Temp(d)
        },
        Expr::Binary(BinaryOp::Or, a, b) => {
            let va = gen_expr(a, out);
            let if_true = fresh(out);
            let ghost p1 = set![if_true];
            proof {
                lemma_widen(out@, lo, none, p1);
            }
            emit(out, Instr::JumpIfNotZero(va, if_true));
            assert(closed(out@, lo, p1));
            let ghost s2 = out@;
            let vb = gen_expr(b, out);
            proof {
                lemma_concat(s2, out@, lo, p1, none);
            }
            emit(out, Instr::JumpIfNotZero(vb, if_true));
            assert(closed(out@, lo, p1));
            let d = fresh(out);
            emit(out, Instr::Copy(Val::Constant(0), Val::Temp(d)));
            assert(closed(out@, lo, p1));
            proof {
                lemma_written_last(out@, d);
            }
            let end = fresh(out);
            let ghost p2 = set![if_true, end];
            proof {
                lemma_widen(out@, lo, p1, p2);
            }
            emit(out, Instr::Jump(end));
            assert(closed(out@, lo, p2));
            emit(out, Instr::Label(if_true));
            assert(closed(out@, lo, p2));
            let ghost s7 = out@;
            emit(out, Instr::Copy(Val::Constant(1), Val::Temp(d)));
            assert(closed(out@, lo, p2));
            emit(out, Instr::Label(end));
            proof {
                assert(closed(out@, lo, p2));
                lemma_prefix_labels(s7, out@, if_true);
                lemma_discharge(out@, lo, p2, if_true);
                lemma_discharge(out@, lo, p2.remove(if_true), end);
                assert(p2.remove(if_true).remove(end) =~= none);
            }
            assert(out@ =~= s0 + lower_expr(*e, lo).0);
            Val::Temp(d)
        },
        Expr::Binary(op, a, b) => {
            let va = gen_expr(a, out);
            let ghost s1 = out@;
            let vb = gen_expr(b, out);
            proof {
                lemma_concat(s1, out@, lo, none, none);
            }
            let d = fresh(out);
            emit(out, Instr::Binary(*op, va, vb, Val::Temp(d)));
            proof {
                lemma_written_last(out@, d);
                assert(closed(out@, lo, none));
            }
            assert(out@ =~= s0 + lower_expr(*e, lo).0);
            Val::Temp(d)
        },
        Expr::Assign(a, b) => match &**a {
            Expr::Var(d) => {
                let vb = gen_expr(b, out);
                emit(out, Instr::Copy(vb, Val::Var(*d)));
                assert(closed(out@, lo, none));
                assert(out@ =~= s0 + lower_expr(*e, lo).0);
                Val::Var(*d)
            },
            _ => {
                // Only a variable can be stored to: the target is evaluated
                // for its effects and the assignment stores nothing.
                let _ = gen_expr(a, out);
                let ghost s1 = out@;
                let v = gen_expr(b, out);
                proof {
                    lemma_concat(s1, out@, lo, none, none);
                }
                assert(out@ =~= s0 + lower_expr(*e, lo).0);
                v
            },
        },
    }
}

/// Lowers a statement; `loop_labels` holds the labels that `break` and
/// `continue` jump to inside the innermost loop. Outside any loop, which name
/// resolution rules out, `break` and `continue` lower to nothing.
#[verifier::rlimit(100)]
fn gen_stmt(st: &Stmt, loop_labels: Option<(usize, usize)>, out: &mut Vec<Instr>)
    requires
        temps_defined_before_use(old(out)@),
    ensures
        temps_defined_before_use(final(out)@),
        forall|v: Val| available(old(out)@, v) ==> available(final(out)@, v),
        is_prefix(old(out)@, final(out)@),
        closed(final(out)@, old(out)@.len() as int, loop_set(loop_labels)),
        final(out)@ == old(out)@ + lower_stmt(*st, loop_labels, old(out)@.len() as int),
    decreases st, 1nat,
{
    let ghost s0 = out@;
    let ghost lo = s0.len() as int;
    let ghost ls = loop_set(loop_labels);
    let ghost none = Set::<usize>::empty();
    match st {
        Stmt::Return(e) => {
            let v = gen_expr(e, out);
            proof {
                lemma_widen(out@, lo, none, ls);
            }
            emit(out, Instr::Return(v));
            assert(closed(out@, lo, ls));
        },
        Stmt::Expression(e) => {
            let _ = gen_expr(e, out);
            proof {
                lemma_widen(out@, lo, none, ls);
            }
        },
        Stmt::Empty => {},
        Stmt::Declare(d, init) => match init {
            Some(e) => {
                let v = gen_expr(e, out);
                proof {
                    lemma_widen(out@, lo, none, ls);
                }
                emit(out, Instr::Copy(v, Val::Var(*d)));
                assert(closed(out@, lo, ls));
            },
            None => {},
        },
        Stmt::If(c, a, b) => {
            let v = gen_expr(c, out);
            let else_label = fresh(out);
            match b {
                Some(b) => {
                    let ghost p0 = ls.insert(else_label);
                    proof {
                        lemma_widen(out@, lo, none, p0);
                    }
                    emit(out, Instr::JumpIfZero(v, else_label));
                    assert(closed(out@, lo, p0));
                    let ghost s2 = out@;
                    gen_stmt(a, loop_labels, out);
                    let end = fresh(out);
                    let ghost p = p0.insert(end);
                    proof {
                        lemma_concat(s2, out@, lo, p0, ls);
                        lemma_widen(out@, lo, p0, p);
                    }
                    emit(out, Instr::Jump(end));
                    assert(closed(out@, lo, p));
                    emit(out, Instr::Label(else_label));
                    assert(closed(out@, lo, p));
                    let ghost s5 = out@;
                    gen_stmt(b, loop_labels, out);
                    proof {
                        lemma_concat(s5, out@, lo, p, ls);
                    }
                    emit(out, Instr::Label(end));
                    proof {
                        assert(closed(out@, lo, p));
                        lemma_prefix_labels(s5, out@, else_label);
                        lemma_discharge(out@, lo, p, else_label);
                        lemma_discharge(out@, lo, p.remove(else_label), end);
                        lemma_widen(out@, lo, p.remove(else_label).remove(end), ls);
                    }
                },
                None => {
                    let ghost p = ls.insert(else_label);
                    proof {
                        lemma_widen(out@, lo, none, p);
                    }
                    emit(out, Instr::JumpIfZero(v, else_label));
                    assert(closed(out@, lo, p));
                    let ghost s2 = out@;
                    gen_stmt(a, loop_labels, out);
                    proof {
                        lemma_concat(s2, out@, lo, p, ls);
                    }
                    emit(out, Instr::Label(else_label));
                    proof {
                        assert(closed(out@, lo, p));
                        lemma_discharge(out@, lo, p, else_label);
                        lemma_widen(out@, lo, p.remove(else_label), ls);
                    }
                },
            }
        },
        Stmt::While(c, body) => {
            let start = fresh(out);
            emit(out, Instr::Label(start));
            let ghost s1 = out@;
            let v = gen_expr(c, out);
            let exit = fresh(out);
            let ghost p = ls.insert(exit).insert(start);
            proof {
                lemma_concat(s1, out@, lo, p, none);
            }
            emit(out, Instr::JumpIfZero(v, exit));
            assert(closed(out@, lo, p));
            let ghost s3 = out@;
            gen_stmt(body, Some((exit, start)), out);
            proof {
                assert(loop_set(Some((exit, start))).subset_of(p));
                lemma_concat(s3, out@, lo, p, loop_set(Some((exit, start))));
            }
            emit(out, Instr::Jump(start));
            assert(closed(out@, lo, p));
            emit(out, Instr::Label(exit));
            proof {
                assert(closed(out@, lo, p));
                lemma_prefix_labels(s1, out@, start);
                lemma_discharge(out@, lo, p, exit);
                lemma_discharge(out@, lo, p.remove(exit), start);
                lemma_widen(out@, lo, p.remove(exit).remove(start), ls);
            }
        },
        Stmt::Break(_) => match loop_labels {
            Some((exit, _)) => {
                emit(out, Instr::Jump(exit));
                assert(closed(out@, lo, ls));
            },
            None => {},
        },
        Stmt::Continue(_) => match loop_labels {
            Some((_, start)) => {
                emit(out, Instr::Jump(start));
                assert(closed(out@, lo, ls));
            },
            None => {},
        },
        Stmt::For(..) => gen_for(st, loop_labels, out),
        Stmt::Compound(b) => gen_block(b, loop_labels, out),
    }
    assert(out@ =~= s0 + lower_stmt(*st, loop_labels, lo));
}

#[verifier::rlimit(100)]
fn gen_for(st: &Stmt, loop_labels: Option<(usize, usize)>, out: &mut Vec<Instr>)
    requires
        temps_defined_before_use(old(out)@),
        st is For,
    ensures
        temps_defined_before_use(final(out)@),
        forall|v: Val| available(old(out)@, v) ==> available(final(out)@, v),
        is_prefix(old(out)@, final(out)@),
        closed(final(out)@, old(out)@.len() as int, loop_set(loop_labels)),
        final(out)@ == old(out)@ + lower_stmt(*st, loop_labels, old(out)@.len() as int),
    decreases st, 0nat,
{
    let ghost s0 = out@;
    let ghost lo = s0.len() as int;
    let ghost ls = loop_set(loop_labels);
    let ghost none = Set::<usize>::empty();
    match st {
        Stmt::For(init, c, p, body) => {
            gen_stmt(init, loop_labels, out);
            let top = fresh(out);
            let ghost p0 = ls.insert(top);
            proof {
                lemma_widen(out@, lo, ls, p0);
            }
            emit(out, Instr::Jump(top));
            assert(closed(out@, lo, p0));
            let cont = fresh(out);
            emit(out, Instr::Label(cont));
            assert(closed(out@, lo, p0));
            let ghost s_cont = out@;
            match p {
                Some(e) => {
                    let _ = gen_expr(e, out);
                    proof {
                        lemma_concat(s_cont, out@, lo, p0, none);
                    }
                },
                None => {},
            }
            let ghost s_post = out@;
            emit(out, Instr::Label(top));
            assert(closed(out@, lo, p0));
            let ghost s_top = out@;
            let v = match c {
                Some(e) => {
                    let v = gen_expr(e, out);
                    proof {
                        lemma_concat(s_top, out@, lo, p0, none);
                    }
                    v
                },
                None => Val::Constant(1),
            };
            let exit = fresh(out);
            let ghost p1 = p0.insert(exit).insert(cont);
            proof {
                lemma_widen(out@, lo, p0, p1);
            }
            emit(out, Instr::JumpIfZero(v, exit));
            assert(closed(out@, lo, p1));
            let ghost s_jz = out@;
            gen_stmt(body, Some((exit, cont)), out);
            proof {
                assert(loop_set(Some((exit, cont))).subset_of(p1));
                lemma_concat(s_jz, out@, lo, p1, loop_set(Some((exit, cont))));
            }
            emit(out, Instr::Jump(cont));
            assert(closed(out@, lo, p1));
            emit(out, Instr::Label(exit));
            proof {
                assert(closed(out@, lo, p1));
                lemma_prefix_labels(s_cont, out@, cont);
                lemma_prefix_labels(s_top, out@, top);
                lemma_discharge(out@, lo, p1, exit);
                lemma_discharge(out@, lo, p1.remove(exit), cont);
                lemma_discharge(out@, lo, p1.remove(exit).remove(cont), top);
                lemma_widen(out@, lo, p1.remove(exit).remove(cont).remove(top), ls);
            }
        },
        _ => {},
    }
    assert(out@ =~= s0 + lower_stmt(*st, loop_labels, lo));
}

fn gen_block(b: &Block, loop_labels: Option<(usize, usize)>, out: &mut Vec<Instr>)
    requires
        temps_defined_before_use(old(out)@),
    ensures
        temps_defined_before_use(final(out)@),
        forall|v: Val| available(old(out)@, v) ==> available(final(out)@, v),
        is_prefix(old(out)@, final(out)@),
        closed(final(out)@, old(out)@.len() as int, loop_set(loop_labels)),
        final(out)@ == old(out)@ + lower_block(*b, loop_labels, old(out)@.len() as int),
    decreases b,
{
    let ghost lo = out@.len() as int;
    let ghost s0 = out@;
    match b {
        Block::End => {},
        Block::Item(st, rest) => {
            gen_stmt(st, loop_labels, out);
            let ghost s1 = out@;
            gen_block(rest, loop_labels, out);
            proof {
                lemma_concat(s1, out@, lo, loop_set(loop_labels), loop_set(loop_labels));
            }
        },
    }
    assert(out@ =~= s0 + lower_block(*b, loop_labels, lo));
}

fn gen_functions(p: &Program, fns: &mut Vec<IrFunction>)
    requires
        forall|i: int| 0 <= i < old(fns)@.len() ==> valid_ir(#[trigger] old(fns)@[i].body@),
    ensures
        forall|i: int| 0 <= i < final(fns)@.len() ==> valid_ir(#[trigger] final(fns)@[i].body@),
        final(fns)@.len() == old(fns)@.len() + lower_program(*p).len(),
        forall|i: int| 0 <= i < old(fns)@.len() ==> #[trigger] final(fns)@[i] == old(fns)@[i],
        forall|i: int|
            0 <= i < lower_program(*p).len() ==> (#[trigger] final(fns)@[old(fns)@.len() + i]).name
                == lower_program(*p)[i].0 && final(fns)@[old(fns)@.len() + i].body@
                == lower_program(*p)[i].1,
    decreases p,
{
    let ghost old_fns = fns@;
    match p {
        Program::End => {},
        Program::Function(name, body, rest) => {
            let mut out: Vec<Instr> = Vec::new();
            gen_block(body, None, &mut out);
            emit(&mut out, Instr::Return(Val::Constant(0)));
            assert(closed(out@, 0, Set::empty()));
            let ghost before = fns@;
            let f = IrFunction { name: *name, body: out };
            let ghost fv = f;
            assert(valid_ir(fv.body@));
            fns.push(f);
            assert(fns@ == before.push(fv));
            assert forall|i: int| 0 <= i < fns@.len() implies valid_ir(
                #[trigger] fns@[i].body@,
            ) by {
                if i < before.len() {
                    assert(fns@[i] == before[i]);
                    assert(valid_ir(before[i].body@));
                } else {
                    assert(fns@[i] == fv);
                    assert(valid_ir(fv.body@));
                }
            }
            let ghost mid = fns@;
            gen_functions(rest, fns);
            proof {
                let l = lower_program(*p);
                let lr = lower_program(**rest);
                assert(l == seq![(*name, fv.body@)] + lr);
                assert(fns@[old_fns.len() as int] == mid[old_fns.len() as int]);
                assert forall|i: int| 0 <= i < l.len() implies (#[trigger] fns@[old_fns.len() + i]).name
                    == l[i].0 && fns@[old_fns.len() + i].body@ == l[i].1 by {
                    if i > 0 {
                        assert(l[i] == lr[i - 1]);
                        assert(fns@[old_fns.len() + i] == fns@[mid.len() + (i - 1)]);
                    }
                }
                assert forall|i: int| 0 <= i < old_fns.len() implies #[trigger] fns@[i] == old_fns[i] by {
                    assert(fns@[i] == mid[i]);
                }
            }
        },
    }
}

/// Lowers a resolved program to IR, one function per definition, in order.
/// A function that runs off its end returns 0. The lowering cannot fail; in
/// every function each temporary is written before any instruction reads it,
/// and every branch targets a label that the function places.
pub fn generate_ir(p: &Program) -> (r: Vec<IrFunction>)
    ensures
        forall|i: int| 0 <= i < r@.len() ==> valid_ir(#[trigger] r@[i].body@),
        r@.len() == lower_program(*p).len(),
        forall|i: int|
            0 <= i < r@.len() ==> (#[trigger] r@[i]).name == lower_program(*p)[i].0 && r@[i].body@
                == lower_program(*p)[i].1,
{
    let mut fns: Vec<IrFunction> = Vec::new();
    gen_functions(p, &mut fns);
    assert forall|i: int| 0 <= i < fns@.len() implies (#[trigger] fns@[i]).name == lower_program(*p)[i].0
        && fns@[i].body@ == lower_program(*p)[i].1 by {
        assert(fns@[0 + i] == fns@[i]);
    }
    fns
}

} // verus!
