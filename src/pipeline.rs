use vstd::prelude::*;

use crate::stage::{CompileStage, ErrorKind};

verus! {

/// Which way the typed program is turned into assembly text.
#[derive(PartialEq, Eq, Structural, Clone, Copy, Debug)]
pub enum Backend {
    /// IR generation, code generation and emission by this compiler.
    Native,
    /// Alternate IR text, translated to assembly by an external tool.
    Alternate,
}

/// One unit of work of a compilation, in the order the driver performs them.
#[derive(PartialEq, Eq, Structural, Clone, Copy, Debug)]
pub enum Pass {
    Preprocess,
    ReadSource,
    Lex,
    Parse,
    Resolve,
    TypeCheck,
    GenerateIr,
    Codegen,
    Emit,
    WriteAsm,
    GenerateAltIr,
    WriteAltIr,
    Translate,
    Assemble,
}

/// What the driver does next.
#[derive(PartialEq, Eq, Structural, Clone, Copy, Debug)]
pub enum Action {
    Run(Pass),
    Finish,
    Abort(ErrorKind),
}

impl Pass {
    /// Position of the pass along either path; every successor lies further on.
    pub open spec fn pos(self) -> nat {
        match self {
            Pass::Preprocess => 0,
            Pass::ReadSource => 1,
            Pass::Lex => 2,
            Pass::Parse => 3,
            Pass::Resolve => 4,
            Pass::TypeCheck => 5,
            Pass::GenerateIr => 6,
            Pass::Codegen => 7,
            Pass::Emit => 8,
            Pass::WriteAsm => 9,
            Pass::GenerateAltIr => 6,
            Pass::WriteAltIr => 7,
            Pass::Translate => 8,
            Pass::Assemble => 10,
        }
    }

    /// IR generation is total over a typed program: it has no failure.
    pub open spec fn fallible(self) -> bool {
        !(self == Pass::GenerateIr || self == Pass::GenerateAltIr)
    }

    /// The error that ends the compilation when this pass fails.
    pub open spec fn failure_spec(self) -> ErrorKind {
        match self {
            Pass::Preprocess => ErrorKind::ExternalToolFault,
            Pass::ReadSource => ErrorKind::IOError,
            Pass::Lex => ErrorKind::LexerError,
            Pass::Parse => ErrorKind::ParserError,
            Pass::Resolve => ErrorKind::SemanticError,
            Pass::TypeCheck => ErrorKind::TypeCheckError,
            Pass::GenerateIr => ErrorKind::CodegenError,
            Pass::Codegen => ErrorKind::CodegenError,
            Pass::Emit => ErrorKind::AsmEmitError,
            Pass::WriteAsm => ErrorKind::IOError,
            Pass::GenerateAltIr => ErrorKind::CodegenError,
            Pass::WriteAltIr => ErrorKind::IOError,
            Pass::Translate => ErrorKind::ExternalToolFault,
            Pass::Assemble => ErrorKind::ExternalToolFault,
        }
    }

    pub fn failure(&self) -> (r: ErrorKind)
        ensures
            r == self.failure_spec(),
    {
        match self {
            Pass::Preprocess => ErrorKind::ExternalToolFault,
            Pass::ReadSource => ErrorKind::IOError,
            Pass::Lex => ErrorKind::LexerError,
            Pass::Parse => ErrorKind::ParserError,
            Pass::Resolve => ErrorKind::SemanticError,
            Pass::TypeCheck => ErrorKind::TypeCheckError,
            Pass::GenerateIr => ErrorKind::CodegenError,
            Pass::Codegen => ErrorKind::CodegenError,
            Pass::Emit => ErrorKind::AsmEmitError,
            Pass::WriteAsm => ErrorKind::IOError,
            Pass::GenerateAltIr => ErrorKind::CodegenError,
            Pass::WriteAltIr => ErrorKind::IOError,
            Pass::Translate => ErrorKind::ExternalToolFault,
            Pass::Assemble => ErrorKind::ExternalToolFault,
        }
    }
}

/// The pass after `p` on the path of `backend`, if any.
pub open spec fn succ_spec(p: Pass, backend: Backend) -> Option<Pass> {
    match p {
        Pass::Preprocess => Some(Pass::ReadSource),
        Pass::ReadSource => Some(Pass::Lex),
        Pass::Lex => Some(Pass::Parse),
        Pass::Parse => Some(Pass::Resolve),
        Pass::Resolve => Some(Pass::TypeCheck),
        Pass::TypeCheck => if backend == Backend::Native {
            Some(Pass::GenerateIr)
        } else {
            Some(Pass::GenerateAltIr)
        },
        Pass::GenerateIr => Some(Pass::Codegen),
        Pass::Codegen => Some(Pass::Emit),
        Pass::Emit => Some(Pass::WriteAsm),
        Pass::WriteAsm => Some(Pass::Assemble),
        Pass::GenerateAltIr => Some(Pass::WriteAltIr),
        Pass::WriteAltIr => Some(Pass::Translate),
        Pass::Translate => Some(Pass::Assemble),
        Pass::Assemble => None,
    }
}

/// The last pass performed when the caller asks to stop at `stage`.
pub open spec fn last_pass_spec(stage: CompileStage, backend: Backend) -> Pass {
    match stage {
        CompileStage::Lex => Pass::Lex,
        CompileStage::Parse => Pass::Parse,
        CompileStage::Validate => Pass::TypeCheck,
        CompileStage::IR => if backend == Backend::Native {
            Pass::GenerateIr
        } else {
            Pass::GenerateAltIr
        },
        CompileStage::Codegen => if backend == Backend::Native {
            Pass::Codegen
        } else {
            Pass::Translate
        },
        CompileStage::Full => Pass::Assemble,
    }
}

/// The driver's decision after pass `done` has run and succeeded (`ok`) or failed.
pub open spec fn next_action_spec(
    stage: CompileStage,
    backend: Backend,
    done: Pass,
    ok: bool,
) -> Action {
    if !ok {
        Action::Abort(done.failure_spec())
    } else if done == last_pass_spec(stage, backend) {
        Action::Finish
    } else {
        match succ_spec(done, backend) {
            Some(q) => Action::Run(q),
            None => Action::Finish,
        }
    }
}

/// The passes performed from `p` on, and the result of the compilation, when
/// each fallible pass `q` succeeds exactly when `ok(q)`.
pub open spec fn run_from(
    stage: CompileStage,
    backend: Backend,
    p: Pass,
    ok: spec_fn(Pass) -> bool,
) -> (Seq<Pass>, Result<(), ErrorKind>)
    decreases 11 - p.pos(),
{
    let passed = ok(p) || !p.fallible();
    match next_action_spec(stage, backend, p, passed) {
        // A successor always lies further on; the test only shows it to the
        // termination check.
        Action::Run(q) => if q.pos() > p.pos() {
            let rest = run_from(stage, backend, q, ok);
            (seq![p] + rest.0, rest.1)
        } else {
            (seq![p], Ok(()))
        },
        Action::Finish => (seq![p], Ok(())),
        Action::Abort(e) => (seq![p], Err(e)),
    }
}

/// A whole compilation: the passes performed and its result.
pub open spec fn run(stage: CompileStage, backend: Backend, ok: spec_fn(Pass) -> bool) -> (
    Seq<Pass>,
    Result<(), ErrorKind>,
) {
    run_from(stage, backend, Pass::Preprocess, ok)
}

/// The first thing a compilation does.
pub fn first_action() -> (r: Action)
    ensures
        r == Action::Run(Pass::Preprocess),
{
    Action::Run(Pass::Preprocess)
}

fn last_pass(stage: CompileStage, backend: Backend) -> (r: Pass)
    ensures
        r == last_pass_spec(stage, backend),
{
    let native = matches!(backend, Backend::Native);
    match stage {
        CompileStage::Lex => Pass::Lex,
        CompileStage::Parse => Pass::Parse,
        CompileStage::Validate => Pass::TypeCheck,
        CompileStage::IR => if native {
            Pass::GenerateIr
        } else {
            Pass::GenerateAltIr
        },
        CompileStage::Codegen => if native {
            Pass::Codegen
        } else {
            Pass::Translate
        },
        CompileStage::Full => Pass::Assemble,
    }
}

fn succ(p: Pass, backend: Backend) -> (r: Option<Pass>)
    ensures
        r == succ_spec(p, backend),
{
    match p {
        Pass::Preprocess => Some(Pass::ReadSource),
        Pass::ReadSource => Some(Pass::Lex),
        Pass::Lex => Some(Pass::Parse),
        Pass::Parse => Some(Pass::Resolve),
        Pass::Resolve => Some(Pass::TypeCheck),
        Pass::TypeCheck => if matches!(backend, Backend::Native) {
            Some(Pass::GenerateIr)
        } else {
            Some(Pass::GenerateAltIr)
        },
        Pass::GenerateIr => Some(Pass::Codegen),
        Pass::Codegen => Some(Pass::Emit),
        Pass::Emit => Some(Pass::WriteAsm),
        Pass::WriteAsm => Some(Pass::Assemble),
        Pass::GenerateAltIr => Some(Pass::WriteAltIr),
        Pass::WriteAltIr => Some(Pass::Translate),
        Pass::Translate => Some(Pass::Assemble),
        Pass::Assemble => None,
    }
}

/// Decides what follows pass `done`, which succeeded when `ok`: the next pass,
/// the end of a successful compilation at the requested stop point, or the
/// error of the failed pass.
pub fn next_action(stage: CompileStage, backend: Backend, done: Pass, ok: bool) -> (r: Action)
    requires
        ok || done.fallible(),
    ensures
        r == next_action_spec(stage, backend, done, ok),
{
    if !ok {
        Action::Abort(done.failure())
    } else if done == last_pass(stage, backend) {
        Action::Finish
    } else {
        match succ(done, backend) {
            Some(q) => Action::Run(q),
            None => Action::Finish,
        }
    }
}


/// Whether `p` lies on the path that `backend` takes.
pub open spec fn on_path(p: Pass, backend: Backend) -> bool {
    if backend == Backend::Native {
        !(p == Pass::GenerateAltIr || p == Pass::WriteAltIr || p == Pass::Translate)
    } else {
        !(p == Pass::GenerateIr || p == Pass::Codegen || p == Pass::Emit || p == Pass::WriteAsm)
    }
}

proof fn lemma_run_from_gated(
    stage: CompileStage,
    backend: Backend,
    p: Pass,
    ok: spec_fn(Pass) -> bool,
)
    requires
        on_path(p, backend),
        p.pos() <= last_pass_spec(stage, backend).pos(),
    ensures
        run_from(stage, backend, p, ok).0.len() >= 1,
        run_from(stage, backend, p, ok).0[0] == p,
        forall|i: int|
            0 <= i < run_from(stage, backend, p, ok).0.len() ==> {
                let q = #[trigger] run_from(stage, backend, p, ok).0[i];
                &&& on_path(q, backend)
                &&& p.pos() <= q.pos() <= last_pass_spec(stage, backend).pos()
            },
        forall|i: int, j: int|
            0 <= i < j < run_from(stage, backend, p, ok).0.len() ==> (#[trigger] run_from(
                stage,
                backend,
                p,
                ok,
            ).0[i]).pos() < (#[trigger] run_from(stage, backend, p, ok).0[j]).pos(),
        forall|i: int|
            0 <= i < run_from(stage, backend, p, ok).0.len() - 1 ==> succ_spec(
                #[trigger] run_from(stage, backend, p, ok).0[i],
                backend,
            ) == Some(run_from(stage, backend, p, ok).0[i + 1]),
    decreases 11 - p.pos(),
{
    let passed = ok(p) || !p.fallible();
    match next_action_spec(stage, backend, p, passed) {
        Action::Run(q) => {
            if q.pos() > p.pos() {
                lemma_run_from_gated(stage, backend, q, ok);
                let rest = run_from(stage, backend, q, ok).0;
                let all = run_from(stage, backend, p, ok).0;
                assert(all == seq![p] + rest);
                assert forall|i: int, j: int| 0 <= i < j < all.len() implies all[i].pos()
                    < all[j].pos() by {
                    if i > 0 {
                        assert(all[i] == rest[i - 1]);
                    }
                    assert(all[j] == rest[j - 1]);
                }
                assert forall|i: int| 0 <= i < all.len() - 1 implies succ_spec(all[i], backend)
                    == Some(all[i + 1]) by {
                    if i > 0 {
                        assert(all[i] == rest[i - 1]);
                    }
                    assert(all[i + 1] == rest[i]);
                }
                assert forall|i: int| 0 <= i < all.len() implies on_path(all[i], backend)
                    && p.pos() <= all[i].pos() <= last_pass_spec(stage, backend).pos() by {
                    if i > 0 {
                        assert(all[i] == rest[i - 1]);
                    }
                }
            }
        },
        _ => {},
    }
}

/// Stage gating: a compilation runs its passes in pipeline order, never the
/// same one twice, and none beyond the last pass of the requested stop stage.
/// So stopping after parsing never resolves, type-checks, generates code or
/// emits, and stopping after lexing never parses.
pub proof fn lemma_stage_gating(stage: CompileStage, backend: Backend, ok: spec_fn(Pass) -> bool)
    ensures
        forall|i: int|
            0 <= i < run(stage, backend, ok).0.len() ==> (#[trigger] run(
                stage,
                backend,
                ok,
            ).0[i]).pos() <= last_pass_spec(stage, backend).pos(),
        forall|i: int, j: int|
            0 <= i < j < run(stage, backend, ok).0.len() ==> (#[trigger] run(
                stage,
                backend,
                ok,
            ).0[i]).pos() < (#[trigger] run(stage, backend, ok).0[j]).pos(),
        stage == CompileStage::Parse ==> {
            let t = run(stage, backend, ok).0;
            &&& !t.contains(Pass::Resolve)
            &&& !t.contains(Pass::TypeCheck)
            &&& !t.contains(Pass::GenerateIr)
            &&& !t.contains(Pass::GenerateAltIr)
            &&& !t.contains(Pass::Codegen)
            &&& !t.contains(Pass::Emit)
            &&& !t.contains(Pass::Translate)
        },
        stage == CompileStage::Lex ==> !run(stage, backend, ok).0.contains(Pass::Parse),
{
    lemma_run_from_gated(stage, backend, Pass::Preprocess, ok);
}

/// First-error semantics: when resolution fails, the compilation ends with the
/// semantic error and the type checker never runs, whatever it would have found.
pub proof fn lemma_first_error(stage: CompileStage, backend: Backend, ok: spec_fn(Pass) -> bool)
    requires
        stage.rank() >= CompileStage::Validate.rank(),
        ok(Pass::Preprocess),
        ok(Pass::ReadSource),
        ok(Pass::Lex),
        ok(Pass::Parse),
        !ok(Pass::Resolve),
    ensures
        run(stage, backend, ok).1 == Err::<(), ErrorKind>(ErrorKind::SemanticError),
        run(stage, backend, ok).0 == seq![
            Pass::Preprocess,
            Pass::ReadSource,
            Pass::Lex,
            Pass::Parse,
            Pass::Resolve,
        ],
        !run(stage, backend, ok).0.contains(Pass::TypeCheck),
{
    reveal_with_fuel(run_from, 6);
    let t = run(stage, backend, ok).0;
    assert(t =~= seq![Pass::Preprocess, Pass::ReadSource, Pass::Lex, Pass::Parse, Pass::Resolve]);
    assert forall|i: int| 0 <= i < t.len() implies t[i] != Pass::TypeCheck by {}
}

/// A compilation in which every pass succeeds ends well, after the last pass
/// of the requested stop stage.
pub proof fn lemma_all_succeed(stage: CompileStage, backend: Backend, ok: spec_fn(Pass) -> bool)
    requires
        forall|p: Pass| #[trigger] ok(p),
    ensures
        run(stage, backend, ok).1 == Ok::<(), ErrorKind>(()),
        run(stage, backend, ok).0.last() == last_pass_spec(stage, backend),
{
    lemma_run_from_succeeds(stage, backend, Pass::Preprocess, ok);
}

proof fn lemma_run_from_succeeds(
    stage: CompileStage,
    backend: Backend,
    p: Pass,
    ok: spec_fn(Pass) -> bool,
)
    requires
        forall|q: Pass| #[trigger] ok(q),
        on_path(p, backend),
        p.pos() <= last_pass_spec(stage, backend).pos(),
    ensures
        run_from(stage, backend, p, ok).1 == Ok::<(), ErrorKind>(()),
        run_from(stage, backend, p, ok).0.last() == last_pass_spec(stage, backend),
    decreases 11 - p.pos(),
{
    assert(ok(p));
    if p != last_pass_spec(stage, backend) {
        let q = succ_spec(p, backend).unwrap();
        lemma_run_from_succeeds(stage, backend, q, ok);
    }
}


/// The intermediate files of a compilation.
#[derive(PartialEq, Eq, Structural, Clone, Copy, Debug)]
pub enum Artifact {
    /// `S.i`, the expanded source.
    Expanded,
    /// `S.s`, the assembly text.
    Asm,
    /// `S.ll`, the alternate IR text.
    AltIr,
}

/// The intermediate file that pass `p` creates, if any.
pub open spec fn produced_spec(p: Pass) -> Option<Artifact> {
    match p {
        Pass::Preprocess => Some(Artifact::Expanded),
        Pass::WriteAsm => Some(Artifact::Asm),
        Pass::Translate => Some(Artifact::Asm),
        Pass::WriteAltIr => Some(Artifact::AltIr),
        _ => None,
    }
}

/// The intermediate file deleted once pass `p` has run (`ok` when it
/// succeeded): the file it consumes, whether it succeeded or not, or the
/// file that a failed preprocessor may have left half-written.
pub open spec fn released_spec(p: Pass, ok: bool) -> Option<Artifact> {
    match p {
        Pass::Preprocess => if ok {
            None
        } else {
            Some(Artifact::Expanded)
        },
        Pass::ReadSource => Some(Artifact::Expanded),
        Pass::Translate => Some(Artifact::AltIr),
        Pass::Assemble => Some(Artifact::Asm),
        _ => None,
    }
}

pub fn produced_by(p: Pass) -> (r: Option<Artifact>)
    ensures
        r == produced_spec(p),
{
    match p {
        Pass::Preprocess => Some(Artifact::Expanded),
        Pass::WriteAsm => Some(Artifact::Asm),
        Pass::Translate => Some(Artifact::Asm),
        Pass::WriteAltIr => Some(Artifact::AltIr),
        _ => None,
    }
}

pub fn released_after(p: Pass, ok: bool) -> (r: Option<Artifact>)
    ensures
        r == released_spec(p, ok),
{
    match p {
        Pass::Preprocess => if ok {
            None
        } else {
            Some(Artifact::Expanded)
        },
        Pass::ReadSource => Some(Artifact::Expanded),
        Pass::Translate => Some(Artifact::AltIr),
        Pass::Assemble => Some(Artifact::Asm),
        _ => None,
    }
}

/// Scoped intermediate files: every file that a pass of a compilation creates
/// is deleted right after the pass that follows it, which consumes it. Only
/// the last pass of a run, where the requested stop stage or a failure ends
/// it, can leave its file behind.
pub proof fn lemma_artifacts_released(
    stage: CompileStage,
    backend: Backend,
    ok: spec_fn(Pass) -> bool,
    i: int,
    next_ok: bool,
)
    requires
        0 <= i < run(stage, backend, ok).0.len() - 1,
        produced_spec(run(stage, backend, ok).0[i]) is Some,
    ensures
        released_spec(run(stage, backend, ok).0[i + 1], next_ok) == produced_spec(run(stage, backend, ok).0[i]),
{
    lemma_run_from_gated(stage, backend, Pass::Preprocess, ok);
    let t = run(stage, backend, ok).0;
    assert(succ_spec(t[i], backend) == Some(t[i + 1]));
}

} // verus!
