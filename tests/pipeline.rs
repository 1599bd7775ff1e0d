use c_compiler::pipeline::{
    first_action, next_action, produced_by, released_after, Action, Artifact, Backend, Pass,
};
use c_compiler::stage::{CompileStage, ErrorKind};

/// Drives the decisions with `failing` as the one pass that fails, if any.
fn simulate(stage: CompileStage, backend: Backend, failing: Option<Pass>) -> (Vec<Pass>, Result<(), ErrorKind>) {
    let mut ran = Vec::new();
    let mut action = first_action();
    loop {
        match action {
            Action::Run(p) => {
                ran.push(p);
                let ok = Some(p) != failing;
                action = next_action(stage, backend, p, ok);
            }
            Action::Finish => return (ran, Ok(())),
            Action::Abort(e) => return (ran, Err(e)),
        }
    }
}

#[test]
fn stop_after_lex_never_parses() {
    let (ran, r) = simulate(CompileStage::Lex, Backend::Native, None);
    assert_eq!(ran, vec![Pass::Preprocess, Pass::ReadSource, Pass::Lex]);
    assert_eq!(r, Ok(()));
}

#[test]
fn stop_after_parse_never_validates() {
    let (ran, r) = simulate(CompileStage::Parse, Backend::Native, None);
    assert_eq!(ran, vec![Pass::Preprocess, Pass::ReadSource, Pass::Lex, Pass::Parse]);
    assert_eq!(r, Ok(()));
}

#[test]
fn full_native_run() {
    let (ran, r) = simulate(CompileStage::Full, Backend::Native, None);
    assert_eq!(
        ran,
        vec![
            Pass::Preprocess,
            Pass::ReadSource,
            Pass::Lex,
            Pass::Parse,
            Pass::Resolve,
            Pass::TypeCheck,
            Pass::GenerateIr,
            Pass::Codegen,
            Pass::Emit,
            Pass::WriteAsm,
            Pass::Assemble,
        ]
    );
    assert_eq!(r, Ok(()));
}

#[test]
fn full_alternate_run() {
    let (ran, r) = simulate(CompileStage::Full, Backend::Alternate, None);
    assert_eq!(
        ran,
        vec![
            Pass::Preprocess,
            Pass::ReadSource,
            Pass::Lex,
            Pass::Parse,
            Pass::Resolve,
            Pass::TypeCheck,
            Pass::GenerateAltIr,
            Pass::WriteAltIr,
            Pass::Translate,
            Pass::Assemble,
        ]
    );
    assert_eq!(r, Ok(()));
}

#[test]
fn codegen_stop_skips_emission() {
    let (ran, _) = simulate(CompileStage::Codegen, Backend::Native, None);
    assert_eq!(ran.last(), Some(&Pass::Codegen));
    let (ran, _) = simulate(CompileStage::IR, Backend::Alternate, None);
    assert_eq!(ran.last(), Some(&Pass::GenerateAltIr));
}

#[test]
fn resolver_failure_hides_type_errors() {
    let (ran, r) = simulate(CompileStage::Full, Backend::Native, Some(Pass::Resolve));
    assert_eq!(r, Err(ErrorKind::SemanticError));
    assert!(!ran.contains(&Pass::TypeCheck));
}

#[test]
fn each_failure_maps_to_its_error() {
    let cases = [
        (Pass::Preprocess, ErrorKind::ExternalToolFault),
        (Pass::ReadSource, ErrorKind::IOError),
        (Pass::Lex, ErrorKind::LexerError),
        (Pass::Parse, ErrorKind::ParserError),
        (Pass::TypeCheck, ErrorKind::TypeCheckError),
        (Pass::Codegen, ErrorKind::CodegenError),
        (Pass::Emit, ErrorKind::AsmEmitError),
        (Pass::WriteAsm, ErrorKind::IOError),
        (Pass::Assemble, ErrorKind::ExternalToolFault),
    ];
    for (p, e) in cases {
        let (ran, r) = simulate(CompileStage::Full, Backend::Native, Some(p));
        assert_eq!(r, Err(e));
        assert_eq!(ran.last(), Some(&p));
    }
}

#[test]
fn artifacts_released_by_their_consumer() {
    assert_eq!(produced_by(Pass::Preprocess), Some(Artifact::Expanded));
    assert_eq!(released_after(Pass::Preprocess, false), Some(Artifact::Expanded));
    assert_eq!(released_after(Pass::Preprocess, true), None);
    assert_eq!(released_after(Pass::ReadSource, true), Some(Artifact::Expanded));
    assert_eq!(produced_by(Pass::WriteAsm), Some(Artifact::Asm));
    assert_eq!(produced_by(Pass::WriteAltIr), Some(Artifact::AltIr));
    assert_eq!(released_after(Pass::Translate, false), Some(Artifact::AltIr));
    assert_eq!(produced_by(Pass::Translate), Some(Artifact::Asm));
    assert_eq!(released_after(Pass::Assemble, true), Some(Artifact::Asm));
    assert_eq!(released_after(Pass::Lex, false), None);
    for backend in [Backend::Native, Backend::Alternate] {
        let (ran, _) = simulate(CompileStage::Full, backend, None);
        for w in ran.windows(2) {
            if let Some(a) = produced_by(w[0]) {
                assert_eq!(released_after(w[1], true), Some(a));
                assert_eq!(released_after(w[1], false), Some(a));
            }
        }
    }
}
