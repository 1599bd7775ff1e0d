use c_compiler::driver::Driver;
use c_compiler::ir::{generate_ir, Instr, Val};
use c_compiler::lexer::run_lexer;
use c_compiler::parser::parse_program;
use c_compiler::resolver::resolve;
use c_compiler::parser::BinaryOp;
use c_compiler::stage::{CompileStage, ErrorKind};

#[test]
fn driver_derives_artifact_paths() {
    let d = Driver::new("dir/prog.c");
    assert_eq!(d.source(), "dir/prog.c");
    assert_eq!(d.preprocessed_path(), "dir/prog.i");
    assert_eq!(d.asm_file(), "dir/prog.s");
    assert_eq!(d.llvm_ir_path(), "dir/prog.ll");
    assert_eq!(d.object_path(), "dir/prog.o");
    assert_eq!(d.binary_path(), "dir/prog");
    assert_eq!(d.artifact_path(c_compiler::pipeline::Artifact::AltIr), "dir/prog.ll");
    assert_eq!(d.output_path(true), "dir/prog");
    assert_eq!(d.output_path(false), "dir/prog.o");
}

#[test]
fn asm_path_only_when_assembly_is_written() {
    let d = Driver::new("a.c");
    let src = "int main() { return 1 + 2; }";
    let toks = run_lexer(src).unwrap();
    let ir = generate_ir(&resolve(src, &toks, &parse_program(&toks).unwrap()).unwrap());
    let (path, text) = d.asm_path(&ir, src, &toks, CompileStage::Full).unwrap();
    assert_eq!(path, "a.s");
    assert!(text.contains("main:\n"));
    assert!(d.asm_path(&ir, src, &toks, CompileStage::Codegen).is_none());
    assert!(d.asm_path(&ir, src, &toks, CompileStage::IR).is_none());
    assert!(d.asm_path(&ir, src, &toks, CompileStage::Lex).is_none());
    assert_eq!(d.llvm_asm_path(CompileStage::Full), Some("a.s".to_string()));
    assert_eq!(d.llvm_asm_path(CompileStage::Codegen), Some("a.s".to_string()));
    assert_eq!(d.llvm_asm_path(CompileStage::Lex), Some("a.s".to_string()));
    assert_eq!(d.llvm_asm_path(CompileStage::IR), None);
}

#[test]
fn assembler_args_link_and_object() {
    let d = Driver::new("dir/p.c");
    assert_eq!(d.assembler_args(true), vec!["dir/p.s", "-masm=intel", "-g", "-o", "dir/p"]);
    assert_eq!(d.assembler_args(false), vec!["-c", "dir/p.s", "-masm=intel", "-g", "-o", "dir/p.o"]);
}

#[test]
fn driver_lex_reports_tokens() {
    let d = Driver::new("a.c");
    assert_eq!(d.lex("int main() { return 1 + 2; }".to_string()).unwrap().len(), 11);
    assert!(d.lex("int $;".to_string()).is_err());
}

#[test]
fn stage_order() {
    assert!(CompileStage::Full.reaches(CompileStage::Lex));
    assert!(CompileStage::Parse.reaches(CompileStage::Parse));
    assert!(!CompileStage::Parse.reaches(CompileStage::Validate));
    assert!(CompileStage::Lex.is_lex());
    assert!(!CompileStage::Lex.is_parse());
    assert!(CompileStage::IR.is_ir());
    assert!(CompileStage::Validate.is_validate());
    assert!(CompileStage::Codegen.is_codegen());
}

#[test]
fn error_exit_codes_are_distinct_and_nonzero() {
    let all = [
        ErrorKind::LexerError,
        ErrorKind::ParserError,
        ErrorKind::SemanticError,
        ErrorKind::TypeCheckError,
        ErrorKind::CodegenError,
        ErrorKind::AsmEmitError,
        ErrorKind::IOError,
        ErrorKind::ExternalToolFault,
    ];
    for (i, a) in all.iter().enumerate() {
        assert_ne!(a.exit_code(), 0);
        for b in all.iter().skip(i + 1) {
            assert_ne!(a.exit_code(), b.exit_code());
        }
    }
    assert_eq!(ErrorKind::LexerError.message(), "Lexer Failed");
    assert_eq!(ErrorKind::SemanticError.message(), "Semantic Analysis Failed");
}

#[test]
fn stage_from_flags_picks_earliest() {
    assert_eq!(CompileStage::from_flags(false, false, false), CompileStage::Full);
    assert_eq!(CompileStage::from_flags(true, true, true), CompileStage::Lex);
    assert_eq!(CompileStage::from_flags(false, true, true), CompileStage::Parse);
    assert_eq!(CompileStage::from_flags(false, false, true), CompileStage::Codegen);
}

#[test]
fn front_end_return_sum() {
    let d = Driver::new("sum.c");
    let src = "int main() { return 1 + 2; }".to_string();
    assert_eq!(d.run_front_end(src.clone(), CompileStage::Lex).unwrap(), None);
    assert_eq!(d.run_front_end(src.clone(), CompileStage::Parse).unwrap(), None);
    assert_eq!(d.run_front_end(src.clone(), CompileStage::Validate).unwrap(), None);
    let ir = d.run_front_end(src, CompileStage::Full).unwrap().unwrap();
    assert_eq!(ir.len(), 1);
    assert_eq!(
        ir[0].body,
        vec![
            Instr::Binary(BinaryOp::Add, Val::Constant(1), Val::Constant(2), Val::Temp(0)),
            Instr::Return(Val::Temp(0)),
            Instr::Return(Val::Constant(0)),
        ]
    );
}

#[test]
fn front_end_undeclared_identifier() {
    let d = Driver::new("f.c");
    let r = d.run_front_end("int f() { return x; }".to_string(), CompileStage::Full);
    assert_eq!(r.err(), Some(ErrorKind::SemanticError));
}

#[test]
fn front_end_unbalanced_braces() {
    let d = Driver::new("f.c");
    let r = d.run_front_end("int main() { { return 0; }".to_string(), CompileStage::Full);
    assert_eq!(r.err(), Some(ErrorKind::ParserError));
}

#[test]
fn front_end_duplicate_declaration() {
    let d = Driver::new("f.c");
    let r = d.run_front_end("int main() { int x; int x; return 0; }".to_string(), CompileStage::Validate);
    assert_eq!(r.err(), Some(ErrorKind::SemanticError));
}

#[test]
fn front_end_semantic_error_before_type_error() {
    let d = Driver::new("f.c");
    let src = "int main() { 1 = 2; return y; }".to_string();
    assert_eq!(d.run_front_end(src, CompileStage::Full).err(), Some(ErrorKind::SemanticError));
    let typed = "int main() { int y; 1 = 2; return y; }".to_string();
    assert_eq!(d.run_front_end(typed, CompileStage::Full).err(), Some(ErrorKind::TypeCheckError));
}

#[test]
fn front_end_stops_before_later_failures() {
    let d = Driver::new("f.c");
    let bad_parse = "int main() { return 0;".to_string();
    assert_eq!(d.run_front_end(bad_parse.clone(), CompileStage::Lex), Ok(None));
    assert_eq!(d.run_front_end(bad_parse, CompileStage::Parse).err(), Some(ErrorKind::ParserError));
    let bad_names = "int main() { return y; }".to_string();
    assert_eq!(d.run_front_end(bad_names, CompileStage::Parse), Ok(None));
    assert_eq!(d.run_front_end("int main() { return 1 # 2; }".to_string(), CompileStage::Lex).err(), Some(ErrorKind::LexerError));
}

#[test]
fn driver_stem_drops_two_bytes() {
    assert_eq!(Driver::new("a\u{e9}").binary_path(), "a");
    assert_eq!(Driver::new("\u{e9}").binary_path(), "");
    assert_eq!(Driver::new("x.c").asm_file(), "x.s");
}
