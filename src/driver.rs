use vstd::prelude::*;
use vstd::string::StringSliceAdditionalSpecFns;
use vstd::utf8::{encode_utf8, is_char_boundary};

use crate::emit::{compile_ir, ir_asm_text};
use crate::ir::{generate_ir, lower_program, valid_ir, IrFunction};
use crate::lexer::{lemma_lex_len, lex_spec, run_lexer, LexError, LexerResult, Token};
use crate::parser::{parse_program, parse_spec, ParseError, ParserResult, Program};
use crate::pipeline::{last_pass_spec, Artifact, Backend, Pass};
use crate::resolver::{resolve, resolve_spec};
use crate::stage::{CompileStage, ErrorKind};
use crate::typecheck::{typecheck, typecheck_spec};

verus! {

/// How the in-memory passes end on the expanded source `s` when the caller
/// stops at `stage`: with the error of the first pass that fails, or with
/// whether IR generation is reached. Each pass runs only once the one before
/// it has succeeded and the stop stage lies beyond it.
pub open spec fn front_end_outcome(s: Seq<char>, stage: CompileStage) -> Result<bool, ErrorKind> {
    match lex_spec(s) {
        Err(_) => Err(ErrorKind::LexerError),
        Ok(t) => if stage == CompileStage::Lex {
            Ok(false)
        } else {
            match parse_spec(t) {
                Err(_) => Err(ErrorKind::ParserError),
                Ok(p) => if stage == CompileStage::Parse {
                    Ok(false)
                } else {
                    match resolve_spec(s, t, p) {
                        Err(_) => Err(ErrorKind::SemanticError),
                        Ok(p2) => match typecheck_spec(p2) {
                            Err(_) => Err(ErrorKind::TypeCheckError),
                            Ok(()) => Ok(stage != CompileStage::Validate),
                        },
                    }
                },
            }
        },
    }
}

/// The resolved program of the expanded source `s`, where lexing, parsing
/// and resolution all succeed.
pub open spec fn front_end_program(s: Seq<char>) -> Program {
    resolve_spec(s, lex_spec(s)->Ok_0, parse_spec(lex_spec(s)->Ok_0)->Ok_0)->Ok_0
}

/// One compilation unit: the source path and the stem `S` from which every
/// intermediate artifact's path is derived.
pub struct Driver {
    path: String,
    name: String,
}

impl Driver {
    /// The path of the source file.
    pub closed spec fn source_path(&self) -> Seq<char> {
        self.path@
    }

    /// The source path without its two-character extension.
    pub closed spec fn stem(&self) -> Seq<char> {
        self.name@
    }

    /// A driver for the source file at `path` (such as `prog.c`): the stem
    /// is the path without its last two bytes, which must end on a character
    /// boundary.
    pub fn new(path: &str) -> (r: Self)
        requires
            2 <= path.spec_bytes().len() <= usize::MAX,
            is_char_boundary(path.spec_bytes(), path.spec_bytes().len() - 2),
        ensures
            r.source_path() == path@,
            encode_utf8(r.stem()) == path.spec_bytes().subrange(0, path.spec_bytes().len() - 2),
    {
        let n = path.len();
        let (stem, _) = path.split_at(n - 2);
        Driver { path: path.to_owned(), name: stem.to_owned() }
    }

    pub fn source(&self) -> (r: String)
        ensures
            r@ == self.source_path(),
    {
        self.path.clone()
    }

    fn with_suffix(&self, suffix: &str) -> (r: String)
        ensures
            r@ == self.stem() + suffix@,
    {
        self.name.clone().concat(suffix)
    }

    /// `S.i`: the expanded source written by the preprocessor.
    pub fn preprocessed_path(&self) -> (r: String)
        ensures
            r@ == self.stem() + ".i"@,
    {
        self.with_suffix(".i")
    }

    /// `S.s`: the assembly text.
    pub fn asm_file(&self) -> (r: String)
        ensures
            r@ == self.stem() + ".s"@,
    {
        self.with_suffix(".s")
    }

    /// `S.ll`: the alternate IR text.
    pub fn llvm_ir_path(&self) -> (r: String)
        ensures
            r@ == self.stem() + ".ll"@,
    {
        self.with_suffix(".ll")
    }

    /// `S.o`: the object file.
    pub fn object_path(&self) -> (r: String)
        ensures
            r@ == self.stem() + ".o"@,
    {
        self.with_suffix(".o")
    }

    /// `S`: the linked executable.
    pub fn binary_path(&self) -> (r: String)
        ensures
            r@ == self.stem(),
    {
        self.name.clone()
    }

    /// The path of an intermediate file.
    pub fn artifact_path(&self, a: Artifact) -> (r: String)
        ensures
            a == Artifact::Expanded ==> r@ == self.stem() + ".i"@,
            a == Artifact::Asm ==> r@ == self.stem() + ".s"@,
            a == Artifact::AltIr ==> r@ == self.stem() + ".ll"@,
    {
        match a {
            Artifact::Expanded => self.preprocessed_path(),
            Artifact::Asm => self.asm_file(),
            Artifact::AltIr => self.llvm_ir_path(),
        }
    }

    /// What the assembler produces: the executable when linking, else the object file.
    pub fn output_path(&self, link: bool) -> (r: String)
        ensures
            link ==> r@ == self.stem(),
            !link ==> r@ == self.stem() + ".o"@,
    {
        if link {
            self.binary_path()
        } else {
            self.object_path()
        }
    }

    /// The arguments of the assembler run: assemble and link into `S`, or
    /// with `-c` assemble only into `S.o`.
    pub fn assembler_args(&self, link: bool) -> (r: Vec<String>)
        ensures
            link ==> r@.len() == 5 && r@[0]@ == self.stem() + ".s"@ && r@[1]@ == "-masm=intel"@
                && r@[2]@ == "-g"@ && r@[3]@ == "-o"@ && r@[4]@ == self.stem(),
            !link ==> r@.len() == 6 && r@[0]@ == "-c"@ && r@[1]@ == self.stem() + ".s"@ && r@[2]@
                == "-masm=intel"@ && r@[3]@ == "-g"@ && r@[4]@ == "-o"@ && r@[5]@ == self.stem()
                + ".o"@,
    {
        let mut r: Vec<String> = Vec::new();
        if !link {
            r.push(String::from_str("-c"));
        }
        r.push(self.asm_file());
        r.push(String::from_str("-masm=intel"));
        r.push(String::from_str("-g"));
        r.push(String::from_str("-o"));
        r.push(self.output_path(link));
        r
    }

    /// The native path from IR on: code generation, which cannot fail on IR,
    /// then emission. When a run that stops at `stage` goes as far as writing
    /// assembly it gives the path `S.s` and the text to write there; when it
    /// stops after code generation (or earlier) it gives none.
    pub fn asm_path(&self, ir: &Vec<IrFunction>, source: &str, tokens: &Vec<Token>, stage: CompileStage) -> (r: Option<
        (String, String),
    >)
        ensures
            r is Some <==> last_pass_spec(stage, Backend::Native).pos() >= Pass::WriteAsm.pos(),
            r matches Some((p, text)) ==> p@ == self.stem() + ".s"@ && text@ == ir_asm_text(
                ir@,
                source@,
                tokens@,
            ),
    {
        if stage.is_full() {
            Some((self.asm_file(), compile_ir(ir, source, tokens)))
        } else {
            None
        }
    }

    /// Where the alternate path leaves assembly text: `S.s`, at every stop
    /// stage but IR, where the alternate IR is produced and not translated.
    pub fn llvm_asm_path(&self, stage: CompileStage) -> (r: Option<String>)
        ensures
            r is Some <==> stage != CompileStage::IR,
            r matches Some(p) ==> p@ == self.stem() + ".s"@,
    {
        if stage.is_ir() {
            None
        } else {
            Some(self.asm_file())
        }
    }

    /// The tokens of the expanded source, or its first lexical error.
    pub fn lex(&self, source: String) -> (r: LexerResult<Vec<Token>>)
        requires
            source@.len() < usize::MAX,
        ensures
            r matches Ok(v) ==> lex_spec(source@) == Ok::<Seq<Token>, LexError>(v@),
            r matches Err(e) ==> lex_spec(source@) == Err::<Seq<Token>, LexError>(e),
    {
        run_lexer(source.as_str())
    }

    /// The program that the tokens spell, or the first departure from the grammar.
    pub fn parse(&self, tokens: Vec<Token>) -> (r: ParserResult<Program>)
        requires
            tokens@.len() < usize::MAX,
        ensures
            r matches Ok(p) ==> parse_spec(tokens@) == Ok::<Program, ParseError>(p),
            r matches Err(e) ==> parse_spec(tokens@) == Err::<Program, ParseError>(e),
    {
        parse_program(&tokens)
    }

    /// Lowers a validated program to IR; this never fails.
    pub fn generate_ir(&self, ast: &Program) -> (r: Vec<IrFunction>)
        ensures
            forall|i: int| 0 <= i < r@.len() ==> valid_ir(#[trigger] r@[i].body@),
            r@.len() == lower_program(*ast).len(),
            forall|i: int|
                0 <= i < r@.len() ==> (#[trigger] r@[i]).name == lower_program(*ast)[i].0
                    && r@[i].body@ == lower_program(*ast)[i].1,
    {
        generate_ir(ast)
    }

    /// Name resolution, then type checking: the resolved program, or the
    /// error of the first of the two that fails. A program that breaks both
    /// kinds of rule is reported as a semantic error, since resolution comes
    /// first.
    pub fn validate(&self, source: &str, tokens: &Vec<Token>, ast: &Program) -> (r: Result<
        Program,
        ErrorKind,
    >)
        ensures
            resolve_spec(source@, tokens@, *ast) is Err ==> r == Err::<Program, ErrorKind>(
                ErrorKind::SemanticError,
            ),
            resolve_spec(source@, tokens@, *ast) matches Ok(p) ==> (if typecheck_spec(p) is Ok {
                r == Ok::<Program, ErrorKind>(p)
            } else {
                r == Err::<Program, ErrorKind>(ErrorKind::TypeCheckError)
            }),
    {
        match resolve(source, tokens, ast) {
            Ok(p) => match typecheck(&p) {
                Ok(()) => Ok(p),
                Err(_) => Err(ErrorKind::TypeCheckError),
            },
            Err(_) => Err(ErrorKind::SemanticError),
        }
    }

    /// The passes that work on the expanded source in memory, in order, up
    /// to the stop stage: lexing, parsing, validation and IR generation. It
    /// gives the IR when the stop stage lies beyond validation, nothing when
    /// it stops earlier, or the error of the first pass that fails.
    pub fn run_front_end(&self, source: String, stage: CompileStage) -> (r: Result<
        Option<Vec<IrFunction>>,
        ErrorKind,
    >)
        requires
            source@.len() < usize::MAX,
        ensures
            front_end_outcome(source@, stage) matches Err(e) ==> r == Err::<
                Option<Vec<IrFunction>>,
                ErrorKind,
            >(e),
            front_end_outcome(source@, stage) == Ok::<bool, ErrorKind>(false) ==> r == Ok::<
                Option<Vec<IrFunction>>,
                ErrorKind,
            >(None),
            front_end_outcome(source@, stage) == Ok::<bool, ErrorKind>(true) ==> (r matches Ok(
                Some(ir),
            ) && ir@.len() == lower_program(front_end_program(source@)).len() && forall|i: int|
                0 <= i < ir@.len() ==> valid_ir(#[trigger] ir@[i].body@) && ir@[i].name
                    == lower_program(front_end_program(source@))[i].0 && ir@[i].body@
                    == lower_program(front_end_program(source@))[i].1),
    {
        let text = source.clone();
        let tokens = match run_lexer(source.as_str()) {
            Ok(t) => t,
            Err(_) => {
                return Err(ErrorKind::LexerError);
            },
        };
        if stage.is_lex() {
            return Ok(None);
        }
        proof {
            lemma_lex_len(source@);
        }
        let ast = match parse_program(&tokens) {
            Ok(p) => p,
            Err(_) => {
                return Err(ErrorKind::ParserError);
            },
        };
        if stage.is_parse() {
            return Ok(None);
        }
        let ast = match self.validate(text.as_str(), &tokens, &ast) {
            Ok(p) => p,
            Err(e) => {
                return Err(e);
            },
        };
        if stage.is_validate() {
            return Ok(None);
        }
        Ok(Some(generate_ir(&ast)))
    }
}

/// Stage gating of the in-memory passes: stopping after lexing decides on the
/// tokens alone, and stopping after parsing on the tokens and the tree alone;
/// neither consults resolution, type checking or IR generation.
pub proof fn lemma_front_end_gating(s: Seq<char>)
    ensures
        front_end_outcome(s, CompileStage::Lex) == (match lex_spec(s) {
            Err(_) => Err::<bool, ErrorKind>(ErrorKind::LexerError),
            Ok(_) => Ok::<bool, ErrorKind>(false),
        }),
        front_end_outcome(s, CompileStage::Parse) == (match lex_spec(s) {
            Err(_) => Err::<bool, ErrorKind>(ErrorKind::LexerError),
            Ok(t) => match parse_spec(t) {
                Err(_) => Err::<bool, ErrorKind>(ErrorKind::ParserError),
                Ok(_) => Ok::<bool, ErrorKind>(false),
            },
        }),
{
}

/// First-error semantics: a program that fails name resolution is reported
/// with the semantic error whatever type checking would find in it.
pub proof fn lemma_semantic_error_first(s: Seq<char>, stage: CompileStage)
    requires
        stage.rank() >= CompileStage::Validate.rank(),
        lex_spec(s) is Ok,
        parse_spec(lex_spec(s)->Ok_0) is Ok,
        resolve_spec(s, lex_spec(s)->Ok_0, parse_spec(lex_spec(s)->Ok_0)->Ok_0) is Err,
    ensures
        front_end_outcome(s, stage) == Err::<bool, ErrorKind>(ErrorKind::SemanticError),
{
}

} // verus!

