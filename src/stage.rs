use vstd::prelude::*;

verus! {

/// The stop points of the pipeline, in the order in which they are reached.
#[derive(PartialEq, Eq, Structural, Clone, Copy, Debug)]
pub enum CompileStage {
    Lex,
    Parse,
    Validate,
    IR,
    Codegen,
    Full,
}

impl CompileStage {
    /// Position of the stage in the pipeline's total order.
    pub open spec fn rank(self) -> nat {
        match self {
            CompileStage::Lex => 0,
            CompileStage::Parse => 1,
            CompileStage::Validate => 2,
            CompileStage::IR => 3,
            CompileStage::Codegen => 4,
            CompileStage::Full => 5,
        }
    }

    pub fn is_lex(&self) -> (r: bool)
        ensures
            r == (*self == CompileStage::Lex),
    {
        matches!(self, CompileStage::Lex)
    }

    pub fn is_parse(&self) -> (r: bool)
        ensures
            r == (*self == CompileStage::Parse),
    {
        matches!(self, CompileStage::Parse)
    }

    pub fn is_validate(&self) -> (r: bool)
        ensures
            r == (*self == CompileStage::Validate),
    {
        matches!(self, CompileStage::Validate)
    }

    pub fn is_ir(&self) -> (r: bool)
        ensures
            r == (*self == CompileStage::IR),
    {
        matches!(self, CompileStage::IR)
    }

    pub fn is_codegen(&self) -> (r: bool)
        ensures
            r == (*self == CompileStage::Codegen),
    {
        matches!(self, CompileStage::Codegen)
    }

    pub fn is_full(&self) -> (r: bool)
        ensures
            r == (*self == CompileStage::Full),
    {
        matches!(self, CompileStage::Full)
    }

    /// The stop stage that the command-line flags select: the earliest one
    /// asked for, or the whole pipeline when none is.
    pub fn from_flags(lex: bool, parse: bool, codegen: bool) -> (r: CompileStage)
        ensures
            r == (if lex {
                CompileStage::Lex
            } else if parse {
                CompileStage::Parse
            } else if codegen {
                CompileStage::Codegen
            } else {
                CompileStage::Full
            }),
    {
        if lex {
            CompileStage::Lex
        } else if parse {
            CompileStage::Parse
        } else if codegen {
            CompileStage::Codegen
        } else {
            CompileStage::Full
        }
    }

    /// Whether a run that stops at `self` goes at least as far as `other`.
    pub fn reaches(&self, other: CompileStage) -> (r: bool)
        ensures
            r == (self.rank() >= other.rank()),
    {
        self.index() >= other.index()
    }

    fn index(&self) -> (r: u8)
        ensures
            r as nat == self.rank(),
    {
        match self {
            CompileStage::Lex => 0,
            CompileStage::Parse => 1,
            CompileStage::Validate => 2,
            CompileStage::IR => 3,
            CompileStage::Codegen => 4,
            CompileStage::Full => 5,
        }
    }
}

/// The one error with which a failing compilation ends; each names the stage
/// (or the environment) at fault.
#[derive(PartialEq, Eq, Structural, Clone, Copy, Debug)]
pub enum ErrorKind {
    LexerError,
    ParserError,
    SemanticError,
    TypeCheckError,
    CodegenError,
    AsmEmitError,
    IOError,
    ExternalToolFault,
}

impl ErrorKind {
    /// The process exit status that reports this error.
    pub open spec fn exit_code_spec(self) -> i32 {
        match self {
            ErrorKind::LexerError => 1,
            ErrorKind::ParserError => 2,
            ErrorKind::SemanticError => 3,
            ErrorKind::TypeCheckError => 4,
            ErrorKind::CodegenError => 5,
            ErrorKind::AsmEmitError => 6,
            ErrorKind::IOError => 7,
            ErrorKind::ExternalToolFault => 8,
        }
    }

    pub fn exit_code(&self) -> (r: i32)
        ensures
            r == self.exit_code_spec(),
            r != 0,
    {
        match self {
            ErrorKind::LexerError => 1,
            ErrorKind::ParserError => 2,
            ErrorKind::SemanticError => 3,
            ErrorKind::TypeCheckError => 4,
            ErrorKind::CodegenError => 5,
            ErrorKind::AsmEmitError => 6,
            ErrorKind::IOError => 7,
            ErrorKind::ExternalToolFault => 8,
        }
    }

    /// The human-readable description of the error.
    pub open spec fn message_spec(self) -> Seq<char> {
        match self {
            ErrorKind::LexerError => "Lexer Failed"@,
            ErrorKind::ParserError => "AST Parsing Failed"@,
            ErrorKind::SemanticError => "Semantic Analysis Failed"@,
            ErrorKind::TypeCheckError => "Type Checking Failed"@,
            ErrorKind::CodegenError => "Codegen Failed"@,
            ErrorKind::AsmEmitError => "Asm Emission Failed"@,
            ErrorKind::IOError => "IO Error"@,
            ErrorKind::ExternalToolFault => "External Tool Failed"@,
        }
    }

    pub fn message(&self) -> (r: String)
        ensures
            r@ == self.message_spec(),
    {
        match self {
            ErrorKind::LexerError => String::from_str("Lexer Failed"),
            ErrorKind::ParserError => String::from_str("AST Parsing Failed"),
            ErrorKind::SemanticError => String::from_str("Semantic Analysis Failed"),
            ErrorKind::TypeCheckError => String::from_str("Type Checking Failed"),
            ErrorKind::CodegenError => String::from_str("Codegen Failed"),
            ErrorKind::AsmEmitError => String::from_str("Asm Emission Failed"),
            ErrorKind::IOError => String::from_str("IO Error"),
            ErrorKind::ExternalToolFault => String::from_str("External Tool Failed"),
        }
    }
}

/// Different errors leave the process with different exit statuses.
pub proof fn lemma_exit_codes_distinct(a: ErrorKind, b: ErrorKind)
    requires
        a != b,
    ensures
        a.exit_code_spec() != b.exit_code_spec(),
        a.exit_code_spec() != 0,
{
}

} // verus!
