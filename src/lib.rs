//! A staged compiler for a C-like language: the stop stages and errors of the
//! pipeline, the driver's decisions between stages, the lexer, the parser,
//! name resolution, type checking, lowering to IR, and the paths of the
//! intermediate files derived from the input's name.
pub mod driver;
pub mod emit;
pub mod ir;
pub mod lexer;
pub mod parser;
pub mod pipeline;
pub mod resolver;
pub mod stage;
pub mod typecheck;
