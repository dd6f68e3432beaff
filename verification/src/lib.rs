//! A minimal compiler front-to-back pipeline: lexing, recursive-descent
//! parsing, lowering to an assembly-shaped intermediate representation, and
//! textual emission for two target platforms.

pub mod codegen;
pub mod compile;
pub mod emit;
pub mod lex;
pub mod parse;
pub mod types;
