//! The pipeline itself: source text in, assembly text out. Each stage runs
//! to completion before the next begins, and no stage revisits an earlier
//! stage's output. The requested stage decides how far to run: lexing or
//! parsing alone discard their result, the later stages render the program
//! as assembly text. Reading the source and writing the assembly file are
//! the caller's business.

use vstd::prelude::*;

use crate::codegen::gen;
use crate::codegen::spec_gen;
use crate::emit::emit;
use crate::emit::spec_emit;
use crate::lex::LexErrV;
use crate::lex::LexError;
use crate::lex::lex;
use crate::lex::spec_lex;
use crate::parse::ParseErrV;
use crate::parse::ParseError;
use crate::parse::parse;
use crate::parse::spec_parse;
use crate::types::Platform;
use crate::types::Stage;

verus! {

/// Why a compilation failed: the stage that rejected the input, with its
/// own account of the failure.
#[derive(Debug)]
pub enum CompileError {
    Lex(LexError),
    Parse(ParseError),
}

/// The mathematical model of a `CompileError`.
pub enum CompileErrV {
    Lex(LexErrV),
    Parse(ParseErrV),
}

impl View for CompileError {
    type V = CompileErrV;

    open spec fn view(&self) -> CompileErrV {
        match self {
            CompileError::Lex(e) => CompileErrV::Lex(e@),
            CompileError::Parse(e) => CompileErrV::Parse(e@),
        }
    }
}

/// What compiling a source text yields on a platform, up to the requested
/// stage: nothing when the pipeline stops after lexing or parsing, the
/// assembly text when it runs through lowering and emission, or the first
/// stage's error.
pub open spec fn spec_compile(stage: Stage, s: Seq<char>, p: Platform) -> Result<
    Option<Seq<char>>,
    CompileErrV,
> {
    match spec_lex(s) {
        Err(e) => Err(CompileErrV::Lex(e)),
        Ok(ts) => match stage {
            Stage::Lex => Ok(None),
            Stage::Parse => match spec_parse(ts) {
                Err(e) => Err(CompileErrV::Parse(e)),
                Ok(_) => Ok(None),
            },
            _ => match spec_parse(ts) {
                Err(e) => Err(CompileErrV::Parse(e)),
                Ok(fd) => Ok(Some(spec_emit(spec_gen(fd), p))),
            },
        },
    }
}

/// Runs the pipeline on a full source text, as far as the requested stage.
pub fn compile(stage: &Stage, source: &str, platform: &Platform) -> (r: Result<
    Option<String>,
    CompileError,
>)
    ensures
        match r {
            Ok(out) => spec_compile(*stage, source@, *platform) == Ok::<
                Option<Seq<char>>,
                CompileErrV,
            >(
                match out {
                    Some(text) => Some(text@),
                    None => None,
                },
            ),
            Err(e) => spec_compile(*stage, source@, *platform) == Err::<
                Option<Seq<char>>,
                CompileErrV,
            >(e@),
        },
{
    let tokens = match lex(source) {
        Err(e) => {
            return Err(CompileError::Lex(e));
        },
        Ok(tokens) => tokens,
    };
    match stage {
        Stage::Lex => Ok(None),
        Stage::Parse => {
            match parse(tokens.as_slice()) {
                Err(e) => Err(CompileError::Parse(e)),
                Ok(_ast) => Ok(None),
            }
        },
        Stage::Codegen | Stage::Executable | Stage::Assembly => {
            match parse(tokens.as_slice()) {
                Err(e) => Err(CompileError::Parse(e)),
                Ok(ast) => {
                    let asm_ast = gen(ast);
                    let text = emit(&asm_ast, platform);
                    Ok(Some(text))
                },
            }
        },
    }
}

} // verus!
