//! The data model shared by all pipeline stages: tokens, the abstract syntax
//! tree, the assembly-shaped intermediate representation, and the closed set
//! of target platforms.

use vstd::prelude::*;

verus! {

/// A target platform. The two variants differ only in symbol decoration
/// (a leading underscore on OsX) and in the presence of the GNU-stack note
/// trailer (Linux only).
#[derive(Debug, PartialEq, Eq, Structural, Clone, Copy)]
pub enum Platform {
    OsX,
    Linux,
}

/// How far the pipeline runs before discarding or writing its result.
#[derive(Debug, PartialEq, Eq, Structural, Clone, Copy)]
pub enum Stage {
    Lex,
    Parse,
    Codegen,
    Assembly,
    Executable,
}

/// One lexical unit of the source language.
#[derive(Debug, Clone)]
pub enum Token {
    // tokens with contents
    Identifier(String),
    Constant(i32),
    // keywords
    KWInt,
    KWReturn,
    KWVoid,
    // punctuation
    OpenParen,
    CloseParen,
    OpenBrace,
    CloseBrace,
    Semicolon,
}

/// The mathematical model of a `Token`: the identifier's text is a sequence
/// of characters rather than a `String`.
pub enum TokenV {
    Identifier(Seq<char>),
    Constant(i32),
    KWInt,
    KWReturn,
    KWVoid,
    OpenParen,
    CloseParen,
    OpenBrace,
    CloseBrace,
    Semicolon,
}

impl View for Token {
    type V = TokenV;

    open spec fn view(&self) -> TokenV {
        match self {
            Token::Identifier(s) => TokenV::Identifier(s@),
            Token::Constant(c) => TokenV::Constant(*c),
            Token::KWInt => TokenV::KWInt,
            Token::KWReturn => TokenV::KWReturn,
            Token::KWVoid => TokenV::KWVoid,
            Token::OpenParen => TokenV::OpenParen,
            Token::CloseParen => TokenV::CloseParen,
            Token::OpenBrace => TokenV::OpenBrace,
            Token::CloseBrace => TokenV::CloseBrace,
            Token::Semicolon => TokenV::Semicolon,
        }
    }
}

/// The models of a sequence of tokens, element by element.
pub open spec fn token_views(ts: Seq<Token>) -> Seq<TokenV> {
    Seq::new(ts.len(), |i: int| ts[i]@)
}

impl PartialEq for Token {
    fn eq(&self, other: &Token) -> (r: bool) {
        match (self, other) {
            (Token::Identifier(a), Token::Identifier(b)) => (*a) == (*b),
            (Token::Constant(a), Token::Constant(b)) => *a == *b,
            (Token::KWInt, Token::KWInt) => true,
            (Token::KWReturn, Token::KWReturn) => true,
            (Token::KWVoid, Token::KWVoid) => true,
            (Token::OpenParen, Token::OpenParen) => true,
            (Token::CloseParen, Token::CloseParen) => true,
            (Token::OpenBrace, Token::OpenBrace) => true,
            (Token::CloseBrace, Token::CloseBrace) => true,
            (Token::Semicolon, Token::Semicolon) => true,
            _ => false,
        }
    }
}

impl vstd::std_specs::cmp::PartialEqSpecImpl for Token {
    open spec fn obeys_eq_spec() -> bool {
        true
    }

    open spec fn eq_spec(&self, other: &Token) -> bool {
        self@ == other@
    }
}

/// An expression: the only supported form is an integer-constant literal.
#[derive(Debug, PartialEq, Eq, Structural, Clone, Copy)]
pub enum Exp {
    Constant(i32),
}

/// A statement: the only supported form is `return «expression»`.
#[derive(Debug, PartialEq, Eq, Structural, Clone, Copy)]
pub enum Statement {
    Return(Exp),
}

/// A function definition: a name and a single-statement body.
#[derive(Debug)]
pub struct FunctionDefinition {
    pub name: String,
    pub body: Statement,
}

/// The mathematical model of a `FunctionDefinition`. The body is already a
/// plain value, so only the name needs a view.
pub struct FunctionDefinitionV {
    pub name: Seq<char>,
    pub body: Statement,
}

impl View for FunctionDefinition {
    type V = FunctionDefinitionV;

    open spec fn view(&self) -> FunctionDefinitionV {
        FunctionDefinitionV { name: self.name@, body: self.body }
    }
}

/// A whole program: exactly one function definition.
#[derive(Debug)]
pub enum Ast {
    Program(FunctionDefinition),
}

impl View for Ast {
    type V = FunctionDefinitionV;

    open spec fn view(&self) -> FunctionDefinitionV {
        match self {
            Ast::Program(fd) => fd@,
        }
    }
}

/// An operand of the intermediate representation: an immediate integer or
/// the single fixed return-value register.
#[derive(Debug, PartialEq, Eq, Structural, Clone, Copy)]
pub enum Operand {
    Imm(i32),
    Register,
}

/// An instruction of the intermediate representation.
#[derive(Debug, PartialEq, Eq, Structural, Clone, Copy)]
pub enum Instruction {
    Mov(Operand, Operand),
    Ret,
}

/// A function of the intermediate representation: a name and its ordered
/// instructions.
#[derive(Debug)]
pub struct AsmFunctionDefinition {
    pub name: String,
    pub instructions: Vec<Instruction>,
}

/// The mathematical model of an `AsmFunctionDefinition`.
pub struct AsmFunctionDefinitionV {
    pub name: Seq<char>,
    pub instructions: Seq<Instruction>,
}

impl View for AsmFunctionDefinition {
    type V = AsmFunctionDefinitionV;

    open spec fn view(&self) -> AsmFunctionDefinitionV {
        AsmFunctionDefinitionV { name: self.name@, instructions: self.instructions@ }
    }
}

/// A whole program of the intermediate representation: exactly one function.
#[derive(Debug)]
pub enum AsmAst {
    Program(AsmFunctionDefinition),
}

impl View for AsmAst {
    type V = AsmFunctionDefinitionV;

    open spec fn view(&self) -> AsmFunctionDefinitionV {
        match self {
            AsmAst::Program(fd) => fd@,
        }
    }
}

/// The label text of a function on a platform: OsX prefixes the bare name
/// with an underscore, Linux uses it unchanged.
pub open spec fn spec_label(p: Platform, name: Seq<char>) -> Seq<char> {
    match p {
        Platform::OsX => "_"@ + name,
        Platform::Linux => name,
    }
}

impl Platform {
    /// Decorates a bare symbol name with the platform's convention.
    pub fn show_label(&self, name: &str) -> (r: String)
        ensures
            r@ == spec_label(*self, name@),
    {
        match self {
            Platform::OsX => {
                let mut s = String::from_str("_");
                s.append(name);
                s
            },
            Platform::Linux => String::from_str(name),
        }
    }
}

} // verus!
