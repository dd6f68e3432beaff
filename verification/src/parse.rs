//! Recursive-descent parsing: consumes the token sequence and produces a
//! validated syntax tree, or a structured syntax error. One production per
//! grammar rule, in a fixed order, with no backtracking; every expectation
//! mismatch is returned as an error carrying what was expected and what was
//! actually found, never aborting the process.

use vstd::prelude::*;

use crate::types::Ast;
use crate::types::Exp;
use crate::types::FunctionDefinition;
use crate::types::FunctionDefinitionV;
use crate::types::Statement;
use crate::types::Token;
use crate::types::TokenV;
use crate::types::token_views;

verus! {

/// What the parser was looking for when it failed: a specific token, or a
/// named grammar category.
#[derive(Debug)]
pub enum Expected {
    Tok(Token),
    AnIdentifier,
    AnExpression,
    EndOfFile,
}

/// The mathematical model of an `Expected`.
pub enum ExpectedV {
    Tok(TokenV),
    AnIdentifier,
    AnExpression,
    EndOfFile,
}

impl View for Expected {
    type V = ExpectedV;

    open spec fn view(&self) -> ExpectedV {
        match self {
            Expected::Tok(t) => ExpectedV::Tok(t@),
            Expected::AnIdentifier => ExpectedV::AnIdentifier,
            Expected::AnExpression => ExpectedV::AnExpression,
            Expected::EndOfFile => ExpectedV::EndOfFile,
        }
    }
}

/// A syntax error: what was expected, and the token actually found, or
/// `None` when the token stream ended early.
#[derive(Debug)]
pub struct ParseError {
    pub expected: Expected,
    pub found: Option<Token>,
}

/// The mathematical model of a `ParseError`.
pub struct ParseErrV {
    pub expected: ExpectedV,
    pub found: Option<TokenV>,
}

impl View for ParseError {
    type V = ParseErrV;

    open spec fn view(&self) -> ParseErrV {
        ParseErrV {
            expected: self.expected@,
            found: match self.found {
                Some(t) => Some(t@),
                None => None,
            },
        }
    }
}

/// What expecting one fixed token at position `i` yields: success when it
/// is there, otherwise an error naming it and what stood in its place.
pub open spec fn spec_expect(ts: Seq<TokenV>, i: int, expected: TokenV) -> Result<(), ParseErrV> {
    if i >= ts.len() {
        Err(ParseErrV { expected: ExpectedV::Tok(expected), found: None })
    } else if ts[i] == expected {
        Ok(())
    } else {
        Err(ParseErrV { expected: ExpectedV::Tok(expected), found: Some(ts[i]) })
    }
}

/// What expecting an identifier at position `i` yields: its text.
pub open spec fn spec_parse_id(ts: Seq<TokenV>, i: int) -> Result<Seq<char>, ParseErrV> {
    if i >= ts.len() {
        Err(ParseErrV { expected: ExpectedV::AnIdentifier, found: None })
    } else {
        match ts[i] {
            TokenV::Identifier(name) => Ok(name),
            other => Err(ParseErrV { expected: ExpectedV::AnIdentifier, found: Some(other) }),
        }
    }
}

/// What parsing an expression at position `i` yields: the value of exactly
/// one integer-constant token.
pub open spec fn spec_parse_expression(ts: Seq<TokenV>, i: int) -> Result<Exp, ParseErrV> {
    if i >= ts.len() {
        Err(ParseErrV { expected: ExpectedV::AnExpression, found: None })
    } else {
        match ts[i] {
            TokenV::Constant(c) => Ok(Exp::Constant(c)),
            other => Err(ParseErrV { expected: ExpectedV::AnExpression, found: Some(other) }),
        }
    }
}

/// What parsing the statement `return «expression» ;` at position `i`
/// yields. It consumes three tokens.
pub open spec fn spec_parse_statement(ts: Seq<TokenV>, i: int) -> Result<Statement, ParseErrV> {
    match spec_expect(ts, i, TokenV::KWReturn) {
        Err(e) => Err(e),
        Ok(_) => match spec_parse_expression(ts, i + 1) {
            Err(e) => Err(e),
            Ok(exp) => match spec_expect(ts, i + 2, TokenV::Semicolon) {
                Err(e) => Err(e),
                Ok(_) => Ok(Statement::Return(exp)),
            },
        },
    }
}

/// What parsing the function definition
/// `int «identifier» ( void ) { «statement» }` at position `i` yields.
/// It consumes ten tokens.
pub open spec fn spec_parse_function_definition(ts: Seq<TokenV>, i: int) -> Result<
    FunctionDefinitionV,
    ParseErrV,
> {
    match spec_expect(ts, i, TokenV::KWInt) {
        Err(e) => Err(e),
        Ok(_) => match spec_parse_id(ts, i + 1) {
            Err(e) => Err(e),
            Ok(name) => match spec_expect(ts, i + 2, TokenV::OpenParen) {
                Err(e) => Err(e),
                Ok(_) => match spec_expect(ts, i + 3, TokenV::KWVoid) {
                    Err(e) => Err(e),
                    Ok(_) => match spec_expect(ts, i + 4, TokenV::CloseParen) {
                        Err(e) => Err(e),
                        Ok(_) => match spec_expect(ts, i + 5, TokenV::OpenBrace) {
                            Err(e) => Err(e),
                            Ok(_) => match spec_parse_statement(ts, i + 6) {
                                Err(e) => Err(e),
                                Ok(body) => match spec_expect(ts, i + 9, TokenV::CloseBrace) {
                                    Err(e) => Err(e),
                                    Ok(_) => Ok(FunctionDefinitionV { name, body }),
                                },
                            },
                        },
                    },
                },
            },
        },
    }
}

/// What parsing a whole token sequence yields: one function definition and
/// nothing after it. A trailing token is an error expecting the end of the
/// file.
pub open spec fn spec_parse(ts: Seq<TokenV>) -> Result<FunctionDefinitionV, ParseErrV> {
    match spec_parse_function_definition(ts, 0) {
        Err(e) => Err(e),
        Ok(fd) => if ts.len() > 10 {
            Err(ParseErrV { expected: ExpectedV::EndOfFile, found: Some(ts[10]) })
        } else {
            Ok(fd)
        },
    }
}

/// The exact shape of a token sequence the grammar accepts: the ten tokens
/// of one function definition, with an identifier as its name and a
/// constant as its returned expression, and nothing after them.
pub open spec fn is_valid_program(ts: Seq<TokenV>) -> bool {
    &&& ts.len() == 10
    &&& ts[0] == TokenV::KWInt
    &&& ts[1] is Identifier
    &&& ts[2] == TokenV::OpenParen
    &&& ts[3] == TokenV::KWVoid
    &&& ts[4] == TokenV::CloseParen
    &&& ts[5] == TokenV::OpenBrace
    &&& ts[6] == TokenV::KWReturn
    &&& ts[7] is Constant
    &&& ts[8] == TokenV::Semicolon
    &&& ts[9] == TokenV::CloseBrace
}

/// Parsing succeeds exactly on the valid token sequences, and then yields
/// the function named by the identifier, returning the constant.
pub proof fn lemma_parse_success_iff(ts: Seq<TokenV>)
    ensures
        spec_parse(ts) is Ok <==> is_valid_program(ts),
        is_valid_program(ts) ==> spec_parse(ts) == Ok::<FunctionDefinitionV, ParseErrV>(
            FunctionDefinitionV {
                name: ts[1]->Identifier_0,
                body: Statement::Return(Exp::Constant(ts[7]->Constant_0)),
            },
        ),
{
}

/// A token sequence that begins with a valid program but continues past it
/// is rejected, expecting the end of the file and naming the first
/// trailing token.
pub proof fn lemma_parse_rejects_trailing(ts: Seq<TokenV>)
    requires
        spec_parse_function_definition(ts, 0) is Ok,
        ts.len() > 10,
    ensures
        spec_parse(ts) == Err::<FunctionDefinitionV, ParseErrV>(
            ParseErrV { expected: ExpectedV::EndOfFile, found: Some(ts[10]) },
        ),
{
}

/// An owned copy of a token, with the same model.
fn clone_token(t: &Token) -> (r: Token)
    ensures
        r@ == t@,
{
    match t {
        Token::Identifier(s) => Token::Identifier(s.clone()),
        Token::Constant(c) => Token::Constant(*c),
        Token::KWInt => Token::KWInt,
        Token::KWReturn => Token::KWReturn,
        Token::KWVoid => Token::KWVoid,
        Token::OpenParen => Token::OpenParen,
        Token::CloseParen => Token::CloseParen,
        Token::OpenBrace => Token::OpenBrace,
        Token::CloseBrace => Token::CloseBrace,
        Token::Semicolon => Token::Semicolon,
    }
}

/// Builds the error for an expectation that found the wrong token.
fn raise_error(expected: Expected, actual: &Token) -> (r: ParseError)
    ensures
        r@ == (ParseErrV { expected: expected@, found: Some(actual@) }),
{
    ParseError { expected, found: Some(clone_token(actual)) }
}

/// Consumes one token and checks that it is the expected one.
fn expect(expected: Token, tokens: &[Token], pos: &mut usize) -> (r: Result<(), ParseError>)
    ensures
        match r {
            Ok(_) => spec_expect(token_views(tokens@), *old(pos) as int, expected@) == Ok::<
                (),
                ParseErrV,
            >(()) && *final(pos) == *old(pos) + 1,
            Err(e) => spec_expect(token_views(tokens@), *old(pos) as int, expected@) == Err::<
                (),
                ParseErrV,
            >(e@),
        },
{
    if *pos < tokens.len() {
        let actual_token = &tokens[*pos];
        if *actual_token == expected {
            *pos = *pos + 1;
            Ok(())
        } else {
            Err(raise_error(Expected::Tok(expected), actual_token))
        }
    } else {
        Err(ParseError { expected: Expected::Tok(expected), found: None })
    }
}

/// Checks that the token stream is exhausted.
fn expect_empty(tokens: &[Token], pos: &mut usize) -> (r: Result<(), ParseError>)
    ensures
        match r {
            Ok(_) => *old(pos) >= tokens@.len() && *final(pos) == *old(pos),
            Err(e) => *old(pos) < tokens@.len() && e@ == (ParseErrV {
                expected: ExpectedV::EndOfFile,
                found: Some(token_views(tokens@)[*old(pos) as int]),
            }),
        },
{
    if *pos < tokens.len() {
        let bad_token = &tokens[*pos];
        Err(raise_error(Expected::EndOfFile, bad_token))
    } else {
        Ok(())
    }
}

/// Consumes one token that must be an identifier, yielding its text.
fn parse_id(tokens: &[Token], pos: &mut usize) -> (r: Result<String, ParseError>)
    ensures
        match r {
            Ok(name) => spec_parse_id(token_views(tokens@), *old(pos) as int) == Ok::<
                Seq<char>,
                ParseErrV,
            >(name@) && *final(pos) == *old(pos) + 1,
            Err(e) => spec_parse_id(token_views(tokens@), *old(pos) as int) == Err::<
                Seq<char>,
                ParseErrV,
            >(e@),
        },
{
    if *pos < tokens.len() {
        let t = &tokens[*pos];
        match t {
            Token::Identifier(x) => {
                let name = x.clone();
                *pos = *pos + 1;
                Ok(name)
            },
            _ => Err(raise_error(Expected::AnIdentifier, t)),
        }
    } else {
        Err(ParseError { expected: Expected::AnIdentifier, found: None })
    }
}

/// Consumes one token that must be an integer constant, yielding the
/// expression it denotes.
fn parse_expression(tokens: &[Token], pos: &mut usize) -> (r: Result<Exp, ParseError>)
    ensures
        match r {
            Ok(exp) => spec_parse_expression(token_views(tokens@), *old(pos) as int) == Ok::<
                Exp,
                ParseErrV,
            >(exp) && *final(pos) == *old(pos) + 1,
            Err(e) => spec_parse_expression(token_views(tokens@), *old(pos) as int) == Err::<
                Exp,
                ParseErrV,
            >(e@),
        },
{
    if *pos < tokens.len() {
        let t = &tokens[*pos];
        match t {
            Token::Constant(c) => {
                let exp = Exp::Constant(*c);
                *pos = *pos + 1;
                Ok(exp)
            },
            _ => Err(raise_error(Expected::AnExpression, t)),
        }
    } else {
        Err(ParseError { expected: Expected::AnExpression, found: None })
    }
}

/// Parses the single statement form `return «expression» ;`.
fn parse_statement(tokens: &[Token], pos: &mut usize) -> (r: Result<Statement, ParseError>)
    ensures
        match r {
            Ok(stmt) => spec_parse_statement(token_views(tokens@), *old(pos) as int) == Ok::<
                Statement,
                ParseErrV,
            >(stmt) && *final(pos) == *old(pos) + 3,
            Err(e) => spec_parse_statement(token_views(tokens@), *old(pos) as int) == Err::<
                Statement,
                ParseErrV,
            >(e@),
        },
{
    match expect(Token::KWReturn, tokens, pos) {
        Err(e) => Err(e),
        Ok(_) => match parse_expression(tokens, pos) {
            Err(e) => Err(e),
            Ok(exp) => match expect(Token::Semicolon, tokens, pos) {
                Err(e) => Err(e),
                Ok(_) => Ok(Statement::Return(exp)),
            },
        },
    }
}

/// Parses the single function-definition form
/// `int «identifier» ( void ) { «statement» }`.
fn parse_function_definition(tokens: &[Token], pos: &mut usize) -> (r: Result<
    FunctionDefinition,
    ParseError,
>)
    ensures
        match r {
            Ok(fd) => spec_parse_function_definition(token_views(tokens@), *old(pos) as int)
                == Ok::<FunctionDefinitionV, ParseErrV>(fd@) && *final(pos) == *old(pos) + 10,
            Err(e) => spec_parse_function_definition(token_views(tokens@), *old(pos) as int)
                == Err::<FunctionDefinitionV, ParseErrV>(e@),
        },
{
    match expect(Token::KWInt, tokens, pos) {
        Err(e) => Err(e),
        Ok(_) => match parse_id(tokens, pos) {
            Err(e) => Err(e),
            Ok(fun_name) => match expect(Token::OpenParen, tokens, pos) {
                Err(e) => Err(e),
                Ok(_) => match expect(Token::KWVoid, tokens, pos) {
                    Err(e) => Err(e),
                    Ok(_) => match expect(Token::CloseParen, tokens, pos) {
                        Err(e) => Err(e),
                        Ok(_) => match expect(Token::OpenBrace, tokens, pos) {
                            Err(e) => Err(e),
                            Ok(_) => match parse_statement(tokens, pos) {
                                Err(e) => Err(e),
                                Ok(statement) => match expect(Token::CloseBrace, tokens, pos) {
                                    Err(e) => Err(e),
                                    Ok(_) => Ok(
                                        FunctionDefinition { name: fun_name, body: statement },
                                    ),
                                },
                            },
                        },
                    },
                },
            },
        },
    }
}

/// Parses a whole token sequence into a program, or reports the first
/// syntax error. Success requires exactly one well-formed function
/// definition with nothing after it.
pub fn parse(tokens: &[Token]) -> (r: Result<Ast, ParseError>)
    ensures
        match r {
            Ok(ast) => spec_parse(token_views(tokens@)) == Ok::<FunctionDefinitionV, ParseErrV>(
                ast@,
            ),
            Err(e) => spec_parse(token_views(tokens@)) == Err::<FunctionDefinitionV, ParseErrV>(
                e@,
            ),
        },
{
    let mut pos: usize = 0;
    match parse_function_definition(tokens, &mut pos) {
        Err(e) => Err(e),
        Ok(fun_def) => match expect_empty(tokens, &mut pos) {
            Err(e) => Err(e),
            Ok(_) => Ok(Ast::Program(fun_def)),
        },
    }
}

} // verus!
