use nqcc::parse::parse;
use nqcc::parse::Expected;
use nqcc::types::Ast;
use nqcc::types::Exp;
use nqcc::types::Statement;
use nqcc::types::Token;

fn minimal_tokens() -> Vec<Token> {
    vec![
        Token::KWInt,
        Token::Identifier(String::from("main")),
        Token::OpenParen,
        Token::KWVoid,
        Token::CloseParen,
        Token::OpenBrace,
        Token::KWReturn,
        Token::Constant(2),
        Token::Semicolon,
        Token::CloseBrace,
    ]
}

#[test]
fn parse_minimal_program() {
    let tokens = minimal_tokens();
    let ast = parse(&tokens).unwrap();
    let Ast::Program(fd) = ast;
    assert_eq!(fd.name, String::from("main"));
    assert_eq!(fd.body, Statement::Return(Exp::Constant(2)));
}

#[test]
fn parse_rejects_trailing_tokens() {
    let mut tokens = minimal_tokens();
    tokens.push(Token::Semicolon);
    let err = parse(&tokens).unwrap_err();
    assert!(matches!(err.expected, Expected::EndOfFile));
    assert_eq!(err.found, Some(Token::Semicolon));
}

#[test]
fn parse_rejects_empty_input() {
    let err = parse(&[]).unwrap_err();
    assert!(matches!(err.expected, Expected::Tok(Token::KWInt)));
    assert_eq!(err.found, None);
}

#[test]
fn parse_rejects_missing_identifier() {
    let tokens = vec![Token::KWInt, Token::Constant(3)];
    let err = parse(&tokens).unwrap_err();
    assert!(matches!(err.expected, Expected::AnIdentifier));
    assert_eq!(err.found, Some(Token::Constant(3)));
}

#[test]
fn parse_rejects_early_end() {
    let tokens = vec![Token::KWInt];
    let err = parse(&tokens).unwrap_err();
    assert!(matches!(err.expected, Expected::AnIdentifier));
    assert_eq!(err.found, None);
}

#[test]
fn parse_rejects_missing_expression() {
    let tokens = vec![
        Token::KWInt,
        Token::Identifier(String::from("main")),
        Token::OpenParen,
        Token::KWVoid,
        Token::CloseParen,
        Token::OpenBrace,
        Token::KWReturn,
        Token::Identifier(String::from("x")),
        Token::Semicolon,
        Token::CloseBrace,
    ];
    let err = parse(&tokens).unwrap_err();
    assert!(matches!(err.expected, Expected::AnExpression));
    assert_eq!(err.found, Some(Token::Identifier(String::from("x"))));
}

#[test]
fn parse_rejects_missing_semicolon() {
    let tokens = vec![
        Token::KWInt,
        Token::Identifier(String::from("main")),
        Token::OpenParen,
        Token::KWVoid,
        Token::CloseParen,
        Token::OpenBrace,
        Token::KWReturn,
        Token::Constant(2),
        Token::CloseBrace,
    ];
    let err = parse(&tokens).unwrap_err();
    assert!(matches!(err.expected, Expected::Tok(Token::Semicolon)));
    assert_eq!(err.found, Some(Token::CloseBrace));
}
