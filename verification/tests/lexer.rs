use nqcc::lex::lex;
use nqcc::lex::LexErrorKind;
use nqcc::types::Token;

fn minimal_tokens() -> Vec<Token> {
    vec![
        Token::KWInt,
        Token::Identifier(String::from("main")),
        Token::OpenParen,
        Token::KWVoid,
        Token::CloseParen,
        Token::OpenBrace,
        Token::KWReturn,
        Token::Constant(2),
        Token::Semicolon,
        Token::CloseBrace,
    ]
}

#[test]
fn lex_minimal_program() {
    let tokens = lex("int main(void){return 2;}").unwrap();
    assert_eq!(tokens, minimal_tokens());
}

#[test]
fn lex_empty_input() {
    let tokens = lex("").unwrap();
    assert_eq!(tokens, Vec::<Token>::new());
}

#[test]
fn lex_whitespace_only() {
    let tokens = lex(" \t\n\r ").unwrap();
    assert_eq!(tokens, Vec::<Token>::new());
}

#[test]
fn lex_whitespace_is_immaterial() {
    let spaced = lex("int \t main ( void ) \n { return \t 2 ; }").unwrap();
    assert_eq!(spaced, minimal_tokens());
}

#[test]
fn lex_keywords_and_identifiers() {
    let tokens = lex("void return int integer _int int2").unwrap();
    assert_eq!(
        tokens,
        vec![
            Token::KWVoid,
            Token::KWReturn,
            Token::KWInt,
            Token::Identifier(String::from("integer")),
            Token::Identifier(String::from("_int")),
            Token::Identifier(String::from("int2")),
        ]
    );
}

#[test]
fn lex_constant_before_punctuation() {
    let tokens = lex("42;").unwrap();
    assert_eq!(tokens, vec![Token::Constant(42), Token::Semicolon]);
}

#[test]
fn lex_rejects_malformed_numeral() {
    let err = lex("1x").unwrap_err();
    assert_eq!(err.kind, LexErrorKind::MalformedConstant);
    assert_eq!(err.rest, String::from("1x"));
}

#[test]
fn lex_rejects_malformed_numeral_mid_input() {
    let err = lex("int 1x;").unwrap_err();
    assert_eq!(err.kind, LexErrorKind::MalformedConstant);
    assert_eq!(err.rest, String::from("1x;"));
}

#[test]
fn lex_rejects_unrecognized_character() {
    let err = lex("int @").unwrap_err();
    assert_eq!(err.kind, LexErrorKind::UnrecognizedCharacter);
    assert_eq!(err.rest, String::from("@"));
}

#[test]
fn lex_largest_constant() {
    let tokens = lex("2147483647").unwrap();
    assert_eq!(tokens, vec![Token::Constant(2147483647)]);
}

#[test]
fn lex_rejects_too_large_constant() {
    let err = lex("2147483648").unwrap_err();
    assert_eq!(err.kind, LexErrorKind::ConstantTooLarge);
    assert_eq!(err.rest, String::from("2147483648"));
}

#[test]
fn token_equality_distinguishes_identifiers() {
    assert_eq!(
        Token::Identifier(String::from("a")),
        Token::Identifier(String::from("a"))
    );
    assert_ne!(
        Token::Identifier(String::from("a")),
        Token::Identifier(String::from("b"))
    );
    assert_ne!(Token::KWInt, Token::KWVoid);
}
