use pkl_bindgen::syntax::lexer::{lex, PklToken};
use pkl_bindgen::syntax::lexing::LexingError;

fn s(t: &str) -> String {
    t.to_string()
}

#[test]
fn test_lex_property() {
    assert_eq!(
        lex("name = 42"),
        Ok(vec![PklToken::Identifier(s("name")), PklToken::Space, PklToken::EqualSign, PklToken::Space, PklToken::Int(42)])
    );
}

#[test]
fn test_lex_keywords_beat_identifiers() {
    assert_eq!(
        lex("true false null new import as truex"),
        Ok(vec![
            PklToken::Bool(true),
            PklToken::Space,
            PklToken::Bool(false),
            PklToken::Space,
            PklToken::Null,
            PklToken::Space,
            PklToken::New,
            PklToken::Space,
            PklToken::Import,
            PklToken::Space,
            PklToken::As,
            PklToken::Space,
            PklToken::Identifier(s("truex")),
        ])
    );
}

#[test]
fn test_lex_function_call() {
    assert_eq!(
        lex("foo(1, 2)"),
        Ok(vec![
            PklToken::FunctionCall(s("foo")),
            PklToken::Int(1),
            PklToken::Comma,
            PklToken::Space,
            PklToken::Int(2),
            PklToken::CloseParen,
        ])
    );
    assert_eq!(lex("`my f`("), Ok(vec![PklToken::FunctionCall(s("my f"))]));
    assert_eq!(lex("`my id`"), Ok(vec![PklToken::IllegalIdentifier(s("my id"))]));
}

#[test]
fn test_lex_prefixed_integers() {
    assert_eq!(
        lex("0x1F -0b101 0o17 0xff_ff"),
        Ok(vec![
            PklToken::HexInt(31),
            PklToken::Space,
            PklToken::BinaryInt(-5),
            PklToken::Space,
            PklToken::OctalInt(15),
            PklToken::Space,
            PklToken::HexInt(65535),
        ])
    );
}

#[test]
fn test_lex_decimal_integers() {
    assert_eq!(lex("1_000"), Ok(vec![PklToken::Int(1000)]));
    assert_eq!(lex("-7"), Ok(vec![PklToken::Int(-7)]));
    assert_eq!(lex("1."), Ok(vec![PklToken::Int(1), PklToken::Dot]));
    assert_eq!(lex("9223372036854775807"), Ok(vec![PklToken::Int(i64::MAX)]));
    assert_eq!(lex("-9223372036854775808"), Ok(vec![PklToken::Int(i64::MIN)]));
    assert!(matches!(lex("9223372036854775808"), Err(LexingError::InvalidInteger(_))));
}

#[test]
fn test_lex_floats() {
    assert_eq!(
        lex("3.14 -0.5e10 .5 1_0.2_5"),
        Ok(vec![
            PklToken::Float(s("3.14")),
            PklToken::Space,
            PklToken::Float(s("-0.5e10")),
            PklToken::Space,
            PklToken::Float(s(".5")),
            PklToken::Space,
            PklToken::Float(s("10.25")),
        ])
    );
    assert_eq!(
        lex("NaN Infinity -Infinity"),
        Ok(vec![
            PklToken::Float(s("NaN")),
            PklToken::Space,
            PklToken::Float(s("Infinity")),
            PklToken::Space,
            PklToken::Float(s("-Infinity")),
        ])
    );
}

#[test]
fn test_lex_strings() {
    assert_eq!(lex("\"hi \\\"x\\\"\""), Ok(vec![PklToken::String(s("hi \\\"x\\\""))]));
    assert_eq!(lex("\"\"\"\nabc\n\"\"\""), Ok(vec![PklToken::MultiLineString(s("abc"))]));
    assert_eq!(lex("\"\"\"abc\n\"\"\""), Err(LexingError::ExpectedNewLineAfterMultilineStringStart));
    assert_eq!(lex("\"\"\"\nabc\"\"\""), Err(LexingError::ExpectedNewLineBeforeMultilineStringEnd));
    assert_eq!(lex("\"\\u{1F600}\""), Ok(vec![PklToken::String(s("\\u{1F600}"))]));
}

#[test]
fn test_lex_comments() {
    assert_eq!(lex("// hello\n"), Ok(vec![PklToken::LineComment(s(" hell")), PklToken::NewLine]));
    assert_eq!(lex("/// doc\n"), Ok(vec![PklToken::DocComment(s(" do")), PklToken::NewLine]));
    assert_eq!(lex("/* x */"), Ok(vec![PklToken::MultilineComment(s(" x "))]));
}

#[test]
fn test_lex_blank_tabs_and_punctuation() {
    assert_eq!(
        lex("\t_ _x {}(),.\n"),
        Ok(vec![
            PklToken::BlankIdentifier,
            PklToken::Space,
            PklToken::Identifier(s("_x")),
            PklToken::Space,
            PklToken::OpenBrace,
            PklToken::CloseBrace,
            PklToken::OpenParen,
            PklToken::CloseParen,
            PklToken::Comma,
            PklToken::Dot,
            PklToken::NewLine,
        ])
    );
}

#[test]
fn test_lex_unrecognized() {
    assert_eq!(lex("a @ b"), Err(LexingError::DefaultLexingError));
    assert_eq!(lex("\"open"), Err(LexingError::DefaultLexingError));
    assert_eq!(lex(""), Ok(vec![]));
}
