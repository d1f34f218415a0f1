use rclisp::lexer::{LexError, Lexer, Token};
use rclisp::parse::{parse, ParserError};
use rclisp::types::Object;

fn parse_and_compare(orig: &str, res: &str) {
    let mut lexer = Lexer::new(orig.as_bytes());
    let obj = parse(&mut lexer).unwrap();
    assert_eq!(res, obj.to_string());
}

fn parse_error(orig: &str) -> ParserError {
    let mut lexer = Lexer::new(orig.as_bytes());
    match parse(&mut lexer) {
        Ok(obj) => panic!("parsed as {}", obj.to_string()),
        Err(e) => e,
    }
}

#[test]
fn test_parse() {
    parse_and_compare("'A", "'A");
    parse_and_compare("(test1 '(test2 . \"test3\")) ", "(TEST1 '(TEST2 . \"test3\"))");
    parse_and_compare("((A . B) . (C . D))", "((A . B) C . D)");
    parse_and_compare("(A)", "(A)");
}

#[test]
fn parse_atoms() {
    parse_and_compare("12", "12");
    parse_and_compare("-12", "-12");
    parse_and_compare("1.5", "1.5");
    parse_and_compare("1.0", "1");
    assert_eq!(rclisp::parse::named_object("T".to_string()), Object::T);
    assert_eq!(rclisp::parse::named_object("NIL".to_string()), Object::Nil);
    assert_eq!(rclisp::parse::named_object("t".to_string()), Object::Symbol("t".to_string()));
    assert_eq!(rclisp::text::fold("abc-1xyZ"), "ABC-1XYZ");
    assert_eq!(rclisp::text::fold("stra\u{df}e"), "STRASSE");
    parse_and_compare("\"text\"", "\"text\"");
    parse_and_compare("abc", "ABC");
    parse_and_compare("t", "T");
    parse_and_compare("nil", "NIL");
    parse_and_compare("()", "NIL");
    let mut lexer = Lexer::new("t nil x".as_bytes());
    assert_eq!(parse(&mut lexer).unwrap(), Object::T);
    assert_eq!(parse(&mut lexer).unwrap(), Object::Nil);
    assert_eq!(parse(&mut lexer).unwrap(), Object::Symbol("X".to_string()));
}

#[test]
fn parse_lists() {
    parse_and_compare("(a b c)", "(A B C)");
    parse_and_compare("(a (b c) d)", "(A (B C) D)");
    parse_and_compare("((a b))", "(A B)");
    parse_and_compare("(a . b)", "(A . B)");
    parse_and_compare("(a . (b c))", "(A B C)");
    parse_and_compare("(a . 'b)", "(A . 'B)");
    parse_and_compare("'(a b)", "'(A B)");
    parse_and_compare("(a 'b '(c))", "(A 'B '(C))");
    parse_and_compare("(nil)", "(NIL)");
}

#[test]
fn parse_takes_one_form_at_a_time() {
    let mut lexer = Lexer::new("(a) b (c d)".as_bytes());
    assert_eq!(parse(&mut lexer).unwrap().to_string(), "(A)");
    assert_eq!(parse(&mut lexer).unwrap().to_string(), "B");
    assert_eq!(parse(&mut lexer).unwrap().to_string(), "(C D)");
    assert!(matches!(parse(&mut lexer), Err(ParserError::EmptyInput)));
}

#[test]
fn parse_errors() {
    assert_eq!(parse_error(""), ParserError::EmptyInput);
    assert_eq!(parse_error("  ; nothing\n"), ParserError::EmptyInput);
    assert_eq!(parse_error(")"), ParserError::UnexpectedToken(Token::ParenRight));
    assert_eq!(parse_error(". a"), ParserError::UnexpectedToken(Token::Dot));
    assert_eq!(parse_error("(a b"), ParserError::UnmatchedParens);
    assert_eq!(parse_error("(a (b)"), ParserError::UnmatchedParens);
    assert_eq!(parse_error("'"), ParserError::UnexpectedEOF);
    assert_eq!(parse_error("(a ."), ParserError::UnexpectedEOF);
    assert_eq!(parse_error("(. a)"), ParserError::UnexpectedToken(Token::Dot));
    assert_eq!(parse_error("(a . )"), ParserError::UnexpectedToken(Token::ParenRight));
    assert_eq!(parse_error("(a . . b)"), ParserError::UnexpectedToken(Token::Dot));
    assert_eq!(parse_error("')"), ParserError::UnexpectedToken(Token::ParenRight));
    assert_eq!(parse_error("''a"), ParserError::UnexpectedToken(Token::Quote));
    assert_eq!(
        parse_error("(a --1)"),
        ParserError::Lexical(LexError::MalformedNumber("--1".to_string()))
    );
    assert_eq!(
        parse_error("----1"),
        ParserError::Lexical(LexError::MalformedNumber("----1".to_string()))
    );
}
