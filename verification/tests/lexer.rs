use rclisp::lexer::{LexError, Lexer, Token};

fn lex(text: &str) -> Result<Vec<Token>, LexError> {
    let mut lexer = Lexer::new(text.as_bytes());
    lexer.tokens()
}

#[test]
fn test_lexer() {
    let result = lex("(test1 (test2 test3)) ");
    assert_eq!(
        result,
        Ok(vec![
            Token::ParenLeft,
            Token::Symbol("test1".to_string()),
            Token::ParenLeft,
            Token::Symbol("test2".to_string()),
            Token::Symbol("test3".to_string()),
            Token::ParenRight,
            Token::ParenRight
        ])
    );
}

#[test]
fn test_lexer_malformed() {
    let result = lex("    (   'test1 (  test2 \n\t '(test3 . test4) )   ) ");
    assert_eq!(
        result,
        Ok(vec![
            Token::ParenLeft,
            Token::Quote,
            Token::Symbol("test1".to_string()),
            Token::ParenLeft,
            Token::Symbol("test2".to_string()),
            Token::Quote,
            Token::ParenLeft,
            Token::Symbol("test3".to_string()),
            Token::Dot,
            Token::Symbol("test4".to_string()),
            Token::ParenRight,
            Token::ParenRight,
            Token::ParenRight,
        ])
    );
}

#[test]
fn test_lexer_integer() {
    assert_eq!(lex("1"), Ok(vec![Token::Integer(1)]));
}

#[test]
fn test_lexer_integer_negative() {
    assert_eq!(lex("-1"), Ok(vec![Token::Integer(-1)]));
}

#[test]
fn test_lexer_integer_negative_multiple() {
    assert_eq!(lex("----1"), Err(LexError::MalformedNumber("----1".to_string())));
}

#[test]
fn test_lexer_integer_negative_malformed() {
    assert_eq!(lex("--1-1"), Err(LexError::MalformedNumber("--1-1".to_string())));
}

#[test]
fn test_lexer_float() {
    let result = lex("1.0");
    assert_eq!(result, Ok(vec![Token::Float("1.0".to_string())]));
    match &result.unwrap()[0] {
        Token::Float(text) => assert_eq!(text.parse::<f64>(), Ok(1.0)),
        other => panic!("not a float: {:?}", other),
    }
}

#[test]
fn test_lexer_float_negative() {
    let result = lex("-1.0");
    assert_eq!(result, Ok(vec![Token::Float("-1.0".to_string())]));
    match &result.unwrap()[0] {
        Token::Float(text) => assert_eq!(text.parse::<f64>(), Ok(-1.0)),
        other => panic!("not a float: {:?}", other),
    }
}

#[test]
fn test_lexer_float_malformed() {
    assert_eq!(lex("--1.1.0"), Err(LexError::MalformedNumber("--1.1.0".to_string())));
}

#[test]
fn test_lexer_symbol() {
    assert_eq!(lex("-"), Ok(vec![Token::Symbol("-".to_string())]));
}

#[test]
fn test_lexer_empty() {
    assert_eq!(lex(""), Ok(vec![]));
}

#[test]
fn test_lexer_parens() {
    assert_eq!(lex("()"), Ok(vec![Token::ParenLeft, Token::ParenRight]));
}

#[test]
fn test_lexer_comment() {
    assert_eq!(lex("; test \n test"), Ok(vec![Token::Symbol("test".to_string())]));
    assert_eq!(
        lex("; test\n;another test\ntest ;test"),
        Ok(vec![Token::Symbol("test".to_string())])
    );
}

#[test]
fn lexer_keeps_the_case_of_symbols() {
    assert_eq!(
        lex("Test1 tEsT2"),
        Ok(vec![Token::Symbol("Test1".to_string()), Token::Symbol("tEsT2".to_string())])
    );
}

#[test]
fn lexer_reads_strings_with_what_they_hold() {
    assert_eq!(
        lex("\"a (b) c\" d"),
        Ok(vec![Token::String("a (b) c".to_string()), Token::Symbol("d".to_string())])
    );
}

#[test]
fn lexer_ends_a_string_at_its_closing_quote() {
    assert_eq!(
        lex("\"ab\"cd"),
        Ok(vec![Token::String("ab".to_string()), Token::Symbol("cd".to_string())])
    );
}

#[test]
fn lexer_takes_an_escaped_quote_into_the_string() {
    assert_eq!(lex("\"a\\\"b\""), Ok(vec![Token::String("a\\\"b".to_string())]));
}

#[test]
fn lexer_takes_an_escaped_byte_as_it_stands() {
    assert_eq!(lex("a\\ b"), Ok(vec![Token::Symbol("a\\ b".to_string())]));
    assert_eq!(lex("a\\(b"), Ok(vec![Token::Symbol("a\\(b".to_string())]));
}

#[test]
fn lexer_ends_a_word_at_a_parenthesis() {
    assert_eq!(
        lex("ab(cd)"),
        Ok(vec![
            Token::Symbol("ab".to_string()),
            Token::ParenLeft,
            Token::Symbol("cd".to_string()),
            Token::ParenRight
        ])
    );
}

#[test]
fn lexer_replaces_bytes_that_are_no_text() {
    let mut lexer = Lexer::new(&[b'a', 0xff, b'b']);
    assert_eq!(lexer.tokens(), Ok(vec![Token::Symbol("a\u{fffd}b".to_string())]));
}

#[test]
fn lexer_reads_floats_without_digits_on_one_side() {
    assert_eq!(
        lex("1. .5 -.5"),
        Ok(vec![
            Token::Float("1.".to_string()),
            Token::Float(".5".to_string()),
            Token::Float("-.5".to_string())
        ])
    );
}

#[test]
fn lexer_reads_a_lone_dot_and_quote() {
    assert_eq!(lex(". '"), Ok(vec![Token::Dot, Token::Quote]));
    assert_eq!(lex("-."), Ok(vec![Token::Symbol("-.".to_string())]));
}

#[test]
fn lexer_refuses_an_integer_that_does_not_fit() {
    assert_eq!(lex("9223372036854775807"), Ok(vec![Token::Integer(isize::MAX)]));
    assert_eq!(lex("-9223372036854775808"), Ok(vec![Token::Integer(isize::MIN)]));
    assert_eq!(
        lex("9223372036854775808"),
        Err(LexError::MalformedNumber("9223372036854775808".to_string()))
    );
    assert_eq!(lex("1-"), Err(LexError::MalformedNumber("1-".to_string())));
    assert_eq!(lex("007"), Ok(vec![Token::Integer(7)]));
}

#[test]
fn lexer_goes_on_behind_a_malformed_word() {
    let mut lexer = Lexer::new("a --1 b".as_bytes());
    assert_eq!(lexer.next(), Some(Ok(Token::Symbol("a".to_string()))));
    assert_eq!(lexer.next(), Some(Err(LexError::MalformedNumber("--1".to_string()))));
    assert_eq!(lexer.next(), Some(Ok(Token::Symbol("b".to_string()))));
    assert_eq!(lexer.next(), None);
    assert_eq!(lexer.next(), None);
}

#[test]
fn lexer_consume_passes_over_bytes() {
    let mut lexer = Lexer::new("abc def".as_bytes());
    lexer.consume(4);
    assert_eq!(lexer.next(), Some(Ok(Token::Symbol("def".to_string()))));
    let mut lexer = Lexer::new("abc".as_bytes());
    lexer.consume(100);
    assert_eq!(lexer.next(), None);
}

#[test]
fn lexer_joins_words_across_a_comment() {
    assert_eq!(lex("ab;x\ncd"), Ok(vec![Token::Symbol("abcd".to_string())]));
}
