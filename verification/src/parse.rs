//! The parser: from tokens to one value for each top-level form.

use vstd::prelude::*;
use crate::lexer::{lexemes, Lexeme, Lexer, LexError, Token};
use crate::list::{cons, fold_objects, quote};
use crate::model::{cons_value, fold_items, Value};
use crate::text::{fold, folded, text_is};
use crate::types::Object;

verus! {

/// Why no form could be parsed.
#[derive(Clone, Debug, PartialEq)]
pub enum ParserError {
    /// A token stands where the form cannot have it.
    UnexpectedToken(Token),
    /// The input ends behind a `'` or a `.`.
    UnexpectedEOF,
    /// The input ends inside a list.
    UnmatchedParens,
    /// The input holds no token.
    EmptyInput,
    /// A word of the form is malformed.
    Lexical(LexError),
}

/// The model of a parse failure.
pub enum ParseFault {
    UnexpectedToken(Lexeme),
    UnexpectedEOF,
    UnmatchedParens,
    EmptyInput,
    Lexical(Lexeme),
}

impl View for ParserError {
    type V = ParseFault;

    open spec fn view(&self) -> ParseFault {
        match self {
            ParserError::UnexpectedToken(t) => ParseFault::UnexpectedToken(t@),
            ParserError::UnexpectedEOF => ParseFault::UnexpectedEOF,
            ParserError::UnmatchedParens => ParseFault::UnmatchedParens,
            ParserError::EmptyInput => ParseFault::EmptyInput,
            ParserError::Lexical(e) => ParseFault::Lexical(e@),
        }
    }
}

/// The model of what a parse hands out.
pub open spec fn parsed_view(r: Result<Object, ParserError>) -> Result<Value, ParseFault> {
    match r {
        Ok(o) => Ok(o@),
        Err(e) => Err(e@),
    }
}

/// What a parse yields, and the tokens that it left.
pub struct Parsed {
    pub result: Result<Value, ParseFault>,
    pub rest: Seq<Lexeme>,
}

/// Whether the token is a value by itself.
pub open spec fn is_atom(t: Lexeme) -> bool {
    t is Integer || t is Float || t is Str || t is Symbol
}

/// The value that a name in upper case stands for: `T` is the truth atom,
/// `NIL` the empty list, any other name a symbol.
pub open spec fn named_value(name: Seq<char>) -> Value {
    if name == "T"@ {
        Value::T
    } else if name == "NIL"@ {
        Value::Nil
    } else {
        Value::Symbol(name)
    }
}

/// The value of a token that is a value by itself. The name of a symbol is
/// folded to upper case, and stands for a value as `named_value` says.
pub open spec fn atom_value(t: Lexeme) -> Value {
    match t {
        Lexeme::Integer(n) => Value::Integer(n),
        Lexeme::Float(s) => Value::Float(s),
        Lexeme::Str(s) => Value::Str(s),
        Lexeme::Symbol(s) => named_value(folded(s)),
        _ => Value::Nil,
    }
}

/// What a failure of the part leaves of the whole: the failure.
pub open spec fn failed(e: ParseFault, rest: Seq<Lexeme>) -> Parsed {
    Parsed { result: Err(e), rest }
}

/// One form: an atom, a quoted form, or a list up to its closing
/// parenthesis.
pub open spec fn parse_form(toks: Seq<Lexeme>) -> Parsed
    decreases toks.len(), 0int,
{
    if toks.len() == 0 {
        failed(ParseFault::EmptyInput, toks)
    } else {
        let t = toks[0];
        let rest = toks.skip(1);
        match t {
            Lexeme::Malformed(_) => failed(ParseFault::Lexical(t), rest),
            Lexeme::Dot | Lexeme::ParenRight => failed(ParseFault::UnexpectedToken(t), rest),
            Lexeme::ParenLeft => parse_items(rest, Seq::empty()),
            Lexeme::Quote => parse_quoted(rest),
            _ => Parsed { result: Ok(atom_value(t)), rest },
        }
    }
}

/// What follows a `'`: a list or an atom, which is quoted.
pub open spec fn parse_quoted(toks: Seq<Lexeme>) -> Parsed
    decreases toks.len(), 0int,
{
    if toks.len() == 0 {
        failed(ParseFault::UnexpectedEOF, toks)
    } else {
        let t = toks[0];
        let rest = toks.skip(1);
        match t {
            Lexeme::Malformed(_) => failed(ParseFault::Lexical(t), rest),
            Lexeme::ParenLeft => {
                let inner = parse_items(rest, Seq::empty());
                match inner.result {
                    Ok(v) => Parsed { result: Ok(Value::Quote(Box::new(v))), rest: inner.rest },
                    Err(e) => inner,
                }
            },
            Lexeme::Dot | Lexeme::ParenRight | Lexeme::Quote => failed(
                ParseFault::UnexpectedToken(t),
                rest,
            ),
            _ => Parsed { result: Ok(Value::Quote(Box::new(atom_value(t)))), rest },
        }
    }
}

/// What follows a `.` inside a list: one item, which `last` is consed to.
pub open spec fn parse_dotted(last: Value, toks: Seq<Lexeme>) -> Parsed
    decreases toks.len(), 1int,
{
    if toks.len() == 0 {
        failed(ParseFault::UnexpectedEOF, toks)
    } else {
        let t = toks[0];
        let rest = toks.skip(1);
        match t {
            Lexeme::Malformed(_) => failed(ParseFault::Lexical(t), rest),
            Lexeme::ParenRight | Lexeme::Dot => failed(ParseFault::UnexpectedToken(t), rest),
            Lexeme::ParenLeft => {
                let inner = parse_items(rest, Seq::empty());
                match inner.result {
                    Ok(v) => Parsed { result: Ok(cons_value(last, v)), rest: inner.rest },
                    Err(e) => inner,
                }
            },
            Lexeme::Quote => {
                let inner = parse_quoted(rest);
                match inner.result {
                    Ok(v) => Parsed { result: Ok(cons_value(last, v)), rest: inner.rest },
                    Err(e) => inner,
                }
            },
            _ => Parsed { result: Ok(cons_value(last, atom_value(t))), rest },
        }
    }
}

/// The items of a list up to its closing parenthesis, behind the items
/// `stack` that were read before; the items are then folded into one value.
/// An item leaves fewer tokens than the list had (`lemma_items_shrink`), so
/// that the tests on the lengths always hold; they stand here for the sake
/// of termination.
pub open spec fn parse_items(toks: Seq<Lexeme>, stack: Seq<Value>) -> Parsed
    decreases toks.len(), 0int,
{
    if toks.len() == 0 {
        failed(ParseFault::UnmatchedParens, toks)
    } else {
        let t = toks[0];
        let rest = toks.skip(1);
        match t {
            Lexeme::Malformed(_) => failed(ParseFault::Lexical(t), rest),
            Lexeme::ParenRight => Parsed { result: Ok(fold_items(stack)), rest },
            Lexeme::Dot => {
                if stack.len() == 0 {
                    failed(ParseFault::UnexpectedToken(t), rest)
                } else {
                    let inner = parse_dotted(stack.last(), rest);
                    match inner.result {
                        Ok(v) => if inner.rest.len() < toks.len() {
                            parse_items(inner.rest, stack.drop_last().push(v))
                        } else {
                            inner
                        },
                        Err(e) => inner,
                    }
                }
            },
            Lexeme::ParenLeft => {
                let inner = parse_items(rest, Seq::empty());
                match inner.result {
                    Ok(v) => if inner.rest.len() < toks.len() {
                        parse_items(inner.rest, stack.push(v))
                    } else {
                        inner
                    },
                    Err(e) => inner,
                }
            },
            Lexeme::Quote => {
                let inner = parse_quoted(rest);
                match inner.result {
                    Ok(v) => if inner.rest.len() < toks.len() {
                        parse_items(inner.rest, stack.push(v))
                    } else {
                        inner
                    },
                    Err(e) => inner,
                }
            },
            _ => parse_items(rest, stack.push(atom_value(t))),
        }
    }
}

/// A parse leaves no more tokens than it was given, and fewer where it
/// yields a value.
pub proof fn lemma_form_shrinks(toks: Seq<Lexeme>)
    ensures
        parse_form(toks).rest.len() <= toks.len(),
        parse_form(toks).result is Ok ==> parse_form(toks).rest.len() < toks.len(),
    decreases toks.len(), 0int,
{
    if toks.len() > 0 {
        match toks[0] {
            Lexeme::ParenLeft => lemma_items_shrink(toks.skip(1), Seq::empty()),
            Lexeme::Quote => lemma_quoted_shrinks(toks.skip(1)),
            _ => {},
        }
    }
}

/// A parse behind a `'` leaves no more tokens than it was given.
pub proof fn lemma_quoted_shrinks(toks: Seq<Lexeme>)
    ensures
        parse_quoted(toks).rest.len() <= toks.len(),
    decreases toks.len(), 0int,
{
    if toks.len() > 0 {
        match toks[0] {
            Lexeme::ParenLeft => lemma_items_shrink(toks.skip(1), Seq::empty()),
            _ => {},
        }
    }
}

/// A parse behind a `.` leaves no more tokens than it was given.
pub proof fn lemma_dotted_shrinks(last: Value, toks: Seq<Lexeme>)
    ensures
        parse_dotted(last, toks).rest.len() <= toks.len(),
    decreases toks.len(), 1int,
{
    if toks.len() > 0 {
        match toks[0] {
            Lexeme::ParenLeft => lemma_items_shrink(toks.skip(1), Seq::empty()),
            Lexeme::Quote => lemma_quoted_shrinks(toks.skip(1)),
            _ => {},
        }
    }
}

/// A parse of a list's items leaves no more tokens than it was given.
pub proof fn lemma_items_shrink(toks: Seq<Lexeme>, stack: Seq<Value>)
    ensures
        parse_items(toks, stack).rest.len() <= toks.len(),
    decreases toks.len(), 0int,
{
    if toks.len() > 0 {
        let rest = toks.skip(1);
        match toks[0] {
            Lexeme::Malformed(_) => {},
            Lexeme::ParenRight => {},
            Lexeme::Dot => {
                if stack.len() > 0 {
                    lemma_dotted_shrinks(stack.last(), rest);
                    let inner = parse_dotted(stack.last(), rest);
                    if let Ok(v) = inner.result {
                        lemma_items_shrink(inner.rest, stack.drop_last().push(v));
                    }
                }
            },
            Lexeme::ParenLeft => {
                lemma_items_shrink(rest, Seq::empty());
                let inner = parse_items(rest, Seq::empty());
                if let Ok(v) = inner.result {
                    lemma_items_shrink(inner.rest, stack.push(v));
                }
            },
            Lexeme::Quote => {
                lemma_quoted_shrinks(rest);
                let inner = parse_quoted(rest);
                if let Ok(v) = inner.result {
                    lemma_items_shrink(inner.rest, stack.push(v));
                }
            },
            _ => {
                lemma_items_shrink(rest, stack.push(atom_value(toks[0])));
            },
        }
    }
}

/// The value that a name in upper case stands for.
pub fn named_object(name: String) -> (r: Object)
    ensures
        r@ == named_value(name@),
{
    if text_is(&name, "T") {
        Object::T
    } else if text_is(&name, "NIL") {
        Object::Nil
    } else {
        Object::Symbol(name)
    }
}

/// The value of a token that is a value by itself.
pub fn atom_object(token: Token) -> (r: Object)
    requires
        is_atom(token@),
    ensures
        r@ == atom_value(token@),
{
    match token {
        Token::Integer(n) => Object::Integer(n),
        Token::Float(s) => Object::Float(s),
        Token::String(s) => Object::String(s),
        Token::Symbol(name) => named_object(fold(name.as_str())),
        _ => Object::Nil,
    }
}

/// Parses what follows a `'`.
fn parse_quote(tokens: &mut Lexer) -> (r: Result<Object, ParserError>)
    ensures
        parsed_view(r) == parse_quoted(lexemes(old(tokens)@)).result,
        lexemes(final(tokens)@) == parse_quoted(lexemes(old(tokens)@)).rest,
        final(tokens)@.len() <= old(tokens)@.len(),
    decreases old(tokens)@.len(), 0int,
{
    let next = tokens.next();
    assert(next is Some ==> lexemes(old(tokens)@).skip(1) =~= lexemes(tokens@));
    assert(next is None ==> lexemes(old(tokens)@) =~= lexemes(tokens@));
    match next {
        None => Err(ParserError::UnexpectedEOF),
        Some(Err(e)) => Err(ParserError::Lexical(e)),
        Some(Ok(t)) => {
            match t {
                Token::ParenLeft => {
                    match parse_list(tokens) {
                        Ok(v) => Ok(quote(v)),
                        Err(e) => Err(e),
                    }
                },
                Token::Dot | Token::ParenRight | Token::Quote => Err(
                    ParserError::UnexpectedToken(t),
                ),
                _ => Ok(quote(atom_object(t))),
            }
        },
    }
}

/// Parses what follows a `.` inside a list.
fn parse_dotted_list(last: Object, tokens: &mut Lexer) -> (r: Result<Object, ParserError>)
    ensures
        parsed_view(r) == parse_dotted(last@, lexemes(old(tokens)@)).result,
        lexemes(final(tokens)@) == parse_dotted(last@, lexemes(old(tokens)@)).rest,
        final(tokens)@.len() <= old(tokens)@.len(),
    decreases old(tokens)@.len(), 1int,
{
    let next = tokens.next();
    assert(next is Some ==> lexemes(old(tokens)@).skip(1) =~= lexemes(tokens@));
    assert(next is None ==> lexemes(old(tokens)@) =~= lexemes(tokens@));
    match next {
        None => Err(ParserError::UnexpectedEOF),
        Some(Err(e)) => Err(ParserError::Lexical(e)),
        Some(Ok(t)) => {
            match t {
                Token::ParenRight | Token::Dot => Err(ParserError::UnexpectedToken(t)),
                Token::ParenLeft => {
                    match parse_list(tokens) {
                        Ok(v) => Ok(cons(last, v)),
                        Err(e) => Err(e),
                    }
                },
                Token::Quote => {
                    match parse_quote(tokens) {
                        Ok(v) => Ok(cons(last, v)),
                        Err(e) => Err(e),
                    }
                },
                _ => Ok(cons(last, atom_object(t))),
            }
        },
    }
}

/// Parses the items of a list up to its closing parenthesis.
fn parse_list(tokens: &mut Lexer) -> (r: Result<Object, ParserError>)
    ensures
        parsed_view(r) == parse_items(lexemes(old(tokens)@), Seq::empty()).result,
        lexemes(final(tokens)@) == parse_items(lexemes(old(tokens)@), Seq::empty()).rest,
        final(tokens)@.len() <= old(tokens)@.len(),
    decreases old(tokens)@.len(), 0int,
{
    let mut stack: Vec<Object> = Vec::new();
    let ghost goal = parse_items(lexemes(tokens@), Seq::empty());
    assert(stack@.map_values(|o: Object| o@) =~= Seq::<Value>::empty());
    loop
        invariant
            tokens@.len() <= old(tokens)@.len(),
            goal == parse_items(lexemes(old(tokens)@), Seq::empty()),
            goal == parse_items(lexemes(tokens@), stack@.map_values(|o: Object| o@)),
        decreases tokens@.len(),
    {
        let ghost before = lexemes(tokens@);
        let ghost items = stack@.map_values(|o: Object| o@);
        let next = tokens.next();
        assert(next is Some ==> before.skip(1) =~= lexemes(tokens@));
        assert(next is None ==> before =~= lexemes(tokens@));
        proof {
            let rest = before.skip(1);
            if before.len() > 0 {
                lemma_items_shrink(rest, Seq::empty());
                lemma_quoted_shrinks(rest);
                if items.len() > 0 {
                    lemma_dotted_shrinks(items.last(), rest);
                }
            }
        }
        match next {
            None => {
                return Err(ParserError::UnmatchedParens);
            },
            Some(Err(e)) => {
                return Err(ParserError::Lexical(e));
            },
            Some(Ok(t)) => {
                match t {
                    Token::Dot => {
                        if stack.len() == 0 {
                            return Err(ParserError::UnexpectedToken(t));
                        }
                        let last = stack.pop().unwrap();
                        assert(last@ == items.last());
                        match parse_dotted_list(last, tokens) {
                            Ok(v) => {
                                stack.push(v);
                                assert(stack@.map_values(|o: Object| o@) =~= items.drop_last().push(
                                    v@,
                                ));
                            },
                            Err(e) => {
                                return Err(e);
                            },
                        }
                    },
                    Token::ParenLeft => {
                        match parse_list(tokens) {
                            Ok(v) => {
                                stack.push(v);
                                assert(stack@.map_values(|o: Object| o@) =~= items.push(v@));
                            },
                            Err(e) => {
                                return Err(e);
                            },
                        }
                    },
                    Token::Quote => {
                        match parse_quote(tokens) {
                            Ok(v) => {
                                stack.push(v);
                                assert(stack@.map_values(|o: Object| o@) =~= items.push(v@));
                            },
                            Err(e) => {
                                return Err(e);
                            },
                        }
                    },
                    Token::ParenRight => {
                        return Ok(fold_objects(stack));
                    },
                    _ => {
                        let v = atom_object(t);
                        stack.push(v);
                        assert(stack@.map_values(|o: Object| o@) =~= items.push(v@));
                    },
                }
            },
        }
    }
}

/// Parses one form from the tokens, and uses up no token behind it.
pub fn parse(tokens: &mut Lexer) -> (r: Result<Object, ParserError>)
    ensures
        parsed_view(r) == parse_form(lexemes(old(tokens)@)).result,
        lexemes(final(tokens)@) == parse_form(lexemes(old(tokens)@)).rest,
        final(tokens)@.len() <= old(tokens)@.len(),
        r is Ok ==> final(tokens)@.len() < old(tokens)@.len(),
{
    let next = tokens.next();
    assert(next is Some ==> lexemes(old(tokens)@).skip(1) =~= lexemes(tokens@));
    assert(next is None ==> lexemes(old(tokens)@) =~= lexemes(tokens@));
    match next {
        None => Err(ParserError::EmptyInput),
        Some(Err(e)) => Err(ParserError::Lexical(e)),
        Some(Ok(t)) => {
            match t {
                Token::Dot | Token::ParenRight => Err(ParserError::UnexpectedToken(t)),
                Token::ParenLeft => parse_list(tokens),
                Token::Quote => parse_quote(tokens),
                _ => Ok(atom_object(t)),
            }
        },
    }
}

} // verus!
