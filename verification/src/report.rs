//! The messages of the errors.

use vstd::prelude::*;
use crate::env::{EnvError, EnvFault};
use crate::eval::EvalError;
use crate::lexer::{Lexeme, LexError, Token};

use crate::params::ParamError;
use crate::parse::{ParseFault, ParserError};
use crate::semantics::Fault;
use crate::text::{count_text, decimal_text, digits_text, integer_text};
use crate::types::Builtin;

verus! {

/// How a token is named in a message: its kind, and what it holds in
/// parentheses, text between `"`.
pub open spec fn lexeme_message(t: Lexeme) -> Seq<char> {
    match t {
        Lexeme::Integer(n) => "Integer("@ + decimal_text(n) + ")"@,
        Lexeme::Float(s) => "Float("@ + s + ")"@,
        Lexeme::Quote => "Quote"@,
        Lexeme::Dot => "Dot"@,
        Lexeme::Symbol(s) => "Symbol(\""@ + s + "\")"@,
        Lexeme::Str(s) => "String(\""@ + s + "\")"@,
        Lexeme::ParenLeft => "ParenLeft"@,
        Lexeme::ParenRight => "ParenRight"@,
        Lexeme::Malformed(s) => "Malformed number "@ + s,
    }
}

/// The message of a parse failure.
pub open spec fn parse_message(e: ParseFault) -> Seq<char> {
    match e {
        ParseFault::UnexpectedToken(t) => lexeme_message(t),
        ParseFault::UnexpectedEOF => "Unexpected EOF"@,
        ParseFault::UnmatchedParens => "No matching parenthesis found"@,
        ParseFault::EmptyInput => "Input is empty"@,
        ParseFault::Lexical(t) => lexeme_message(t),
    }
}

/// The message of a lookup failure.
pub open spec fn env_message(e: EnvFault) -> Seq<char> {
    match e {
        EnvFault::SymbolNotFound(s) => "Symbol \""@ + s + "\" not found"@,
        EnvFault::NotASymbol(s) => s + " is not a symbol"@,
    }
}

/// The message of an evaluation failure.
pub open spec fn eval_message(e: Fault) -> Seq<char> {
    match e {
        Fault::UnboundVariable(s) => "Unbound variable "@ + s,
        Fault::UnmatchedNumberOfParameters(expected, actual) =>
            "Unmatched number of parameters, expecting "@ + digits_text(expected) + " but got "@
                + digits_text(actual),
        Fault::IllegalFunctionCall => "Illegal function call"@,
        Fault::ParameterTypeMismatched => "Parameter type mismatched"@,
        Fault::DivisionByZero => "Division by zero"@,
        Fault::IntegerOverflow => "Integer overflow"@,
        Fault::DepthExceeded => "Evaluation nested too deep"@,
        Fault::FloatPending(p, x, y) => "Floating-point arithmetic pending: ("@ + p.name() + " "@
            + x + " "@ + y + ")"@,
    }
}

impl Token {
    /// How the token is named in a message.
    pub fn to_string(&self) -> (s: String)
        ensures
            s@ == lexeme_message(self@),
    {
        let mut out = String::new();
        match self {
            Token::Integer(n) => {
                out.append("Integer(");
                out.append(integer_text(*n).as_str());
                out.append(")");
            },
            Token::Float(t) => {
                out.append("Float(");
                out.append(t.as_str());
                out.append(")");
            },
            Token::Quote => {
                out.append("Quote");
            },
            Token::Dot => {
                out.append("Dot");
            },
            Token::Symbol(t) => {
                out.append("Symbol(\"");
                out.append(t.as_str());
                out.append("\")");
            },
            Token::String(t) => {
                out.append("String(\"");
                out.append(t.as_str());
                out.append("\")");
            },
            Token::ParenLeft => {
                out.append("ParenLeft");
            },
            Token::ParenRight => {
                out.append("ParenRight");
            },
        }
        assert(out@ =~= lexeme_message(self@));
        out
    }
}

impl LexError {
    /// The message of the error.
    pub fn to_string(&self) -> (s: String)
        ensures
            s@ == lexeme_message(self@),
    {
        match self {
            LexError::MalformedNumber(t) => {
                let mut out = String::new();
                out.append("Malformed number ");
                out.append(t.as_str());
                assert(out@ =~= lexeme_message(self@));
                out
            },
        }
    }
}

impl ParserError {
    /// The message of the error.
    pub fn to_string(&self) -> (s: String)
        ensures
            s@ == parse_message(self@),
    {
        match self {
            ParserError::UnexpectedToken(t) => t.to_string(),
            ParserError::UnexpectedEOF => String::from_str("Unexpected EOF"),
            ParserError::UnmatchedParens => String::from_str("No matching parenthesis found"),
            ParserError::EmptyInput => String::from_str("Input is empty"),
            ParserError::Lexical(e) => e.to_string(),
        }
    }
}

impl ParamError {
    /// The message of the error.
    pub fn to_string(&self) -> (s: String)
        ensures
            s@ == match self {
                ParamError::InvalidType => "Invalid param object type"@,
                ParamError::Invalid => "Invalid parameter list"@,
            },
    {
        match self {
            ParamError::InvalidType => String::from_str("Invalid param object type"),
            ParamError::Invalid => String::from_str("Invalid parameter list"),
        }
    }
}

impl EnvError {
    /// The message of the error.
    pub fn to_string(&self) -> (s: String)
        ensures
            s@ == env_message(self@),
    {
        let mut out = String::new();
        match self {
            EnvError::SymbolNotFound(t) => {
                out.append("Symbol \"");
                out.append(t.as_str());
                out.append("\" not found");
            },
            EnvError::NotASymbol(t) => {
                out.append(t.as_str());
                out.append(" is not a symbol");
            },
        }
        assert(out@ =~= env_message(self@));
        out
    }
}

impl EvalError {
    /// The message of the error.
    pub fn to_string(&self) -> (s: String)
        ensures
            s@ == eval_message(self@),
    {
        let mut out = String::new();
        match self {
            EvalError::UnboundVariable(t) => {
                out.append("Unbound variable ");
                out.append(t.as_str());
            },
            EvalError::UnmatchedNumberOfParameters(expected, actual) => {
                out.append("Unmatched number of parameters, expecting ");
                out.append(count_text(*expected).as_str());
                out.append(" but got ");
                out.append(count_text(*actual).as_str());
            },
            EvalError::IllegalFunctionCall => {
                out.append("Illegal function call");
            },
            EvalError::ParameterTypeMismatched => {
                out.append("Parameter type mismatched");
            },
            EvalError::DivisionByZero => {
                out.append("Division by zero");
            },
            EvalError::IntegerOverflow => {
                out.append("Integer overflow");
            },
            EvalError::DepthExceeded => {
                out.append("Evaluation nested too deep");
            },
            EvalError::FloatPending(p, x, y) => {
                out.append("Floating-point arithmetic pending: (");
                out.append(Builtin::of(*p).get_name());
                out.append(" ");
                out.append(x.as_str());
                out.append(" ");
                out.append(y.as_str());
                out.append(")");
            },
        }
        assert(out@ =~= eval_message(self@));
        out
    }
}

} // verus!
