//! A tree-walking interpreter for a small Lisp: a tokenizer, a parser, the
//! values of the language, environments, and an evaluator.
//!
//! Every run-time type has a view into a mathematical model (`model`,
//! `state`), and what each function does is stated over these: `lexer::cut`
//! and `lexer::classify` say what a token is, `parse::parse_form` what a
//! form is, and `semantics` what evaluation yields. `laws` holds what follows
//! for all values.
//!
//! The catalogue of native functions is closed (`model::Primitive`); an
//! embedder adds native functions of its own by the trait `native::Native`
//! and hands them to `interpret_with` or `eval::eval_object_with`.
//!
//! Three things are settled here that a host language would settle:
//!
//! - Evaluation is bounded. A list is evaluated with a bound on the depth of
//!   nested evaluations and fails with `EvalError::DepthExceeded` beyond it.
//!   Integer arithmetic is checked and fails with `EvalError::IntegerOverflow`
//!   or `EvalError::DivisionByZero`. No function of the library panics.
//! - Printing goes to the environment. `print`, `princ` and `terpri` append
//!   to a text that the embedder takes with `Env::take_output`.
//! - A floating-point number is carried as a decimal text that denotes it.
//!   The library reads the text, prints it and compares it in its canonical
//!   form (`decimal::canonical`), in which `1.0`, `1.00` and `1` read alike,
//!   and does no arithmetic on it: an arithmetic function with such an
//!   operand hands out
//!   the result that the environment was told for it (`Env::learn`), and
//!   fails with `EvalError::FloatPending`, which names the operation, where it
//!   was told none. The embedder computes the result, tells it, and
//!   evaluates again.

pub mod builtins;
pub mod decimal;
pub mod display;
pub mod env;
pub mod eval;
pub mod laws;
pub mod lexer;
pub mod list;
pub mod model;
pub mod native;
pub mod number;
pub mod params;
pub mod parse;
pub mod report;
pub mod semantics;
pub mod shell;
pub mod state;
pub mod text;
pub mod types;

use vstd::prelude::*;

pub use crate::builtins::{generate_default_env, BuiltinFunc};
pub use crate::env::{Env, EnvError};
pub use crate::eval::{Eval, EvalError};
pub use crate::lexer::{LexError, Lexer, Token};
pub use crate::list::{cons, get_list, integer, nil, quote, symbol};
pub use crate::native::{Native, Natives};
pub use crate::params::ParamError;
pub use crate::parse::{parse, ParserError};
pub use crate::types::{
    Builtin, Foreign, Lambda, List, Object, Parameter, Params, UserLambda,
};

use crate::eval::{eval_object_with, outcome_of, DEPTH_LIMIT};
use crate::lexer::{lexemes, Lexeme};
use crate::model::Value;
use crate::parse::{lemma_form_shrinks, parse_form};
use crate::semantics::{eval_value, Fault, Outcome};
use crate::state::State;

verus! {

/// What interpreting the tokens `toks` yields after `last` was the result of
/// the form before them: each form is parsed and evaluated in turn, until no
/// form can be parsed, or an evaluation waits for the result of
/// floating-point arithmetic; the result of the last evaluation is the
/// result. A form that was parsed leaves fewer tokens
/// (`parse::lemma_form_shrinks`), so that the test on the lengths always
/// holds; it stands here for the sake of termination.
pub open spec fn run(
    natives: Seq<Box<dyn Native>>,
    toks: Seq<Lexeme>,
    last: Result<Value, Fault>,
    st: State,
) -> Outcome
    decreases toks.len(),
{
    let parsed = parse_form(toks);
    match parsed.result {
        Err(_) => Outcome { result: last, state: st },
        Ok(form) => {
            if parsed.rest.len() < toks.len() {
                let one = eval_value(natives, form, st, DEPTH_LIMIT as nat);
                if one.result matches Err(Fault::FloatPending(_, _, _)) {
                    one
                } else {
                    run(natives, parsed.rest, one.result, one.state)
                }
            } else {
                Outcome { result: last, state: st }
            }
        },
    }
}

/// Interprets a source text in the given environment: parses one form after
/// the other and evaluates each, until the text ends or holds no further
/// form. Hands out the result of the last evaluation, `Nil` where there was
/// none. An evaluation that waits for the result of floating-point
/// arithmetic ends the run at once. `natives` are the native functions that
/// the embedder has supplied.
pub fn interpret_with(
    natives: &Natives,
    source: &[u8],
    env: &mut Env,
) -> (r: Result<Object, EvalError>)
    ensures
        outcome_of(r, final(env)@) == run(natives@, lexemes(source@), Ok(Value::Nil), old(env)@),
{
    let mut lexer = Lexer::new(source);
    let mut ret: Result<Object, EvalError> = Ok(Object::Nil);
    let ghost goal = run(natives@, lexemes(source@), Ok(Value::Nil), env@);
    loop
        invariant_except_break
            goal == run(natives@, lexemes(lexer@), crate::eval::result_view(ret), env@),
        invariant
            goal == run(natives@, lexemes(source@), Ok(Value::Nil), old(env)@),
        ensures
            outcome_of(ret, env@) == goal,
        decreases lexer@.len(),
    {
        proof {
            lemma_form_shrinks(lexemes(lexer@));
        }
        match parse(&mut lexer) {
            Err(_) => {
                break ;
            },
            Ok(obj) => {
                ret = eval_object_with(natives, obj, env, DEPTH_LIMIT);
                match &ret {
                    Err(EvalError::FloatPending(_, _, _)) => {
                        return ret;
                    },
                    _ => {},
                }
            },
        }
    }
    ret
}

/// Interprets a source text as `interpret_with` does, where the embedder
/// has supplied no native function.
pub fn interpret(source: &[u8], env: &mut Env) -> (r: Result<Object, EvalError>)
    ensures
        outcome_of(r, final(env)@) == run(
            Seq::empty(),
            lexemes(source@),
            Ok(Value::Nil),
            old(env)@,
        ),
{
    let natives = Natives::new();
    interpret_with(&natives, source, env)
}

} // verus!
