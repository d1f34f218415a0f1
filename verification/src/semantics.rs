//! What evaluation means: the value and the environment that each form
//! yields, as functions of the form, the environment and a bound on the
//! depth of nested evaluations.

use vstd::prelude::*;
use crate::decimal::canonical;
use crate::display::{show, show_plain};
use crate::model::{
    cons_value, list_of, required_count, same_value, valid_bindings, Binding, Chain, Closure,
    Func, Primitive, Value,
};
use crate::native::{foreign_outcome, Native};
use crate::params::symbol_bindings;
use crate::state::{Frame, State};
use crate::text::{decimal_text, folded};

verus! {

/// Why an evaluation failed.
pub enum Fault {
    /// A symbol is bound in no scope.
    UnboundVariable(Seq<char>),
    /// A call gives fewer arguments than the callable requires: the number
    /// of arguments that it requires, which leaves the `Optional`
    /// parameters out, and the number of arguments that it was given.
    UnmatchedNumberOfParameters(nat, nat),
    /// A callable is applied to something that is no list of arguments.
    IllegalFunctionCall,
    /// A value is of another kind than the one required.
    ParameterTypeMismatched,
    /// An integer is divided by zero.
    DivisionByZero,
    /// The result of integer arithmetic does not fit the machine word.
    IntegerOverflow,
    /// Evaluations are nested deeper than the bound allows.
    DepthExceeded,
    /// The environment was not told the result of an arithmetic function
    /// on the two numbers, of which one at least is a floating-point number.
    FloatPending(Primitive, Seq<char>, Seq<char>),
}

/// What an evaluation yields: a value or a failure, and the environment as
/// it is afterwards.
pub struct Outcome {
    pub result: Result<Value, Fault>,
    pub state: State,
}

/// What binding the arguments of a call yields: the scope of the call or a
/// failure, and the environment as it is afterwards.
pub struct Bound {
    pub result: Result<Frame, Fault>,
    pub state: State,
}

/// An evaluation that yields `v` and leaves `st`.
pub open spec fn done(v: Value, st: State) -> Outcome {
    Outcome { result: Ok(v), state: st }
}

/// An evaluation that fails with `e` and leaves `st`.
pub open spec fn fail(e: Fault, st: State) -> Outcome {
    Outcome { result: Err(e), state: st }
}

/// The truth value of a condition.
pub open spec fn truth(b: bool) -> Value {
    if b {
        Value::T
    } else {
        Value::Nil
    }
}

/// The number of nodes of a value, lists counted link by link.
pub open spec fn value_size(v: Value) -> nat
    decreases v,
{
    match v {
        Value::List(c) => 1 + chain_size(*c),
        Value::Quote(q) => 1 + value_size(*q),
        _ => 1,
    }
}

/// The number of nodes of a list.
pub open spec fn chain_size(c: Chain) -> nat
    decreases c,
{
    match c {
        Chain::EndsWith(v) => 1 + value_size(v),
        Chain::Cons(v, rest) => 1 + value_size(v) + chain_size(*rest),
    }
}

/// The value bound to `name`, which a native function reads its argument
/// from.
pub open spec fn argument(st: State, name: Seq<char>) -> Result<Value, Fault> {
    match st.lookup(name) {
        Some(v) => Ok(v),
        None => Err(Fault::UnboundVariable(name)),
    }
}

/// The quotient of two integers, rounded towards zero.
pub open spec fn quotient(x: int, y: int) -> int
    recommends
        y != 0,
{
    if x >= 0 && y > 0 {
        x / y
    } else if x < 0 && y < 0 {
        (-x) / (-y)
    } else if x < 0 {
        -((-x) / y)
    } else {
        -(x / (-y))
    }
}

/// The text of a number, by which floating-point arithmetic names its
/// operands: the decimal text of an integer, the canonical text of a
/// floating-point number; none of any other value.
pub open spec fn number_text(v: Value) -> Option<Seq<char>> {
    match v {
        Value::Integer(n) => Some(decimal_text(n)),
        Value::Float(t) => Some(canonical(t)),
        _ => None,
    }
}

/// What an arithmetic function makes of two values. Two integers give an
/// integer. Two numbers of which one at least is a floating-point number
/// give the floating-point number that the environment was told for them,
/// the first operand first, and fail where it was told none. Any other
/// value is of the wrong kind.
pub open spec fn calculate(p: Primitive, a: Value, b: Value, st: State) -> Result<Value, Fault> {
    match (a, b) {
        (Value::Integer(x), Value::Integer(y)) => arithmetic(p, x, y),
        _ => match (number_text(a), number_text(b)) {
            (Some(x), Some(y)) => match st.known(p, x, y) {
                Some(r) => Ok(Value::Float(r)),
                None => Err(Fault::FloatPending(p, x, y)),
            },
            _ => Err(Fault::ParameterTypeMismatched),
        },
    }
}

/// What an arithmetic function makes of two integers.
pub open spec fn arithmetic(p: Primitive, x: int, y: int) -> Result<Value, Fault> {
    if p == Primitive::Div && y == 0 {
        Err(Fault::DivisionByZero)
    } else {
        let r = match p {
            Primitive::Add => x + y,
            Primitive::Sub => x - y,
            Primitive::Mul => x * y,
            _ => quotient(x, y),
        };
        if isize::MIN <= r <= isize::MAX {
            Ok(Value::Integer(r))
        } else {
            Err(Fault::IntegerOverflow)
        }
    }
}

/// The value of a form. A symbol is looked up under its name in upper
/// case; a quoted value is taken as it stands; a list is evaluated as
/// `eval_chain` says; any other value is its own value.
pub open spec fn eval_value(
    natives: Seq<Box<dyn Native>>,
    v: Value,
    st: State,
    fuel: nat,
) -> Outcome
    decreases fuel, 1nat, 0nat,
{
    match v {
        Value::Symbol(s) => match st.lookup(folded(s)) {
            Some(x) => done(x, st),
            None => fail(Fault::UnboundVariable(folded(s)), st),
        },
        Value::Quote(q) => done(*q, st),
        Value::List(l) => eval_chain(natives, *l, st, fuel),
        _ => done(v, st),
    }
}

/// The value of a list. The empty list is `Nil`. Else the head is evaluated
/// first. Where nothing follows the head, its value is the result. Where
/// the head is a callable, it is called with what follows as arguments.
/// Else the items that follow are evaluated in turn and the last value is
/// the result; an end that is no list is evaluated in their place.
pub open spec fn eval_chain(
    natives: Seq<Box<dyn Native>>,
    l: Chain,
    st: State,
    fuel: nat,
) -> Outcome
    decreases fuel, 0nat, 0nat,
{
    if l.len() == 0 {
        done(Value::Nil, st)
    } else if fuel == 0 {
        fail(Fault::DepthExceeded, st)
    } else {
        let f = (fuel - 1) as nat;
        let first = eval_value(natives, l.car(), st, f);
        match first.result {
            Err(_) => first,
            Ok(r) => if l.cdr() is Nil {
                first
            } else {
                match (r, l.cdr()) {
                    (Value::Lambda(lambda), Value::List(args)) => call(
                        natives,
                        *lambda,
                        *args,
                        (l.len() - 1) as nat,
                        first.state,
                        f,
                    ),
                    (Value::Lambda(_), _) => fail(Fault::IllegalFunctionCall, first.state),
                    (_, Value::List(rest)) => eval_sequence(
                        natives,
                        rest.items(),
                        Value::Nil,
                        first.state,
                        f,
                    ),
                    (_, end) => eval_value(natives, end, first.state, f),
                }
            },
        }
    }
}

/// The value of the last of `items`, each evaluated in turn; `last` where
/// there is none.
pub open spec fn eval_sequence(
    natives: Seq<Box<dyn Native>>,
    items: Seq<Value>,
    last: Value,
    st: State,
    fuel: nat,
) -> Outcome
    decreases fuel, 2nat, items.len(),
{
    if items.len() == 0 {
        done(last, st)
    } else {
        let one = eval_value(natives, items[0], st, fuel);
        match one.result {
            Err(_) => one,
            Ok(v) => eval_sequence(natives, items.skip(1), v, one.state, fuel),
        }
    }
}

/// A call of `lambda` with `given` arguments, the items of `args`. A call
/// with fewer arguments than the callable requires fails, and names the
/// number that it requires and the number that it was given. A callable without
/// parameters is run in the scope of the caller. Else the arguments are
/// bound in a new scope inside the caller's, the callable is run there, and
/// the scope is left.
pub open spec fn call(
    natives: Seq<Box<dyn Native>>,
    lambda: Func,
    args: Chain,
    given: nat,
    st: State,
    fuel: nat,
) -> Outcome
    decreases fuel, 5nat, 0nat,
{
    let params = lambda.params();
    if given < required_count(params) {
        fail(Fault::UnmatchedNumberOfParameters(required_count(params), given), st)
    } else if params.len() == 0 {
        apply(natives, lambda, st, fuel)
    } else {
        let bound = bind(natives, params, 0, args.items(), 0, Map::empty(), st, fuel);
        match bound.result {
            Err(e) => fail(e, bound.state),
            Ok(frame) => {
                let out = apply(natives, lambda, bound.state.enter_with(frame), fuel);
                Outcome { result: out.result, state: out.state.leave() }
            },
        }
    }
}

/// The scope of a call: the parameters from place `i` on are bound in
/// `frame`, each under its name and one after the other, to the arguments
/// `values` that are left when `used` of them are bound. The names are in
/// upper case since the parameter list was made. A
/// `Normal` parameter takes the value of its argument, evaluated in the
/// caller's scope; a `Plain` one its argument as it stands; an `Optional`
/// one its argument as it stands, or its default where none is left; a
/// `Rest` one the list of all the arguments that are left, and ends the
/// binding. A `Normal` or `Plain` parameter without an argument fails the
/// call.
pub open spec fn bind(
    natives: Seq<Box<dyn Native>>,
    params: Seq<Binding>,
    i: nat,
    values: Seq<Value>,
    used: nat,
    frame: Frame,
    st: State,
    fuel: nat,
) -> Bound
    decreases fuel, 2nat, params.len() - i,
{
    if i >= params.len() {
        Bound { result: Ok(frame), state: st }
    } else {
        match params[i as int] {
            Binding::Rest(name) => Bound {
                result: Ok(frame.insert(name, list_of(values))),
                state: st,
            },
            Binding::Normal(name) => if values.len() == 0 {
                Bound {
                    result: Err(Fault::UnmatchedNumberOfParameters(required_count(params), used)),
                    state: st,
                }
            } else {
                let one = eval_value(natives, values[0], st, fuel);
                match one.result {
                    Err(e) => Bound { result: Err(e), state: one.state },
                    Ok(v) => bind(
                        natives,
                        params,
                        i + 1,
                        values.skip(1),
                        used + 1,
                        frame.insert(name, v),
                        one.state,
                        fuel,
                    ),
                }
            },
            Binding::Plain(name) => if values.len() == 0 {
                Bound {
                    result: Err(Fault::UnmatchedNumberOfParameters(required_count(params), used)),
                    state: st,
                }
            } else {
                bind(
                    natives,
                    params,
                    i + 1,
                    values.skip(1),
                    used + 1,
                    frame.insert(name, values[0]),
                    st,
                    fuel,
                )
            },
            Binding::Optional(name, default) => if values.len() == 0 {
                bind(
                    natives,
                    params,
                    i + 1,
                    values,
                    used,
                    frame.insert(name, default),
                    st,
                    fuel,
                )
            } else {
                bind(
                    natives,
                    params,
                    i + 1,
                    values.skip(1),
                    used + 1,
                    frame.insert(name, values[0]),
                    st,
                    fuel,
                )
            },
        }
    }
}

/// What running a callable yields in a scope that holds its arguments: the
/// value of its body where the user defined it, else what the native
/// function does, be it of the catalogue or one of `natives`, which the
/// embedder has supplied.
pub open spec fn apply(natives: Seq<Box<dyn Native>>, lambda: Func, st: State, fuel: nat) -> Outcome
    decreases fuel, 4nat, 0nat,
{
    match lambda {
        Func::Unnamed(c) => eval_chain(natives, c.body, st, fuel),
        Func::Named(_, c) => eval_chain(natives, c.body, st, fuel),
        Func::Builtin(p) => primitive(natives, p, st, fuel),
        Func::Foreign(i, _, _) => foreign_outcome(natives, i, st),
    }
}

/// The parameter list that a value stands for, where it is a list of
/// symbols that names no parameter twice.
pub open spec fn parameters_of(v: Value) -> Option<Seq<Binding>> {
    match v {
        Value::List(c) => if (forall|i: int|
            0 <= i < c.items().len() ==> #[trigger] c.items()[i] is Symbol) && valid_bindings(
            symbol_bindings(c.items()),
        ) {
            Some(symbol_bindings(c.items()))
        } else {
            None
        },
        _ => None,
    }
}

/// The user-defined function of the parameters `params` and the body
/// `body`, where both are lists and the first is a parameter list.
pub open spec fn closure_of(params: Value, body: Value) -> Option<Closure> {
    match (parameters_of(params), body) {
        (Some(p), Value::List(b)) => Some(Closure { params: p, body: *b }),
        _ => None,
    }
}

/// What a native function does, its arguments bound to `X`, `Y` and `Z` in
/// the current scope.
pub open spec fn primitive(
    natives: Seq<Box<dyn Native>>,
    p: Primitive,
    st: State,
    fuel: nat,
) -> Outcome
    decreases fuel, 3nat, 0nat,
{
    let x = argument(st, "X"@);
    let y = argument(st, "Y"@);
    let z = argument(st, "Z"@);
    match p {
        Primitive::Terpri => done(Value::Nil, st.print("\n"@)),
        Primitive::Add | Primitive::Sub | Primitive::Mul | Primitive::Div => match (x, y) {
            (Err(e), _) => fail(e, st),
            (_, Err(e)) => fail(e, st),
            (Ok(a), Ok(b)) => Outcome { result: calculate(p, a, b, st), state: st },
        },
        Primitive::Eq => match (x, y) {
            (Err(e), _) => fail(e, st),
            (_, Err(e)) => fail(e, st),
            (Ok(a), Ok(b)) => done(truth(same_value(a, b)), st),
        },
        Primitive::Cons => match (x, y) {
            (Err(e), _) => fail(e, st),
            (_, Err(e)) => fail(e, st),
            (Ok(a), Ok(b)) => done(cons_value(a, b), st),
        },
        Primitive::Setq => match (x, y) {
            (Err(e), _) => fail(e, st),
            (Ok(Value::Symbol(name)), Ok(v)) => done(
                Value::Nil,
                st.insert_global(folded(name), v),
            ),
            (Ok(Value::Symbol(_)), Err(e)) => fail(e, st),
            _ => fail(Fault::ParameterTypeMismatched, st),
        },
        Primitive::Lambda => match (x, y) {
            (Err(e), _) => fail(e, st),
            (Ok(Value::List(_)), Err(e)) => fail(e, st),
            (Ok(a), Ok(b)) => match closure_of(a, b) {
                Some(c) => done(Value::Lambda(Box::new(Func::Unnamed(c))), st),
                None => fail(Fault::ParameterTypeMismatched, st),
            },
            _ => fail(Fault::ParameterTypeMismatched, st),
        },
        Primitive::Defun => match (x, y, z) {
            (Err(e), _, _) => fail(e, st),
            (Ok(Value::Symbol(_)), Err(e), _) => fail(e, st),
            (Ok(Value::Symbol(_)), Ok(Value::List(_)), Err(e)) => fail(e, st),
            (Ok(Value::Symbol(name)), Ok(a), Ok(b)) => match closure_of(a, b) {
                Some(c) => done(
                    Value::Nil,
                    st.insert_global(
                        folded(name),
                        Value::Lambda(Box::new(Func::Named(name, c))),
                    ),
                ),
                None => fail(Fault::ParameterTypeMismatched, st),
            },
            _ => fail(Fault::ParameterTypeMismatched, st),
        },
        Primitive::Funcall => match (x, y) {
            (Err(e), _) => fail(e, st),
            (Ok(Value::Lambda(_)), Err(e)) => fail(e, st),
            (Ok(Value::Lambda(l)), Ok(Value::List(args))) => eval_value(
                natives,
                Value::List(Box::new(Chain::Cons(Value::Lambda(l), args))),
                st,
                fuel,
            ),
            _ => fail(Fault::ParameterTypeMismatched, st),
        },
        Primitive::Or => match x {
            Err(e) => fail(e, st),
            Ok(list) => any_of(natives, list, st, fuel),
        },
        Primitive::Cond => match x {
            Err(e) => fail(e, st),
            Ok(list) => first_of(natives, list, st, fuel),
        },
        _ => match x {
            Err(e) => fail(e, st),
            Ok(a) => match p {
                Primitive::Quote => done(a, st),
                Primitive::Print => done(a, st.print(show(a) + "\n"@)),
                Primitive::Princ => done(a, st.print(show_plain(a))),
                Primitive::Symbolp => done(truth(a is Symbol), st),
                Primitive::Numberp => done(truth(a is Integer || a is Float), st),
                Primitive::Stringp => done(truth(a is Str), st),
                Primitive::Listp => done(truth(a is List), st),
                Primitive::Null => done(truth(a is Nil), st),
                Primitive::Atom => done(Value::T, st),
                Primitive::Car => match a {
                    Value::List(l) => done(l.car(), st),
                    _ => fail(Fault::ParameterTypeMismatched, st),
                },
                _ => match a {
                    Value::List(l) => done(l.cdr(), st),
                    _ => fail(Fault::ParameterTypeMismatched, st),
                },
            },
        },
    }
}

/// `or`: the first value other than `Nil` among the values of the items of
/// `list`, each evaluated in turn; `Nil` where there is none. What follows
/// the head of a list is smaller than the list (`lemma_cdr_smaller`), so
/// that the test on the sizes always holds; it stands here for the sake of
/// termination.
pub open spec fn any_of(natives: Seq<Box<dyn Native>>, list: Value, st: State, fuel: nat) -> Outcome
    decreases fuel, 2nat, value_size(list),
{
    match list {
        Value::Nil => done(Value::Nil, st),
        Value::List(l) => {
            let one = eval_value(natives, l.car(), st, fuel);
            match one.result {
                Err(_) => one,
                Ok(Value::Nil) => if value_size(l.cdr()) < value_size(list) {
                    any_of(natives, l.cdr(), one.state, fuel)
                } else {
                    one
                },
                Ok(_) => one,
            }
        },
        _ => fail(Fault::ParameterTypeMismatched, st),
    }
}

/// `cond`: the value of what follows the first condition whose value is
/// `T`, among the clauses of `list`; `Nil` where there is none. The test on
/// the sizes always holds, as in `any_of`.
pub open spec fn first_of(
    natives: Seq<Box<dyn Native>>,
    list: Value,
    st: State,
    fuel: nat,
) -> Outcome
    decreases fuel, 2nat, value_size(list),
{
    match list {
        Value::Nil => done(Value::Nil, st),
        Value::List(l) => match l.car() {
            Value::List(clause) => {
                let test = eval_value(natives, clause.car(), st, fuel);
                match test.result {
                    Err(_) => test,
                    Ok(Value::T) => eval_value(natives, clause.cdr(), test.state, fuel),
                    Ok(_) => if value_size(l.cdr()) < value_size(list) {
                        first_of(natives, l.cdr(), test.state, fuel)
                    } else {
                        test
                    },
                }
            },
            _ => fail(Fault::ParameterTypeMismatched, st),
        },
        _ => fail(Fault::ParameterTypeMismatched, st),
    }
}

/// What follows the head of a list is smaller than the list.
pub proof fn lemma_cdr_smaller(l: Chain)
    ensures
        value_size(l.cdr()) < value_size(Value::List(Box::new(l))),
        value_size(l.car()) < value_size(Value::List(Box::new(l))),
{
    reveal_with_fuel(chain_size, 3);
    reveal_with_fuel(value_size, 3);
}

} // verus!
