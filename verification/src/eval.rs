//! The evaluator.

use vstd::prelude::*;
use crate::builtins::{primitive, primitive_with};
use crate::env::{Env, EnvError, EnvFault, Scope};
use crate::list::{collect_parameters, IterMut};
use crate::model::{required_count, Primitive, Value};
use crate::native::Natives;
use crate::params::ParamError;
use crate::semantics::{
    apply as apply_spec, bind, call as call_spec, eval_chain, eval_sequence, eval_value,
    primitive as primitive_spec, Bound, Fault, Outcome,
};
use crate::state::State;
use crate::text::fold;
use crate::types::{
    object_view, parameter_view, Builtin, Lambda, List, Object, Parameter, Params, UserLambda,
};

verus! {

/// The number of evaluations that may be nested where no bound is given.
pub const DEPTH_LIMIT: usize = 512;

/// Why an evaluation failed.
#[derive(Clone, Debug, PartialEq)]
pub enum EvalError {
    /// A symbol is bound in no scope.
    UnboundVariable(String),
    /// A call gives fewer arguments than the callable requires: the number
    /// of arguments that it requires, which leaves the `Optional`
    /// parameters out, and the number of arguments that it was given.
    UnmatchedNumberOfParameters(usize, usize),
    /// A callable is applied to something that is no list of arguments.
    IllegalFunctionCall,
    /// A value is of another kind than the one required.
    ParameterTypeMismatched,
    /// An integer is divided by zero.
    DivisionByZero,
    /// The result of integer arithmetic does not fit the machine word.
    IntegerOverflow,
    /// Evaluations are nested deeper than the bound allows.
    DepthExceeded,
    /// The environment was not told the result of an arithmetic function
    /// on the two numbers, of which one at least is a floating-point number.
    FloatPending(Primitive, String, String),
}

impl View for EvalError {
    type V = Fault;

    open spec fn view(&self) -> Fault {
        match self {
            EvalError::UnboundVariable(s) => Fault::UnboundVariable(s@),
            EvalError::UnmatchedNumberOfParameters(e, a) => Fault::UnmatchedNumberOfParameters(
                *e as nat,
                *a as nat,
            ),
            EvalError::IllegalFunctionCall => Fault::IllegalFunctionCall,
            EvalError::ParameterTypeMismatched => Fault::ParameterTypeMismatched,
            EvalError::DivisionByZero => Fault::DivisionByZero,
            EvalError::IntegerOverflow => Fault::IntegerOverflow,
            EvalError::DepthExceeded => Fault::DepthExceeded,
            EvalError::FloatPending(p, x, y) => Fault::FloatPending(*p, x@, y@),
        }
    }
}

/// The failure of an evaluation that a failed lookup stands for.
pub open spec fn fault_of_lookup(e: EnvFault) -> Fault {
    match e {
        EnvFault::SymbolNotFound(s) => Fault::UnboundVariable(s),
        EnvFault::NotASymbol(_) => Fault::ParameterTypeMismatched,
    }
}

impl From<EnvError> for EvalError {
    fn from(e: EnvError) -> (r: Self) {
        match e {
            EnvError::SymbolNotFound(s) => EvalError::UnboundVariable(s),
            EnvError::NotASymbol(_) => EvalError::ParameterTypeMismatched,
        }
    }
}

impl vstd::std_specs::convert::FromSpecImpl<EnvError> for EvalError {
    open spec fn obeys_from_spec() -> bool {
        true
    }

    open spec fn from_spec(e: EnvError) -> Self {
        match e {
            EnvError::SymbolNotFound(s) => EvalError::UnboundVariable(s),
            EnvError::NotASymbol(_) => EvalError::ParameterTypeMismatched,
        }
    }
}

impl From<ParamError> for EvalError {
    fn from(e: ParamError) -> (r: Self) {
        EvalError::ParameterTypeMismatched
    }
}

impl vstd::std_specs::convert::FromSpecImpl<ParamError> for EvalError {
    open spec fn obeys_from_spec() -> bool {
        true
    }

    open spec fn from_spec(e: ParamError) -> Self {
        EvalError::ParameterTypeMismatched
    }
}

/// The model of what an evaluation hands out.
pub open spec fn result_view(r: Result<Object, EvalError>) -> Result<Value, Fault> {
    match r {
        Ok(o) => Ok(o@),
        Err(e) => Err(e@),
    }
}

/// The model of an evaluation that handed out `r` and left `st`.
pub open spec fn outcome_of(r: Result<Object, EvalError>, st: State) -> Outcome {
    Outcome { result: result_view(r), state: st }
}

/// The model of a binding that handed out `r` and left `st`.
pub open spec fn bound_of(r: Result<Scope, EvalError>, st: State) -> Bound {
    Bound {
        result: match r {
            Ok(s) => Ok(s@),
            Err(e) => Err(e@),
        },
        state: st,
    }
}

/// What can be evaluated in an environment.
pub trait Eval {
    /// What evaluating `self` in `env` yields, under the bound
    /// `DEPTH_LIMIT`.
    fn eval(self, env: &mut Env) -> Result<Object, EvalError>;
}

/// Evaluates a form, nesting at most `fuel` evaluations of lists; `natives`
/// are the native functions that the embedder has supplied.
pub fn eval_object_with(
    natives: &Natives,
    obj: Object,
    env: &mut Env,
    fuel: usize,
) -> (r: Result<Object, EvalError>)
    ensures
        outcome_of(r, final(env)@) == eval_value(natives@, obj@, old(env)@, fuel as nat),
    decreases fuel, 1nat, 0nat,
{
    match obj {
        Object::Symbol(s) => {
            let name = fold(s.as_str());
            match env.get_str(name.as_str()) {
                Ok(v) => Ok(v),
                Err(_) => Err(EvalError::UnboundVariable(name)),
            }
        },
        Object::Quote(o) => Ok(*o),
        Object::List(l) => eval_list_with(natives, *l, env, fuel),
        _ => Ok(obj),
    }
}

/// Evaluates a list, nesting at most `fuel` evaluations of lists; `natives`
/// are the native functions that the embedder has supplied.
pub fn eval_list_with(
    natives: &Natives,
    list: List,
    env: &mut Env,
    fuel: usize,
) -> (r: Result<Object, EvalError>)
    ensures
        outcome_of(r, final(env)@) == eval_chain(natives@, list@, old(env)@, fuel as nat),
    decreases fuel, 0nat, 0nat,
{
    if list.is_empty() {
        return Ok(Object::Nil);
    }
    if fuel == 0 {
        return Err(EvalError::DepthExceeded);
    }
    let f: usize = fuel - 1;
    let count = list.count();
    let (car, cdr) = list.unpack();
    let first_result = match eval_object_with(natives, car, env, f) {
        Ok(v) => v,
        Err(e) => {
            return Err(e);
        },
    };
    proof {
        reveal_with_fuel(object_view, 2);
    }
    match cdr {
        Object::Nil => Ok(first_result),
        _ => {
            match first_result {
                Object::Lambda(lambda) => {
                    match cdr {
                        Object::List(args) => {
                            let ghost before = env@;
                            let r = call(natives, *lambda, *args, count, env, f);
                            assert(outcome_of(r, env@) == call_spec(
                                natives@,
                                lambda@,
                                args@,
                                (list@.len() - 1) as nat,
                                before,
                                f as nat,
                            ));
                            r
                        },
                        _ => Err(EvalError::IllegalFunctionCall),
                    }
                },
                _ => {
                    match cdr {
                        Object::List(rest) => sequence(natives, *rest, env, f),
                        _ => eval_object_with(natives, cdr, env, f),
                    }
                },
            }
        },
    }
}

/// Evaluates the items of a list in turn, and hands out the last value.
fn sequence(
    natives: &Natives,
    rest: List,
    env: &mut Env,
    fuel: usize,
) -> (r: Result<Object, EvalError>)
    ensures
        outcome_of(r, final(env)@) == eval_sequence(
            natives@,
            rest@.items(),
            Value::Nil,
            old(env)@,
            fuel as nat,
        ),
    decreases fuel, 2nat, 0nat,
{
    let ghost goal = eval_sequence(natives@, rest@.items(), Value::Nil, env@, fuel as nat);
    let mut ret = Object::Nil;
    let mut walk = IterMut::new(rest);
    loop
        invariant
            goal == eval_sequence(natives@, rest@.items(), Value::Nil, old(env)@, fuel as nat),
            goal == eval_sequence(natives@, walk@, ret@, env@, fuel as nat),
        ensures
            outcome_of(Ok(ret), env@) == goal,
        decreases walk@.len(),
    {
        match walk.next() {
            None => {
                break ;
            },
            Some(obj) => {
                match eval_object_with(natives, obj, env, fuel) {
                    Ok(v) => {
                        ret = v;
                    },
                    Err(e) => {
                        return Err(e);
                    },
                }
            },
        }
    }
    Ok(ret)
}

/// Binds the arguments of a call in a new scope.
fn bind_arguments(
    natives: &Natives,
    params: &Params,
    args: List,
    env: &mut Env,
    fuel: usize,
) -> (r: Result<
    Scope,
    EvalError,
>)
    ensures
        bound_of(r, final(env)@) == bind(
            natives@,
            params@,
            0,
            args@.items(),
            0,
            Map::empty(),
            old(env)@,
            fuel as nat,
        ),
    decreases fuel, 2nat, 0nat,
{
    let ghost goal = bind(natives@, params@, 0, args@.items(), 0, Map::empty(), env@, fuel as nat);
    let required = params.len_required();
    let mut frame = Scope::new();
    let mut walk = IterMut::new(args);
    let mut used: usize = 0;
    let mut i: usize = 0;
    while i < params.len()
        invariant
            i <= params@.len(),
            used <= i,
            required == required_count(params@),
            goal == bind(
                natives@,
                params@,
                0,
                args@.items(),
                0,
                Map::empty(),
                old(env)@,
                fuel as nat,
            ),
            goal == bind(
                natives@,
                params@,
                i as nat,
                walk@,
                used as nat,
                frame@,
                env@,
                fuel as nat,
            ),
        decreases params@.len() - i,
    {
        proof {
            reveal_with_fuel(parameter_view, 2);
        }
        match params.get(i) {
            Parameter::Rest(name) => {
                let ghost all = walk@;
                let mut rest: Vec<Object> = Vec::new();
                loop
                    invariant
                        all == rest@.map_values(|o: Object| o@) + walk@,
                    ensures
                        all == rest@.map_values(|o: Object| o@),
                    decreases walk@.len(),
                {
                    let ghost seen = rest@.map_values(|o: Object| o@);
                    let ghost left = walk@;
                    match walk.next() {
                        None => {
                            assert(all =~= seen);
                            break ;
                        },
                        Some(v) => {
                            rest.push(v);
                            assert(rest@.map_values(|o: Object| o@) =~= seen.push(v@));
                            assert(all =~= rest@.map_values(|o: Object| o@) + walk@);
                        },
                    }
                }
                frame.insert(name.clone(), collect_parameters(rest));
                return Ok(frame);
            },
            Parameter::Normal(name) => {
                match walk.next() {
                    None => {
                        return Err(EvalError::UnmatchedNumberOfParameters(required, used));
                    },
                    Some(form) => {
                        match eval_object_with(natives, form, env, fuel) {
                            Ok(v) => {
                                frame.insert(name.clone(), v);
                            },
                            Err(e) => {
                                return Err(e);
                            },
                        }
                    },
                }
                used += 1;
            },
            Parameter::Plain(name) => {
                match walk.next() {
                    None => {
                        return Err(EvalError::UnmatchedNumberOfParameters(required, used));
                    },
                    Some(form) => {
                        frame.insert(name.clone(), form);
                    },
                }
                used += 1;
            },
            Parameter::Optional(name, default) => {
                match walk.next() {
                    None => {
                        frame.insert(name.clone(), default.clone());
                    },
                    Some(form) => {
                        frame.insert(name.clone(), form);
                        used += 1;
                    },
                }
            },
        }
        i += 1;
    }
    Ok(frame)
}

/// Calls `lambda` with the items of `args` as arguments. `count` is the
/// number of links of the form that makes the call, where it fits the
/// machine word.
fn call(
    natives: &Natives,
    lambda: Lambda,
    args: List,
    count: Option<usize>,
    env: &mut Env,
    fuel: usize,
) -> (r:
    Result<Object, EvalError>)
    requires
        match count {
            Some(n) => n >= 1,
            None => true,
        },
    ensures
        match count {
            Some(n) => outcome_of(r, final(env)@) == call_spec(
                natives@,
                lambda@,
                args@,
                (n - 1) as nat,
                old(env)@,
                fuel as nat,
            ),
            None => forall|given: nat|
                given >= usize::MAX ==> outcome_of(r, final(env)@) == #[trigger] call_spec(
                    natives@,
                    lambda@,
                    args@,
                    given,
                    old(env)@,
                    fuel as nat,
                ),
        },
    decreases fuel, 5nat, 0nat,
{
    let params = lambda.get_parameters();
    let required = params.len_required();
    match count {
        Some(n) => {
            if n - 1 < required {
                return Err(EvalError::UnmatchedNumberOfParameters(required, n - 1));
            }
        },
        None => {},
    }
    if params.is_empty() {
        return apply(natives, lambda, env, fuel);
    }
    match bind_arguments(natives, &params, args, env, fuel) {
        Err(e) => Err(e),
        Ok(frame) => {
            env.enter_with(frame);
            let out = apply(natives, lambda, env, fuel);
            env.leave();
            out
        },
    }
}

/// Runs a callable in the current scope, which holds its arguments.
fn apply(
    natives: &Natives,
    lambda: Lambda,
    env: &mut Env,
    fuel: usize,
) -> (r: Result<Object, EvalError>)
    ensures
        outcome_of(r, final(env)@) == apply_spec(natives@, lambda@, old(env)@, fuel as nat),
    decreases fuel, 4nat, 0nat,
{
    match lambda {
        Lambda::Unnamed(l) => eval_list_with(natives, l.get_body(), env, fuel),
        Lambda::Named(_, l) => eval_list_with(natives, l.get_body(), env, fuel),
        Lambda::Builtin(b) => primitive_with(natives, b.kind, env, fuel),
        Lambda::Foreign(f) => natives.run(f.index, env),
    }
}

/// Evaluates a form where the embedder has supplied no native function,
/// nesting at most `fuel` evaluations of lists.
pub fn eval_object(obj: Object, env: &mut Env, fuel: usize) -> (r: Result<Object, EvalError>)
    ensures
        outcome_of(r, final(env)@) == eval_value(Seq::empty(), obj@, old(env)@, fuel as nat),
{
    let natives = Natives::new();
    eval_object_with(&natives, obj, env, fuel)
}

/// Evaluates a list where the embedder has supplied no native function,
/// nesting at most `fuel` evaluations of lists.
pub fn eval_list(list: List, env: &mut Env, fuel: usize) -> (r: Result<Object, EvalError>)
    ensures
        outcome_of(r, final(env)@) == eval_chain(Seq::empty(), list@, old(env)@, fuel as nat),
{
    let natives = Natives::new();
    eval_list_with(&natives, list, env, fuel)
}

impl Eval for Object {
    /// The value of the form.
    fn eval(self, env: &mut Env) -> (r: Result<Object, EvalError>)
        ensures
            outcome_of(r, final(env)@) == eval_value(
                Seq::empty(),
                self@,
                old(env)@,
                DEPTH_LIMIT as nat,
            ),
    {
        eval_object(self, env, DEPTH_LIMIT)
    }
}

impl Eval for List {
    /// The value of the list.
    fn eval(self, env: &mut Env) -> (r: Result<Object, EvalError>)
        ensures
            outcome_of(r, final(env)@) == eval_chain(
                Seq::empty(),
                self@,
                old(env)@,
                DEPTH_LIMIT as nat,
            ),
    {
        eval_list(self, env, DEPTH_LIMIT)
    }
}

impl Eval for Lambda {
    /// What running the callable yields in the current scope.
    fn eval(self, env: &mut Env) -> (r: Result<Object, EvalError>)
        ensures
            outcome_of(r, final(env)@) == apply_spec(
                Seq::empty(),
                self@,
                old(env)@,
                DEPTH_LIMIT as nat,
            ),
    {
        let natives = Natives::new();
        apply(&natives, self, env, DEPTH_LIMIT)
    }
}

impl Eval for UserLambda {
    /// The value of the body in the current scope.
    fn eval(self, env: &mut Env) -> (r: Result<Object, EvalError>)
        ensures
            outcome_of(r, final(env)@) == eval_chain(
                Seq::empty(),
                self@.body,
                old(env)@,
                DEPTH_LIMIT as nat,
            ),
    {
        eval_list(self.get_body(), env, DEPTH_LIMIT)
    }
}

impl Eval for Builtin {
    /// What the native function does in the current scope.
    fn eval(self, env: &mut Env) -> (r: Result<Object, EvalError>)
        ensures
            outcome_of(r, final(env)@) == primitive_spec(
                Seq::empty(),
                self.kind,
                old(env)@,
                DEPTH_LIMIT as nat,
            ),
    {
        primitive(self.kind, env, DEPTH_LIMIT)
    }
}

} // verus!
