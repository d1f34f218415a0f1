//! Native functions that the embedder supplies.

use vstd::prelude::*;
use crate::env::Env;
use crate::eval::{outcome_of, EvalError};
use crate::model::{Func, Value};
use crate::semantics::Outcome;
use crate::state::State;
use crate::types::{Foreign, Lambda, Object, Params};

verus! {

/// A native function of the embedder. It exposes a name, its parameters,
/// and a routine that is run in the scope of the call, where its arguments
/// are bound under the names of its parameters.
///
/// What the routine yields must depend on the environment alone: `outcome`
/// names it. Verified code proves this of an implementation; of any other
/// implementation it is taken on trust, and `outcome` is there given a body
/// that is never run.
pub trait Native {
    /// What the routine yields in the environment `st`.
    spec fn outcome(&self, st: State) -> Outcome;

    /// The name of the function.
    fn get_name(&self) -> String;

    /// The parameters of the function.
    fn get_parameters(&self) -> Params;

    /// Runs the function in the current scope, which holds its arguments.
    fn eval(&self, env: &mut Env) -> (r: Result<Object, EvalError>)
        ensures
            outcome_of(r, final(env)@) == self.outcome(old(env)@),
    ;
}

/// The native functions that the embedder has supplied, in the order in
/// which they were supplied.
pub struct Natives {
    pub list: Vec<Box<dyn Native>>,
}

impl View for Natives {
    type V = Seq<Box<dyn Native>>;

    open spec fn view(&self) -> Seq<Box<dyn Native>> {
        self.list@
    }
}

/// What the native function at place `i` yields in the environment `st`;
/// a failure where none stands there.
pub open spec fn foreign_outcome(natives: Seq<Box<dyn Native>>, i: nat, st: State) -> Outcome {
    if i < natives.len() {
        natives[i as int].outcome(st)
    } else {
        Outcome { result: Err(crate::semantics::Fault::IllegalFunctionCall), state: st }
    }
}

/// Whether the value is a callable that calls the native function at place
/// `i`.
pub open spec fn calls_place(v: Value, i: nat) -> bool {
    match v {
        Value::Lambda(f) => match *f {
            Func::Foreign(k, _, _) => k == i,
            _ => false,
        },
        _ => false,
    }
}

impl Natives {
    /// No native function.
    pub fn new() -> (r: Self)
        ensures
            r@ == Seq::<Box<dyn Native>>::empty(),
    {
        Natives { list: Vec::new() }
    }

    /// The number of native functions.
    pub fn len(&self) -> (r: usize)
        ensures
            r == self@.len(),
    {
        self.list.len()
    }

    /// Takes one more native function, and hands out the value that calls
    /// it: a callable of its name and its parameters.
    pub fn register(&mut self, native: Box<dyn Native>) -> (r: Object)
        ensures
            final(self)@ == old(self)@.push(native),
            calls_place(r@, old(self)@.len()),
    {
        proof {
            reveal_with_fuel(crate::types::object_view, 2);
            reveal_with_fuel(crate::types::lambda_view, 2);
        }
        let index = self.list.len();
        let name = native.get_name();
        let parameters = native.get_parameters();
        self.list.push(native);
        Object::Lambda(Box::new(Lambda::Foreign(Foreign { index, name, parameters })))
    }

    /// Runs the native function at place `i` in the current scope.
    pub fn run(&self, i: usize, env: &mut Env) -> (r: Result<Object, EvalError>)
        ensures
            outcome_of(r, final(env)@) == foreign_outcome(self@, i as nat, old(env)@),
    {
        if i < self.list.len() {
            self.list[i].eval(env)
        } else {
            Err(EvalError::IllegalFunctionCall)
        }
    }
}

} // verus!
