//! The native functions.

use vstd::prelude::*;
use crate::decimal::canonical_text;
use crate::env::Env;
use crate::eval::{eval_object_with, outcome_of, result_view, EvalError, DEPTH_LIMIT};
use crate::list::cons;
use crate::model::{Func, Primitive, Value};
use crate::native::{Native, Natives};
use crate::semantics::{
    any_of, argument as argument_spec, arithmetic as arithmetic_spec, calculate as calculate_spec,
    closure_of, first_of, lemma_cdr_smaller, number_text as number_text_spec,
    primitive as primitive_spec, value_size, Fault, Outcome,
};
use crate::state::State;
use crate::text::{folded, integer_text};
use crate::types::{
    equal_objects, lambda_view, list_view, object_view, Builtin, Lambda, List, Object, Params,
    UserLambda,
};

verus! {

/// The value bound to `name` in the environment.
fn argument(env: &Env, name: &str) -> (r: Result<Object, EvalError>)
    ensures
        result_view(r) == argument_spec(env@, name@),
{
    match env.get_str(name) {
        Ok(v) => Ok(v),
        Err(_) => Err(EvalError::UnboundVariable(String::from_str(name))),
    }
}

/// `T` where the condition holds, else `Nil`.
fn truth(b: bool) -> (r: Object)
    ensures
        r@ == crate::semantics::truth(b),
{
    if b {
        Object::T
    } else {
        Object::Nil
    }
}

/// What an arithmetic function makes of two integers.
fn arithmetic(p: Primitive, x: isize, y: isize) -> (r: Result<Object, EvalError>)
    requires
        p == Primitive::Add || p == Primitive::Sub || p == Primitive::Mul || p == Primitive::Div,
    ensures
        result_view(r) == arithmetic_spec(p, x as int, y as int),
{
    let r = match p {
        Primitive::Add => x.checked_add(y),
        Primitive::Sub => x.checked_sub(y),
        Primitive::Mul => x.checked_mul(y),
        _ => {
            if y == 0 {
                return Err(EvalError::DivisionByZero);
            }
            x.checked_div(y)
        },
    };
    match r {
        Some(v) => Ok(Object::Integer(v)),
        None => Err(EvalError::IntegerOverflow),
    }
}

/// The text of a number; none of any other value.
fn number_text(v: &Object) -> (r: Option<String>)
    ensures
        match number_text_spec(v@) {
            Some(t) => r is Some && r->Some_0@ == t,
            None => r is None,
        },
{
    match v {
        Object::Integer(n) => Some(integer_text(*n)),
        Object::Float(t) => Some(canonical_text(t.as_str())),
        _ => None,
    }
}

/// What an arithmetic function makes of two values.
fn calculate(p: Primitive, a: Object, b: Object, env: &Env) -> (r: Result<Object, EvalError>)
    requires
        p == Primitive::Add || p == Primitive::Sub || p == Primitive::Mul || p == Primitive::Div,
    ensures
        result_view(r) == calculate_spec(p, a@, b@, env@),
{
    match (&a, &b) {
        (Object::Integer(x), Object::Integer(y)) => arithmetic(p, *x, *y),
        _ => {
            let x = match number_text(&a) {
                Some(t) => t,
                None => {
                    return Err(EvalError::ParameterTypeMismatched);
                },
            };
            let y = match number_text(&b) {
                Some(t) => t,
                None => {
                    return Err(EvalError::ParameterTypeMismatched);
                },
            };
            match env.known(p, x.as_str(), y.as_str()) {
                Some(r) => Ok(Object::Float(r)),
                None => Err(EvalError::FloatPending(p, x, y)),
            }
        },
    }
}

/// The user-defined function of the given parameters and body.
fn closure(params: Object, body: Object) -> (r: Result<UserLambda, EvalError>)
    ensures
        match closure_of(params@, body@) {
            Some(c) => r is Ok && r->Ok_0@ == c,
            None => r is Err && r->Err_0@ == Fault::ParameterTypeMismatched,
        },
{
    proof {
        reveal_with_fuel(object_view, 2);
    }
    match params {
        Object::List(p) => {
            match body {
                Object::List(b) => {
                    match Params::try_from(*p) {
                        Ok(parameters) => Ok(UserLambda::new(parameters, *b)),
                        Err(_) => Err(EvalError::ParameterTypeMismatched),
                    }
                },
                _ => Err(EvalError::ParameterTypeMismatched),
            }
        },
        _ => Err(EvalError::ParameterTypeMismatched),
    }
}

/// `or`.
fn any(natives: &Natives, env: &mut Env, fuel: usize) -> (r: Result<Object, EvalError>)
    ensures
        outcome_of(r, final(env)@) == primitive_spec(
            natives@,
            Primitive::Or,
            old(env)@,
            fuel as nat,
        ),
    decreases fuel, 3nat, 0nat,
{
    let mut lst = match argument(env, "X") {
        Ok(v) => v,
        Err(e) => {
            return Err(e);
        },
    };
    let ghost goal = any_of(natives@, lst@, env@, fuel as nat);
    loop
        invariant
            goal == primitive_spec(natives@, Primitive::Or, old(env)@, fuel as nat),
            goal == any_of(natives@, lst@, env@, fuel as nat),
        decreases value_size(lst@),
    {
        proof {
            reveal_with_fuel(object_view, 2);
        }
        match lst {
            Object::Nil => {
                return Ok(Object::Nil);
            },
            Object::List(l) => {
                proof {
                    lemma_cdr_smaller(l@);
                }
                let (clause, cdr) = l.unpack();
                match eval_object_with(natives, clause, env, fuel) {
                    Err(e) => {
                        return Err(e);
                    },
                    Ok(ret) => {
                        match ret {
                            Object::Nil => {},
                            _ => {
                                return Ok(ret);
                            },
                        }
                    },
                }
                lst = cdr;
            },
            _ => {
                return Err(EvalError::ParameterTypeMismatched);
            },
        }
    }
}

/// `cond`.
fn cond(natives: &Natives, env: &mut Env, fuel: usize) -> (r: Result<Object, EvalError>)
    ensures
        outcome_of(r, final(env)@) == primitive_spec(
            natives@,
            Primitive::Cond,
            old(env)@,
            fuel as nat,
        ),
    decreases fuel, 3nat, 0nat,
{
    let mut lst = match argument(env, "X") {
        Ok(v) => v,
        Err(e) => {
            return Err(e);
        },
    };
    let ghost goal = first_of(natives@, lst@, env@, fuel as nat);
    loop
        invariant
            goal == primitive_spec(natives@, Primitive::Cond, old(env)@, fuel as nat),
            goal == first_of(natives@, lst@, env@, fuel as nat),
        decreases value_size(lst@),
    {
        proof {
            reveal_with_fuel(object_view, 2);
        }
        match lst {
            Object::Nil => {
                return Ok(Object::Nil);
            },
            Object::List(l) => {
                proof {
                    lemma_cdr_smaller(l@);
                }
                let (clause, cdr) = l.unpack();
                match clause {
                    Object::List(c) => {
                        let (test, body) = c.unpack();
                        match eval_object_with(natives, test, env, fuel) {
                            Err(e) => {
                                return Err(e);
                            },
                            Ok(Object::T) => {
                                return eval_object_with(natives, body, env, fuel);
                            },
                            Ok(_) => {},
                        }
                    },
                    _ => {
                        return Err(EvalError::ParameterTypeMismatched);
                    },
                }
                lst = cdr;
            },
            _ => {
                return Err(EvalError::ParameterTypeMismatched);
            },
        }
    }
}

/// `funcall`.
fn funcall(natives: &Natives, env: &mut Env, fuel: usize) -> (r: Result<Object, EvalError>)
    ensures
        outcome_of(r, final(env)@) == primitive_spec(
            natives@,
            Primitive::Funcall,
            old(env)@,
            fuel as nat,
        ),
    decreases fuel, 3nat, 0nat,
{
    proof {
        reveal_with_fuel(object_view, 2);
        reveal_with_fuel(list_view, 2);
    }
    let x = match argument(env, "X") {
        Ok(v) => v,
        Err(e) => {
            return Err(e);
        },
    };
    match x {
        Object::Lambda(lambda) => {
            let y = match argument(env, "Y") {
                Ok(v) => v,
                Err(e) => {
                    return Err(e);
                },
            };
            match y {
                Object::List(params) => {
                    let form = Object::List(Box::new(List::Cons(Object::Lambda(lambda), params)));
                    eval_object_with(natives, form, env, fuel)
                },
                _ => Err(EvalError::ParameterTypeMismatched),
            }
        },
        _ => Err(EvalError::ParameterTypeMismatched),
    }
}

/// `defun`.
fn defun(env: &mut Env) -> (r: Result<Object, EvalError>)
    ensures
        forall|natives: Seq<Box<dyn Native>>, fuel: nat|
            outcome_of(r, final(env)@) == #[trigger] primitive_spec(
                natives,
                Primitive::Defun,
                old(env)@,
                fuel,
            ),
{
    proof {
        reveal_with_fuel(object_view, 2);
        reveal_with_fuel(lambda_view, 2);
    }
    let x = match argument(env, "X") {
        Ok(v) => v,
        Err(e) => {
            return Err(e);
        },
    };
    match x {
        Object::Symbol(name) => {
            let y = match argument(env, "Y") {
                Ok(v) => v,
                Err(e) => {
                    return Err(e);
                },
            };
            match y {
                Object::List(_) => {},
                _ => {
                    return Err(EvalError::ParameterTypeMismatched);
                },
            }
            let z = match argument(env, "Z") {
                Ok(v) => v,
                Err(e) => {
                    return Err(e);
                },
            };
            match closure(y, z) {
                Err(e) => Err(e),
                Ok(c) => {
                    let key = Object::Symbol(name.clone());
                    let lambda = Object::Lambda(Box::new(Lambda::Named(name, c)));
                    let _ = env.insert_global(&key, lambda);
                    Ok(Object::Nil)
                },
            }
        },
        _ => Err(EvalError::ParameterTypeMismatched),
    }
}

/// `lambda`.
fn lambda(env: &mut Env) -> (r: Result<Object, EvalError>)
    ensures
        forall|natives: Seq<Box<dyn Native>>, fuel: nat|
            outcome_of(r, final(env)@) == #[trigger] primitive_spec(
                natives,
                Primitive::Lambda,
                old(env)@,
                fuel,
            ),
{
    proof {
        reveal_with_fuel(object_view, 2);
        reveal_with_fuel(lambda_view, 2);
    }
    let x = match argument(env, "X") {
        Ok(v) => v,
        Err(e) => {
            return Err(e);
        },
    };
    match x {
        Object::List(_) => {},
        _ => {
            return Err(EvalError::ParameterTypeMismatched);
        },
    }
    let y = match argument(env, "Y") {
        Ok(v) => v,
        Err(e) => {
            return Err(e);
        },
    };
    match closure(x, y) {
        Err(e) => Err(e),
        Ok(c) => Ok(Object::Lambda(Box::new(Lambda::Unnamed(c)))),
    }
}

/// `setq`.
fn setq(env: &mut Env) -> (r: Result<Object, EvalError>)
    ensures
        forall|natives: Seq<Box<dyn Native>>, fuel: nat|
            outcome_of(r, final(env)@) == #[trigger] primitive_spec(
                natives,
                Primitive::Setq,
                old(env)@,
                fuel,
            ),
{
    proof {
        reveal_with_fuel(object_view, 2);
    }
    let x = match argument(env, "X") {
        Ok(v) => v,
        Err(e) => {
            return Err(e);
        },
    };
    match x {
        Object::Symbol(_) => {
            let y = match argument(env, "Y") {
                Ok(v) => v,
                Err(e) => {
                    return Err(e);
                },
            };
            let _ = env.insert_global(&x, y);
            Ok(Object::Nil)
        },
        _ => Err(EvalError::ParameterTypeMismatched),
    }
}

/// A native function of two evaluated arguments that calls nothing.
fn binary(p: Primitive, env: &mut Env) -> (r: Result<Object, EvalError>)
    requires
        p == Primitive::Add || p == Primitive::Sub || p == Primitive::Mul || p == Primitive::Div
            || p == Primitive::Eq || p == Primitive::Cons,
    ensures
        forall|natives: Seq<Box<dyn Native>>, fuel: nat|
            outcome_of(r, final(env)@) == #[trigger] primitive_spec(natives, p, old(env)@, fuel),
{
    proof {
        reveal_with_fuel(object_view, 2);
    }
    let x = match argument(env, "X") {
        Ok(v) => v,
        Err(e) => {
            return Err(e);
        },
    };
    let y = match argument(env, "Y") {
        Ok(v) => v,
        Err(e) => {
            return Err(e);
        },
    };
    match p {
        Primitive::Eq => Ok(truth(equal_objects(&x, &y))),
        Primitive::Cons => Ok(cons(x, y)),
        _ => calculate(p, x, y, env),
    }
}

/// A native function of one argument that calls nothing.
fn unary(p: Primitive, env: &mut Env) -> (r: Result<Object, EvalError>)
    requires
        p == Primitive::Quote || p == Primitive::Print || p == Primitive::Princ || p
            == Primitive::Symbolp || p == Primitive::Numberp || p == Primitive::Stringp || p
            == Primitive::Listp || p == Primitive::Null || p == Primitive::Atom || p
            == Primitive::Car || p == Primitive::Cdr,
    ensures
        forall|natives: Seq<Box<dyn Native>>, fuel: nat|
            outcome_of(r, final(env)@) == #[trigger] primitive_spec(natives, p, old(env)@, fuel),
{
    proof {
        reveal_with_fuel(object_view, 2);
    }
    let x = match argument(env, "X") {
        Ok(v) => v,
        Err(e) => {
            return Err(e);
        },
    };
    match p {
        Primitive::Quote => Ok(x),
        Primitive::Print => {
            let mut text = x.to_string();
            text.append("\n");
            env.print(text.as_str());
            Ok(x)
        },
        Primitive::Princ => {
            let text = x.print();
            env.print(text.as_str());
            Ok(x)
        },
        Primitive::Symbolp => Ok(
            truth(
                match x {
                    Object::Symbol(_) => true,
                    _ => false,
                },
            ),
        ),
        Primitive::Numberp => Ok(
            truth(
                match x {
                    Object::Integer(_) | Object::Float(_) => true,
                    _ => false,
                },
            ),
        ),
        Primitive::Stringp => Ok(
            truth(
                match x {
                    Object::String(_) => true,
                    _ => false,
                },
            ),
        ),
        Primitive::Listp => Ok(
            truth(
                match x {
                    Object::List(_) => true,
                    _ => false,
                },
            ),
        ),
        Primitive::Null => Ok(
            truth(
                match x {
                    Object::Nil => true,
                    _ => false,
                },
            ),
        ),
        Primitive::Atom => Ok(Object::T),
        Primitive::Car => match x {
            Object::List(l) => Ok(l.car()),
            _ => Err(EvalError::ParameterTypeMismatched),
        },
        _ => match x {
            Object::List(l) => Ok(l.cdr()),
            _ => Err(EvalError::ParameterTypeMismatched),
        },
    }
}

/// Runs a native function, its arguments bound in the current scope.
pub fn primitive_with(
    natives: &Natives,
    p: Primitive,
    env: &mut Env,
    fuel: usize,
) -> (r: Result<Object, EvalError>)
    ensures
        outcome_of(r, final(env)@) == primitive_spec(natives@, p, old(env)@, fuel as nat),
    decreases fuel, 3nat, 1nat,
{
    match p {
        Primitive::Terpri => {
            env.print("\n");
            Ok(Object::Nil)
        },
        Primitive::Add | Primitive::Sub | Primitive::Mul | Primitive::Div | Primitive::Eq
        | Primitive::Cons => binary(p, env),
        Primitive::Setq => setq(env),
        Primitive::Lambda => lambda(env),
        Primitive::Defun => defun(env),
        Primitive::Funcall => funcall(natives, env, fuel),
        Primitive::Or => any(natives, env, fuel),
        Primitive::Cond => cond(natives, env, fuel),
        _ => unary(p, env),
    }
}

/// Runs a native function of the catalogue where the embedder has supplied
/// none, its arguments bound in the current scope.
pub fn primitive(p: Primitive, env: &mut Env, fuel: usize) -> (r: Result<Object, EvalError>)
    ensures
        outcome_of(r, final(env)@) == primitive_spec(Seq::empty(), p, old(env)@, fuel as nat),
{
    let natives = Natives::new();
    primitive_with(&natives, p, env, fuel)
}

/// A native function of the catalogue, as a type of its own. A native
/// function that is not of the catalogue implements `native::Native`.
pub trait BuiltinFunc {
    /// The native function that the type stands for.
    spec fn kind(&self) -> Primitive;

    /// The native function that the type stands for.
    fn primitive(&self) -> (p: Primitive)
        ensures
            p == self.kind(),
    ;

    /// The parameters that the native function declares.
    fn get_parameters(&self) -> (r: Params)
        ensures
            r@ == Func::primitive_params(self.kind()),
    {
        Builtin::of(self.primitive()).get_parameters()
    }

    /// The name under which the native function is registered.
    fn get_name(&self) -> (r: &'static str)
        ensures
            r@ == self.kind().name(),
    {
        Builtin::of(self.primitive()).get_name()
    }

    /// Runs the native function, its arguments bound in the current scope.
    fn eval(&self, env: &mut Env) -> (r: Result<Object, EvalError>)
        ensures
            outcome_of(r, final(env)@) == primitive_spec(
                Seq::empty(),
                self.kind(),
                old(env)@,
                DEPTH_LIMIT as nat,
            ),
    {
        primitive(self.primitive(), env, DEPTH_LIMIT)
    }
}

/// `+`.
#[derive(Clone, Copy, Debug)]
pub struct ObjectAdd;

impl BuiltinFunc for ObjectAdd {
    open spec fn kind(&self) -> Primitive {
        Primitive::Add
    }

    fn primitive(&self) -> (p: Primitive) {
        Primitive::Add
    }
}

/// `-`.
#[derive(Clone, Copy, Debug)]
pub struct ObjectSub;

impl BuiltinFunc for ObjectSub {
    open spec fn kind(&self) -> Primitive {
        Primitive::Sub
    }

    fn primitive(&self) -> (p: Primitive) {
        Primitive::Sub
    }
}

/// `*`.
#[derive(Clone, Copy, Debug)]
pub struct ObjectMul;

impl BuiltinFunc for ObjectMul {
    open spec fn kind(&self) -> Primitive {
        Primitive::Mul
    }

    fn primitive(&self) -> (p: Primitive) {
        Primitive::Mul
    }
}

/// `/`.
#[derive(Clone, Copy, Debug)]
pub struct ObjectDiv;

impl BuiltinFunc for ObjectDiv {
    open spec fn kind(&self) -> Primitive {
        Primitive::Div
    }

    fn primitive(&self) -> (p: Primitive) {
        Primitive::Div
    }
}

/// `quote`.
#[derive(Clone, Copy, Debug)]
pub struct ObjectQuote;

impl BuiltinFunc for ObjectQuote {
    open spec fn kind(&self) -> Primitive {
        Primitive::Quote
    }

    fn primitive(&self) -> (p: Primitive) {
        Primitive::Quote
    }
}

/// `print`.
#[derive(Clone, Copy, Debug)]
pub struct ObjectPrint;

impl BuiltinFunc for ObjectPrint {
    open spec fn kind(&self) -> Primitive {
        Primitive::Print
    }

    fn primitive(&self) -> (p: Primitive) {
        Primitive::Print
    }
}

/// `princ`.
#[derive(Clone, Copy, Debug)]
pub struct ObjectPrinc;

impl BuiltinFunc for ObjectPrinc {
    open spec fn kind(&self) -> Primitive {
        Primitive::Princ
    }

    fn primitive(&self) -> (p: Primitive) {
        Primitive::Princ
    }
}

/// `terpri`.
#[derive(Clone, Copy, Debug)]
pub struct ObjectTerpri;

impl BuiltinFunc for ObjectTerpri {
    open spec fn kind(&self) -> Primitive {
        Primitive::Terpri
    }

    fn primitive(&self) -> (p: Primitive) {
        Primitive::Terpri
    }
}

/// `defun`.
#[derive(Clone, Copy, Debug)]
pub struct ObjectDefun;

impl BuiltinFunc for ObjectDefun {
    open spec fn kind(&self) -> Primitive {
        Primitive::Defun
    }

    fn primitive(&self) -> (p: Primitive) {
        Primitive::Defun
    }
}

/// `lambda`.
#[derive(Clone, Copy, Debug)]
pub struct ObjectLambda;

impl BuiltinFunc for ObjectLambda {
    open spec fn kind(&self) -> Primitive {
        Primitive::Lambda
    }

    fn primitive(&self) -> (p: Primitive) {
        Primitive::Lambda
    }
}

/// `funcall`.
#[derive(Clone, Copy, Debug)]
pub struct ObjectFuncall;

impl BuiltinFunc for ObjectFuncall {
    open spec fn kind(&self) -> Primitive {
        Primitive::Funcall
    }

    fn primitive(&self) -> (p: Primitive) {
        Primitive::Funcall
    }
}

/// `symbolp`.
#[derive(Clone, Copy, Debug)]
pub struct ObjectSymbolp;

impl BuiltinFunc for ObjectSymbolp {
    open spec fn kind(&self) -> Primitive {
        Primitive::Symbolp
    }

    fn primitive(&self) -> (p: Primitive) {
        Primitive::Symbolp
    }
}

/// `numberp`.
#[derive(Clone, Copy, Debug)]
pub struct ObjectNumberp;

impl BuiltinFunc for ObjectNumberp {
    open spec fn kind(&self) -> Primitive {
        Primitive::Numberp
    }

    fn primitive(&self) -> (p: Primitive) {
        Primitive::Numberp
    }
}

/// `stringp`.
#[derive(Clone, Copy, Debug)]
pub struct ObjectStringp;

impl BuiltinFunc for ObjectStringp {
    open spec fn kind(&self) -> Primitive {
        Primitive::Stringp
    }

    fn primitive(&self) -> (p: Primitive) {
        Primitive::Stringp
    }
}

/// `atom`.
#[derive(Clone, Copy, Debug)]
pub struct ObjectAtom;

impl BuiltinFunc for ObjectAtom {
    open spec fn kind(&self) -> Primitive {
        Primitive::Atom
    }

    fn primitive(&self) -> (p: Primitive) {
        Primitive::Atom
    }
}

/// `listp`.
#[derive(Clone, Copy, Debug)]
pub struct ObjectListp;

impl BuiltinFunc for ObjectListp {
    open spec fn kind(&self) -> Primitive {
        Primitive::Listp
    }

    fn primitive(&self) -> (p: Primitive) {
        Primitive::Listp
    }
}

/// `null`.
#[derive(Clone, Copy, Debug)]
pub struct ObjectNull;

impl BuiltinFunc for ObjectNull {
    open spec fn kind(&self) -> Primitive {
        Primitive::Null
    }

    fn primitive(&self) -> (p: Primitive) {
        Primitive::Null
    }
}

/// `eq`.
#[derive(Clone, Copy, Debug)]
pub struct ObjectEq;

impl BuiltinFunc for ObjectEq {
    open spec fn kind(&self) -> Primitive {
        Primitive::Eq
    }

    fn primitive(&self) -> (p: Primitive) {
        Primitive::Eq
    }
}

/// `or`.
#[derive(Clone, Copy, Debug)]
pub struct ObjectOr;

impl BuiltinFunc for ObjectOr {
    open spec fn kind(&self) -> Primitive {
        Primitive::Or
    }

    fn primitive(&self) -> (p: Primitive) {
        Primitive::Or
    }
}

/// `setq`.
#[derive(Clone, Copy, Debug)]
pub struct ObjectSetq;

impl BuiltinFunc for ObjectSetq {
    open spec fn kind(&self) -> Primitive {
        Primitive::Setq
    }

    fn primitive(&self) -> (p: Primitive) {
        Primitive::Setq
    }
}

/// `cons`.
#[derive(Clone, Copy, Debug)]
pub struct ObjectCons;

impl BuiltinFunc for ObjectCons {
    open spec fn kind(&self) -> Primitive {
        Primitive::Cons
    }

    fn primitive(&self) -> (p: Primitive) {
        Primitive::Cons
    }
}

/// `car`.
#[derive(Clone, Copy, Debug)]
pub struct ObjectCar;

impl BuiltinFunc for ObjectCar {
    open spec fn kind(&self) -> Primitive {
        Primitive::Car
    }

    fn primitive(&self) -> (p: Primitive) {
        Primitive::Car
    }
}

/// `cdr`.
#[derive(Clone, Copy, Debug)]
pub struct ObjectCdr;

impl BuiltinFunc for ObjectCdr {
    open spec fn kind(&self) -> Primitive {
        Primitive::Cdr
    }

    fn primitive(&self) -> (p: Primitive) {
        Primitive::Cdr
    }
}

/// `cond`.
#[derive(Clone, Copy, Debug)]
pub struct ObjectCond;

impl BuiltinFunc for ObjectCond {
    open spec fn kind(&self) -> Primitive {
        Primitive::Cond
    }

    fn primitive(&self) -> (p: Primitive) {
        Primitive::Cond
    }
}

impl Builtin {
    /// The native function that `inner` stands for.
    pub fn new<F: BuiltinFunc>(inner: F) -> (r: Self)
        ensures
            r.kind == inner.kind(),
    {
        Builtin { kind: inner.primitive() }
    }
}

impl Native for Builtin {
    /// What the native function of the catalogue does in the scope of a
    /// call, where the embedder has supplied none.
    open spec fn outcome(&self, st: State) -> Outcome {
        primitive_spec(Seq::empty(), self.kind, st, DEPTH_LIMIT as nat)
    }

    fn get_name(&self) -> (r: String) {
        String::from_str(Builtin::of(self.kind).get_name())
    }

    fn get_parameters(&self) -> (r: Params) {
        Builtin::of(self.kind).get_parameters()
    }

    fn eval(&self, env: &mut Env) -> (r: Result<Object, EvalError>) {
        primitive(self.kind, env, DEPTH_LIMIT)
    }
}

/// The value of a native function.
pub open spec fn builtin_value(p: Primitive) -> Value {
    Value::Lambda(Box::new(Func::Builtin(p)))
}

/// The environment in which the native function `p` is bound, in the
/// current scope, to its name in upper case.
pub open spec fn registered(st: State, p: Primitive) -> State {
    st.insert(folded(p.name()), builtin_value(p))
}

/// The environment of one scope that binds the catalogue: arithmetic,
/// `quote`, printing, `defun`, `lambda`, `funcall`, the predicates, `setq`,
/// the list functions and `cond`.
pub open spec fn default_state() -> State {
    let s = State::root();
    let s = registered(s, Primitive::Add);
    let s = registered(s, Primitive::Sub);
    let s = registered(s, Primitive::Mul);
    let s = registered(s, Primitive::Div);
    let s = registered(s, Primitive::Quote);
    let s = registered(s, Primitive::Print);
    let s = registered(s, Primitive::Princ);
    let s = registered(s, Primitive::Terpri);
    let s = registered(s, Primitive::Defun);
    let s = registered(s, Primitive::Lambda);
    let s = registered(s, Primitive::Funcall);
    let s = registered(s, Primitive::Symbolp);
    let s = registered(s, Primitive::Numberp);
    let s = registered(s, Primitive::Stringp);
    let s = registered(s, Primitive::Atom);
    let s = registered(s, Primitive::Listp);
    let s = registered(s, Primitive::Null);
    let s = registered(s, Primitive::Eq);
    let s = registered(s, Primitive::Setq);
    let s = registered(s, Primitive::Cons);
    let s = registered(s, Primitive::Car);
    let s = registered(s, Primitive::Cdr);
    registered(s, Primitive::Cond)
}

/// Binds a native function, in the current scope, to its name in upper
/// case.
pub fn insert_builtin<F: BuiltinFunc>(env: &mut Env, f: F)
    ensures
        final(env)@ == registered(old(env)@, f.kind()),
{
    proof {
        reveal_with_fuel(object_view, 2);
        reveal_with_fuel(lambda_view, 2);
    }
    let name = Object::Symbol(String::from_str(f.get_name()));
    let lambda = Object::Lambda(Box::new(Lambda::Builtin(Builtin::new(f))));
    let _ = env.insert(&name, lambda);
}

/// The environment of one scope that binds the catalogue.
pub fn generate_default_env() -> (env: Env)
    ensures
        env@ == default_state(),
{
    let mut env = Env::new();
    insert_builtin(&mut env, ObjectAdd);
    insert_builtin(&mut env, ObjectSub);
    insert_builtin(&mut env, ObjectMul);
    insert_builtin(&mut env, ObjectDiv);
    insert_builtin(&mut env, ObjectQuote);
    insert_builtin(&mut env, ObjectPrint);
    insert_builtin(&mut env, ObjectPrinc);
    insert_builtin(&mut env, ObjectTerpri);
    insert_builtin(&mut env, ObjectDefun);
    insert_builtin(&mut env, ObjectLambda);
    insert_builtin(&mut env, ObjectFuncall);
    insert_builtin(&mut env, ObjectSymbolp);
    insert_builtin(&mut env, ObjectNumberp);
    insert_builtin(&mut env, ObjectStringp);
    insert_builtin(&mut env, ObjectAtom);
    insert_builtin(&mut env, ObjectListp);
    insert_builtin(&mut env, ObjectNull);
    insert_builtin(&mut env, ObjectEq);
    insert_builtin(&mut env, ObjectSetq);
    insert_builtin(&mut env, ObjectCons);
    insert_builtin(&mut env, ObjectCar);
    insert_builtin(&mut env, ObjectCdr);
    insert_builtin(&mut env, ObjectCond);
    env
}

} // verus!
