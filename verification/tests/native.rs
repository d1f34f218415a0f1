use rclisp::env::Env;
use rclisp::eval::{eval_object_with, EvalError};
use rclisp::list::{cons, integer, nil, symbol};
use rclisp::model::Primitive;
use rclisp::native::{Native, Natives};
use rclisp::semantics::Outcome;
use rclisp::state::State;
use rclisp::types::{Builtin, Object, Parameter, Params};
use rclisp::{generate_default_env, interpret_with};

/// The sum of two numbers as a floating-point number.
struct FloatSum;

fn number(value: Object) -> Result<f64, EvalError> {
    match value {
        Object::Integer(n) => Ok(n as f64),
        Object::Float(text) => text.parse::<f64>().map_err(|_| EvalError::ParameterTypeMismatched),
        _ => Err(EvalError::ParameterTypeMismatched),
    }
}

impl Native for FloatSum {
    fn outcome(&self, _: State) -> Outcome {
        unreachable!()
    }

    fn get_name(&self) -> String {
        "float-sum".to_string()
    }

    fn get_parameters(&self) -> Params {
        Params::new(vec![Parameter::normal("A"), Parameter::normal("B")])
    }

    fn eval(&self, env: &mut Env) -> Result<Object, EvalError> {
        let a = number(env.get_str("A").map_err(EvalError::from)?)?;
        let b = number(env.get_str("B").map_err(EvalError::from)?)?;
        Ok(Object::Float((a + b).to_string()))
    }
}

/// Counts its calls in the environment, and takes its arguments as they
/// stand.
struct Tally;

impl Native for Tally {
    fn outcome(&self, _: State) -> Outcome {
        unreachable!()
    }

    fn get_name(&self) -> String {
        "tally".to_string()
    }

    fn get_parameters(&self) -> Params {
        Params::new(vec![Parameter::rest("FORMS")])
    }

    fn eval(&self, env: &mut Env) -> Result<Object, EvalError> {
        let forms = env.get_str("FORMS").map_err(EvalError::from)?;
        env.print("tally\n");
        Ok(forms)
    }
}

fn machine() -> (Natives, Env) {
    let mut natives = Natives::new();
    let mut env = generate_default_env();
    let sum = natives.register(Box::new(FloatSum));
    let _ = env.insert(&symbol("float-sum"), sum);
    let tally = natives.register(Box::new(Tally));
    let _ = env.insert(&symbol("tally"), tally);
    (natives, env)
}

#[test]
fn native_functions_are_called_with_their_arguments_bound() {
    let (natives, mut env) = machine();
    assert_eq!(natives.len(), 2);
    assert_eq!(
        interpret_with(&natives, "(float-sum 1 2.0)".as_bytes(), &mut env),
        Ok(Object::Float("3".to_string()))
    );
    assert_eq!(
        interpret_with(&natives, "(float-sum (float-sum 0.5 0.25) (+ 1 1))".as_bytes(), &mut env),
        Ok(Object::Float("2.75".to_string()))
    );
    assert_eq!(
        interpret_with(&natives, "(eq (float-sum 0.5 0.5) 1.0)".as_bytes(), &mut env),
        Ok(Object::T)
    );
    assert_eq!(env.depth(), 1);
}

#[test]
fn native_functions_follow_the_binding_rules() {
    let (natives, mut env) = machine();
    assert_eq!(
        interpret_with(&natives, "(float-sum 1)".as_bytes(), &mut env),
        Err(EvalError::UnmatchedNumberOfParameters(2, 1))
    );
    assert_eq!(
        interpret_with(&natives, "(float-sum 1 \"a\")".as_bytes(), &mut env),
        Err(EvalError::ParameterTypeMismatched)
    );
    assert_eq!(
        interpret_with(&natives, "(tally a (b c))".as_bytes(), &mut env).map(|v| v.to_string()),
        Ok("(A (B C))".to_string())
    );
    assert_eq!(env.take_output(), "tally\n");
    assert_eq!(
        interpret_with(&natives, "(defun f (x) (float-sum x x)) (f 1.5)".as_bytes(), &mut env),
        Ok(Object::Float("3".to_string()))
    );
}

#[test]
fn native_functions_print_and_compare() {
    let (natives, mut env) = machine();
    assert_eq!(
        interpret_with(&natives, "float-sum".as_bytes(), &mut env).map(|v| v.to_string()),
        Ok("#<FUNCTION (NATIVE:float-sum ((A), (B)))>".to_string())
    );
    assert_eq!(
        interpret_with(&natives, "(eq float-sum float-sum)".as_bytes(), &mut env),
        Ok(Object::Nil)
    );
    let value = interpret_with(&natives, "tally".as_bytes(), &mut env).unwrap();
    assert_eq!(value.clone().to_string(), "#<FUNCTION (NATIVE:tally ((&rest FORMS)))>");
    assert_ne!(value.clone(), value);
}

#[test]
fn native_functions_that_were_not_supplied_fail() {
    let (natives, mut env) = machine();
    let sum = env.get_str("FLOAT-SUM").unwrap();
    let form = cons(sum, cons(integer(1), cons(integer(2), nil())));
    let none = Natives::new();
    assert_eq!(
        eval_object_with(&none, form.clone(), &mut env, 16),
        Err(EvalError::IllegalFunctionCall)
    );
    assert_eq!(env.depth(), 1);
    assert_eq!(
        eval_object_with(&natives, form, &mut env, 16),
        Ok(Object::Float("3".to_string()))
    );
}

#[test]
fn catalogue_functions_can_be_supplied() {
    let mut natives = Natives::new();
    let mut env = Env::new();
    let add = natives.register(Box::new(Builtin::of(Primitive::Add)));
    let _ = env.insert(&symbol("plus"), add);
    assert_eq!(
        interpret_with(&natives, "(plus 1 2)".as_bytes(), &mut env),
        Ok(integer(3))
    );
    assert_eq!(
        interpret_with(&natives, "plus".as_bytes(), &mut env).map(|v| v.to_string()),
        Ok("#<FUNCTION (NATIVE:+ ((X), (Y)))>".to_string())
    );
}
