use rclisp::builtins::{generate_default_env, BuiltinFunc, ObjectCond, ObjectCons, ObjectOr};
use rclisp::env::Env;
use rclisp::eval::{eval_object, Eval, EvalError};
use rclisp::interpret;
use rclisp::list::{cons, integer, nil, quote, symbol};
use rclisp::model::Primitive;
use rclisp::types::{Builtin, Lambda, Object};

fn run(source: &str, env: &mut Env) -> Result<Object, EvalError> {
    interpret(source.as_bytes(), env)
}

fn shown(source: &str) -> String {
    let mut env = generate_default_env();
    match run(source, &mut env) {
        Ok(v) => v.to_string(),
        Err(e) => panic!("{:?}", e),
    }
}

fn failure(source: &str) -> EvalError {
    let mut env = generate_default_env();
    match run(source, &mut env) {
        Ok(v) => panic!("evaluated to {}", v.to_string()),
        Err(e) => e,
    }
}

#[test]
fn eval_addition() {
    let mut env = generate_default_env();
    assert_eq!(run("(+ 1 2)", &mut env), Ok(integer(3)));
    assert_eq!(run("(+ (+ 1 2) (+ 3 4))", &mut env), Ok(integer(10)));
}

#[test]
fn eval_arithmetic() {
    assert_eq!(shown("(- 1 2)"), "-1");
    assert_eq!(shown("(* 6 7)"), "42");
    assert_eq!(shown("(/ 7 2)"), "3");
    assert_eq!(shown("(/ -7 2)"), "-3");
    assert_eq!(shown("(/ 7 -2)"), "-3");
    assert_eq!(shown("(/ -7 -2)"), "3");
    assert_eq!(failure("(/ 1 0)"), EvalError::DivisionByZero);
    assert_eq!(failure("(+ 9223372036854775807 1)"), EvalError::IntegerOverflow);
    assert_eq!(failure("(- -9223372036854775808 1)"), EvalError::IntegerOverflow);
    assert_eq!(failure("(* 9223372036854775807 2)"), EvalError::IntegerOverflow);
    assert_eq!(failure("(/ -9223372036854775808 -1)"), EvalError::IntegerOverflow);
    assert_eq!(failure("(+ 1 \"a\")"), EvalError::ParameterTypeMismatched);
}

#[test]
fn eval_quote_keeps_the_form() {
    let mut env = generate_default_env();
    let list = cons(symbol("A"), cons(symbol("B"), nil()));
    assert_eq!(run("(quote (A B))", &mut env), Ok(list.clone()));
    assert_eq!(run("'(A B)", &mut env), Ok(list));
    assert_eq!(run("'x", &mut env), Ok(symbol("X")));
}

#[test]
fn eval_quote_twice_is_the_same() {
    let mut env = generate_default_env();
    let form = quote(cons(symbol("A"), symbol("B")));
    let first = form.clone().eval(&mut env);
    let second = form.clone().eval(&mut env);
    assert_eq!(first, Ok(cons(symbol("A"), symbol("B"))));
    assert_eq!(first, second);
    assert_eq!(form, quote(cons(symbol("A"), symbol("B"))));
}

#[test]
fn eval_defun_and_call() {
    let mut env = generate_default_env();
    assert_eq!(run("(defun double (x) (+ x x))", &mut env), Ok(nil()));
    assert_eq!(run("(double 4)", &mut env), Ok(integer(8)));
    assert_eq!(
        run("(double)", &mut env).map(|v| v.to_string()),
        Ok("#<FUNCTION (NAMED-LAMBDA:DOUBLE ((X)))>".to_string())
    );
    assert_eq!(run("(double 4 5)", &mut env), Ok(integer(8)));
    assert_eq!(
        run("(cons 1)", &mut env),
        Err(EvalError::UnmatchedNumberOfParameters(2, 1))
    );
    assert_eq!(
        run("(defun f (x y) x) (f 1)", &mut env),
        Err(EvalError::UnmatchedNumberOfParameters(2, 1))
    );
}

#[test]
fn eval_setq_binds_at_the_root() {
    let mut env = generate_default_env();
    assert_eq!(run("(setq x 1)", &mut env), Ok(nil()));
    assert_eq!(run("x", &mut env), Ok(integer(1)));
    assert_eq!(env.depth(), 1);
    assert_eq!(run("(defun set-it (v) (setq y v)) (set-it 5) y", &mut env), Ok(integer(5)));
    assert_eq!(env.depth(), 1);
}

#[test]
fn eval_setq_in_nested_scopes() {
    let mut env = generate_default_env();
    env.insert_str("V", integer(0));
    env.enter();
    env.insert_str("V", integer(1));
    env.enter();
    env.insert_str("V", integer(2));
    assert_eq!(run("(setq v 9)", &mut env), Ok(nil()));
    assert_eq!(env.get_str("V"), Ok(integer(2)));
    env.leave();
    assert_eq!(env.get_str("V"), Ok(integer(1)));
    env.leave();
    assert_eq!(env.get_str("V"), Ok(integer(9)));
}

#[test]
fn eval_atoms_and_symbols() {
    let mut env = generate_default_env();
    assert_eq!(run("5", &mut env), Ok(integer(5)));
    assert_eq!(run("\"s\"", &mut env), Ok(Object::String("s".to_string())));
    assert_eq!(run("1.5", &mut env), Ok(Object::Float("1.5".to_string())));
    assert_eq!(run("1.50", &mut env), Ok(Object::Float("1.5".to_string())));
    assert_eq!(run("t", &mut env), Ok(Object::T));
    assert_eq!(run("nil", &mut env), Ok(nil()));
    assert_eq!(run("()", &mut env), Ok(nil()));
    assert_eq!(run("nope", &mut env), Err(EvalError::UnboundVariable("NOPE".to_string())));
    assert_eq!(run("", &mut env), Ok(nil()));
}

#[test]
fn eval_lists_that_are_no_calls() {
    assert_eq!(shown("(5)"), "5");
    assert_eq!(shown("(1 2 3)"), "3");
    assert_eq!(shown("(1 . 2)"), "2");
    assert_eq!(shown("(1 2 . 3)"), "3");
    assert_eq!(shown("(cons)"), "#<FUNCTION (BUILTIN:cons ((X), (Y)))>");
    assert_eq!(failure("(cons . 5)"), EvalError::IllegalFunctionCall);
    assert_eq!(failure("(1 nope 3)"), EvalError::UnboundVariable("NOPE".to_string()));
}

#[test]
fn eval_list_functions() {
    assert_eq!(shown("(cons 1 2)"), "(1 . 2)");
    assert_eq!(shown("(cons 1 '(2 3))"), "(1 2 3)");
    assert_eq!(shown("(cons 1 nil)"), "(1)");
    assert_eq!(shown("(car '(1 2 3))"), "1");
    assert_eq!(shown("(cdr '(1 2 3))"), "(2 3)");
    assert_eq!(shown("(cdr '(1))"), "NIL");
    assert_eq!(shown("(cdr '(1 . 2))"), "2");
    assert_eq!(shown("(car (cdr '(1 2 3)))"), "2");
    assert_eq!(failure("(car 5)"), EvalError::ParameterTypeMismatched);
    assert_eq!(failure("(cdr nil)"), EvalError::ParameterTypeMismatched);
}

#[test]
fn eval_predicates() {
    assert_eq!(shown("(symbolp 'a)"), "T");
    assert_eq!(shown("(symbolp 1)"), "NIL");
    assert_eq!(shown("(numberp 1)"), "T");
    assert_eq!(shown("(numberp 1.5)"), "T");
    assert_eq!(shown("(numberp \"1\")"), "NIL");
    assert_eq!(shown("(stringp \"1\")"), "T");
    assert_eq!(shown("(stringp 1)"), "NIL");
    assert_eq!(shown("(listp '(1))"), "T");
    assert_eq!(shown("(listp nil)"), "NIL");
    assert_eq!(shown("(null nil)"), "T");
    assert_eq!(shown("(null 1)"), "NIL");
    assert_eq!(shown("(atom 1)"), "T");
    assert_eq!(shown("(atom '(1))"), "T");
    assert_eq!(shown("(eq 1 1)"), "T");
    assert_eq!(shown("(eq 1 2)"), "NIL");
    assert_eq!(shown("(eq '(1 2) '(1 2))"), "T");
    assert_eq!(shown("(eq 'a 'a)"), "T");
    assert_eq!(shown("(eq 1.5 1.5)"), "T");
    assert_eq!(shown("(eq 1.0 1.00)"), "T");
    assert_eq!(shown("(eq 1.0 1.5)"), "NIL");
    assert_eq!(shown("(eq 1 1.0)"), "NIL");
    assert_eq!(shown("(eq '(1 2.50) '(1 2.5))"), "T");
    assert_eq!(shown("(eq cons cons)"), "NIL");
}

#[test]
fn eval_cond() {
    assert_eq!(shown("(cond (nil 1) (t 2) (t 3))"), "2");
    assert_eq!(shown("(cond ((null nil) 1))"), "1");
    assert_eq!(shown("(cond (nil 1) (nil 2))"), "NIL");
    assert_eq!(shown("(cond (t 1 2 3))"), "3");
    assert_eq!(shown("(cond (1 2) (t 3))"), "3");
    assert_eq!(failure("(cond 5)"), EvalError::ParameterTypeMismatched);
    assert_eq!(failure("(cond (nope 1))"), EvalError::UnboundVariable("NOPE".to_string()));
}

#[test]
fn eval_recursion() {
    let source = "(defun my-assoc (v alist)
        (cond ((null alist) nil)
              ((eq (car (car alist)) v) (car alist))
              (t (my-assoc v (cdr alist)))))
        (my-assoc 'F '((A . B) (F E) (B)))";
    assert_eq!(shown(source), "(F E)");
    let source = "(defun my-assoc (v alist)
        (cond ((null alist) nil)
              ((eq (car (car alist)) v) (car alist))
              (t (my-assoc v (cdr alist)))))
        (my-assoc 'Z '((A . B) (F E) (B)))";
    assert_eq!(shown(source), "NIL");
}

#[test]
fn eval_lambda_and_funcall() {
    assert_eq!(shown("(lambda (x y) (+ x y))"), "#<FUNCTION (LAMBDA ((X), (Y)))>");
    assert_eq!(shown("(funcall (lambda (x y) (+ x y)) (1 2))"), "3");
    assert_eq!(shown("((lambda (x) (* x x)) 7)"), "49");
    assert_eq!(failure("(funcall 5 (1))"), EvalError::ParameterTypeMismatched);
    assert_eq!(failure("(funcall cons 5)"), EvalError::ParameterTypeMismatched);
    assert_eq!(failure("(lambda 5 (x))"), EvalError::ParameterTypeMismatched);
    assert_eq!(failure("(lambda (x) 5)"), EvalError::ParameterTypeMismatched);
    assert_eq!(failure("(lambda (x 1) (x))"), EvalError::ParameterTypeMismatched);
    assert_eq!(failure("(lambda (x x) (x))"), EvalError::ParameterTypeMismatched);
    assert_eq!(failure("(defun 5 (x) x)"), EvalError::ParameterTypeMismatched);
    assert_eq!(failure("(defun f 5 x)"), EvalError::ParameterTypeMismatched);
    assert_eq!(failure("(setq 5 1)"), EvalError::ParameterTypeMismatched);
}

#[test]
fn eval_free_variables_come_from_the_caller() {
    let source = "(defun get-v (ignored) v)
        (defun with-v (v) (get-v 0))
        (with-v 42)";
    assert_eq!(shown(source), "42");
}

#[test]
fn eval_function_bodies_run_in_sequence() {
    let source = "(defun f (x) (setq a x) (setq b 2) (+ a b)) (f 5)";
    assert_eq!(shown(source), "7");
}

#[test]
fn eval_printing_goes_to_the_output() {
    let mut env = generate_default_env();
    assert_eq!(run("(print \"a b\")", &mut env), Ok(Object::String("a b".to_string())));
    assert_eq!(env.take_output(), "\"a b\"\n");
    assert_eq!(run("(princ \"a b\")", &mut env), Ok(Object::String("a b".to_string())));
    assert_eq!(env.take_output(), "a b");
    assert_eq!(run("(print '(1 . 2)) (princ 5)", &mut env), Ok(integer(5)));
    assert_eq!(env.take_output(), "(1 . 2)\n5");
    assert_eq!(run("(defun nl (x) (terpri) (terpri)) (nl 0)", &mut env), Ok(nil()));
    assert_eq!(env.take_output(), "\n");
}

#[test]
fn eval_depth_is_bounded() {
    let mut env = generate_default_env();
    assert_eq!(
        run("(defun forever (x) (forever x)) (forever 1)", &mut env),
        Err(EvalError::DepthExceeded)
    );
    assert_eq!(env.depth(), 1);
    assert_eq!(eval_object(cons(integer(1), nil()), &mut env, 0), Err(EvalError::DepthExceeded));
    assert_eq!(eval_object(cons(integer(1), nil()), &mut env, 1), Ok(integer(1)));
    assert_eq!(eval_object(nil(), &mut env, 0), Ok(nil()));
    assert_eq!(eval_object(integer(1), &mut env, 0), Ok(integer(1)));
}

#[test]
fn eval_goes_on_behind_a_failed_form() {
    let mut env = generate_default_env();
    assert_eq!(run("nope 5", &mut env), Ok(integer(5)));
    assert_eq!(run("5 nope", &mut env), Err(EvalError::UnboundVariable("NOPE".to_string())));
    assert_eq!(run("5 )", &mut env), Ok(integer(5)));
    assert_eq!(run("5 --1 6", &mut env), Ok(integer(5)));
    assert_eq!(run("(setq a 1) (setq a", &mut env), Ok(nil()));
    assert_eq!(run("a", &mut env), Ok(integer(1)));
}

#[test]
fn eval_or_takes_the_first_value() {
    let mut env = generate_default_env();
    let or = Object::Lambda(Box::new(Lambda::Builtin(Builtin::new(ObjectOr))));
    let _ = env.insert(&symbol("or"), or);
    assert_eq!(run("(or nil 2 3)", &mut env), Ok(integer(2)));
    assert_eq!(run("(or nil nil)", &mut env), Ok(nil()));
    assert_eq!(run("(or nil nope)", &mut env), Err(EvalError::UnboundVariable("NOPE".to_string())));
}

#[test]
fn builtins_say_what_they_are() {
    assert_eq!(ObjectCond.get_name(), "cond");
    assert_eq!(ObjectCond.get_parameters().to_string(), "((&rest X))");
    assert_eq!(ObjectCons.get_name(), "cons");
    assert_eq!(ObjectCons.get_parameters().to_string(), "((X), (Y))");
    assert_eq!(ObjectCons.primitive(), Primitive::Cons);
    assert_eq!(
        Builtin::of(Primitive::Defun).get_parameters().to_string(),
        "((&plain X), (&plain Y), (&rest Z))"
    );
    let mut env = Env::new();
    env.insert_str("X", integer(1));
    env.insert_str("Y", integer(2));
    assert_eq!(ObjectCons.eval(&mut env), Ok(cons(integer(1), integer(2))));
    let mut empty = Env::new();
    assert_eq!(ObjectCons.eval(&mut empty), Err(EvalError::UnboundVariable("X".to_string())));
}

#[test]
fn default_env_binds_the_catalogue() {
    let env = generate_default_env();
    assert_eq!(env.len(), 23);
    assert_eq!(env.depth(), 1);
    for name in [
        "+", "-", "*", "/", "QUOTE", "PRINT", "PRINC", "TERPRI", "DEFUN", "LAMBDA", "FUNCALL",
        "SYMBOLP", "NUMBERP", "STRINGP", "ATOM", "LISTP", "NULL", "EQ", "SETQ", "CONS", "CAR",
        "CDR", "COND",
    ] {
        assert!(matches!(env.get_str(name), Ok(Object::Lambda(_))), "{}", name);
    }
    assert!(env.get_str("OR").is_err());
}

fn float_result(op: Primitive, x: &str, y: &str) -> String {
    let a = x.parse::<f64>().unwrap();
    let b = y.parse::<f64>().unwrap();
    let r = match op {
        Primitive::Add => a + b,
        Primitive::Sub => a - b,
        Primitive::Mul => a * b,
        _ => a / b,
    };
    r.to_string()
}

fn run_with_floats(source: &str, env: &mut Env) -> Result<Object, EvalError> {
    loop {
        let mut trial = env.clone();
        match run(source, &mut trial) {
            Err(EvalError::FloatPending(op, x, y)) => {
                let r = float_result(op, &x, &y);
                env.learn(op, &x, &y, &r);
            }
            other => {
                *env = trial;
                return other;
            }
        }
    }
}

#[test]
fn eval_float_promotion() {
    let mut env = generate_default_env();
    assert_eq!(
        run("(+ 1 2.0)", &mut env),
        Err(EvalError::FloatPending(Primitive::Add, "1".to_string(), "2".to_string()))
    );
    env.learn(Primitive::Add, "1", "2", &float_result(Primitive::Add, "1", "2"));
    let sum = run("(+ 1 2.0)", &mut env);
    assert_eq!(sum, Ok(Object::Float("3".to_string())));
    match sum {
        Ok(Object::Float(text)) => assert_eq!(text.parse::<f64>(), Ok(3.0)),
        other => panic!("{:?}", other),
    }
    assert_eq!(run("(+ 1 2.00)", &mut env), Ok(Object::Float("3".to_string())));
    assert_eq!(
        run("(- 3.0 1)", &mut env),
        Err(EvalError::FloatPending(Primitive::Sub, "3".to_string(), "1".to_string()))
    );
    assert_eq!(env.known(Primitive::Add, "1", "2"), Some("3".to_string()));
    assert_eq!(env.known(Primitive::Sub, "1", "2"), None);
}

#[test]
fn eval_float_arithmetic_with_an_embedder() {
    let mut env = generate_default_env();
    assert_eq!(run_with_floats("(+ 1 2.0)", &mut env), Ok(Object::Float("3".to_string())));
    assert_eq!(
        run_with_floats("(* (+ 1.5 1.5) (- 4 0.5))", &mut env),
        Ok(Object::Float("10.5".to_string()))
    );
    assert_eq!(run_with_floats("(/ 1.0 4)", &mut env), Ok(Object::Float("0.25".to_string())));
    assert_eq!(
        run_with_floats("(setq a 1) (setq a (+ a 0.5)) a", &mut env),
        Ok(Object::Float("1.5".to_string()))
    );
    assert_eq!(
        run_with_floats("(print 1) (+ 0.5 0.25)", &mut env),
        Ok(Object::Float("0.75".to_string()))
    );
    assert_eq!(env.take_output(), "1\n");
    assert_eq!(run_with_floats("(+ 1.5 \"a\")", &mut env), Err(EvalError::ParameterTypeMismatched));
}

#[test]
fn env_copies_are_apart() {
    let mut env = generate_default_env();
    env.enter();
    env.insert_str("A", integer(1));
    let mut copy = env.clone();
    copy.insert_str("A", integer(2));
    copy.insert_global_str("B", integer(3));
    copy.print("x");
    assert_eq!(env.get_str("A"), Ok(integer(1)));
    assert!(env.get_str("B").is_err());
    assert_eq!(env.take_output(), "");
    assert_eq!(copy.get_str("A"), Ok(integer(2)));
    assert_eq!(copy.depth(), 2);
}

#[test]
fn errors_have_messages() {
    assert_eq!(EvalError::UnboundVariable("X".to_string()).to_string(), "Unbound variable X");
    assert_eq!(
        EvalError::UnmatchedNumberOfParameters(2, 10).to_string(),
        "Unmatched number of parameters, expecting 2 but got 10"
    );
    assert_eq!(EvalError::IllegalFunctionCall.to_string(), "Illegal function call");
    assert_eq!(EvalError::ParameterTypeMismatched.to_string(), "Parameter type mismatched");
    assert_eq!(EvalError::DivisionByZero.to_string(), "Division by zero");
    assert_eq!(EvalError::IntegerOverflow.to_string(), "Integer overflow");
    assert_eq!(EvalError::DepthExceeded.to_string(), "Evaluation nested too deep");
    assert_eq!(
        EvalError::FloatPending(Primitive::Div, "1".to_string(), "2.5".to_string()).to_string(),
        "Floating-point arithmetic pending: (/ 1 2.5)"
    );
    assert_eq!(
        rclisp::EnvError::SymbolNotFound("X".to_string()).to_string(),
        "Symbol \"X\" not found"
    );
    assert_eq!(rclisp::EnvError::NotASymbol("5".to_string()).to_string(), "5 is not a symbol");
    assert_eq!(rclisp::ParserError::UnexpectedEOF.to_string(), "Unexpected EOF");
    assert_eq!(rclisp::ParserError::UnmatchedParens.to_string(), "No matching parenthesis found");
    assert_eq!(rclisp::ParserError::EmptyInput.to_string(), "Input is empty");
    assert_eq!(
        rclisp::ParserError::UnexpectedToken(rclisp::Token::ParenRight).to_string(),
        "ParenRight"
    );
    assert_eq!(
        rclisp::ParserError::UnexpectedToken(rclisp::Token::Symbol("a".to_string())).to_string(),
        "Symbol(\"a\")"
    );
    assert_eq!(rclisp::Token::Integer(-5).to_string(), "Integer(-5)");
    assert_eq!(
        rclisp::ParserError::Lexical(rclisp::LexError::MalformedNumber("--1".to_string()))
            .to_string(),
        "Malformed number --1"
    );
    assert_eq!(rclisp::ParamError::InvalidType.to_string(), "Invalid param object type");
    assert_eq!(rclisp::ParamError::Invalid.to_string(), "Invalid parameter list");
    assert_eq!(EvalError::from(rclisp::ParamError::Invalid), EvalError::ParameterTypeMismatched);
    assert_eq!(
        EvalError::from(rclisp::EnvError::SymbolNotFound("X".to_string())),
        EvalError::UnboundVariable("X".to_string())
    );
    assert_eq!(
        EvalError::from(rclisp::EnvError::NotASymbol("5".to_string())),
        EvalError::ParameterTypeMismatched
    );
}

#[test]
fn eval_recursion_over_a_longer_list() {
    let mut items = String::new();
    for i in 0..40 {
        items.push_str(&format!("({} . {}) ", i, i * i));
    }
    let source = format!(
        "(defun my-assoc (v alist)
            (cond ((null alist) nil)
                  ((eq (car (car alist)) v) (car alist))
                  (t (my-assoc v (cdr alist)))))
         (my-assoc 39 '({}))",
        items
    );
    assert_eq!(shown(&source), "(39 . 1521)");
}

#[test]
fn eval_looks_symbols_up_in_upper_case() {
    let mut env = generate_default_env();
    env.insert_str("ABC", integer(7));
    assert_eq!(symbol("abc").eval(&mut env), Ok(integer(7)));
    assert_eq!(symbol("ABC").eval(&mut env), Ok(integer(7)));
    assert_eq!(symbol("nope").eval(&mut env), Err(EvalError::UnboundVariable("NOPE".to_string())));
}

#[test]
fn env_default_and_lexer_copies() {
    let env = Env::default();
    assert_eq!(env.depth(), 1);
    assert_eq!(env.len(), 0);
    let mut lexer = rclisp::Lexer::new("a b".as_bytes());
    assert_eq!(lexer.next(), Some(Ok(rclisp::Token::Symbol("a".to_string()))));
    let mut copy = lexer.clone();
    assert_eq!(lexer.next(), Some(Ok(rclisp::Token::Symbol("b".to_string()))));
    assert_eq!(copy.next(), Some(Ok(rclisp::Token::Symbol("b".to_string()))));
}

#[test]
fn values_convert() {
    let list = rclisp::get_list(cons(integer(1), nil()));
    assert_eq!(Object::from(list), cons(integer(1), nil()));
    assert_eq!(
        Object::from(vec![integer(1), integer(2)]),
        cons(integer(1), cons(integer(2), nil()))
    );
    assert_eq!(Object::from(Vec::<Object>::new()), nil());
    assert_eq!(
        Object::from(Builtin::new(ObjectCons)).to_string(),
        "#<FUNCTION (BUILTIN:cons ((X), (Y)))>"
    );
    assert_eq!(
        Lambda::from(Builtin::of(Primitive::Car)).to_string(),
        "#<FUNCTION (BUILTIN:car ((X)))>"
    );
    assert_eq!(
        rclisp::Params::from(vec![rclisp::Parameter::normal("A")]).to_string(),
        "((A))"
    );
    assert_eq!(Lambda::from(Builtin::of(Primitive::Car)).get_parameters().len(), 1);
}

#[test]
fn eval_counts_the_required_parameters() {
    let params = rclisp::Params::new(vec![
        rclisp::Parameter::normal("X"),
        rclisp::Parameter::normal("Y"),
        rclisp::Parameter::optional("Z", integer(9)),
    ]);
    assert_eq!(params.len(), 3);
    assert_eq!(params.len_required(), 2);
    let body = rclisp::get_list(cons(symbol("Z"), nil()));
    let lambda = Object::from(Lambda::Unnamed(rclisp::UserLambda::new(params, body)));
    let mut env = generate_default_env();
    let one = cons(lambda.clone(), cons(integer(1), nil()));
    assert_eq!(one.eval(&mut env), Err(EvalError::UnmatchedNumberOfParameters(2, 1)));
    assert_eq!(env.depth(), 1);
    let two = cons(lambda.clone(), cons(integer(1), cons(integer(2), nil())));
    assert_eq!(two.eval(&mut env), Ok(integer(9)));
    let three = cons(lambda, cons(integer(1), cons(integer(2), cons(integer(3), nil()))));
    assert_eq!(three.eval(&mut env), Ok(integer(3)));
}

#[test]
fn eval_computed_and_written_floats_are_equal() {
    let mut env = generate_default_env();
    assert_eq!(run_with_floats("(eq (+ 0.5 0.5) 1.0)", &mut env), Ok(Object::T));
    assert_eq!(run_with_floats("(eq (- 1.5 1.5) 0.0)", &mut env), Ok(Object::T));
    assert_eq!(run_with_floats("(- 3.0 1)", &mut env), Ok(Object::Float("2".to_string())));
    assert_eq!(run_with_floats("(- 1 3.0)", &mut env), Ok(Object::Float("-2".to_string())));
    assert_eq!(
        run_with_floats("(/ 1 4.0)", &mut env).map(|v| v.to_string()),
        Ok("0.25".to_string())
    );
}
