use rclisp::list::{cons, get_list, integer, nil, symbol};
use rclisp::params::ParamError;
use rclisp::shell::quotes_matched;
use rclisp::types::{List, Object, Parameter, Params, UserLambda};

fn names(list: Object) -> Result<String, ParamError> {
    Params::try_from(get_list(list)).map(|p| p.to_string())
}

#[test]
fn params_from_a_list_of_symbols() {
    assert_eq!(
        names(cons(symbol("A"), cons(symbol("B"), nil()))),
        Ok("((A), (B))".to_string())
    );
    assert_eq!(Params::try_from(List::EndsWith(Object::Nil)).map(|p| p.len()), Ok(0));
    assert_eq!(names(cons(symbol("A"), symbol("B"))), Ok("((A), (B))".to_string()));
    assert_eq!(names(cons(symbol("a"), cons(symbol("b"), nil()))), Ok("((A), (B))".to_string()));
    assert_eq!(names(cons(symbol("a"), cons(symbol("A"), nil()))), Err(ParamError::Invalid));
    assert_eq!(names(cons(symbol("A"), cons(integer(1), nil()))), Err(ParamError::InvalidType));
    assert_eq!(names(cons(symbol("A"), cons(symbol("A"), nil()))), Err(ParamError::Invalid));
}

#[test]
fn params_validate() {
    let ok = Params::new(vec![
        Parameter::normal("A"),
        Parameter::plain("B"),
        Parameter::optional("C", integer(1)),
        Parameter::rest("D"),
    ]);
    assert!(ok.validate());
    assert_eq!(ok.len(), 4);
    assert_eq!(ok.len_required(), 3);
    assert!(!ok.is_empty());
    assert_eq!(ok.to_string(), "((A), (&plain B), (&optional C 1), (&rest D))");
    assert!(Params::new(vec![]).validate());
    assert_eq!(Params::new(vec![]).len_required(), 0);
    assert!(!Params::new(vec![Parameter::normal("A"), Parameter::plain("A")]).validate());
    assert!(!Params::new(vec![Parameter::optional("A", nil()), Parameter::normal("B")]).validate());
    assert!(!Params::new(vec![Parameter::optional("A", nil()), Parameter::plain("B")]).validate());
    assert!(!Params::new(vec![Parameter::rest("A"), Parameter::normal("B")]).validate());
    assert!(!Params::new(vec![Parameter::rest("A"), Parameter::rest("B")]).validate());
    assert!(Params::new(vec![Parameter::optional("A", nil()), Parameter::rest("B")]).validate());
}

#[test]
fn parameters_say_what_they_are() {
    assert_eq!(Parameter::normal("A").get_name(), "A");
    assert_eq!(Parameter::normal("abc").get_name(), "ABC");
    assert_eq!(Parameter::rest("a-b").to_string(), "(&rest A-B)");
    assert_eq!(Parameter::optional("B", nil()).get_name(), "B");
    assert!(Parameter::rest("A").is_rest());
    assert!(!Parameter::plain("A").is_rest());
    assert!(Parameter::optional("A", nil()).is_optional());
    assert_eq!(Parameter::rest("A").to_string(), "(&rest A)");
    assert_eq!(Parameter::normal("A"), Parameter::normal("A"));
    assert_ne!(Parameter::normal("A"), Parameter::plain("A"));
}

#[test]
fn user_lambdas_hold_parameters_and_body() {
    let params = Params::new(vec![Parameter::normal("X")]);
    let body = get_list(cons(symbol("X"), nil()));
    let lambda = UserLambda::new(params.clone(), body.clone());
    assert_eq!(lambda.get_parameters(), &params);
    assert_eq!(lambda.clone().get_body(), body);
    assert_eq!(lambda, lambda.clone());
}

#[test]
fn parentheses_are_counted() {
    assert!(quotes_matched(""));
    assert!(quotes_matched("(a (b) c)"));
    assert!(!quotes_matched("(a (b c)"));
    assert!(!quotes_matched("a)"));
    assert!(quotes_matched(")("));
    assert!(quotes_matched("(a \\( b)"));
    assert!(!quotes_matched("(a \\) b"));
    assert!(quotes_matched("(a \\\\) b"));
    assert!(quotes_matched("(\u{e9})"));
}
