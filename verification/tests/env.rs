use rclisp::env::{Env, EnvError};
use rclisp::list::{cons, integer, nil};
use rclisp::types::Object;

#[test]
fn test_env_simple() {
    let mut env = Env::new();
    let _ = env.insert(&Object::Symbol("A".into()), Object::Symbol("AValue".into()));
    assert_eq!(env.get(&Object::Symbol("A".into())), Ok(Object::Symbol("AValue".into())));
}

#[test]
fn test_env_inherit() {
    let mut p = Env::new();
    let _ = p.insert(&Object::Symbol("A".into()), Object::Symbol("AValue".into()));
    let mut c = Env::inherit(p);
    assert_eq!(c.get(&Object::Symbol("A".into())), Ok(Object::Symbol("AValue".into())));
    c.leave();
    let _ = c.insert(&Object::Symbol("B".into()), Object::Symbol("BValue".into()));
    assert_eq!(c.get(&Object::Symbol("B".into())), Ok(Object::Symbol("BValue".into())));
    c.enter();
    assert_eq!(c.get(&Object::Symbol("B".into())), Ok(Object::Symbol("BValue".into())));
    let _ = c.insert(&Object::Symbol("B".into()), Object::Symbol("BValueChild".into()));
    assert_eq!(c.get(&Object::Symbol("B".into())), Ok(Object::Symbol("BValueChild".into())));
    c.leave();
    assert_eq!(c.get(&Object::Symbol("B".into())), Ok(Object::Symbol("BValue".into())));
}

#[test]
fn test_env_insert_global() {
    let mut p = Env::new();
    let _ = p.insert(&Object::Symbol("A".into()), Object::Symbol("AValue1".into()));
    let mut c = Env::inherit(p);
    assert_eq!(c.get(&Object::Symbol("A".into())), Ok(Object::Symbol("AValue1".into())));
    let _ = c.insert_global(&Object::Symbol("A".into()), Object::Symbol("AValue2".into()));
    assert_eq!(c.get(&Object::Symbol("A".into())), Ok(Object::Symbol("AValue2".into())));
    c.leave();
    assert_eq!(c.get(&Object::Symbol("A".into())), Ok(Object::Symbol("AValue2".into())));
}

#[test]
fn env_insert_global_keeps_the_scopes_in_between() {
    let mut env = Env::new();
    env.insert_str("X", integer(0));
    env.enter();
    env.insert_str("X", integer(1));
    env.enter();
    env.insert_str("X", integer(2));
    assert_eq!(env.depth(), 3);
    assert_eq!(env.get_str("X"), Ok(integer(2)));
    env.insert_global_str("X", integer(9));
    assert_eq!(env.depth(), 3);
    assert_eq!(env.get_str("X"), Ok(integer(1)));
    env.leave();
    assert_eq!(env.get_str("X"), Ok(integer(1)));
    env.leave();
    assert_eq!(env.get_str("X"), Ok(integer(9)));
}

#[test]
fn env_insert_global_at_the_root_binds_there() {
    let mut env = Env::new();
    env.insert_global_str("X", integer(1));
    assert_eq!(env.get_str("X"), Ok(integer(1)));
    let _ = env.insert_global(&Object::Symbol("y".into()), integer(2));
    assert_eq!(env.get_str("Y"), Ok(integer(2)));
    assert_eq!(
        env.insert_global(&integer(5), integer(3)),
        Err(EnvError::NotASymbol("5".to_string()))
    );
    assert_eq!(env.insert(&integer(5), integer(3)), Err(EnvError::NotASymbol("5".to_string())));
    assert_eq!(env.insert(&Object::Symbol("z".into()), integer(3)), Ok(()));
    assert_eq!(env.len(), 3);
}

#[test]
fn env_folds_symbol_names() {
    let mut env = Env::new();
    let _ = env.insert(&Object::Symbol("abc".into()), integer(1));
    assert_eq!(env.get_str("ABC"), Ok(integer(1)));
    assert_eq!(env.get(&Object::Symbol("Abc".into())), Ok(integer(1)));
    assert_eq!(env.get_str("abc"), Err(EnvError::SymbolNotFound("abc".to_string())));
}

#[test]
fn env_errors() {
    let env = Env::new();
    assert_eq!(
        env.get(&Object::Symbol("nope".into())),
        Err(EnvError::SymbolNotFound("NOPE".to_string()))
    );
    assert_eq!(env.get(&integer(5)), Err(EnvError::NotASymbol("5".to_string())));
    assert_eq!(
        env.get(&cons(integer(1), nil())),
        Err(EnvError::NotASymbol("(1)".to_string()))
    );
}

#[test]
fn env_scopes_shadow_and_end() {
    let mut env = Env::new();
    env.insert_str("A", integer(1));
    env.insert_str("A", integer(2));
    assert_eq!(env.len(), 1);
    assert_eq!(env.get_str("A"), Ok(integer(2)));
    env.enter();
    assert_eq!(env.len(), 0);
    env.insert_str("B", integer(3));
    assert_eq!(env.get_str("B"), Ok(integer(3)));
    env.leave();
    assert_eq!(env.get_str("B"), Err(EnvError::SymbolNotFound("B".to_string())));
    env.leave();
    assert_eq!(env.depth(), 1);
    assert_eq!(env.get_str("A"), Ok(integer(2)));
}

#[test]
fn env_keeps_what_was_printed() {
    let mut env = Env::new();
    env.print("a");
    env.print("b\n");
    assert_eq!(env.take_output(), "ab\n");
    assert_eq!(env.take_output(), "");
}
