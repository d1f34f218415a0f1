use rclisp::list::{collect_parameters, cons, fold_objects, get_list, integer, nil, quote, symbol};
use rclisp::types::{List, Object};

#[test]
fn test_list_cons_nil_ended() {
    let list = cons(symbol("A"), nil());
    assert_eq!(
        list,
        Object::List(Box::new(List::Cons(
            Object::Symbol("A".into()),
            Box::new(List::EndsWith(Object::Nil))
        )))
    );
}

#[test]
fn test_list_cons_dotted() {
    let list = cons(symbol("A"), symbol("B"));
    assert_eq!(
        list,
        Object::List(Box::new(List::Cons(
            Object::Symbol("A".into()),
            Box::new(List::EndsWith(Object::Symbol("B".into())))
        )))
    );
}

#[test]
fn test_list_cons_another_list() {
    let list = cons(cons(symbol("A"), symbol("B")), symbol("C"));
    assert_eq!(
        list,
        Object::List(Box::new(List::Cons(
            Object::List(Box::new(List::Cons(
                Object::Symbol("A".into()),
                Box::new(List::EndsWith(Object::Symbol("B".into())))
            ))),
            Box::new(List::EndsWith(Object::Symbol("C".into())))
        )))
    );
}

#[test]
fn test_list_display() {
    let list = cons(symbol("A"), nil());
    assert_eq!("(A)", list.to_string());

    let list = cons(nil(), nil());
    assert_eq!("(NIL)", list.to_string());

    let list = cons(symbol("A"), symbol("B"));
    assert_eq!("(A . B)", list.to_string());

    let list = cons(cons(symbol("A"), symbol("B")), symbol("C"));
    assert_eq!("((A . B) . C)", list.to_string());

    let list = cons(symbol("A"), cons(symbol("B"), cons(symbol("C"), nil())));
    assert_eq!("(A B C)", list.to_string());

    let list = cons(cons(symbol("A"), symbol("B")), cons(symbol("C"), symbol("D")));
    assert_eq!("((A . B) C . D)", list.to_string());
}

#[test]
fn test_list_car() {
    if let Object::List(list) = cons(symbol("A"), symbol("B")) {
        assert_eq!(symbol("A"), list.car());
    }
    if let Object::List(list) = cons(symbol("A"), nil()) {
        assert_eq!(symbol("A"), list.car());
    }
    if let Object::List(list) = cons(symbol("A"), cons(symbol("B"), nil())) {
        assert_eq!(symbol("A"), list.car());
    }
}

#[test]
fn test_list_cdr() {
    if let Object::List(list) = cons(symbol("A"), symbol("B")) {
        assert_eq!(symbol("B"), list.cdr());
    }
    if let Object::List(list) = cons(symbol("A"), nil()) {
        assert_eq!(nil(), list.cdr());
    }
    if let Object::List(list) = cons(symbol("A"), cons(symbol("B"), nil())) {
        assert_eq!(cons(symbol("B"), nil()), list.clone().cdr());
        if let Object::List(inner_list) = list.cdr() {
            assert_eq!(nil(), inner_list.cdr());
        }
    }
}

#[test]
fn test_list_len() {
    fn get_len(l: Object) -> usize {
        if let Object::List(list) = l {
            list.len()
        } else {
            unreachable!()
        }
    }
    assert_eq!(get_len(cons(symbol("A"), nil())), 1);
    assert_eq!(get_len(cons(symbol("A"), symbol("B"))), 2);
    assert_eq!(get_len(cons(symbol("A"), cons(symbol("B"), nil()))), 2);
    assert_eq!(get_len(cons(symbol("A"), cons(symbol("B"), symbol("C")))), 3);
    assert_eq!(get_len(cons(symbol("A"), cons(symbol("B"), cons(symbol("C"), nil())))), 3);
    assert_eq!(
        get_len(cons(cons(symbol("A"), symbol("B")), cons(symbol("C"), cons(symbol("D"), nil())))),
        3
    );
}

#[test]
fn list_cons_round_trip() {
    let pair = get_list(cons(integer(1), nil()));
    assert_eq!(pair.clone().car(), integer(1));
    assert_eq!(pair.cdr(), nil());
    let dotted = get_list(cons(integer(1), integer(2)));
    assert_eq!(dotted.clone().car(), integer(1));
    assert_eq!(dotted.cdr(), integer(2));
    let (car, cdr) = get_list(cons(integer(1), cons(integer(2), integer(3)))).unpack();
    assert_eq!(car, integer(1));
    assert_eq!(cdr, cons(integer(2), integer(3)));
}

#[test]
fn list_of_nothing() {
    let empty = List::EndsWith(Object::Nil);
    assert_eq!(empty.len(), 0);
    assert_eq!(empty.count(), Some(0));
    assert!(empty.is_empty());
    assert!(empty.is_end());
    assert_eq!(empty.car_ref(), &Object::Nil);
    assert_eq!(empty.clone().unpack(), (Object::Nil, Object::Nil));
    assert_eq!(empty.to_string(), "()");
    let atom = List::EndsWith(integer(5));
    assert_eq!(atom.len(), 1);
    assert!(!atom.is_empty());
    assert_eq!(atom.car_ref(), &Object::Nil);
    assert_eq!(atom.clone().unpack(), (integer(5), Object::Nil));
    assert_eq!(atom.to_string(), "( . 5)");
}

#[test]
fn list_prepend_and_pair() {
    let pair = List::new_pair(integer(1), integer(2));
    assert_eq!(pair.to_string(), "(1 . 2)");
    assert!(!pair.is_end());
    assert_eq!(pair.car_ref(), &integer(1));
    let longer = pair.prepend(integer(0));
    assert_eq!(longer.to_string(), "(0 1 . 2)");
    assert_eq!(longer.len(), 3);
    assert_eq!(pair.len(), 2);
}

#[test]
fn list_walk_yields_items_and_end() {
    let mut walk = get_list(cons(integer(1), cons(integer(2), integer(3)))).into_iter();
    assert_eq!(walk.next(), Some(integer(1)));
    assert_eq!(walk.next(), Some(integer(2)));
    assert_eq!(walk.next(), Some(integer(3)));
    assert_eq!(walk.next(), None);
    assert_eq!(walk.next(), None);
    let mut walk = get_list(cons(integer(1), nil())).into_iter();
    assert_eq!(walk.next(), Some(integer(1)));
    assert_eq!(walk.next(), None);
}

#[test]
fn list_folding() {
    assert_eq!(fold_objects(vec![]), nil());
    assert_eq!(fold_objects(vec![integer(1)]).to_string(), "(1)");
    assert_eq!(fold_objects(vec![cons(integer(1), nil())]).to_string(), "(1)");
    assert_eq!(fold_objects(vec![integer(1), integer(2)]).to_string(), "(1 2)");
    assert_eq!(
        fold_objects(vec![cons(integer(1), nil()), integer(2)]).to_string(),
        "((1) 2)"
    );
    assert_eq!(collect_parameters(vec![]), nil());
    assert_eq!(collect_parameters(vec![cons(integer(1), nil())]).to_string(), "((1))");
    assert_eq!(collect_parameters(vec![integer(1), integer(2)]).to_string(), "(1 2)");
}

#[test]
fn values_print() {
    assert_eq!(nil().to_string(), "NIL");
    assert_eq!(Object::T.to_string(), "T");
    assert_eq!(integer(0).to_string(), "0");
    assert_eq!(integer(-120).to_string(), "-120");
    assert_eq!(integer(isize::MAX).to_string(), isize::MAX.to_string());
    assert_eq!(integer(isize::MIN).to_string(), isize::MIN.to_string());
    assert_eq!(Object::Float("2.50".to_string()).to_string(), "2.5");
    assert_eq!(Object::Float("1.0".to_string()).to_string(), "1");
    assert_eq!(Object::Float("-1.0".to_string()).to_string(), "-1");
    assert_eq!(Object::Float("007.".to_string()).to_string(), "7");
    assert_eq!(Object::Float(".5".to_string()).to_string(), "0.5");
    assert_eq!(Object::Float("-0.0".to_string()).to_string(), "-0");
    assert_eq!(Object::Float("100".to_string()).to_string(), "100");
    assert_eq!(Object::Float("inf".to_string()).to_string(), "inf");
    assert_eq!(Object::Float("1.5".to_string()).to_string(), 1.5f64.to_string());
    assert_eq!(Object::Float("1.0".to_string()).to_string(), 1.0f64.to_string());
    assert_eq!(Object::String("a b".to_string()).to_string(), "\"a b\"");
    assert_eq!(symbol("Abc").to_string(), "Abc");
    assert_eq!(quote(symbol("A")).to_string(), "'A");
    assert_eq!(quote(cons(integer(1), nil())).to_string(), "'(1)");
    assert_eq!(Object::String("a b".to_string()).print(), "a b");
    assert_eq!(quote(Object::String("a".to_string())).print(), "\"a\"");
    assert_eq!(integer(3).print(), "3");
}

#[test]
fn values_compare() {
    assert_eq!(integer(1), integer(1));
    assert_ne!(integer(1), integer(2));
    assert_ne!(integer(1), Object::Float("1".to_string()));
    assert_eq!(Object::Float("1.0".to_string()), Object::Float("1.00".to_string()));
    assert_eq!(Object::Float("1".to_string()), Object::Float("01.0".to_string()));
    assert_eq!(Object::Float("-0.0".to_string()), Object::Float("0".to_string()));
    assert_ne!(Object::Float("1.0".to_string()), Object::Float("1.01".to_string()));
    assert_ne!(Object::Float("1.0".to_string()), Object::Float("-1.0".to_string()));
    assert_ne!(Object::Float("NaN".to_string()), Object::Float("NaN".to_string()));
    assert_eq!(Object::Float("inf".to_string()), Object::Float("inf".to_string()));
    assert_ne!(symbol("A"), Object::String("A".to_string()));
    assert_eq!(quote(symbol("A")), quote(symbol("A")));
    assert_ne!(cons(integer(1), nil()), cons(integer(1), integer(2)));
    assert_eq!(cons(integer(1), nil()).clone(), cons(integer(1), nil()));
}
