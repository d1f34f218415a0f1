//! Operations on cons lists.

use vstd::prelude::*;
use crate::model::{cons_value, fold_items, list_of, Chain, Value};
use crate::types::{copy_list, list_view, object_view, Builtin, Lambda, List, Object};

verus! {

/// Walks a list: yields its items, then its end unless that is `Nil`.
#[derive(Debug)]
pub struct IterMut {
    pub inner: Box<List>,
}

impl View for IterMut {
    type V = Seq<Value>;

    /// What is still to come.
    open spec fn view(&self) -> Seq<Value> {
        self.inner@.items()
    }
}

impl IterMut {
    /// The walk over `list`.
    pub fn new(list: List) -> (r: Self)
        ensures
            r@ == list@.items(),
    {
        IterMut { inner: Box::new(list) }
    }

    /// The next value of the walk, if there is one.
    pub fn next(&mut self) -> (r: Option<Object>)
        ensures
            old(self)@.len() == 0 ==> r is None && final(self)@.len() == 0,
            old(self)@.len() > 0 ==> r is Some && r->Some_0@ == old(self)@[0] && final(self)@
                == old(self)@.skip(1),
    {
        proof {
            reveal_with_fuel(list_view, 2);
            reveal_with_fuel(object_view, 2);
        }
        let mut taken = Box::new(List::EndsWith(Object::Nil));
        core::mem::swap(&mut self.inner, &mut taken);
        match *taken {
            List::EndsWith(Object::Nil) => None,
            List::EndsWith(o) => {
                assert(old(self)@.skip(1) =~= Seq::<Value>::empty());
                Some(o)
            },
            List::Cons(o, rest) => {
                self.inner = rest;
                assert(old(self)@.skip(1) =~= rest@.items());
                Some(o)
            },
        }
    }
}

impl List {
    /// The list with `l` put in front.
    pub fn prepend(&self, l: Object) -> (r: Self)
        ensures
            r@ == Chain::Cons(l@, Box::new(self@)),
    {
        List::Cons(l, Box::new(copy_list(self)))
    }

    /// The list of `l` that ends with `r`.
    pub fn new_pair(l: Object, r: Object) -> (p: Self)
        ensures
            p@ == Chain::Cons(l@, Box::new(Chain::EndsWith(r@))),
    {
        proof {
            reveal_with_fuel(list_view, 2);
        }
        List::Cons(l, Box::new(List::EndsWith(r)))
    }

    /// Whether the list has no item before its end.
    pub fn is_end(&self) -> (r: bool)
        ensures
            r == self@.is_end(),
    {
        match self {
            List::EndsWith(_) => true,
            List::Cons(_, _) => false,
        }
    }

    /// The number of links, or `usize::MAX` where there are more.
    pub fn len(&self) -> (r: usize)
        ensures
            r == if self@.len() <= usize::MAX {
                self@.len()
            } else {
                usize::MAX as nat
            },
    {
        let mut cur = self;
        let mut n: usize = 0;
        loop
            invariant
                self@.len() == n + cur@.len(),
            decreases cur,
        {
            proof {
                reveal_with_fuel(list_view, 2);
                reveal_with_fuel(object_view, 2);
            }
            match cur {
                List::EndsWith(Object::Nil) => {
                    return n;
                },
                List::EndsWith(_) => {
                    return if n == usize::MAX {
                        n
                    } else {
                        n + 1
                    };
                },
                List::Cons(_, rest) => {
                    if n == usize::MAX {
                        return n;
                    }
                    n = n + 1;
                    cur = rest;
                },
            }
        }
    }

    /// The number of links, where it fits the machine word.
    pub fn count(&self) -> (r: Option<usize>)
        ensures
            match r {
                Some(n) => n == self@.len(),
                None => self@.len() > usize::MAX,
            },
    {
        let mut cur = self;
        let mut n: usize = 0;
        loop
            invariant
                self@.len() == n + cur@.len(),
            decreases cur,
        {
            proof {
                reveal_with_fuel(list_view, 2);
                reveal_with_fuel(object_view, 2);
            }
            match cur {
                List::EndsWith(Object::Nil) => {
                    return Some(n);
                },
                List::EndsWith(_) => {
                    return if n == usize::MAX {
                        None
                    } else {
                        Some(n + 1)
                    };
                },
                List::Cons(_, rest) => {
                    if n == usize::MAX {
                        return None;
                    }
                    n = n + 1;
                    cur = rest;
                },
            }
        }
    }

    /// Whether the list has no link.
    pub fn is_empty(&self) -> (r: bool)
        ensures
            r == (self@.len() == 0),
    {
        proof {
            reveal_with_fuel(list_view, 2);
            reveal_with_fuel(object_view, 2);
        }
        match self {
            List::EndsWith(Object::Nil) => true,
            _ => false,
        }
    }

    /// The first item, or `Nil` where there is none.
    pub fn car_ref(&self) -> (r: &Object)
        ensures
            r@ == self@.first(),
    {
        match self {
            List::Cons(l, _) => l,
            List::EndsWith(_) => &Object::Nil,
        }
    }

    /// The head of the list and what follows it.
    pub fn unpack(self) -> (r: (Object, Object))
        ensures
            r.0@ == self@.car(),
            r.1@ == self@.cdr(),
    {
        proof {
            reveal_with_fuel(list_view, 3);
            reveal_with_fuel(object_view, 2);
        }
        match self {
            List::Cons(car, cdr) => {
                match *cdr {
                    List::EndsWith(o) => (car, o),
                    List::Cons(a, b) => (car, Object::List(Box::new(List::Cons(a, b)))),
                }
            },
            List::EndsWith(o) => (o, Object::Nil),
        }
    }

    /// The head of the list.
    pub fn car(self) -> (r: Object)
        ensures
            r@ == self@.car(),
    {
        let (ret, _) = self.unpack();
        ret
    }

    /// What follows the head of the list.
    pub fn cdr(self) -> (r: Object)
        ensures
            r@ == self@.cdr(),
    {
        let (_, ret) = self.unpack();
        ret
    }

    /// The walk over the list.
    pub fn into_iter(self) -> (r: IterMut)
        ensures
            r@ == self@.items(),
    {
        IterMut::new(self)
    }
}

/// `cons`: puts `l` in front of `r` where `r` is a list, else pairs the two.
pub fn cons(l: Object, r: Object) -> (p: Object)
    ensures
        p@ == cons_value(l@, r@),
{
    proof {
        reveal_with_fuel(list_view, 2);
        reveal_with_fuel(object_view, 2);
    }
    match r {
        Object::List(list) => Object::List(Box::new(List::Cons(l, list))),
        _ => Object::List(Box::new(List::new_pair(l, r))),
    }
}

/// The symbol of the given name.
pub fn symbol(name: &str) -> (r: Object)
    ensures
        r@ == Value::Symbol(name@),
{
    Object::Symbol(String::from_str(name))
}

/// The empty list.
pub fn nil() -> (r: Object)
    ensures
        r@ == Value::Nil,
{
    Object::Nil
}

/// The value that evaluates to `obj` as it stands.
pub fn quote(obj: Object) -> (r: Object)
    ensures
        r@ == Value::Quote(Box::new(obj@)),
{
    Object::Quote(Box::new(obj))
}

/// The integer `n`.
pub fn integer(n: isize) -> (r: Object)
    ensures
        r@ == Value::Integer(n as int),
{
    Object::Integer(n)
}

/// The list that a list value holds.
pub fn get_list(obj: Object) -> (r: List)
    requires
        obj@ is List,
    ensures
        obj@ == Value::List(Box::new(r@)),
{
    match obj {
        Object::List(l) => *l,
        _ => List::EndsWith(Object::Nil),
    }
}

/// The proper list of the given values, `Nil` for none.
pub fn collect_parameters(rest: Vec<Object>) -> (r: Object)
    ensures
        r@ == list_of(rest@.map_values(|o: Object| o@)),
{
    let mut v = rest;
    let ghost items = rest@.map_values(|o: Object| o@);
    if v.len() == 0 {
        return Object::Nil;
    }
    let mut ret = List::EndsWith(Object::Nil);
    proof {
        reveal_with_fuel(list_view, 2);
        reveal_with_fuel(object_view, 2);
    }
    while v.len() > 0
        invariant
            v@.len() <= items.len(),
            v@.map_values(|o: Object| o@) =~= items.take(v@.len() as int),
            ret@ == Chain::proper(items.skip(v@.len() as int)),
        decreases v.len(),
    {
        let ghost k = v@.len() as int;
        let ghost old_v = v@;
        let t = v.pop().unwrap();
        assert(t@ == old_v.map_values(|o: Object| o@)[k - 1]);
        assert(items.skip(k - 1).skip(1) =~= items.skip(k));
        ret = List::Cons(t, Box::new(ret));
        assert(v@.map_values(|o: Object| o@) =~= items.take(k - 1));
    }
    assert(items.skip(0) =~= items);
    Object::List(Box::new(ret))
}

/// Folds the items of a parsed list into one value: `Nil` for none, the item
/// itself where it is alone and a list, else the proper list of the items.
pub fn fold_objects(v: Vec<Object>) -> (r: Object)
    ensures
        r@ == fold_items(v@.map_values(|o: Object| o@)),
{
    let mut v = v;
    let single_list = v.len() == 1 && match &v[0] {
        Object::List(_) => true,
        _ => false,
    };
    if single_list {
        let only = v.pop().unwrap();
        only
    } else {
        collect_parameters(v)
    }
}

impl From<Vec<Object>> for Object {
    /// Folds the items of a parsed list into one value, as `fold_objects`
    /// does.
    fn from(v: Vec<Object>) -> (r: Object)
        ensures
            r@ == fold_items(v@.map_values(|o: Object| o@)),
    {
        fold_objects(v)
    }
}

impl vstd::std_specs::convert::FromSpecImpl<Vec<Object>> for Object {
    /// The value is settled up to its view only: see the contract of `from`.
    open spec fn obeys_from_spec() -> bool {
        false
    }

    open spec fn from_spec(v: Vec<Object>) -> Object {
        Object::Nil
    }
}

impl From<List> for Object {
    /// The list as a value.
    fn from(l: List) -> (r: Object) {
        Object::List(Box::new(l))
    }
}

impl vstd::std_specs::convert::FromSpecImpl<List> for Object {
    open spec fn obeys_from_spec() -> bool {
        true
    }

    open spec fn from_spec(l: List) -> Object {
        Object::List(Box::new(l))
    }
}

impl From<Lambda> for Object {
    /// The callable as a value.
    fn from(lambda: Lambda) -> (r: Object) {
        Object::Lambda(Box::new(lambda))
    }
}

impl vstd::std_specs::convert::FromSpecImpl<Lambda> for Object {
    open spec fn obeys_from_spec() -> bool {
        true
    }

    open spec fn from_spec(lambda: Lambda) -> Object {
        Object::Lambda(Box::new(lambda))
    }
}

impl From<Builtin> for Lambda {
    /// The native function as a callable.
    fn from(builtin: Builtin) -> (r: Lambda) {
        Lambda::Builtin(builtin)
    }
}

impl vstd::std_specs::convert::FromSpecImpl<Builtin> for Lambda {
    open spec fn obeys_from_spec() -> bool {
        true
    }

    open spec fn from_spec(builtin: Builtin) -> Lambda {
        Lambda::Builtin(builtin)
    }
}

impl From<Builtin> for Object {
    /// The native function as a value.
    fn from(builtin: Builtin) -> (r: Object) {
        Object::Lambda(Box::new(Lambda::Builtin(builtin)))
    }
}

impl vstd::std_specs::convert::FromSpecImpl<Builtin> for Object {
    open spec fn obeys_from_spec() -> bool {
        true
    }

    open spec fn from_spec(builtin: Builtin) -> Object {
        Object::Lambda(Box::new(Lambda::Builtin(builtin)))
    }
}

} // verus!
