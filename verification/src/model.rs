//! The mathematical model of the language's values.
//!
//! Every run-time type has a view into one of the types below; contracts are
//! stated over these.

use vstd::prelude::*;
use crate::decimal::same_float;

verus! {

/// The native functions of the catalogue.
#[derive(Clone, Copy, Debug, PartialEq, Eq, Structural)]
pub enum Primitive {
    Add,
    Sub,
    Mul,
    Div,
    Quote,
    Print,
    Princ,
    Terpri,
    Defun,
    Lambda,
    Funcall,
    Symbolp,
    Numberp,
    Stringp,
    Atom,
    Listp,
    Null,
    Eq,
    Or,
    Setq,
    Cons,
    Car,
    Cdr,
    Cond,
}

/// A value of the language.
pub enum Value {
    Nil,
    T,
    Integer(int),
    /// A floating-point number, held as a decimal text that denotes it.
    Float(Seq<char>),
    Str(Seq<char>),
    Symbol(Seq<char>),
    List(Box<Chain>),
    Lambda(Box<Func>),
    Quote(Box<Value>),
}

/// A cons list: its items, then the value it ends with. A proper list ends
/// with `Nil`, a dotted pair with anything else.
pub enum Chain {
    EndsWith(Value),
    Cons(Value, Box<Chain>),
}

/// How one parameter of a callable takes its argument.
pub enum Binding {
    Normal(Seq<char>),
    Plain(Seq<char>),
    Rest(Seq<char>),
    Optional(Seq<char>, Value),
}

/// The parameters and the body of a user-defined function.
pub struct Closure {
    pub params: Seq<Binding>,
    pub body: Chain,
}

/// A callable.
pub enum Func {
    Unnamed(Closure),
    Named(Seq<char>, Closure),
    Builtin(Primitive),
    /// A native function that the embedder supplies: its place among the
    /// functions supplied, its name and its parameters.
    Foreign(nat, Seq<char>, Seq<Binding>),
}

impl Binding {
    /// The name that the parameter binds.
    pub open spec fn name(self) -> Seq<char> {
        match self {
            Binding::Normal(n) => n,
            Binding::Plain(n) => n,
            Binding::Rest(n) => n,
            Binding::Optional(n, _) => n,
        }
    }
}

/// Whether a parameter list is valid: no name occurs twice, every `Normal`
/// and `Plain` parameter comes before every `Optional` one, and `Rest` is
/// the last where it occurs.
pub open spec fn valid_bindings(p: Seq<Binding>) -> bool {
    &&& forall|i: int, j: int|
        0 <= i < j < p.len() ==> #[trigger] p[i].name() != #[trigger] p[j].name()
    &&& forall|i: int, j: int|
        0 <= i < j < p.len() && #[trigger] p[i] is Optional ==> !(#[trigger] p[j] is Normal
            || p[j] is Plain)
    &&& forall|i: int| 0 <= i < p.len() && #[trigger] p[i] is Rest ==> i == p.len() - 1
}

/// The number of parameters that an argument must be given for: all but the
/// `Optional` ones.
pub open spec fn required_count(p: Seq<Binding>) -> nat
    decreases p.len(),
{
    if p.len() == 0 {
        0
    } else {
        required_count(p.drop_last()) + if p.last() is Optional {
            0nat
        } else {
            1nat
        }
    }
}

impl Primitive {
    /// The name under which the primitive is registered.
    pub open spec fn name(self) -> Seq<char> {
        match self {
            Primitive::Add => "+"@,
            Primitive::Sub => "-"@,
            Primitive::Mul => "*"@,
            Primitive::Div => "/"@,
            Primitive::Quote => "quote"@,
            Primitive::Print => "print"@,
            Primitive::Princ => "princ"@,
            Primitive::Terpri => "terpri"@,
            Primitive::Defun => "defun"@,
            Primitive::Lambda => "lambda"@,
            Primitive::Funcall => "funcall"@,
            Primitive::Symbolp => "symbolp"@,
            Primitive::Numberp => "numberp"@,
            Primitive::Stringp => "stringp"@,
            Primitive::Atom => "atom"@,
            Primitive::Listp => "listp"@,
            Primitive::Null => "null"@,
            Primitive::Eq => "eq"@,
            Primitive::Or => "or"@,
            Primitive::Setq => "setq"@,
            Primitive::Cons => "cons"@,
            Primitive::Car => "car"@,
            Primitive::Cdr => "cdr"@,
            Primitive::Cond => "cond"@,
        }
    }
}

impl Func {
    /// The parameters that a primitive declares.
    pub open spec fn primitive_params(p: Primitive) -> Seq<Binding> {
        let x = "X"@;
        let y = "Y"@;
        let z = "Z"@;
        match p {
            Primitive::Add | Primitive::Sub | Primitive::Mul | Primitive::Div | Primitive::Eq
            | Primitive::Cons => seq![Binding::Normal(x), Binding::Normal(y)],
            Primitive::Quote => seq![Binding::Plain(x)],
            Primitive::Print | Primitive::Princ | Primitive::Symbolp | Primitive::Numberp
            | Primitive::Stringp | Primitive::Atom | Primitive::Listp | Primitive::Null
            | Primitive::Car | Primitive::Cdr => seq![Binding::Normal(x)],
            Primitive::Terpri => seq![],
            Primitive::Defun => seq![Binding::Plain(x), Binding::Plain(y), Binding::Rest(z)],
            Primitive::Lambda => seq![Binding::Plain(x), Binding::Plain(y)],
            Primitive::Funcall => seq![Binding::Normal(x), Binding::Plain(y)],
            Primitive::Or | Primitive::Cond => seq![Binding::Rest(x)],
            Primitive::Setq => seq![Binding::Plain(x), Binding::Normal(y)],
        }
    }

    /// The parameters of a callable.
    pub open spec fn params(self) -> Seq<Binding> {
        match self {
            Func::Unnamed(c) => c.params,
            Func::Named(_, c) => c.params,
            Func::Builtin(p) => Func::primitive_params(p),
            Func::Foreign(_, _, params) => params,
        }
    }
}

impl Chain {
    /// Whether the list has no item before its end.
    pub open spec fn is_end(self) -> bool {
        self is EndsWith
    }

    /// The number of links: one for each item, and one for an end that is not
    /// `Nil`.
    pub open spec fn len(self) -> nat
        decreases self,
    {
        match self {
            Chain::EndsWith(Value::Nil) => 0,
            Chain::EndsWith(_) => 1,
            Chain::Cons(_, rest) => 1 + rest.len(),
        }
    }

    /// What walking the list yields: its items, then its end unless that is
    /// `Nil`.
    pub open spec fn items(self) -> Seq<Value>
        decreases self,
    {
        match self {
            Chain::EndsWith(Value::Nil) => Seq::empty(),
            Chain::EndsWith(v) => seq![v],
            Chain::Cons(v, rest) => seq![v] + rest.items(),
        }
    }

    /// The first item, or `Nil` where there is none.
    pub open spec fn first(self) -> Value {
        match self {
            Chain::Cons(v, _) => v,
            Chain::EndsWith(_) => Value::Nil,
        }
    }

    /// The head of the list: its first item, or its end where it has no item.
    pub open spec fn car(self) -> Value {
        match self {
            Chain::Cons(v, _) => v,
            Chain::EndsWith(v) => v,
        }
    }

    /// What follows the head: `Nil` where nothing does, the end itself where
    /// only the end does, else the rest as a list.
    pub open spec fn cdr(self) -> Value {
        match self {
            Chain::Cons(_, rest) => match *rest {
                Chain::EndsWith(v) => v,
                Chain::Cons(_, _) => Value::List(rest),
            },
            Chain::EndsWith(_) => Value::Nil,
        }
    }

    /// The proper list of the given items.
    pub open spec fn proper(items: Seq<Value>) -> Chain
        decreases items.len(),
    {
        if items.len() == 0 {
            Chain::EndsWith(Value::Nil)
        } else {
            Chain::Cons(items[0], Box::new(Chain::proper(items.skip(1))))
        }
    }
}

/// `cons`: a list value in front of which `l` is put, where `r` is a list;
/// else the pair of the two.
pub open spec fn cons_value(l: Value, r: Value) -> Value {
    match r {
        Value::List(c) => Value::List(Box::new(Chain::Cons(l, c))),
        _ => Value::List(Box::new(Chain::Cons(l, Box::new(Chain::EndsWith(r))))),
    }
}

/// The value that a run of parsed items stands for: `Nil` for none, the item
/// itself where it is alone and a list, else the proper list of the items.
pub open spec fn fold_items(items: Seq<Value>) -> Value {
    if items.len() == 0 {
        Value::Nil
    } else if items.len() == 1 && items[0] is List {
        items[0]
    } else {
        Value::List(Box::new(Chain::proper(items)))
    }
}

/// The list value of the given items, `Nil` for none.
pub open spec fn list_of(items: Seq<Value>) -> Value {
    if items.len() == 0 {
        Value::Nil
    } else {
        Value::List(Box::new(Chain::proper(items)))
    }
}

/// What `==` means on values: the two are alike in kind and content, and
/// no native function is met on the way. A native function equals nothing,
/// itself included, be it of the catalogue or supplied. Floating-point
/// numbers are compared as `same_float` says: by the decimal numbers that
/// their texts write.
pub open spec fn same_value(a: Value, b: Value) -> bool
    decreases a,
{
    match (a, b) {
        (Value::Nil, Value::Nil) => true,
        (Value::T, Value::T) => true,
        (Value::Integer(x), Value::Integer(y)) => x == y,
        (Value::Float(x), Value::Float(y)) => same_float(x, y),
        (Value::Str(x), Value::Str(y)) => x == y,
        (Value::Symbol(x), Value::Symbol(y)) => x == y,
        (Value::List(x), Value::List(y)) => same_chain(*x, *y),
        (Value::Lambda(x), Value::Lambda(y)) => same_func(*x, *y),
        (Value::Quote(x), Value::Quote(y)) => same_value(*x, *y),
        _ => false,
    }
}

/// `==` on cons lists.
pub open spec fn same_chain(a: Chain, b: Chain) -> bool
    decreases a,
{
    match (a, b) {
        (Chain::EndsWith(x), Chain::EndsWith(y)) => same_value(x, y),
        (Chain::Cons(x, r), Chain::Cons(y, s)) => same_value(x, y) && same_chain(*r, *s),
        _ => false,
    }
}

/// `==` on parameters.
pub open spec fn same_binding(a: Binding, b: Binding) -> bool
    decreases a,
{
    match (a, b) {
        (Binding::Normal(x), Binding::Normal(y)) => x == y,
        (Binding::Plain(x), Binding::Plain(y)) => x == y,
        (Binding::Rest(x), Binding::Rest(y)) => x == y,
        (Binding::Optional(x, d), Binding::Optional(y, e)) => x == y && same_value(d, e),
        _ => false,
    }
}

/// `==` on parameter lists: as long as each other, and alike at each place.
pub open spec fn same_bindings(a: Seq<Binding>, b: Seq<Binding>) -> bool
    decreases a,
{
    &&& a.len() == b.len()
    &&& forall|i: int| 0 <= i < a.len() ==> same_binding(#[trigger] a[i], b[i])
}

/// `==` on user-defined functions.
pub open spec fn same_closure(a: Closure, b: Closure) -> bool
    decreases a,
{
    same_bindings(a.params, b.params) && same_chain(a.body, b.body)
}

/// `==` on callables.
pub open spec fn same_func(a: Func, b: Func) -> bool
    decreases a,
{
    match (a, b) {
        (Func::Unnamed(c), Func::Unnamed(d)) => same_closure(c, d),
        (Func::Named(n, c), Func::Named(m, d)) => n == m && same_closure(c, d),
        _ => false,
    }
}

} // verus!
