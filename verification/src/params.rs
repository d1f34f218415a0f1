//! Parameters and parameter lists.

use vstd::prelude::*;
use crate::list::IterMut;
use crate::model::{required_count, valid_bindings, Binding, Func, Primitive, Value};
use crate::text::{fold, folded};
use crate::types::{
    copy_params, object_view, Builtin, Lambda, List, Object, Parameter, Params, UserLambda,
};

verus! {

/// Why a list of values is no parameter list.
#[derive(Clone, Debug, PartialEq)]
pub enum ParamError {
    /// An item is not a symbol.
    InvalidType,
    /// A name occurs twice.
    Invalid,
}

impl Parameter {
    /// A parameter whose argument is evaluated. The name of a parameter is
    /// folded to upper case here, where the parameter is made, and is bound
    /// and read as it then stands.
    pub fn normal(name: &str) -> (r: Self)
        ensures
            r@ == Binding::Normal(folded(name@)),
    {
        Parameter::Normal(fold(name))
    }

    /// A parameter whose argument is bound as it stands.
    pub fn plain(name: &str) -> (r: Self)
        ensures
            r@ == Binding::Plain(folded(name@)),
    {
        Parameter::Plain(fold(name))
    }

    /// A parameter that takes all the arguments that are left, as they
    /// stand.
    pub fn rest(name: &str) -> (r: Self)
        ensures
            r@ == Binding::Rest(folded(name@)),
    {
        Parameter::Rest(fold(name))
    }

    /// A parameter that is bound to `default` where no argument is left.
    pub fn optional(name: &str, default: Object) -> (r: Self)
        ensures
            r@ == Binding::Optional(folded(name@), default@),
    {
        Parameter::Optional(fold(name), default)
    }

    /// The name that the parameter binds.
    pub fn get_name(&self) -> (r: &str)
        ensures
            r@ == self@.name(),
    {
        match self {
            Parameter::Normal(n) => n.as_str(),
            Parameter::Optional(n, _) => n.as_str(),
            Parameter::Plain(n) => n.as_str(),
            Parameter::Rest(n) => n.as_str(),
        }
    }

    /// Whether the parameter takes all the arguments that are left.
    pub fn is_rest(&self) -> (r: bool)
        ensures
            r == (self@ is Rest),
    {
        match self {
            Parameter::Rest(_) => true,
            _ => false,
        }
    }

    /// Whether the parameter need not be given an argument.
    pub fn is_optional(&self) -> (r: bool)
        ensures
            r == (self@ is Optional),
    {
        match self {
            Parameter::Optional(_, _) => true,
            _ => false,
        }
    }
}

/// Whether two names are the same.
fn same_name(a: &str, b: &str) -> (r: bool)
    ensures
        r == (a@ == b@),
{
    let x = String::from_str(a);
    let y = String::from_str(b);
    x == y
}

impl Params {
    /// The parameter list of the given parameters.
    pub fn new(params: Vec<Parameter>) -> (r: Self)
        ensures
            r@ == params@.map_values(|p: Parameter| p@),
    {
        let r = Params { inner: params };
        assert(r@ =~= params@.map_values(|p: Parameter| p@));
        r
    }

    /// The number of parameters.
    pub fn len(&self) -> (r: usize)
        ensures
            r == self@.len(),
    {
        self.inner.len()
    }

    /// Whether there is no parameter.
    pub fn is_empty(&self) -> (r: bool)
        ensures
            r == (self@.len() == 0),
    {
        self.inner.len() == 0
    }

    /// The parameter at place `i`.
    pub fn get(&self, i: usize) -> (r: &Parameter)
        requires
            i < self@.len(),
        ensures
            r@ == self@[i as int],
    {
        &self.inner[i]
    }

    /// The number of parameters that an argument must be given for.
    pub fn len_required(&self) -> (r: usize)
        ensures
            r == required_count(self@),
    {
        let mut count: usize = 0;
        let mut i: usize = 0;
        while i < self.inner.len()
            invariant
                i <= self.inner.len(),
                count <= i,
                count == required_count(self@.take(i as int)),
            decreases self.inner.len() - i,
        {
            assert(self@.take(i + 1).drop_last() =~= self@.take(i as int));
            if !self.inner[i].is_optional() {
                count += 1;
            }
            i += 1;
        }
        assert(self@.take(i as int) =~= self@);
        count
    }

    /// Whether the parameter list is valid.
    pub fn validate(&self) -> (r: bool)
        ensures
            r == valid_bindings(self@),
    {
        let n = self.inner.len();
        let mut met_optional = false;
        let mut i: usize = 0;
        while i < n
            invariant
                i <= n,
                n == self.inner.len(),
                n == self@.len(),
                valid_bindings(self@.take(i as int)),
                met_optional == exists|k: int| 0 <= k < i && #[trigger] self@[k] is Optional,
                forall|k: int| 0 <= k < i ==> !(#[trigger] self@[k] is Rest),
            decreases n - i,
        {
            let param = &self.inner[i];
            let ghost p = self@;
            let mut j: usize = 0;
            while j < i
                invariant
                    j <= i < n,
                    n == self.inner.len(),
                    param == &self.inner[i as int],
                    forall|k: int|
                        0 <= k < j ==> (#[trigger] self@[k]).name() != self@[i as int].name(),
                decreases i - j,
            {
                if same_name(self.inner[j].get_name(), param.get_name()) {
                    assert(self@[j as int].name() == self@[i as int].name());
                    return false;
                }
                j += 1;
            }
            match param {
                Parameter::Normal(_) | Parameter::Plain(_) => {
                    if met_optional {
                        let ghost k = choose|k: int| 0 <= k < i && #[trigger] self@[k] is Optional;
                        assert(p[k] is Optional && (p[i as int] is Normal || p[i as int] is Plain));
                        return false;
                    }
                },
                Parameter::Optional(_, _) => {
                    met_optional = true;
                },
                Parameter::Rest(_) => {
                    if i + 1 != n {
                        assert(p[i as int] is Rest);
                        return false;
                    }
                },
            }
            proof {
                let q = p.take(i + 1);
                assert forall|a: int, b: int| 0 <= a < b < q.len() implies #[trigger] q[a].name()
                    != #[trigger] q[b].name() by {
                    if b < i {
                        assert(p.take(i as int)[a].name() != p.take(i as int)[b].name());
                    }
                }
                assert forall|a: int, b: int|
                    0 <= a < b < q.len() && #[trigger] q[a] is Optional implies !(
                #[trigger] q[b] is Normal || q[b] is Plain) by {
                    if b < i {
                        assert(p.take(i as int)[a] is Optional);
                        assert(!(p.take(i as int)[b] is Normal || p.take(i as int)[b] is Plain));
                    } else {
                        assert(p[a] is Optional);
                    }
                }
                assert forall|a: int| 0 <= a < q.len() && #[trigger] q[a] is Rest implies a
                    == q.len() - 1 by {
                    if a < i {
                        assert(!(p[a] is Rest));
                    }
                }
            }
            if param.is_rest() {
                assert(self@.take(i + 1) =~= self@);
                return true;
            }
            i += 1;
        }
        assert(self@.take(i as int) =~= self@);
        true
    }

    /// The parameter list that a list of symbols stands for: each symbol
    /// names a `Normal` parameter, under its name in upper case. A list that holds anything else is
    /// refused, and so is a list that names a parameter twice.
    pub fn try_from(params: List) -> (r: Result<Self, ParamError>)
        ensures
            match r {
                Ok(p) => {
                    &&& forall|i: int|
                        0 <= i < params@.items().len() ==> #[trigger] params@.items()[i] is Symbol
                    &&& p@ == symbol_bindings(params@.items())
                    &&& valid_bindings(p@)
                },
                Err(ParamError::InvalidType) => exists|i: int|
                    0 <= i < params@.items().len() && !(#[trigger] params@.items()[i] is Symbol),
                Err(ParamError::Invalid) => {
                    &&& forall|i: int|
                        0 <= i < params@.items().len() ==> #[trigger] params@.items()[i] is Symbol
                    &&& !valid_bindings(symbol_bindings(params@.items()))
                },
            },
    {
        let ghost items = params@.items();
        let mut p: Vec<Parameter> = Vec::new();
        let mut walk = IterMut::new(params);
        loop
            invariant
                items == params@.items(),
                p@.len() + walk@.len() == items.len(),
                walk@ =~= items.skip(p@.len() as int),
                forall|i: int|
                    0 <= i < p@.len() ==> items[i] is Symbol && (#[trigger] p@[i])@
                        == Binding::Normal(folded(items[i]->Symbol_0)),
            ensures
                p@.len() == items.len(),
            decreases walk@.len(),
        {
            let ghost k = p@.len() as int;
            let next = walk.next();
            proof {
                reveal_with_fuel(object_view, 2);
                if next is Some {
                    assert(next->Some_0@ == items.skip(k)[0]);
                    assert(next->Some_0@ == items[k]);
                }
            }
            match next {
                None => {
                    break ;
                },
                Some(Object::Symbol(s)) => {
                    p.push(Parameter::Normal(fold(s.as_str())));
                    assert(walk@ =~= items.skip(k + 1));
                },
                Some(_) => {
                    assert(!(items[k] is Symbol));
                    return Err(ParamError::InvalidType);
                },
            }
        }
        let r = Params { inner: p };
        assert forall|i: int| 0 <= i < items.len() implies #[trigger] items[i] is Symbol by {
            assert(p@[i]@ == Binding::Normal(folded(items[i]->Symbol_0)));
        }
        assert(r@ =~= symbol_bindings(items)) by {
            assert forall|i: int| 0 <= i < items.len() implies r@[i] == symbol_bindings(
                items,
            )[i] by {
                assert(p@[i]@ == Binding::Normal(folded(items[i]->Symbol_0)));
            }
        }
        if r.validate() {
            Ok(r)
        } else {
            Err(ParamError::Invalid)
        }
    }
}

/// The parameter list that a run of symbols names: each name, folded to
/// upper case, is a `Normal` parameter.
pub open spec fn symbol_bindings(items: Seq<Value>) -> Seq<Binding> {
    Seq::new(
        items.len(),
        |i: int|
            match items[i] {
                Value::Symbol(s) => Binding::Normal(folded(s)),
                _ => Binding::Normal(Seq::empty()),
            },
    )
}

impl UserLambda {
    /// The function of the given parameters and body.
    pub fn new(parameters: Params, body: List) -> (r: Self)
        ensures
            r@.params == parameters@,
            r@.body == body@,
    {
        UserLambda { parameters, body }
    }

    /// The parameters of the function.
    pub fn get_parameters(&self) -> (r: &Params)
        ensures
            r@ == self@.params,
    {
        &self.parameters
    }

    /// The body of the function.
    pub fn get_body(self) -> (r: List)
        ensures
            r@ == self@.body,
    {
        self.body
    }
}

/// The parameter named `name` of the given kind: 0 for `Normal`, 1 for
/// `Plain`, else `Rest`.
fn named(kind: u8, name: &str) -> (r: Parameter)
    ensures
        r@ == if kind == 0 {
            Binding::Normal(name@)
        } else if kind == 1 {
            Binding::Plain(name@)
        } else {
            Binding::Rest(name@)
        },
{
    let name = String::from_str(name);
    if kind == 0 {
        Parameter::Normal(name)
    } else if kind == 1 {
        Parameter::Plain(name)
    } else {
        Parameter::Rest(name)
    }
}

impl Builtin {
    /// The native function `kind`.
    pub fn of(kind: Primitive) -> (r: Self)
        ensures
            r.kind == kind,
    {
        Builtin { kind }
    }

    /// The parameters that the native function declares.
    pub fn get_parameters(&self) -> (r: Params)
        ensures
            r@ == Func::primitive_params(self.kind),
    {
        let mut v: Vec<Parameter> = Vec::new();
        match self.kind {
            Primitive::Add | Primitive::Sub | Primitive::Mul | Primitive::Div | Primitive::Eq
            | Primitive::Cons => {
                v.push(named(0, "X"));
                v.push(named(0, "Y"));
            },
            Primitive::Quote => {
                v.push(named(1, "X"));
            },
            Primitive::Print | Primitive::Princ | Primitive::Symbolp | Primitive::Numberp
            | Primitive::Stringp | Primitive::Atom | Primitive::Listp | Primitive::Null
            | Primitive::Car | Primitive::Cdr => {
                v.push(named(0, "X"));
            },
            Primitive::Terpri => {},
            Primitive::Defun => {
                v.push(named(1, "X"));
                v.push(named(1, "Y"));
                v.push(named(2, "Z"));
            },
            Primitive::Lambda => {
                v.push(named(1, "X"));
                v.push(named(1, "Y"));
            },
            Primitive::Funcall => {
                v.push(named(0, "X"));
                v.push(named(1, "Y"));
            },
            Primitive::Or | Primitive::Cond => {
                v.push(named(2, "X"));
            },
            Primitive::Setq => {
                v.push(named(1, "X"));
                v.push(named(0, "Y"));
            },
        }
        let r = Params { inner: v };
        assert(r@ =~= Func::primitive_params(self.kind));
        r
    }

    /// The name under which the native function is registered.
    pub fn get_name(&self) -> (r: &'static str)
        ensures
            r@ == self.kind.name(),
    {
        match self.kind {
            Primitive::Add => "+",
            Primitive::Sub => "-",
            Primitive::Mul => "*",
            Primitive::Div => "/",
            Primitive::Quote => "quote",
            Primitive::Print => "print",
            Primitive::Princ => "princ",
            Primitive::Terpri => "terpri",
            Primitive::Defun => "defun",
            Primitive::Lambda => "lambda",
            Primitive::Funcall => "funcall",
            Primitive::Symbolp => "symbolp",
            Primitive::Numberp => "numberp",
            Primitive::Stringp => "stringp",
            Primitive::Atom => "atom",
            Primitive::Listp => "listp",
            Primitive::Null => "null",
            Primitive::Eq => "eq",
            Primitive::Or => "or",
            Primitive::Setq => "setq",
            Primitive::Cons => "cons",
            Primitive::Car => "car",
            Primitive::Cdr => "cdr",
            Primitive::Cond => "cond",
        }
    }
}

impl Lambda {
    /// The parameters of the callable.
    pub fn get_parameters(&self) -> (r: Params)
        ensures
            r@ == self@.params(),
    {
        match self {
            Lambda::Named(_, l) => copy_params(l.get_parameters()),
            Lambda::Unnamed(l) => copy_params(l.get_parameters()),
            Lambda::Builtin(l) => l.get_parameters(),
            Lambda::Foreign(f) => copy_params(&f.parameters),
        }
    }
}

impl From<Vec<Parameter>> for Params {
    /// The parameter list of the given parameters.
    fn from(params: Vec<Parameter>) -> (r: Params) {
        Params { inner: params }
    }
}

impl vstd::std_specs::convert::FromSpecImpl<Vec<Parameter>> for Params {
    open spec fn obeys_from_spec() -> bool {
        true
    }

    open spec fn from_spec(params: Vec<Parameter>) -> Params {
        Params { inner: params }
    }
}

} // verus!
