//! The run-time values: atoms, cons lists, parameter lists and callables.

use vstd::prelude::*;
use crate::decimal::equal_floats;
use crate::model::{
    same_binding, same_bindings, same_chain, same_closure, same_func, same_value, Binding, Chain,
    Closure, Func, Primitive, Value,
};

verus! {

/// A value of the language.
#[derive(Debug)]
pub enum Object {
    Nil,
    T,
    Integer(isize),
    /// A floating-point number, as a decimal text that denotes it.
    Float(String),
    String(String),
    Symbol(String),
    List(Box<List>),
    Lambda(Box<Lambda>),
    Quote(Box<Object>),
}

/// A cons list.
#[derive(Debug)]
pub enum List {
    EndsWith(Object),
    Cons(Object, Box<List>),
}

/// One parameter of a callable. A parameter is bound and read under its
/// name as it stands here; the constructors `normal`, `plain`, `rest` and
/// `optional` fold the name to upper case.
#[derive(Debug)]
pub enum Parameter {
    Normal(String),
    Plain(String),
    Rest(String),
    Optional(String, Object),
}

/// The parameters of a callable, in order.
#[derive(Debug)]
pub struct Params {
    pub inner: Vec<Parameter>,
}

/// A function that the user defined.
#[derive(Debug)]
pub struct UserLambda {
    pub parameters: Params,
    pub body: List,
}

/// A native function.
#[derive(Debug)]
pub struct Builtin {
    pub kind: Primitive,
}

/// A native function that the embedder supplies: its place among the
/// functions supplied, its name and its parameters.
#[derive(Debug)]
pub struct Foreign {
    pub index: usize,
    pub name: String,
    pub parameters: Params,
}

/// A callable.
#[derive(Debug)]
pub enum Lambda {
    Unnamed(UserLambda),
    Named(String, UserLambda),
    Builtin(Builtin),
    Foreign(Foreign),
}

/// The model of a value.
pub open spec fn object_view(o: Object) -> Value
    decreases o,
{
    match o {
        Object::Nil => Value::Nil,
        Object::T => Value::T,
        Object::Integer(n) => Value::Integer(n as int),
        Object::Float(s) => Value::Float(s@),
        Object::String(s) => Value::Str(s@),
        Object::Symbol(s) => Value::Symbol(s@),
        Object::List(l) => Value::List(Box::new(list_view(*l))),
        Object::Lambda(l) => Value::Lambda(Box::new(lambda_view(*l))),
        Object::Quote(q) => Value::Quote(Box::new(object_view(*q))),
    }
}

/// The model of a cons list.
pub open spec fn list_view(l: List) -> Chain
    decreases l,
{
    match l {
        List::EndsWith(o) => Chain::EndsWith(object_view(o)),
        List::Cons(o, rest) => Chain::Cons(object_view(o), Box::new(list_view(*rest))),
    }
}

/// The model of a parameter.
pub open spec fn parameter_view(p: Parameter) -> Binding
    decreases p,
{
    match p {
        Parameter::Normal(n) => Binding::Normal(n@),
        Parameter::Plain(n) => Binding::Plain(n@),
        Parameter::Rest(n) => Binding::Rest(n@),
        Parameter::Optional(n, d) => Binding::Optional(n@, object_view(d)),
    }
}

/// The model of a parameter list.
pub open spec fn params_view(p: Params) -> Seq<Binding>
    decreases p,
{
    Seq::new(
        p.inner@.len(),
        |i: int|
            if 0 <= i < p.inner@.len() {
                parameter_view(p.inner@[i])
            } else {
                Binding::Normal(Seq::empty())
            },
    )
}

/// The model of a user-defined function.
pub open spec fn user_lambda_view(u: UserLambda) -> Closure
    decreases u,
{
    Closure { params: params_view(u.parameters), body: list_view(u.body) }
}

/// The model of a callable.
pub open spec fn lambda_view(l: Lambda) -> Func
    decreases l,
{
    match l {
        Lambda::Unnamed(u) => Func::Unnamed(user_lambda_view(u)),
        Lambda::Named(n, u) => Func::Named(n@, user_lambda_view(u)),
        Lambda::Builtin(b) => Func::Builtin(b.kind),
        Lambda::Foreign(f) => Func::Foreign(f.index as nat, f.name@, params_view(f.parameters)),
    }
}

impl View for Object {
    type V = Value;

    open spec fn view(&self) -> Value {
        object_view(*self)
    }
}

impl View for List {
    type V = Chain;

    open spec fn view(&self) -> Chain {
        list_view(*self)
    }
}

impl View for Parameter {
    type V = Binding;

    open spec fn view(&self) -> Binding {
        parameter_view(*self)
    }
}

impl View for Params {
    type V = Seq<Binding>;

    open spec fn view(&self) -> Seq<Binding> {
        params_view(*self)
    }
}

impl View for UserLambda {
    type V = Closure;

    open spec fn view(&self) -> Closure {
        user_lambda_view(*self)
    }
}

impl View for Lambda {
    type V = Func;

    open spec fn view(&self) -> Func {
        lambda_view(*self)
    }
}

/// A copy of a value.
pub fn copy_object(o: &Object) -> (r: Object)
    ensures
        r@ == o@,
    decreases o,
{
    match o {
        Object::Nil => Object::Nil,
        Object::T => Object::T,
        Object::Integer(n) => Object::Integer(*n),
        Object::Float(s) => Object::Float(s.clone()),
        Object::String(s) => Object::String(s.clone()),
        Object::Symbol(s) => Object::Symbol(s.clone()),
        Object::List(l) => Object::List(Box::new(copy_list(l))),
        Object::Lambda(l) => Object::Lambda(Box::new(copy_lambda(l))),
        Object::Quote(q) => Object::Quote(Box::new(copy_object(q))),
    }
}

/// A copy of a cons list.
pub fn copy_list(l: &List) -> (r: List)
    ensures
        r@ == l@,
    decreases l,
{
    match l {
        List::EndsWith(o) => List::EndsWith(copy_object(o)),
        List::Cons(o, rest) => List::Cons(copy_object(o), Box::new(copy_list(rest))),
    }
}

/// A copy of a parameter.
pub fn copy_parameter(p: &Parameter) -> (r: Parameter)
    ensures
        r@ == p@,
    decreases p,
{
    match p {
        Parameter::Normal(n) => Parameter::Normal(n.clone()),
        Parameter::Plain(n) => Parameter::Plain(n.clone()),
        Parameter::Rest(n) => Parameter::Rest(n.clone()),
        Parameter::Optional(n, d) => Parameter::Optional(n.clone(), copy_object(d)),
    }
}

/// A copy of a parameter list.
pub fn copy_params(p: &Params) -> (r: Params)
    ensures
        r@ == p@,
    decreases p,
{
    let mut inner: Vec<Parameter> = Vec::new();
    let mut i: usize = 0;
    while i < p.inner.len()
        invariant
            i <= p.inner.len(),
            inner.len() == i,
            forall|j: int| 0 <= j < i ==> (#[trigger] inner[j])@ == p.inner[j]@,
        decreases p.inner.len() - i,
    {
        inner.push(copy_parameter(&p.inner[i]));
        i += 1;
    }
    let r = Params { inner };
    assert(r@ =~= p@);
    r
}

/// A copy of a user-defined function.
pub fn copy_user_lambda(u: &UserLambda) -> (r: UserLambda)
    ensures
        r@ == u@,
    decreases u,
{
    UserLambda { parameters: copy_params(&u.parameters), body: copy_list(&u.body) }
}

/// A copy of a callable.
pub fn copy_lambda(l: &Lambda) -> (r: Lambda)
    ensures
        r@ == l@,
    decreases l,
{
    match l {
        Lambda::Unnamed(u) => Lambda::Unnamed(copy_user_lambda(u)),
        Lambda::Named(n, u) => Lambda::Named(n.clone(), copy_user_lambda(u)),
        Lambda::Builtin(b) => Lambda::Builtin(Builtin { kind: b.kind }),
        Lambda::Foreign(f) => Lambda::Foreign(
            Foreign {
                index: f.index,
                name: f.name.clone(),
                parameters: copy_params(&f.parameters),
            },
        ),
    }
}

/// Whether two values are equal.
pub fn equal_objects(a: &Object, b: &Object) -> (r: bool)
    ensures
        r == same_value(a@, b@),
    decreases a,
{
    match (a, b) {
        (Object::Nil, Object::Nil) => true,
        (Object::T, Object::T) => true,
        (Object::Integer(x), Object::Integer(y)) => *x == *y,
        (Object::Float(x), Object::Float(y)) => equal_floats(x.as_str(), y.as_str()),
        (Object::String(x), Object::String(y)) => *x == *y,
        (Object::Symbol(x), Object::Symbol(y)) => *x == *y,
        (Object::List(x), Object::List(y)) => equal_lists(x, y),
        (Object::Lambda(x), Object::Lambda(y)) => equal_lambdas(x, y),
        (Object::Quote(x), Object::Quote(y)) => equal_objects(x, y),
        _ => false,
    }
}

/// Whether two cons lists are equal.
pub fn equal_lists(a: &List, b: &List) -> (r: bool)
    ensures
        r == same_chain(a@, b@),
    decreases a,
{
    match (a, b) {
        (List::EndsWith(x), List::EndsWith(y)) => equal_objects(x, y),
        (List::Cons(x, r), List::Cons(y, s)) => equal_objects(x, y) && equal_lists(r, s),
        _ => false,
    }
}

/// Whether two parameters are equal.
pub fn equal_parameters(a: &Parameter, b: &Parameter) -> (r: bool)
    ensures
        r == same_binding(a@, b@),
    decreases a,
{
    match (a, b) {
        (Parameter::Normal(x), Parameter::Normal(y)) => *x == *y,
        (Parameter::Plain(x), Parameter::Plain(y)) => *x == *y,
        (Parameter::Rest(x), Parameter::Rest(y)) => *x == *y,
        (Parameter::Optional(x, d), Parameter::Optional(y, e)) => *x == *y && equal_objects(d, e),
        _ => false,
    }
}

/// Whether two parameter lists are equal.
pub fn equal_params(a: &Params, b: &Params) -> (r: bool)
    ensures
        r == same_bindings(a@, b@),
    decreases a,
{
    if a.inner.len() != b.inner.len() {
        return false;
    }
    let mut i: usize = 0;
    while i < a.inner.len()
        invariant
            i <= a.inner.len(),
            a.inner.len() == b.inner.len(),
            forall|j: int| 0 <= j < i ==> same_binding(#[trigger] a@[j], b@[j]),
        decreases a.inner.len() - i,
    {
        if !equal_parameters(&a.inner[i], &b.inner[i]) {
            assert(!same_binding(a@[i as int], b@[i as int]));
            return false;
        }
        i += 1;
    }
    true
}

/// Whether two user-defined functions are equal.
pub fn equal_user_lambdas(a: &UserLambda, b: &UserLambda) -> (r: bool)
    ensures
        r == same_closure(a@, b@),
    decreases a,
{
    equal_params(&a.parameters, &b.parameters) && equal_lists(&a.body, &b.body)
}

/// Whether two callables are equal.
pub fn equal_lambdas(a: &Lambda, b: &Lambda) -> (r: bool)
    ensures
        r == same_func(a@, b@),
    decreases a,
{
    match (a, b) {
        (Lambda::Unnamed(x), Lambda::Unnamed(y)) => equal_user_lambdas(x, y),
        (Lambda::Named(n, x), Lambda::Named(m, y)) => *n == *m && equal_user_lambdas(x, y),
        _ => false,
    }
}

impl Clone for Object {
    fn clone(&self) -> (r: Self)
        ensures
            r@ == self@,
    {
        copy_object(self)
    }
}

impl Clone for List {
    fn clone(&self) -> (r: Self)
        ensures
            r@ == self@,
    {
        copy_list(self)
    }
}

impl Clone for Parameter {
    fn clone(&self) -> (r: Self)
        ensures
            r@ == self@,
    {
        copy_parameter(self)
    }
}

impl Clone for Params {
    fn clone(&self) -> (r: Self)
        ensures
            r@ == self@,
    {
        copy_params(self)
    }
}

impl Clone for UserLambda {
    fn clone(&self) -> (r: Self)
        ensures
            r@ == self@,
    {
        copy_user_lambda(self)
    }
}

impl Clone for Lambda {
    fn clone(&self) -> (r: Self)
        ensures
            r@ == self@,
    {
        copy_lambda(self)
    }
}

impl Clone for Builtin {
    fn clone(&self) -> (r: Self)
        ensures
            r == *self,
    {
        Builtin { kind: self.kind }
    }
}

impl PartialEq for Object {
    fn eq(&self, other: &Self) -> (r: bool) {
        equal_objects(self, other)
    }
}

impl vstd::std_specs::cmp::PartialEqSpecImpl for Object {
    open spec fn obeys_eq_spec() -> bool {
        true
    }

    open spec fn eq_spec(&self, other: &Self) -> bool {
        same_value(self@, other@)
    }
}

impl PartialEq for List {
    fn eq(&self, other: &Self) -> (r: bool) {
        equal_lists(self, other)
    }
}

impl vstd::std_specs::cmp::PartialEqSpecImpl for List {
    open spec fn obeys_eq_spec() -> bool {
        true
    }

    open spec fn eq_spec(&self, other: &Self) -> bool {
        same_chain(self@, other@)
    }
}

impl PartialEq for Parameter {
    fn eq(&self, other: &Self) -> (r: bool) {
        equal_parameters(self, other)
    }
}

impl vstd::std_specs::cmp::PartialEqSpecImpl for Parameter {
    open spec fn obeys_eq_spec() -> bool {
        true
    }

    open spec fn eq_spec(&self, other: &Self) -> bool {
        same_binding(self@, other@)
    }
}

impl PartialEq for Params {
    fn eq(&self, other: &Self) -> (r: bool) {
        equal_params(self, other)
    }
}

impl vstd::std_specs::cmp::PartialEqSpecImpl for Params {
    open spec fn obeys_eq_spec() -> bool {
        true
    }

    open spec fn eq_spec(&self, other: &Self) -> bool {
        same_bindings(self@, other@)
    }
}

impl PartialEq for UserLambda {
    fn eq(&self, other: &Self) -> (r: bool) {
        equal_user_lambdas(self, other)
    }
}

impl vstd::std_specs::cmp::PartialEqSpecImpl for UserLambda {
    open spec fn obeys_eq_spec() -> bool {
        true
    }

    open spec fn eq_spec(&self, other: &Self) -> bool {
        same_closure(self@, other@)
    }
}

impl PartialEq for Lambda {
    fn eq(&self, other: &Self) -> (r: bool) {
        equal_lambdas(self, other)
    }
}

impl vstd::std_specs::cmp::PartialEqSpecImpl for Lambda {
    open spec fn obeys_eq_spec() -> bool {
        true
    }

    open spec fn eq_spec(&self, other: &Self) -> bool {
        same_func(self@, other@)
    }
}

impl PartialEq for Builtin {
    /// A native function equals nothing, itself included.
    fn eq(&self, other: &Self) -> (r: bool) {
        false
    }
}

impl vstd::std_specs::cmp::PartialEqSpecImpl for Builtin {
    open spec fn obeys_eq_spec() -> bool {
        true
    }

    open spec fn eq_spec(&self, other: &Self) -> bool {
        false
    }
}

} // verus!
