//! How values print.

use vstd::prelude::*;
use crate::decimal::{canonical, canonical_text};
use crate::model::{Binding, Chain, Func, Primitive, Value};
use crate::text::{decimal_text, integer_text};
use crate::types::{list_view, object_view, Builtin, Lambda, List, Object, Parameter, Params};

verus! {

/// The text of a value: `NIL`, `T`, an integer in decimal, a floating-point
/// number in its canonical text, a string between `"`, the
/// name of a symbol, a list between parentheses, a callable as
/// `#<FUNCTION ...>`, a quoted value behind `'`.
pub open spec fn show(v: Value) -> Seq<char>
    decreases v,
{
    match v {
        Value::Nil => "NIL"@,
        Value::T => "T"@,
        Value::Integer(n) => decimal_text(n),
        Value::Float(s) => canonical(s),
        Value::Str(s) => "\""@ + s + "\""@,
        Value::Symbol(s) => s,
        Value::List(c) => "("@ + show_chain(*c),
        Value::Lambda(f) => "#<FUNCTION "@ + show_func(*f) + ">"@,
        Value::Quote(q) => "'"@ + show(*q),
    }
}

/// The text of a list behind its opening parenthesis: the items with a
/// space between them, then ` . ` and the end unless that is `Nil`, then the
/// closing parenthesis.
pub open spec fn show_chain(c: Chain) -> Seq<char>
    decreases c,
{
    match c {
        Chain::Cons(v, rest) => show(v) + (if rest.is_end() {
            Seq::<char>::empty()
        } else {
            " "@
        }) + show_chain(*rest),
        Chain::EndsWith(v) => (if v is Nil {
            Seq::<char>::empty()
        } else {
            " . "@ + show(v)
        }) + ")"@,
    }
}

/// The text of a parameter.
pub open spec fn show_binding(b: Binding) -> Seq<char>
    decreases b,
{
    match b {
        Binding::Normal(s) => "("@ + s + ")"@,
        Binding::Plain(s) => "(&plain "@ + s + ")"@,
        Binding::Rest(s) => "(&rest "@ + s + ")"@,
        Binding::Optional(s, d) => "(&optional "@ + s + " "@ + show(d) + ")"@,
    }
}

/// The texts of the first `n` parameters, with `, ` between them.
pub open spec fn show_bindings(p: Seq<Binding>, n: nat) -> Seq<char>
    decreases p, n,
{
    if n == 0 || n > p.len() {
        Seq::<char>::empty()
    } else if n == 1 {
        show_binding(p[0])
    } else {
        show_bindings(p, (n - 1) as nat) + ", "@ + show_binding(p[n - 1])
    }
}

/// The text of a parameter list.
pub open spec fn show_params(p: Seq<Binding>) -> Seq<char>
    decreases p, p.len() + 1,
{
    "("@ + show_bindings(p, p.len()) + ")"@
}

/// The text of a parameter that has no default value.
pub open spec fn show_name(b: Binding) -> Seq<char> {
    match b {
        Binding::Normal(s) => "("@ + s + ")"@,
        Binding::Plain(s) => "(&plain "@ + s + ")"@,
        Binding::Rest(s) => "(&rest "@ + s + ")"@,
        Binding::Optional(s, _) => "(&optional "@ + s + ")"@,
    }
}

/// The texts of the first `n` parameters of a native function, with `, `
/// between them.
pub open spec fn show_names(p: Seq<Binding>, n: nat) -> Seq<char>
    decreases n,
{
    if n == 0 || n > p.len() {
        Seq::<char>::empty()
    } else if n == 1 {
        show_name(p[0])
    } else {
        show_names(p, (n - 1) as nat) + ", "@ + show_name(p[n - 1])
    }
}

/// The text of the parameter list of a native function.
pub open spec fn show_signature(p: Primitive) -> Seq<char> {
    "("@ + show_names(Func::primitive_params(p), Func::primitive_params(p).len()) + ")"@
}

/// The text of a callable, inside `#<FUNCTION ...>`.
pub open spec fn show_func(f: Func) -> Seq<char>
    decreases f,
{
    match f {
        Func::Unnamed(c) => "(LAMBDA "@ + show_params(c.params) + ")"@,
        Func::Named(n, c) => "(NAMED-LAMBDA:"@ + n + " "@ + show_params(c.params) + ")"@,
        Func::Builtin(p) => "(BUILTIN:"@ + p.name() + " "@ + show_signature(p) + ")"@,
        Func::Foreign(_, n, params) => "(NATIVE:"@ + n + " "@ + show_params(params) + ")"@,
    }
}

/// What `princ` prints of a value: a string without its `"`, a quoted value
/// without its `'`, any other value as it prints.
pub open spec fn show_plain(v: Value) -> Seq<char> {
    match v {
        Value::Str(s) => s,
        Value::Quote(q) => show(*q),
        _ => show(v),
    }
}

/// Appends the text of a value.
fn write_object(o: &Object, out: &mut String)
    ensures
        final(out)@ == old(out)@ + show(o@),
    decreases o,
{
    match o {
        Object::Nil => {
            out.append("NIL");
        },
        Object::T => {
            out.append("T");
        },
        Object::Integer(n) => {
            let s = integer_text(*n);
            out.append(s.as_str());
        },
        Object::Float(s) => {
            let text = canonical_text(s.as_str());
            out.append(text.as_str());
        },
        Object::String(s) => {
            out.append("\"");
            out.append(s.as_str());
            out.append("\"");
            assert(out@ =~= old(out)@ + show(o@));
        },
        Object::Symbol(s) => {
            out.append(s.as_str());
        },
        Object::List(l) => {
            out.append("(");
            write_list(l, out);
            assert(out@ =~= old(out)@ + show(o@));
        },
        Object::Lambda(l) => {
            out.append("#<FUNCTION ");
            write_lambda(l, out);
            out.append(">");
            assert(out@ =~= old(out)@ + show(o@));
        },
        Object::Quote(q) => {
            out.append("'");
            write_object(q, out);
            assert(out@ =~= old(out)@ + show(o@));
        },
    }
}

/// Appends the text of a list behind its opening parenthesis.
fn write_list(l: &List, out: &mut String)
    ensures
        final(out)@ == old(out)@ + show_chain(l@),
    decreases l,
{
    proof {
        reveal_with_fuel(list_view, 2);
    }
    match l {
        List::Cons(v, rest) => {
            write_object(v, out);
            if !rest.is_end() {
                out.append(" ");
            }
            write_list(rest, out);
            assert(out@ =~= old(out)@ + show_chain(l@));
        },
        List::EndsWith(v) => {
            proof {
                reveal_with_fuel(object_view, 2);
            }
            match v {
                Object::Nil => {},
                _ => {
                    out.append(" . ");
                    write_object(v, out);
                },
            }
            out.append(")");
            assert(out@ =~= old(out)@ + show_chain(l@));
        },
    }
}

/// Appends the text of a parameter.
fn write_parameter(p: &Parameter, out: &mut String)
    ensures
        final(out)@ == old(out)@ + show_binding(p@),
    decreases p,
{
    match p {
        Parameter::Normal(s) => {
            out.append("(");
            out.append(s.as_str());
            out.append(")");
            assert(out@ =~= old(out)@ + show_binding(p@));
        },
        Parameter::Plain(s) => {
            out.append("(&plain ");
            out.append(s.as_str());
            out.append(")");
            assert(out@ =~= old(out)@ + show_binding(p@));
        },
        Parameter::Rest(s) => {
            out.append("(&rest ");
            out.append(s.as_str());
            out.append(")");
            assert(out@ =~= old(out)@ + show_binding(p@));
        },
        Parameter::Optional(s, d) => {
            out.append("(&optional ");
            out.append(s.as_str());
            out.append(" ");
            write_object(d, out);
            out.append(")");
            assert(out@ =~= old(out)@ + show_binding(p@));
        },
    }
}

/// Appends the text of a parameter list.
fn write_params(p: &Params, out: &mut String)
    ensures
        final(out)@ == old(out)@ + show_params(p@),
    decreases p,
{
    out.append("(");
    let ghost start = out@;
    let mut i: usize = 0;
    while i < p.inner.len()
        invariant
            i <= p.inner.len(),
            p@.len() == p.inner.len(),
            out@ == start + show_bindings(p@, i as nat),
        decreases p.inner.len() - i,
    {
        if i > 0 {
            out.append(", ");
        }
        write_parameter(&p.inner[i], out);
        assert(out@ =~= start + show_bindings(p@, (i + 1) as nat));
        i += 1;
    }
    out.append(")");
    assert(out@ =~= old(out)@ + show_params(p@));
}

/// Appends the text of the parameter list of a native function.
fn write_signature(b: &Builtin, out: &mut String)
    ensures
        final(out)@ == old(out)@ + show_signature(b.kind),
{
    let p = b.get_parameters();
    out.append("(");
    let ghost start = out@;
    let mut i: usize = 0;
    while i < p.inner.len()
        invariant
            i <= p.inner.len(),
            p@.len() == p.inner.len(),
            out@ == start + show_names(p@, i as nat),
        decreases p.inner.len() - i,
    {
        if i > 0 {
            out.append(", ");
        }
        let ghost before = out@;
        match &p.inner[i] {
            Parameter::Normal(s) => {
                out.append("(");
                out.append(s.as_str());
            },
            Parameter::Plain(s) => {
                out.append("(&plain ");
                out.append(s.as_str());
            },
            Parameter::Rest(s) => {
                out.append("(&rest ");
                out.append(s.as_str());
            },
            Parameter::Optional(s, _) => {
                out.append("(&optional ");
                out.append(s.as_str());
            },
        }
        out.append(")");
        assert(out@ =~= before + show_name(p@[i as int]));
        assert(out@ =~= start + show_names(p@, (i + 1) as nat));
        i += 1;
    }
    out.append(")");
    assert(out@ =~= old(out)@ + show_signature(b.kind));
}

/// Appends the text of a callable.
fn write_lambda(l: &Lambda, out: &mut String)
    ensures
        final(out)@ == old(out)@ + show_func(l@),
    decreases l,
{
    match l {
        Lambda::Unnamed(u) => {
            out.append("(LAMBDA ");
            write_params(&u.parameters, out);
            out.append(")");
            assert(out@ =~= old(out)@ + show_func(l@));
        },
        Lambda::Named(n, u) => {
            out.append("(NAMED-LAMBDA:");
            out.append(n.as_str());
            out.append(" ");
            write_params(&u.parameters, out);
            out.append(")");
            assert(out@ =~= old(out)@ + show_func(l@));
        },
        Lambda::Foreign(f) => {
            out.append("(NATIVE:");
            out.append(f.name.as_str());
            out.append(" ");
            write_params(&f.parameters, out);
            out.append(")");
            assert(out@ =~= old(out)@ + show_func(l@));
        },
        Lambda::Builtin(b) => {
            out.append("(BUILTIN:");
            out.append(b.get_name());
            out.append(" ");
            write_signature(b, out);
            out.append(")");
            assert(out@ =~= old(out)@ + show_func(l@));
        },
    }
}

impl Object {
    /// The text of the value.
    pub fn to_string(&self) -> (s: String)
        ensures
            s@ == show(self@),
    {
        let mut out = String::new();
        write_object(self, &mut out);
        assert(out@ =~= show(self@));
        out
    }

    /// What `princ` prints of the value.
    pub fn print(&self) -> (s: String)
        ensures
            s@ == show_plain(self@),
    {
        match self {
            Object::String(s) => s.clone(),
            Object::Quote(o) => o.to_string(),
            _ => self.to_string(),
        }
    }
}

impl List {
    /// The text of the list.
    pub fn to_string(&self) -> (s: String)
        ensures
            s@ == "("@ + show_chain(self@),
    {
        let mut out = String::new();
        out.append("(");
        write_list(self, &mut out);
        assert(out@ =~= "("@ + show_chain(self@));
        out
    }
}

impl Parameter {
    /// The text of the parameter.
    pub fn to_string(&self) -> (s: String)
        ensures
            s@ == show_binding(self@),
    {
        let mut out = String::new();
        write_parameter(self, &mut out);
        assert(out@ =~= show_binding(self@));
        out
    }
}

impl Params {
    /// The text of the parameter list.
    pub fn to_string(&self) -> (s: String)
        ensures
            s@ == show_params(self@),
    {
        let mut out = String::new();
        write_params(self, &mut out);
        assert(out@ =~= show_params(self@));
        out
    }
}

impl Lambda {
    /// The text of the callable.
    pub fn to_string(&self) -> (s: String)
        ensures
            s@ == "#<FUNCTION "@ + show_func(self@) + ">"@,
    {
        let mut out = String::new();
        out.append("#<FUNCTION ");
        write_lambda(self, &mut out);
        out.append(">");
        assert(out@ =~= "#<FUNCTION "@ + show_func(self@) + ">"@);
        out
    }
}

} // verus!
