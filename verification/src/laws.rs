//! What holds of the library whatever the values are.

use vstd::prelude::*;
use crate::builtins::{builtin_value, default_state};
use crate::decimal::text_bytes;
use crate::lexer::{
    classify, cut, lemma_lexemes_unfold, lexemes, next_word, Lexeme, Mode, Word, COMMENT, DOT,
    NEWLINE, PAREN_LEFT, PAREN_RIGHT, QUOTE, STRING,
};
use crate::native::Native;
use crate::model::{
    cons_value, required_count, same_binding, same_chain, same_closure, same_func, same_value,
    Binding, Chain, Closure, Func, Primitive, Value,
};
use crate::number::{
    all_digits, digit_value, digits_value, has_point, integer_of, is_digit, is_float_text,
    looks_numeric, machine_integer_of, MINUS, POINT,
};
use crate::semantics::{
    any_of, apply, arithmetic, bind, call, done, eval_chain, eval_sequence, eval_value, fail,
    first_of, primitive, Bound, Fault, Outcome,
};
use crate::state::{known_from, lookup_from, Fact, Frame, State};
use crate::text::{
    all_ascii, ascii_text, ascii_upper_text, decimal_text, digit_char, digits_text, folded,
    is_ascii_text, upper_char,
};

verus! {

/// `cons` makes a list whose head is the first value. What follows the head
/// is the second value, where that is no list; it is `Nil` for `Nil`.
pub proof fn law_cons_round_trip(a: Value, b: Value)
    ensures
        cons_value(a, b) is List,
        cons_value(a, b)->List_0.car() == a,
        !(b is List) ==> cons_value(a, b)->List_0.cdr() == b,
        b is Nil ==> cons_value(a, b)->List_0.cdr() is Nil,
{
}

/// `cons` onto a list puts the value in front of the items of the list and
/// nests nothing: the result has one link more, and what follows its head
/// is the list again, where that has an item.
pub proof fn law_cons_prepends(a: Value, l: Chain)
    ensures
        cons_value(a, Value::List(Box::new(l))) == Value::List(
            Box::new(Chain::Cons(a, Box::new(l))),
        ),
        cons_value(a, Value::List(Box::new(l)))->List_0.items() == seq![a] + l.items(),
        cons_value(a, Value::List(Box::new(l)))->List_0.len() == 1 + l.len(),
        l is Cons ==> cons_value(a, Value::List(Box::new(l)))->List_0.cdr() == Value::List(
            Box::new(l),
        ),
{
    reveal_with_fuel(Chain::items, 2);
    reveal_with_fuel(Chain::len, 2);
}

/// A pair whose second part is a pair is one list of three links: `cons`
/// of `a` and the pair of `c` and `d` is the list of `a` and `c` that ends
/// with `d`.
pub proof fn law_dotted_pairs_merge(a: Value, c: Value, d: Value)
    requires
        !(d is List),
    ensures
        cons_value(a, cons_value(c, d)) == Value::List(
            Box::new(
                Chain::Cons(a, Box::new(Chain::Cons(c, Box::new(Chain::EndsWith(d))))),
            ),
        ),
{
}

/// Whether the value holds a floating-point number.
pub open spec fn holds_float(v: Value) -> bool
    decreases v,
{
    match v {
        Value::Float(_) => true,
        Value::List(l) => chain_holds_float(*l),
        Value::Lambda(f) => match *f {
            Func::Unnamed(c) => closure_holds_float(c),
            Func::Named(_, c) => closure_holds_float(c),
            Func::Builtin(_) => false,
            Func::Foreign(_, _, _) => false,
        },
        Value::Quote(q) => holds_float(*q),
        _ => false,
    }
}

/// Whether the list holds a floating-point number.
pub open spec fn chain_holds_float(l: Chain) -> bool
    decreases l,
{
    match l {
        Chain::EndsWith(v) => holds_float(v),
        Chain::Cons(v, rest) => holds_float(v) || chain_holds_float(*rest),
    }
}

/// Whether the function holds a floating-point number, in its body or as
/// the default of a parameter.
pub open spec fn closure_holds_float(c: Closure) -> bool
    decreases c,
{
    chain_holds_float(c.body) || exists|i: int|
        0 <= i < c.params.len() && (#[trigger] c.params[i] matches Binding::Optional(_, d)
            && holds_float(d))
}

/// Values that `==` holds equal are the same value, unless they hold a
/// floating-point number; two of those are equal where they write one
/// decimal number, also in two ways.
pub proof fn law_equal_values_are_the_same(a: Value, b: Value)
    requires
        same_value(a, b),
        !holds_float(a),
    ensures
        a == b,
    decreases a,
{
    match (a, b) {
        (Value::List(x), Value::List(y)) => lemma_same_chain(*x, *y),
        (Value::Lambda(x), Value::Lambda(y)) => lemma_same_func(*x, *y),
        (Value::Quote(x), Value::Quote(y)) => law_equal_values_are_the_same(*x, *y),
        _ => {},
    }
}

/// Lists that `==` holds equal are the same list.
proof fn lemma_same_chain(a: Chain, b: Chain)
    requires
        same_chain(a, b),
        !chain_holds_float(a),
    ensures
        a == b,
    decreases a,
{
    match (a, b) {
        (Chain::EndsWith(x), Chain::EndsWith(y)) => law_equal_values_are_the_same(x, y),
        (Chain::Cons(x, r), Chain::Cons(y, s)) => {
            law_equal_values_are_the_same(x, y);
            lemma_same_chain(*r, *s);
        },
        _ => {},
    }
}

/// Parameters that `==` holds equal are the same parameter.
proof fn lemma_same_binding(a: Binding, b: Binding)
    requires
        same_binding(a, b),
        !(a matches Binding::Optional(_, d) && holds_float(d)),
    ensures
        a == b,
    decreases a,
{
    match (a, b) {
        (Binding::Optional(x, d), Binding::Optional(y, e)) => law_equal_values_are_the_same(d, e),
        _ => {},
    }
}

/// User-defined functions that `==` holds equal are the same function.
proof fn lemma_same_closure(a: Closure, b: Closure)
    requires
        same_closure(a, b),
        !closure_holds_float(a),
    ensures
        a == b,
    decreases a,
{
    assert forall|i: int| 0 <= i < a.params.len() implies a.params[i] == b.params[i] by {
        lemma_same_binding(a.params[i], b.params[i]);
    }
    assert(a.params =~= b.params);
    lemma_same_chain(a.body, b.body);
}

/// Callables that `==` holds equal are the same callable.
proof fn lemma_same_func(a: Func, b: Func)
    requires
        same_func(a, b),
        !holds_float(Value::Lambda(Box::new(a))),
    ensures
        a == b,
    decreases a,
{
    match (a, b) {
        (Func::Unnamed(c), Func::Unnamed(d)) => lemma_same_closure(c, d),
        (Func::Named(_, c), Func::Named(_, d)) => lemma_same_closure(c, d),
        _ => {},
    }
}

/// A native function equals nothing, itself included: no value that holds
/// one as a callable equals itself.
pub proof fn law_native_functions_equal_nothing(p: Primitive, v: Value)
    ensures
        !same_value(Value::Lambda(Box::new(Func::Builtin(p))), v),
        !same_value(v, Value::Lambda(Box::new(Func::Builtin(p)))),
{
    reveal_with_fuel(same_value, 2);
    reveal_with_fuel(same_func, 2);
}

/// A list has as many links as a walk over it yields values.
pub proof fn law_len_counts_items(l: Chain)
    ensures
        l.len() == l.items().len(),
    decreases l,
{
    match l {
        Chain::EndsWith(_) => {},
        Chain::Cons(_, rest) => {
            law_len_counts_items(*rest);
        },
    }
}

/// A quoted value evaluates to the value that it holds, whatever the bound
/// on the depth, and leaves the environment as it is: to evaluate it again
/// yields the same.
pub proof fn law_quote_is_idempotent(
    natives: Seq<Box<dyn Native>>,
    v: Value,
    st: State,
    fuel: nat,
    again: nat,
)
    ensures
        eval_value(natives, Value::Quote(Box::new(v)), st, fuel) == done(v, st),
        eval_value(
            natives,
            Value::Quote(Box::new(v)),
            eval_value(natives, Value::Quote(Box::new(v)), st, fuel).state,
            again,
        ) == eval_value(natives, Value::Quote(Box::new(v)), st, fuel),
{
}

/// `Nil`, the truth atom, numbers, strings and callables evaluate to
/// themselves and leave the environment as it is.
pub proof fn law_atoms_evaluate_to_themselves(
    natives: Seq<Box<dyn Native>>,
    v: Value,
    st: State,
    fuel: nat,
)
    requires
        v is Nil || v is T || v is Integer || v is Float || v is Str || v is Lambda,
    ensures
        eval_value(natives, v, st, fuel) == done(v, st),
{
}

/// A symbol evaluates to what the innermost scope that binds its name in
/// upper case binds it to, and fails where none does.
pub proof fn law_symbols_are_looked_up(
    natives: Seq<Box<dyn Native>>,
    name: Seq<char>,
    st: State,
    fuel: nat,
)
    ensures
        st.lookup(folded(name)) matches Some(v) ==> eval_value(
            natives,
            Value::Symbol(name),
            st,
            fuel,
        ) == done(v, st),
        st.lookup(folded(name)) is None ==> eval_value(natives, Value::Symbol(name), st, fuel)
            == fail(Fault::UnboundVariable(folded(name)), st),
        st.wf() && st.frames.last().contains_key(folded(name)) ==> st.lookup(
            folded(name),
        ) == Some(st.frames.last()[folded(name)]),
{
}

/// A call with fewer arguments than the callable requires fails, names the
/// number of arguments that the callable requires and the number that it
/// was given, and leaves the environment as it is: no argument is
/// evaluated and no scope is opened.
pub proof fn law_too_few_arguments(
    natives: Seq<Box<dyn Native>>,
    lambda: Func,
    args: Chain,
    given: nat,
    st: State,
    fuel: nat,
)
    requires
        given < required_count(lambda.params()),
    ensures
        call(natives, lambda, args, given, st, fuel) == fail(
            Fault::UnmatchedNumberOfParameters(required_count(lambda.params()), given),
            st,
        ),
{
}

/// A global insertion binds the name at the root. In the current scope,
/// where that is another one, the name is unbound afterwards. Every scope
/// between the two keeps what it binds, the name included, and the number
/// of scopes stays.
pub proof fn law_insert_global(st: State, name: Seq<char>, v: Value)
    requires
        st.wf(),
    ensures
        st.insert_global(name, v).frames.len() == st.frames.len(),
        st.insert_global(name, v).frames[0].contains_key(name),
        st.insert_global(name, v).frames[0][name] == v,
        st.frames.len() > 1 ==> !st.insert_global(name, v).frames.last().contains_key(name),
        forall|k: int|
            0 < k < st.frames.len() - 1 ==> #[trigger] st.insert_global(name, v).frames[k]
                == st.frames[k],
        forall|k: int, other: Seq<char>|
            0 <= k < st.frames.len() && other != name ==> (#[trigger] st.insert_global(
                name,
                v,
            ).frames[k].contains_key(other) <==> st.frames[k].contains_key(other)) && (
            st.frames[k].contains_key(other) ==> st.insert_global(name, v).frames[k][other]
                == st.frames[k][other]),
        st.insert_global(name, v).output == st.output,
{
}

/// After a global insertion, a lookup of the name from a scope between
/// the current one and the root finds what that scope saw before, where a
/// scope from it down to the one above the root binds the name; else it
/// finds the new value. From the root it finds the new value.
pub proof fn law_insert_global_lookup(st: State, name: Seq<char>, v: Value, k: int)
    requires
        st.frames.len() > 1,
        0 <= k < st.frames.len() - 1,
    ensures
        lookup_from(st.insert_global(name, v).frames, 0, name) == Some(v),
        lookup_from(st.insert_global(name, v).frames, k, name) == if exists|j: int|
            0 < j <= k && #[trigger] st.frames[j].contains_key(name) {
            lookup_from(st.frames, k, name)
        } else {
            Some(v)
        },
{
    lemma_lookup_between(st, name, v, k);
    lemma_lookup_between(st, name, v, 0);
}

/// A lookup from a scope below the current one, after a global insertion.
proof fn lemma_lookup_between(st: State, name: Seq<char>, v: Value, k: int)
    requires
        st.frames.len() > 1,
        0 <= k < st.frames.len() - 1,
    ensures
        lookup_from(st.insert_global(name, v).frames, k, name) == if exists|j: int|
            0 < j <= k && #[trigger] st.frames[j].contains_key(name) {
            lookup_from(st.frames, k, name)
        } else {
            Some(v)
        },
        (exists|j: int| 0 < j <= k && #[trigger] st.frames[j].contains_key(name)) ==> lookup_from(
            st.frames,
            k,
            name,
        ) is Some,
    decreases k,
{
    let after = st.insert_global(name, v);
    if k == 0 {
        assert(lookup_from(after.frames, 0, name) == Some(v));
    } else {
        assert(after.frames[k] == st.frames[k]);
        if st.frames[k].contains_key(name) {
        } else {
            lemma_lookup_between(st, name, v, k - 1);
            if exists|j: int| 0 < j <= k && #[trigger] st.frames[j].contains_key(name) {
                let j = choose|j: int| 0 < j <= k && #[trigger] st.frames[j].contains_key(name);
                assert(0 < j <= k - 1);
            }
        }
    }
}

/// A word of ASCII characters that is no punctuation, does not look like a
/// number and does not stand between two `"` is a symbol, and the symbol
/// reads as the word does: the tokenizer keeps the case of its letters.
pub proof fn law_symbols_keep_their_case(w: Seq<u8>)
    requires
        w.len() > 0,
        all_ascii(w),
        !looks_numeric(w),
        !(w.len() == 1 && (w[0] == QUOTE || w[0] == PAREN_LEFT || w[0] == PAREN_RIGHT || w[0]
            == DOT)),
        !(w.len() >= 2 && w[0] == STRING && w.last() == STRING),
    ensures
        classify(w) == Some(Lexeme::Symbol(ascii_text(w))),
{
}

/// The digits of a number are digits, and denote the number.
proof fn lemma_digits_denote(n: nat)
    ensures
        digits_text(n).len() >= 1,
        all_digits(text_bytes(digits_text(n))),
        digits_value(text_bytes(digits_text(n))) == n,
    decreases n,
{
    let t = text_bytes(digits_text(n));
    if n < 10 {
        assert(t.len() == 1);
        assert(t[0] == digit_char(n as int) as u8);
        assert(is_digit(t[0]) && digit_value(t[0]) == n);
        assert(t.drop_last().len() == 0);
        assert(digits_value(t.drop_last()) == 0);
    } else {
        lemma_digits_denote(n / 10);
        let front = text_bytes(digits_text(n / 10));
        let d = (n % 10) as int;
        assert(t.last() == digit_char(d) as u8);
        assert(is_digit(t.last()) && digit_value(t.last()) == d);
        assert(t.drop_last() =~= front);
        assert forall|i: int| 0 <= i < t.len() implies is_digit(#[trigger] t[i]) by {
            if i < t.len() - 1 {
                assert(t[i] == front[i]);
            }
        }
    }
}

/// The text of an integer reads as that integer: the word of the
/// characters that an integer prints as is the integer token of the same
/// value.
pub proof fn law_integers_round_trip(n: int)
    requires
        isize::MIN <= n <= isize::MAX,
    ensures
        classify(text_bytes(decimal_text(n))) == Some(Lexeme::Integer(n)),
{
    let w = text_bytes(decimal_text(n));
    if n < 0 {
        let m = (-n) as nat;
        lemma_digits_denote(m);
        let d = text_bytes(digits_text(m));
        assert(w[0] == MINUS);
        assert(w.skip(1) =~= d);
        assert(w.len() >= 2);
        assert forall|i: int| 0 <= i < w.len() implies crate::number::is_num_char(
            #[trigger] w[i],
        ) by {
            if i > 0 {
                assert(w[i] == d[i - 1]);
                assert(is_digit(d[i - 1]));
            }
        }
        assert(is_digit(w[1])) by {
            assert(w[1] == d[0]);
        }
        assert(!has_point(w)) by {
            if has_point(w) {
                let k = choose|k: int| 0 <= k < w.len() && #[trigger] w[k] == POINT;
                if k > 0 {
                    assert(w[k] == d[k - 1]);
                    assert(is_digit(d[k - 1]));
                }
            }
        }
        assert(integer_of(w) == Some(n));
    } else {
        lemma_digits_denote(n as nat);
        assert(w =~= text_bytes(digits_text(n as nat)));
        assert(is_digit(w[0]));
        assert(!has_point(w)) by {
            if has_point(w) {
                let k = choose|k: int| 0 <= k < w.len() && #[trigger] w[k] == POINT;
                assert(is_digit(w[k]));
            }
        }
        assert(integer_of(w) == Some(n));
    }
    assert(looks_numeric(w));
    assert(machine_integer_of(w) == Some(n));
}

/// Digits with one `.` among them behind an optional `-` have a digit, so
/// that they look like a number.
proof fn lemma_floats_look_numeric(w: Seq<u8>)
    requires
        is_float_text(w),
    ensures
        looks_numeric(w),
        has_point(w),
        w.len() >= 2,
{
    let signed = w.len() > 0 && w[0] == MINUS;
    let body = if signed {
        w.skip(1)
    } else {
        w
    };
    let off: int = if signed {
        1
    } else {
        0
    };
    let k = choose|k: int|
        0 <= k < body.len() && body.len() >= 2 && #[trigger] body[k] == POINT && all_digits(
            body.take(k),
        ) && all_digits(body.skip(k + 1));
    assert(w[k + off] == POINT);
    assert forall|i: int| 0 <= i < w.len() implies crate::number::is_num_char(#[trigger] w[i]) by {
        let j = i - off;
        if j >= 0 {
            assert(body[j] == w[i]);
            if j < k {
                assert(is_digit(body.take(k)[j]));
            } else if j > k {
                assert(is_digit(body.skip(k + 1)[j - k - 1]));
            }
        }
    }
    let other: int = if k == 0 {
        1
    } else {
        0
    };
    assert(is_digit(body[other])) by {
        if k == 0 {
            assert(is_digit(body.skip(k + 1)[0]));
        } else {
            assert(is_digit(body.take(k)[0]));
        }
    }
    assert(is_digit(w[other + off]));
}

/// A floating-point literal is a token that carries the literal as it was
/// written: an optional `-`, then digits with one `.` among them.
pub proof fn law_float_literals_are_kept(w: Seq<u8>)
    requires
        is_float_text(w),
    ensures
        classify(w) == Some(Lexeme::Float(ascii_text(w))),
{
    lemma_floats_look_numeric(w);
}

/// The upper-case form of an ASCII character is an ASCII character, and is
/// its own upper-case form.
proof fn lemma_upper_char(n: u32, c: char)
    requires
        n == c as u32,
        n < 128,
    ensures
        (upper_char(c) as u32) < 128,
        upper_char(upper_char(c)) == upper_char(c),
{
    if 97 <= n <= 122 {
        let d = ((c as u8) - 32) as u8;
        assert(d == n - 32);
        assert((d as char) as u32 == d as u32);
    }
}

/// A text of ASCII characters is in upper case once it is folded: to fold
/// it again changes nothing.
pub proof fn law_folding_ascii_once_is_enough(t: Seq<char>)
    requires
        is_ascii_text(t),
    ensures
        is_ascii_text(folded(t)),
        folded(folded(t)) == folded(t),
{
    let u = ascii_upper_text(t);
    assert(folded(t) == u);
    assert forall|i: int| 0 <= i < u.len() implies '\0' <= #[trigger] u[i] <= '\u{7f}' by {
        assert('\0' <= t[i] <= '\u{7f}');
        lemma_upper_char((t[i] as u32), t[i]);
    }
    assert(is_ascii_text(u));
    assert forall|i: int| 0 <= i < u.len() implies upper_char(#[trigger] u[i]) == u[i] by {
        assert('\0' <= t[i] <= '\u{7f}');
        lemma_upper_char((t[i] as u32), t[i]);
    }
    assert(ascii_upper_text(u) =~= u);
}

/// The name under which a native function is bound: its name in upper
/// case.
pub open spec fn bound_name(p: Primitive) -> Seq<char> {
    match p {
            Primitive::Add => "+"@,
            Primitive::Sub => "-"@,
            Primitive::Mul => "*"@,
            Primitive::Div => "/"@,
            Primitive::Quote => "QUOTE"@,
            Primitive::Print => "PRINT"@,
            Primitive::Princ => "PRINC"@,
            Primitive::Terpri => "TERPRI"@,
            Primitive::Defun => "DEFUN"@,
            Primitive::Lambda => "LAMBDA"@,
            Primitive::Funcall => "FUNCALL"@,
            Primitive::Symbolp => "SYMBOLP"@,
            Primitive::Numberp => "NUMBERP"@,
            Primitive::Stringp => "STRINGP"@,
            Primitive::Atom => "ATOM"@,
            Primitive::Listp => "LISTP"@,
            Primitive::Null => "NULL"@,
            Primitive::Eq => "EQ"@,
            Primitive::Or => "OR"@,
            Primitive::Setq => "SETQ"@,
            Primitive::Cons => "CONS"@,
            Primitive::Car => "CAR"@,
            Primitive::Cdr => "CDR"@,
            Primitive::Cond => "COND"@,
    }
}

/// The name of each native function folds to the name under which it is
/// bound.
pub proof fn law_native_names_fold(p: Primitive)
    ensures
        folded(p.name()) == bound_name(p),
{
    match p {
        Primitive::Add => {
            reveal_strlit("+");
            reveal_strlit("+");
            assert(folded("+"@) =~= "+"@);
        },
        Primitive::Sub => {
            reveal_strlit("-");
            reveal_strlit("-");
            assert(folded("-"@) =~= "-"@);
        },
        Primitive::Mul => {
            reveal_strlit("*");
            reveal_strlit("*");
            assert(folded("*"@) =~= "*"@);
        },
        Primitive::Div => {
            reveal_strlit("/");
            reveal_strlit("/");
            assert(folded("/"@) =~= "/"@);
        },
        Primitive::Quote => {
            reveal_strlit("quote");
            reveal_strlit("QUOTE");
            assert(folded("quote"@) =~= "QUOTE"@);
        },
        Primitive::Print => {
            reveal_strlit("print");
            reveal_strlit("PRINT");
            assert(folded("print"@) =~= "PRINT"@);
        },
        Primitive::Princ => {
            reveal_strlit("princ");
            reveal_strlit("PRINC");
            assert(folded("princ"@) =~= "PRINC"@);
        },
        Primitive::Terpri => {
            reveal_strlit("terpri");
            reveal_strlit("TERPRI");
            assert(folded("terpri"@) =~= "TERPRI"@);
        },
        Primitive::Defun => {
            reveal_strlit("defun");
            reveal_strlit("DEFUN");
            assert(folded("defun"@) =~= "DEFUN"@);
        },
        Primitive::Lambda => {
            reveal_strlit("lambda");
            reveal_strlit("LAMBDA");
            assert(folded("lambda"@) =~= "LAMBDA"@);
        },
        Primitive::Funcall => {
            reveal_strlit("funcall");
            reveal_strlit("FUNCALL");
            assert(folded("funcall"@) =~= "FUNCALL"@);
        },
        Primitive::Symbolp => {
            reveal_strlit("symbolp");
            reveal_strlit("SYMBOLP");
            assert(folded("symbolp"@) =~= "SYMBOLP"@);
        },
        Primitive::Numberp => {
            reveal_strlit("numberp");
            reveal_strlit("NUMBERP");
            assert(folded("numberp"@) =~= "NUMBERP"@);
        },
        Primitive::Stringp => {
            reveal_strlit("stringp");
            reveal_strlit("STRINGP");
            assert(folded("stringp"@) =~= "STRINGP"@);
        },
        Primitive::Atom => {
            reveal_strlit("atom");
            reveal_strlit("ATOM");
            assert(folded("atom"@) =~= "ATOM"@);
        },
        Primitive::Listp => {
            reveal_strlit("listp");
            reveal_strlit("LISTP");
            assert(folded("listp"@) =~= "LISTP"@);
        },
        Primitive::Null => {
            reveal_strlit("null");
            reveal_strlit("NULL");
            assert(folded("null"@) =~= "NULL"@);
        },
        Primitive::Eq => {
            reveal_strlit("eq");
            reveal_strlit("EQ");
            assert(folded("eq"@) =~= "EQ"@);
        },
        Primitive::Or => {
            reveal_strlit("or");
            reveal_strlit("OR");
            assert(folded("or"@) =~= "OR"@);
        },
        Primitive::Setq => {
            reveal_strlit("setq");
            reveal_strlit("SETQ");
            assert(folded("setq"@) =~= "SETQ"@);
        },
        Primitive::Cons => {
            reveal_strlit("cons");
            reveal_strlit("CONS");
            assert(folded("cons"@) =~= "CONS"@);
        },
        Primitive::Car => {
            reveal_strlit("car");
            reveal_strlit("CAR");
            assert(folded("car"@) =~= "CAR"@);
        },
        Primitive::Cdr => {
            reveal_strlit("cdr");
            reveal_strlit("CDR");
            assert(folded("cdr"@) =~= "CDR"@);
        },
        Primitive::Cond => {
            reveal_strlit("cond");
            reveal_strlit("COND");
            assert(folded("cond"@) =~= "COND"@);
        },
    }
}

/// The names under which two native functions are bound differ.
pub proof fn law_native_names_differ(p: Primitive, q: Primitive)
    requires
        p != q,
    ensures
        bound_name(p) != bound_name(q),
{
    lemma_reveal_bound_name(p);
    lemma_reveal_bound_name(q);
    let a = bound_name(p);
    let b = bound_name(q);
    if a.len() == b.len() {
        if a.len() == 1 {
            assert(a[0] != b[0]);
        } else if a.len() == 2 {
            assert(a[0] != b[0]);
        } else if a.len() == 3 {
            assert(a[1] != b[1]);
        } else if a.len() == 4 {
            assert(a[0] != b[0] || a[1] != b[1] || a[3] != b[3]);
        } else if a.len() == 5 {
            assert(a[0] != b[0] || a[4] != b[4]);
        } else if a.len() == 6 {
            assert(a[0] != b[0]);
        } else {
            assert(a[0] != b[0] || a[1] != b[1]);
        }
    }
}

/// What the name under which a native function is bound reads as.
proof fn lemma_reveal_bound_name(p: Primitive)
    ensures
        bound_name(p).len() >= 1,
        p == Primitive::Add ==> bound_name(p) =~= seq!['+'],
        p == Primitive::Sub ==> bound_name(p) =~= seq!['-'],
        p == Primitive::Mul ==> bound_name(p) =~= seq!['*'],
        p == Primitive::Div ==> bound_name(p) =~= seq!['/'],
        p == Primitive::Quote ==> bound_name(p) =~= seq!['Q', 'U', 'O', 'T', 'E'],
        p == Primitive::Print ==> bound_name(p) =~= seq!['P', 'R', 'I', 'N', 'T'],
        p == Primitive::Princ ==> bound_name(p) =~= seq!['P', 'R', 'I', 'N', 'C'],
        p == Primitive::Terpri ==> bound_name(p) =~= seq!['T', 'E', 'R', 'P', 'R', 'I'],
        p == Primitive::Defun ==> bound_name(p) =~= seq!['D', 'E', 'F', 'U', 'N'],
        p == Primitive::Lambda ==> bound_name(p) =~= seq!['L', 'A', 'M', 'B', 'D', 'A'],
        p == Primitive::Funcall ==> bound_name(p) =~= seq!['F', 'U', 'N', 'C', 'A', 'L', 'L'],
        p == Primitive::Symbolp ==> bound_name(p) =~= seq!['S', 'Y', 'M', 'B', 'O', 'L', 'P'],
        p == Primitive::Numberp ==> bound_name(p) =~= seq!['N', 'U', 'M', 'B', 'E', 'R', 'P'],
        p == Primitive::Stringp ==> bound_name(p) =~= seq!['S', 'T', 'R', 'I', 'N', 'G', 'P'],
        p == Primitive::Atom ==> bound_name(p) =~= seq!['A', 'T', 'O', 'M'],
        p == Primitive::Listp ==> bound_name(p) =~= seq!['L', 'I', 'S', 'T', 'P'],
        p == Primitive::Null ==> bound_name(p) =~= seq!['N', 'U', 'L', 'L'],
        p == Primitive::Eq ==> bound_name(p) =~= seq!['E', 'Q'],
        p == Primitive::Or ==> bound_name(p) =~= seq!['O', 'R'],
        p == Primitive::Setq ==> bound_name(p) =~= seq!['S', 'E', 'T', 'Q'],
        p == Primitive::Cons ==> bound_name(p) =~= seq!['C', 'O', 'N', 'S'],
        p == Primitive::Car ==> bound_name(p) =~= seq!['C', 'A', 'R'],
        p == Primitive::Cdr ==> bound_name(p) =~= seq!['C', 'D', 'R'],
        p == Primitive::Cond ==> bound_name(p) =~= seq!['C', 'O', 'N', 'D'],
{
    reveal_strlit("+");
    reveal_strlit("-");
    reveal_strlit("*");
    reveal_strlit("/");
    reveal_strlit("QUOTE");
    reveal_strlit("PRINT");
    reveal_strlit("PRINC");
    reveal_strlit("TERPRI");
    reveal_strlit("DEFUN");
    reveal_strlit("LAMBDA");
    reveal_strlit("FUNCALL");
    reveal_strlit("SYMBOLP");
    reveal_strlit("NUMBERP");
    reveal_strlit("STRINGP");
    reveal_strlit("ATOM");
    reveal_strlit("LISTP");
    reveal_strlit("NULL");
    reveal_strlit("EQ");
    reveal_strlit("OR");
    reveal_strlit("SETQ");
    reveal_strlit("CONS");
    reveal_strlit("CAR");
    reveal_strlit("CDR");
    reveal_strlit("COND");
}

/// In the environment that binds the catalogue, each native function but
/// `or` is bound to its name in upper case, and no later registration has
/// taken the name; `or` is not bound.
pub proof fn law_default_names_are_bound(p: Primitive)
    ensures
        default_state().frames.len() == 1,
        p != Primitive::Or ==> default_state().lookup(folded(p.name())) == Some(
            builtin_value(p),
        ),
        p == Primitive::Or ==> default_state().lookup(folded(p.name())) is None,
{
    reveal_with_fuel(lookup_from, 3);
    law_native_names_fold(Primitive::Add);
    if p != Primitive::Add {
        law_native_names_differ(p, Primitive::Add);
    }
    law_native_names_fold(Primitive::Sub);
    if p != Primitive::Sub {
        law_native_names_differ(p, Primitive::Sub);
    }
    law_native_names_fold(Primitive::Mul);
    if p != Primitive::Mul {
        law_native_names_differ(p, Primitive::Mul);
    }
    law_native_names_fold(Primitive::Div);
    if p != Primitive::Div {
        law_native_names_differ(p, Primitive::Div);
    }
    law_native_names_fold(Primitive::Quote);
    if p != Primitive::Quote {
        law_native_names_differ(p, Primitive::Quote);
    }
    law_native_names_fold(Primitive::Print);
    if p != Primitive::Print {
        law_native_names_differ(p, Primitive::Print);
    }
    law_native_names_fold(Primitive::Princ);
    if p != Primitive::Princ {
        law_native_names_differ(p, Primitive::Princ);
    }
    law_native_names_fold(Primitive::Terpri);
    if p != Primitive::Terpri {
        law_native_names_differ(p, Primitive::Terpri);
    }
    law_native_names_fold(Primitive::Defun);
    if p != Primitive::Defun {
        law_native_names_differ(p, Primitive::Defun);
    }
    law_native_names_fold(Primitive::Lambda);
    if p != Primitive::Lambda {
        law_native_names_differ(p, Primitive::Lambda);
    }
    law_native_names_fold(Primitive::Funcall);
    if p != Primitive::Funcall {
        law_native_names_differ(p, Primitive::Funcall);
    }
    law_native_names_fold(Primitive::Symbolp);
    if p != Primitive::Symbolp {
        law_native_names_differ(p, Primitive::Symbolp);
    }
    law_native_names_fold(Primitive::Numberp);
    if p != Primitive::Numberp {
        law_native_names_differ(p, Primitive::Numberp);
    }
    law_native_names_fold(Primitive::Stringp);
    if p != Primitive::Stringp {
        law_native_names_differ(p, Primitive::Stringp);
    }
    law_native_names_fold(Primitive::Atom);
    if p != Primitive::Atom {
        law_native_names_differ(p, Primitive::Atom);
    }
    law_native_names_fold(Primitive::Listp);
    if p != Primitive::Listp {
        law_native_names_differ(p, Primitive::Listp);
    }
    law_native_names_fold(Primitive::Null);
    if p != Primitive::Null {
        law_native_names_differ(p, Primitive::Null);
    }
    law_native_names_fold(Primitive::Eq);
    if p != Primitive::Eq {
        law_native_names_differ(p, Primitive::Eq);
    }
    law_native_names_fold(Primitive::Or);
    if p != Primitive::Or {
        law_native_names_differ(p, Primitive::Or);
    }
    law_native_names_fold(Primitive::Setq);
    if p != Primitive::Setq {
        law_native_names_differ(p, Primitive::Setq);
    }
    law_native_names_fold(Primitive::Cons);
    if p != Primitive::Cons {
        law_native_names_differ(p, Primitive::Cons);
    }
    law_native_names_fold(Primitive::Car);
    if p != Primitive::Car {
        law_native_names_differ(p, Primitive::Car);
    }
    law_native_names_fold(Primitive::Cdr);
    if p != Primitive::Cdr {
        law_native_names_differ(p, Primitive::Cdr);
    }
    law_native_names_fold(Primitive::Cond);
    if p != Primitive::Cond {
        law_native_names_differ(p, Primitive::Cond);
    }
}

/// Whether the native function is one of the four of arithmetic.
pub open spec fn is_arithmetic(p: Primitive) -> bool {
    p == Primitive::Add || p == Primitive::Sub || p == Primitive::Mul || p == Primitive::Div
}

/// A call of an arithmetic function with two integers as arguments yields
/// what `arithmetic` says of the two, in every environment, and leaves the
/// environment as it is.
pub proof fn law_arithmetic_on_integers(
    natives: Seq<Box<dyn Native>>,
    p: Primitive,
    a: int,
    b: int,
    st: State,
    fuel: nat,
)
    requires
        st.wf(),
        is_arithmetic(p),
    ensures
        call(
            natives,
            Func::Builtin(p),
            Chain::proper(seq![Value::Integer(a), Value::Integer(b)]),
            2,
            st,
            fuel,
        ) == (Outcome { result: arithmetic(p, a, b), state: st }),
{
    reveal_strlit("X");
    reveal_strlit("Y");
    let x = "X"@;
    let y = "Y"@;
    assert(x[0] != y[0]);
    let values = seq![Value::Integer(a), Value::Integer(b)];
    let args = Chain::proper(values);
    let params = Func::Builtin(p).params();
    assert(params =~= seq![Binding::Normal(x), Binding::Normal(y)]);
    assert(required_count(params) == 2) by {
        reveal_with_fuel(required_count, 3);
        assert(params.drop_last() =~= seq![Binding::Normal(x)]);
        assert(params.drop_last().drop_last() =~= Seq::<Binding>::empty());
    }
    assert(args.items() =~= values) by {
        reveal_with_fuel(Chain::proper, 3);
        reveal_with_fuel(Chain::items, 3);
        assert(values.skip(1) =~= seq![Value::Integer(b)]);
        assert(values.skip(1).skip(1) =~= Seq::<Value>::empty());
    }
    let frame = Map::<Seq<char>, Value>::empty().insert(x, Value::Integer(a)).insert(
        y,
        Value::Integer(b),
    );
    assert(bind(natives, params, 0, values, 0, Map::empty(), st, fuel) == (Bound {
        result: Ok(frame),
        state: st,
    })) by {
        reveal_with_fuel(bind, 3);
        assert(values.skip(1) =~= seq![Value::Integer(b)]);
    }
    let inner = st.enter_with(frame);
    assert(inner.lookup(x) == Some(Value::Integer(a)));
    assert(inner.lookup(y) == Some(Value::Integer(b)));
    assert(inner.leave().frames =~= st.frames);
    assert(inner.leave() == st);
}

/// In the environment that binds the catalogue, the form of an arithmetic
/// function's name and two integers evaluates to what `arithmetic` says of
/// the two: `(+ 1 2)` to 3.
pub proof fn law_arithmetic_forms(
    natives: Seq<Box<dyn Native>>,
    p: Primitive,
    a: int,
    b: int,
    fuel: nat,
)
    requires
        is_arithmetic(p),
        fuel >= 1,
    ensures
        eval_value(
            natives,
            Value::List(
                Box::new(
                    Chain::Cons(
                        Value::Symbol(bound_name(p)),
                        Box::new(Chain::proper(seq![Value::Integer(a), Value::Integer(b)])),
                    ),
                ),
            ),
            default_state(),
            fuel,
        ) == (Outcome { result: arithmetic(p, a, b), state: default_state() }),
{
    let st = default_state();
    let values = seq![Value::Integer(a), Value::Integer(b)];
    let args = Chain::proper(values);
    let form = Chain::Cons(Value::Symbol(bound_name(p)), Box::new(args));
    law_native_names_fold(p);
    law_default_names_are_bound(p);
    lemma_reveal_bound_name(p);
    assert(is_ascii_text(bound_name(p)) && folded(bound_name(p)) =~= bound_name(p));
    law_arithmetic_on_integers(natives, p, a, b, st, (fuel - 1) as nat);
    assert(args is Cons && args.len() == 2) by {
        reveal_with_fuel(Chain::proper, 3);
        reveal_with_fuel(Chain::len, 3);
        assert(values.skip(1) =~= seq![Value::Integer(b)]);
        assert(values.skip(1).skip(1) =~= Seq::<Value>::empty());
    }
    assert(form.len() == 3);
    assert(form.car() == Value::Symbol(bound_name(p)));
    assert(form.cdr() == Value::List(Box::new(args)));
    let f = (fuel - 1) as nat;
    assert(eval_value(natives, form.car(), st, f) == done(builtin_value(p), st));
    assert(eval_chain(natives, form, st, fuel) == call(natives, Func::Builtin(p), args, 2, st, f));
}

/// The mode in which a word begins.
pub open spec fn fresh() -> Mode {
    Mode { in_string: false, escape: false, in_comment: false }
}

/// Inside a comment, everything up to the next newline is passed over.
proof fn lemma_comment_is_passed(input: Seq<u8>, i: int, end: int, m: Mode, word: Seq<u8>)
    requires
        0 <= i <= end < input.len(),
        m.in_comment,
        input[end] == NEWLINE,
        forall|k: int| i <= k < end ==> #[trigger] input[k] != NEWLINE,
    ensures
        cut(input, i, m, word) == cut(input, end + 1, Mode { in_comment: false, ..m }, word),
    decreases end - i,
{
    if i < end {
        assert(input[i] != NEWLINE);
        lemma_comment_is_passed(input, i + 1, end, m, word);
    }
}

/// Inside a comment that no newline ends, everything is passed over.
proof fn lemma_comment_to_the_end(input: Seq<u8>, i: int, m: Mode, word: Seq<u8>)
    requires
        0 <= i <= input.len(),
        m.in_comment,
        forall|k: int| i <= k < input.len() ==> #[trigger] input[k] != NEWLINE,
    ensures
        cut(input, i, m, word) == (Word { bytes: word, used: input.len() as int }),
    decreases input.len() - i,
{
    if i < input.len() {
        assert(input[i] != NEWLINE);
        lemma_comment_to_the_end(input, i + 1, m, word);
    }
}

/// What stands in front of the input does not change how a word is cut
/// behind it.
proof fn lemma_cut_shifts(front: Seq<u8>, rest: Seq<u8>, i: int, m: Mode, word: Seq<u8>)
    requires
        0 <= i <= rest.len(),
    ensures
        cut(front + rest, front.len() + i, m, word).bytes == cut(rest, i, m, word).bytes,
        cut(front + rest, front.len() + i, m, word).used == cut(rest, i, m, word).used
            + front.len(),
    decreases rest.len() - i,
{
    let input = front + rest;
    let j = front.len() + i;
    if i < rest.len() {
        let c = rest[i];
        assert(input[j] == c);
        if m.in_comment {
            lemma_cut_shifts(front, rest, i + 1, Mode { in_comment: c != NEWLINE, ..m }, word);
        } else if m.escape {
            lemma_cut_shifts(front, rest, i + 1, Mode { escape: false, ..m }, word.push(c));
        } else if c == COMMENT {
            lemma_cut_shifts(front, rest, i + 1, Mode { in_comment: true, ..m }, word);
        } else if c == crate::lexer::ESCAPE {
            lemma_cut_shifts(front, rest, i + 1, Mode { escape: true, ..m }, word.push(c));
        } else if c == crate::lexer::STRING {
            if !m.in_string {
                lemma_cut_shifts(front, rest, i + 1, Mode { in_string: true, ..m }, word.push(c));
            }
        } else if m.in_string {
            lemma_cut_shifts(front, rest, i + 1, m, word.push(c));
        } else if (crate::lexer::is_paren(c) || c == crate::lexer::QUOTE) && word.len() == 0 {
        } else if crate::lexer::is_paren(c) {
        } else if crate::lexer::is_delimiter(c) && word.len() > 0 {
        } else if !crate::lexer::is_delimiter(c) {
            lemma_cut_shifts(front, rest, i + 1, m, word.push(c));
        } else {
            lemma_cut_shifts(front, rest, i + 1, m, word);
        }
    }
}

/// A comment in front of the input yields no token and changes none: the
/// tokens of `;`, a text without newline, a newline and `rest` are the
/// tokens of `rest`.
pub proof fn law_comments_are_discarded(comment: Seq<u8>, rest: Seq<u8>)
    requires
        forall|k: int| 0 <= k < comment.len() ==> #[trigger] comment[k] != NEWLINE,
    ensures
        lexemes(seq![COMMENT] + comment + seq![NEWLINE] + rest) == lexemes(rest),
{
    let front = seq![COMMENT] + comment + seq![NEWLINE];
    let input = front + rest;
    let end = comment.len() as int + 1;
    assert(input[0] == COMMENT);
    assert(input[end] == NEWLINE);
    assert forall|k: int| 1 <= k < end implies #[trigger] input[k] != NEWLINE by {
        assert(input[k] == comment[k - 1]);
    }
    let m = Mode { in_comment: true, ..fresh() };
    assert(cut(input, 0, fresh(), Seq::empty()) == cut(input, 1, m, Seq::empty()));
    lemma_comment_is_passed(input, 1, end, m, Seq::empty());
    lemma_cut_shifts(front, rest, 0, fresh(), Seq::empty());
    let w = next_word(input);
    let v = next_word(rest);
    assert(w.bytes == v.bytes);
    assert(w.used == v.used + front.len());
    lemma_lexemes_unfold(input);
    lemma_lexemes_unfold(rest);
    assert(input.skip(w.used) =~= rest.skip(v.used));
}

/// A comment that the input ends in yields no token.
pub proof fn law_trailing_comment_is_discarded(comment: Seq<u8>)
    requires
        forall|k: int| 0 <= k < comment.len() ==> #[trigger] comment[k] != NEWLINE,
    ensures
        lexemes(seq![COMMENT] + comment) == Seq::<Lexeme>::empty(),
{
    let input = seq![COMMENT] + comment;
    assert(input[0] == COMMENT);
    assert forall|k: int| 1 <= k < input.len() implies #[trigger] input[k] != NEWLINE by {
        assert(input[k] == comment[k - 1]);
    }
    let m = Mode { in_comment: true, ..fresh() };
    assert(cut(input, 0, fresh(), Seq::empty()) == cut(input, 1, m, Seq::empty()));
    lemma_comment_to_the_end(input, 1, m, Seq::empty());
    lemma_lexemes_unfold(input);
}

/// A callable that the embedder has supplied is run in the scope of the
/// call: it yields what it yields in the environment in which its arguments
/// are bound, whatever the bound on the depth, and fails where no function
/// was supplied at its place.
pub proof fn law_supplied_functions_are_run(
    natives: Seq<Box<dyn Native>>,
    i: nat,
    name: Seq<char>,
    params: Seq<Binding>,
    st: State,
    fuel: nat,
)
    ensures
        i < natives.len() ==> apply(natives, Func::Foreign(i, name, params), st, fuel)
            == natives[i as int].outcome(st),
        i >= natives.len() ==> apply(natives, Func::Foreign(i, name, params), st, fuel) == fail(
            Fault::IllegalFunctionCall,
            st,
        ),
{
}

/// Whether each of the native functions that the embedder has supplied
/// leaves as many scopes as it finds, and tells the environment no fact.
pub open spec fn keep_the_scopes(natives: Seq<Box<dyn Native>>) -> bool {
    forall|i: int, st: State|
        0 <= i < natives.len() && st.wf() ==> same_shape(
            (#[trigger] natives[i].outcome(st)).state,
            st,
        )
}

/// Whether two environments have as many scopes and were told the same
/// facts.
pub open spec fn same_shape(a: State, b: State) -> bool {
    a.frames.len() == b.frames.len() && a.facts == b.facts
}

/// Evaluation leaves as many scopes as it found, and tells the environment
/// no fact: every scope that a call opens is closed when the call ends,
/// also where the call fails. This holds where the native functions that
/// the embedder has supplied keep the scopes themselves.
pub proof fn law_evaluation_keeps_the_scopes(
    natives: Seq<Box<dyn Native>>,
    v: Value,
    st: State,
    fuel: nat,
)
    requires
        st.wf(),
        keep_the_scopes(natives),
    ensures
        same_shape(eval_value(natives, v, st, fuel).state, st),
    decreases fuel, 1nat, 0nat,
{
    match v {
        Value::List(l) => lemma_chain_keeps(natives, *l, st, fuel),
        _ => {},
    }
}

/// The evaluation of a list keeps the scopes.
proof fn lemma_chain_keeps(natives: Seq<Box<dyn Native>>, l: Chain, st: State, fuel: nat)
    requires
        st.wf(),
        keep_the_scopes(natives),
    ensures
        same_shape(eval_chain(natives, l, st, fuel).state, st),
    decreases fuel, 0nat, 0nat,
{
    if l.len() != 0 && fuel != 0 {
        let f = (fuel - 1) as nat;
        law_evaluation_keeps_the_scopes(natives, l.car(), st, f);
        let first = eval_value(natives, l.car(), st, f);
        match first.result {
            Err(_) => {},
            Ok(r) => if !(l.cdr() is Nil) {
                match (r, l.cdr()) {
                    (Value::Lambda(lambda), Value::List(args)) => lemma_call_keeps(
                        natives,
                        *lambda,
                        *args,
                        (l.len() - 1) as nat,
                        first.state,
                        f,
                    ),
                    (Value::Lambda(_), _) => {},
                    (_, Value::List(rest)) => lemma_sequence_keeps(
                        natives,
                        rest.items(),
                        Value::Nil,
                        first.state,
                        f,
                    ),
                    (_, end) => law_evaluation_keeps_the_scopes(natives, end, first.state, f),
                }
            },
        }
    }
}

/// The evaluation of items in turn keeps the scopes.
proof fn lemma_sequence_keeps(
    natives: Seq<Box<dyn Native>>,
    items: Seq<Value>,
    last: Value,
    st: State,
    fuel: nat,
)
    requires
        st.wf(),
        keep_the_scopes(natives),
    ensures
        same_shape(eval_sequence(natives, items, last, st, fuel).state, st),
    decreases fuel, 2nat, items.len(),
{
    if items.len() != 0 {
        law_evaluation_keeps_the_scopes(natives, items[0], st, fuel);
        let one = eval_value(natives, items[0], st, fuel);
        match one.result {
            Err(_) => {},
            Ok(v) => lemma_sequence_keeps(natives, items.skip(1), v, one.state, fuel),
        }
    }
}

/// A call keeps the scopes: it leaves the one that it opens.
proof fn lemma_call_keeps(
    natives: Seq<Box<dyn Native>>,
    lambda: Func,
    args: Chain,
    given: nat,
    st: State,
    fuel: nat,
)
    requires
        st.wf(),
        keep_the_scopes(natives),
    ensures
        same_shape(call(natives, lambda, args, given, st, fuel).state, st),
    decreases fuel, 5nat, 0nat,
{
    let params = lambda.params();
    if given < required_count(params) {
    } else if params.len() == 0 {
        lemma_apply_keeps(natives, lambda, st, fuel);
    } else {
        lemma_bind_keeps(natives, params, 0, args.items(), 0, Map::empty(), st, fuel);
        let bound = bind(natives, params, 0, args.items(), 0, Map::empty(), st, fuel);
        match bound.result {
            Err(e) => {},
            Ok(frame) => {
                lemma_apply_keeps(natives, lambda, bound.state.enter_with(frame), fuel);
            },
        }
    }
}

/// The binding of arguments keeps the scopes.
proof fn lemma_bind_keeps(
    natives: Seq<Box<dyn Native>>,
    params: Seq<Binding>,
    i: nat,
    values: Seq<Value>,
    used: nat,
    frame: Frame,
    st: State,
    fuel: nat,
)
    requires
        st.wf(),
        keep_the_scopes(natives),
    ensures
        same_shape(bind(natives, params, i, values, used, frame, st, fuel).state, st),
    decreases fuel, 2nat, params.len() - i,
{
    if i < params.len() {
        match params[i as int] {
            Binding::Rest(name) => {},
            Binding::Normal(name) => if values.len() != 0 {
                law_evaluation_keeps_the_scopes(natives, values[0], st, fuel);
                let one = eval_value(natives, values[0], st, fuel);
                match one.result {
                    Err(e) => {},
                    Ok(v) => lemma_bind_keeps(
                        natives,
                        params,
                        i + 1,
                        values.skip(1),
                        used + 1,
                        frame.insert(name, v),
                        one.state,
                        fuel,
                    ),
                }
            },
            Binding::Plain(name) => if values.len() != 0 {
                lemma_bind_keeps(
                    natives,
                    params,
                    i + 1,
                    values.skip(1),
                    used + 1,
                    frame.insert(name, values[0]),
                    st,
                    fuel,
                );
            },
            Binding::Optional(name, default) => if values.len() == 0 {
                lemma_bind_keeps(
                    natives,
                    params,
                    i + 1,
                    values,
                    used,
                    frame.insert(name, default),
                    st,
                    fuel,
                );
            } else {
                lemma_bind_keeps(
                    natives,
                    params,
                    i + 1,
                    values.skip(1),
                    used + 1,
                    frame.insert(name, values[0]),
                    st,
                    fuel,
                );
            },
        }
    }
}

/// The run of a callable keeps the scopes.
proof fn lemma_apply_keeps(natives: Seq<Box<dyn Native>>, lambda: Func, st: State, fuel: nat)
    requires
        st.wf(),
        keep_the_scopes(natives),
    ensures
        same_shape(apply(natives, lambda, st, fuel).state, st),
    decreases fuel, 4nat, 0nat,
{
    match lambda {
        Func::Unnamed(c) => lemma_chain_keeps(natives, c.body, st, fuel),
        Func::Named(_, c) => lemma_chain_keeps(natives, c.body, st, fuel),
        Func::Builtin(p) => lemma_primitive_keeps(natives, p, st, fuel),
        Func::Foreign(_, _, _) => {},
    }
}

/// A native function keeps the scopes.
proof fn lemma_primitive_keeps(natives: Seq<Box<dyn Native>>, p: Primitive, st: State, fuel: nat)
    requires
        st.wf(),
        keep_the_scopes(natives),
    ensures
        same_shape(primitive(natives, p, st, fuel).state, st),
    decreases fuel, 3nat, 0nat,
{
    let x = crate::semantics::argument(st, "X"@);
    let y = crate::semantics::argument(st, "Y"@);
    match p {
        Primitive::Funcall => match (x, y) {
            (Ok(Value::Lambda(l)), Ok(Value::List(args))) => law_evaluation_keeps_the_scopes(
                natives,
                Value::List(Box::new(Chain::Cons(Value::Lambda(l), args))),
                st,
                fuel,
            ),
            _ => {},
        },
        Primitive::Or => match x {
            Ok(list) => lemma_any_keeps(natives, list, st, fuel),
            _ => {},
        },
        Primitive::Cond => match x {
            Ok(list) => lemma_first_keeps(natives, list, st, fuel),
            _ => {},
        },
        _ => {},
    }
}

/// `or` keeps the scopes.
proof fn lemma_any_keeps(natives: Seq<Box<dyn Native>>, list: Value, st: State, fuel: nat)
    requires
        st.wf(),
        keep_the_scopes(natives),
    ensures
        same_shape(any_of(natives, list, st, fuel).state, st),
    decreases fuel, 2nat, crate::semantics::value_size(list),
{
    match list {
        Value::List(l) => {
            law_evaluation_keeps_the_scopes(natives, l.car(), st, fuel);
            let one = eval_value(natives, l.car(), st, fuel);
            match one.result {
                Ok(Value::Nil) => if crate::semantics::value_size(l.cdr())
                    < crate::semantics::value_size(list) {
                    lemma_any_keeps(natives, l.cdr(), one.state, fuel);
                },
                _ => {},
            }
        },
        _ => {},
    }
}

/// `cond` keeps the scopes.
proof fn lemma_first_keeps(natives: Seq<Box<dyn Native>>, list: Value, st: State, fuel: nat)
    requires
        st.wf(),
        keep_the_scopes(natives),
    ensures
        same_shape(first_of(natives, list, st, fuel).state, st),
    decreases fuel, 2nat, crate::semantics::value_size(list),
{
    match list {
        Value::List(l) => match l.car() {
            Value::List(clause) => {
                law_evaluation_keeps_the_scopes(natives, clause.car(), st, fuel);
                let test = eval_value(natives, clause.car(), st, fuel);
                match test.result {
                    Err(_) => {},
                    Ok(Value::T) => law_evaluation_keeps_the_scopes(
                        natives,
                        clause.cdr(),
                        test.state,
                        fuel,
                    ),
                    Ok(_) => if crate::semantics::value_size(l.cdr())
                        < crate::semantics::value_size(list) {
                        lemma_first_keeps(natives, l.cdr(), test.state, fuel);
                    },
                }
            },
            _ => {},
        },
        _ => {},
    }
}

/// What the facts from place `i` on give for an operation, after one more
/// fact was added behind them.
proof fn lemma_known_after_push(
    facts: Seq<Fact>,
    fact: Fact,
    i: int,
    op: Primitive,
    x: Seq<char>,
    y: Seq<char>,
)
    requires
        0 <= i <= facts.len(),
    ensures
        known_from(facts.push(fact), i, op, x, y) == match known_from(facts, i, op, x, y) {
            Some(r) => Some(r),
            None => if fact.op == op && fact.x == x && fact.y == y {
                Some(fact.result)
            } else {
                None
            },
        },
    decreases facts.len() - i,
{
    let more = facts.push(fact);
    if i < facts.len() {
        assert(more[i] == facts[i]);
        if !(facts[i].op == op && facts[i].x == x && facts[i].y == y) {
            lemma_known_after_push(facts, fact, i + 1, op, x, y);
        }
    } else {
        assert(more[i] == fact);
        assert(known_from(more, i + 1, op, x, y) is None);
    }
}

/// What an environment was told stays in force: a fact that it is told
/// later gives the result of an operation only where none was known.
pub proof fn law_facts_stay_in_force(
    st: State,
    fact: Fact,
    op: Primitive,
    x: Seq<char>,
    y: Seq<char>,
)
    ensures
        st.known(op, x, y) is Some ==> st.learn(fact).known(op, x, y) == st.known(op, x, y),
        st.known(op, x, y) is None && fact.op == op && fact.x == x && fact.y == y ==> st.learn(
            fact,
        ).known(op, x, y) == Some(fact.result),
        st.known(op, x, y) is None && !(fact.op == op && fact.x == x && fact.y == y)
            ==> st.learn(fact).known(op, x, y) is None,
{
    lemma_known_after_push(st.facts, fact, 0, op, x, y);
}

/// Interpreting a text leaves as many scopes as it found.
pub proof fn law_interpreting_keeps_the_scopes(
    natives: Seq<Box<dyn Native>>,
    toks: Seq<Lexeme>,
    last: Result<Value, Fault>,
    st: State,
)
    requires
        st.wf(),
        keep_the_scopes(natives),
    ensures
        same_shape(crate::run(natives, toks, last, st).state, st),
    decreases toks.len(),
{
    let parsed = crate::parse::parse_form(toks);
    match parsed.result {
        Err(_) => {},
        Ok(form) => {
            if parsed.rest.len() < toks.len() {
                law_evaluation_keeps_the_scopes(natives, form, st, crate::eval::DEPTH_LIMIT as nat);
                let one = eval_value(natives, form, st, crate::eval::DEPTH_LIMIT as nat);
                if !(one.result matches Err(Fault::FloatPending(_, _, _))) {
                    law_interpreting_keeps_the_scopes(natives, parsed.rest, one.result, one.state);
                }
            }
        },
    }
}

/// Whether an evaluation ended because the bound on the depth was reached.
pub open spec fn cut_short(r: Result<Value, Fault>) -> bool {
    r == Err::<Value, Fault>(Fault::DepthExceeded)
}

/// The bound on the depth cuts evaluations short and changes nothing else:
/// an evaluation that ends within a bound yields the same value and the
/// same environment under every greater bound.
pub proof fn law_a_greater_bound_changes_nothing(
    natives: Seq<Box<dyn Native>>,
    v: Value,
    st: State,
    fuel: nat,
    more: nat,
)
    requires
        fuel <= more,
        !cut_short(eval_value(natives, v, st, fuel).result),
    ensures
        eval_value(natives, v, st, more) == eval_value(natives, v, st, fuel),
    decreases fuel, 1nat, 0nat,
{
    match v {
        Value::List(l) => lemma_chain_more(natives, *l, st, fuel, more),
        _ => {},
    }
}

/// A greater bound changes nothing of the evaluation of a list.
proof fn lemma_chain_more(natives: Seq<Box<dyn Native>>, l: Chain, st: State, fuel: nat, more: nat)
    requires
        fuel <= more,
        !cut_short(eval_chain(natives, l, st, fuel).result),
    ensures
        eval_chain(natives, l, st, more) == eval_chain(natives, l, st, fuel),
    decreases fuel, 0nat, 0nat,
{
    if l.len() != 0 {
        let f = (fuel - 1) as nat;
        let g = (more - 1) as nat;
        law_a_greater_bound_changes_nothing(natives, l.car(), st, f, g);
        let first = eval_value(natives, l.car(), st, f);
        match first.result {
            Err(_) => {},
            Ok(r) => if !(l.cdr() is Nil) {
                match (r, l.cdr()) {
                    (Value::Lambda(lambda), Value::List(args)) => lemma_call_more(
                        natives,
                        *lambda,
                        *args,
                        (l.len() - 1) as nat,
                        first.state,
                        f,
                        g,
                    ),
                    (Value::Lambda(_), _) => {},
                    (_, Value::List(rest)) => lemma_sequence_more(
                        natives,
                        rest.items(),
                        Value::Nil,
                        first.state,
                        f,
                        g,
                    ),
                    (_, end) => law_a_greater_bound_changes_nothing(
                        natives,
                        end,
                        first.state,
                        f,
                        g,
                    ),
                }
            },
        }
    }
}

/// A greater bound changes nothing of the evaluation of items in turn.
proof fn lemma_sequence_more(
    natives: Seq<Box<dyn Native>>,
    items: Seq<Value>,
    last: Value,
    st: State,
    fuel: nat,
    more: nat,
)
    requires
        fuel <= more,
        !cut_short(eval_sequence(natives, items, last, st, fuel).result),
    ensures
        eval_sequence(natives, items, last, st, more) == eval_sequence(
            natives,
            items,
            last,
            st,
            fuel,
        ),
    decreases fuel, 2nat, items.len(),
{
    if items.len() != 0 {
        law_a_greater_bound_changes_nothing(natives, items[0], st, fuel, more);
        let one = eval_value(natives, items[0], st, fuel);
        match one.result {
            Err(_) => {},
            Ok(v) => lemma_sequence_more(natives, items.skip(1), v, one.state, fuel, more),
        }
    }
}

/// A greater bound changes nothing of a call.
proof fn lemma_call_more(
    natives: Seq<Box<dyn Native>>,
    lambda: Func,
    args: Chain,
    given: nat,
    st: State,
    fuel: nat,
    more: nat,
)
    requires
        fuel <= more,
        !cut_short(call(natives, lambda, args, given, st, fuel).result),
    ensures
        call(natives, lambda, args, given, st, more) == call(
            natives,
            lambda,
            args,
            given,
            st,
            fuel,
        ),
    decreases fuel, 5nat, 0nat,
{
    let params = lambda.params();
    if given < required_count(params) {
    } else if params.len() == 0 {
        lemma_apply_more(natives, lambda, st, fuel, more);
    } else {
        lemma_bind_more(natives, params, 0, args.items(), 0, Map::empty(), st, fuel, more);
        let bound = bind(natives, params, 0, args.items(), 0, Map::empty(), st, fuel);
        match bound.result {
            Err(e) => {},
            Ok(frame) => {
                lemma_apply_more(natives, lambda, bound.state.enter_with(frame), fuel, more);
            },
        }
    }
}

/// A greater bound changes nothing of the binding of arguments.
proof fn lemma_bind_more(
    natives: Seq<Box<dyn Native>>,
    params: Seq<Binding>,
    i: nat,
    values: Seq<Value>,
    used: nat,
    frame: Frame,
    st: State,
    fuel: nat,
    more: nat,
)
    requires
        fuel <= more,
        bind(natives, params, i, values, used, frame, st, fuel).result != Err::<Frame, Fault>(
            Fault::DepthExceeded,
        ),
    ensures
        bind(natives, params, i, values, used, frame, st, more) == bind(
            natives,
            params,
            i,
            values,
            used,
            frame,
            st,
            fuel,
        ),
    decreases fuel, 2nat, params.len() - i,
{
    if i < params.len() {
        match params[i as int] {
            Binding::Rest(name) => {},
            Binding::Normal(name) => if values.len() != 0 {
                law_a_greater_bound_changes_nothing(natives, values[0], st, fuel, more);
                let one = eval_value(natives, values[0], st, fuel);
                match one.result {
                    Err(e) => {},
                    Ok(v) => lemma_bind_more(
                        natives,
                        params,
                        i + 1,
                        values.skip(1),
                        used + 1,
                        frame.insert(name, v),
                        one.state,
                        fuel,
                        more,
                    ),
                }
            },
            Binding::Plain(name) => if values.len() != 0 {
                lemma_bind_more(
                    natives,
                    params,
                    i + 1,
                    values.skip(1),
                    used + 1,
                    frame.insert(name, values[0]),
                    st,
                    fuel,
                    more,
                );
            },
            Binding::Optional(name, default) => if values.len() == 0 {
                lemma_bind_more(
                    natives,
                    params,
                    i + 1,
                    values,
                    used,
                    frame.insert(name, default),
                    st,
                    fuel,
                    more,
                );
            } else {
                lemma_bind_more(
                    natives,
                    params,
                    i + 1,
                    values.skip(1),
                    used + 1,
                    frame.insert(name, values[0]),
                    st,
                    fuel,
                    more,
                );
            },
        }
    }
}

/// A greater bound changes nothing of the run of a callable.
proof fn lemma_apply_more(
    natives: Seq<Box<dyn Native>>,
    lambda: Func,
    st: State,
    fuel: nat,
    more: nat,
)
    requires
        fuel <= more,
        !cut_short(apply(natives, lambda, st, fuel).result),
    ensures
        apply(natives, lambda, st, more) == apply(natives, lambda, st, fuel),
    decreases fuel, 4nat, 0nat,
{
    match lambda {
        Func::Unnamed(c) => lemma_chain_more(natives, c.body, st, fuel, more),
        Func::Named(_, c) => lemma_chain_more(natives, c.body, st, fuel, more),
        Func::Builtin(p) => lemma_primitive_more(natives, p, st, fuel, more),
        Func::Foreign(_, _, _) => {},
    }
}

/// A greater bound changes nothing of a native function.
proof fn lemma_primitive_more(
    natives: Seq<Box<dyn Native>>,
    p: Primitive,
    st: State,
    fuel: nat,
    more: nat,
)
    requires
        fuel <= more,
        !cut_short(primitive(natives, p, st, fuel).result),
    ensures
        primitive(natives, p, st, more) == primitive(natives, p, st, fuel),
    decreases fuel, 3nat, 0nat,
{
    let x = crate::semantics::argument(st, "X"@);
    let y = crate::semantics::argument(st, "Y"@);
    match p {
        Primitive::Funcall => match (x, y) {
            (Ok(Value::Lambda(l)), Ok(Value::List(args))) => law_a_greater_bound_changes_nothing(
                natives,
                Value::List(Box::new(Chain::Cons(Value::Lambda(l), args))),
                st,
                fuel,
                more,
            ),
            _ => {},
        },
        Primitive::Or => match x {
            Ok(list) => lemma_any_more(natives, list, st, fuel, more),
            _ => {},
        },
        Primitive::Cond => match x {
            Ok(list) => lemma_first_more(natives, list, st, fuel, more),
            _ => {},
        },
        _ => {},
    }
}

/// A greater bound changes nothing of `or`.
proof fn lemma_any_more(natives: Seq<Box<dyn Native>>, list: Value, st: State, fuel: nat, more: nat)
    requires
        fuel <= more,
        !cut_short(any_of(natives, list, st, fuel).result),
    ensures
        any_of(natives, list, st, more) == any_of(natives, list, st, fuel),
    decreases fuel, 2nat, crate::semantics::value_size(list),
{
    match list {
        Value::List(l) => {
            law_a_greater_bound_changes_nothing(natives, l.car(), st, fuel, more);
            let one = eval_value(natives, l.car(), st, fuel);
            match one.result {
                Ok(Value::Nil) => if crate::semantics::value_size(l.cdr())
                    < crate::semantics::value_size(list) {
                    lemma_any_more(natives, l.cdr(), one.state, fuel, more);
                },
                _ => {},
            }
        },
        _ => {},
    }
}

/// A greater bound changes nothing of `cond`.
proof fn lemma_first_more(
    natives: Seq<Box<dyn Native>>,
    list: Value,
    st: State,
    fuel: nat,
    more: nat,
)
    requires
        fuel <= more,
        !cut_short(first_of(natives, list, st, fuel).result),
    ensures
        first_of(natives, list, st, more) == first_of(natives, list, st, fuel),
    decreases fuel, 2nat, crate::semantics::value_size(list),
{
    match list {
        Value::List(l) => match l.car() {
            Value::List(clause) => {
                let test = eval_value(natives, clause.car(), st, fuel);
                match test.result {
                    Err(_) => {
                        law_a_greater_bound_changes_nothing(natives, clause.car(), st, fuel, more);
                    },
                    Ok(Value::T) => {
                        law_a_greater_bound_changes_nothing(natives, clause.car(), st, fuel, more);
                        law_a_greater_bound_changes_nothing(
                            natives,
                            clause.cdr(),
                            test.state,
                            fuel,
                            more,
                        );
                    },
                    Ok(_) => {
                        law_a_greater_bound_changes_nothing(natives, clause.car(), st, fuel, more);
                        if crate::semantics::value_size(l.cdr()) < crate::semantics::value_size(
                            list,
                        ) {
                            lemma_first_more(natives, l.cdr(), test.state, fuel, more);
                        }
                    },
                }
            },
            _ => {},
        },
        _ => {},
    }
}

} // verus!
