//! The canonical text of a floating-point number: the form in which two
//! literals of one decimal number read alike.

use vstd::prelude::*;
use vstd::slice::slice_to_vec;
use crate::number::{all_digits, digit, is_digit, MINUS, POINT, ZERO};
use crate::text::{all_ascii, ascii_text, decode, is_ascii_text, text_is};

verus! {

/// The place of the first `.` at or behind place `i`, or the length where
/// there is none.
pub open spec fn first_point(t: Seq<u8>, i: int) -> int
    decreases t.len() - i,
{
    if i < 0 || i >= t.len() {
        t.len() as int
    } else if t[i] == POINT {
        i
    } else {
        first_point(t, i + 1)
    }
}

/// A decimal number as it is written: its sign, the digits in front of the
/// `.` and the digits behind it.
pub struct Decimal {
    pub negative: bool,
    pub whole: Seq<u8>,
    pub fraction: Seq<u8>,
}

/// The decimal number that a word writes: an optional `-`, digits, and
/// optionally a `.` and digits, with one digit at least.
pub open spec fn decimal_of(t: Seq<u8>) -> Option<Decimal> {
    let negative = t.len() > 0 && t[0] == MINUS;
    let body = if negative {
        t.skip(1)
    } else {
        t
    };
    let p = first_point(body, 0);
    let whole = body.take(p);
    let fraction = if p < body.len() {
        body.skip(p + 1)
    } else {
        Seq::<u8>::empty()
    };
    if all_digits(whole) && all_digits(fraction) && whole.len() + fraction.len() >= 1 {
        Some(Decimal { negative, whole, fraction })
    } else {
        None
    }
}

/// The number of zeros that the digits begin with.
pub open spec fn zeros_in_front(t: Seq<u8>) -> nat
    decreases t.len(),
{
    if t.len() > 0 && t[0] == ZERO {
        1 + zeros_in_front(t.skip(1))
    } else {
        0
    }
}

/// The number of zeros that the digits end with.
pub open spec fn zeros_behind(t: Seq<u8>) -> nat
    decreases t.len(),
{
    if t.len() > 0 && t.last() == ZERO {
        1 + zeros_behind(t.drop_last())
    } else {
        0
    }
}

/// The canonical form of a decimal number: its sign; the digits in front of
/// the `.` without the zeros that they begin with, or one `0` where none is
/// left; and a `.` with the digits behind it without the zeros that they
/// end with, where one is left.
pub open spec fn canonical_decimal(d: Decimal) -> Seq<u8> {
    let whole = d.whole.skip(zeros_in_front(d.whole) as int);
    let fraction = d.fraction.take(d.fraction.len() - zeros_behind(d.fraction));
    (if d.negative {
        seq![MINUS]
    } else {
        Seq::<u8>::empty()
    }) + (if whole.len() == 0 {
        seq![ZERO]
    } else {
        whole
    }) + (if fraction.len() == 0 {
        Seq::<u8>::empty()
    } else {
        seq![POINT] + fraction
    })
}

/// The bytes of a text of ASCII characters.
pub open spec fn text_bytes(t: Seq<char>) -> Seq<u8> {
    Seq::new(t.len(), |i: int| t[i] as u8)
}

/// The canonical text of a floating-point number: the canonical form of the
/// decimal number that the text writes, and the text itself where it writes
/// none.
pub open spec fn canonical(t: Seq<char>) -> Seq<char> {
    if is_ascii_text(t) {
        match decimal_of(text_bytes(t)) {
            Some(d) => ascii_text(canonical_decimal(d)),
            None => t,
        }
    } else {
        t
    }
}

/// The text by which a floating-point number is compared: its canonical
/// text, without the sign where that is a zero's.
pub open spec fn float_key(t: Seq<char>) -> Seq<char> {
    if canonical(t) == "-0"@ {
        "0"@
    } else {
        canonical(t)
    }
}

/// Whether two floating-point numbers are equal: they are compared by
/// their canonical texts, a negative zero equals zero, and what is not a
/// number equals nothing.
pub open spec fn same_float(x: Seq<char>, y: Seq<char>) -> bool {
    float_key(x) == float_key(y) && float_key(x) != "NaN"@
}

/// A zero counts at the front as at any place.
proof fn lemma_zeros_in_front_step(t: Seq<u8>, k: int)
    requires
        0 <= k < t.len(),
        forall|j: int| 0 <= j < k ==> #[trigger] t[j] == ZERO,
    ensures
        t[k] == ZERO ==> zeros_in_front(t) == k + 1 + zeros_in_front(t.skip(k + 1)),
        t[k] != ZERO ==> zeros_in_front(t) == k,
        zeros_in_front(t.skip(t.len() as int)) == 0,
    decreases k,
{
    if k == 0 {
        assert(t.skip(0) =~= t);
    } else {
        let s = t.skip(1);
        assert(t[0] == ZERO);
        assert forall|j: int| 0 <= j < k - 1 implies #[trigger] s[j] == ZERO by {
            assert(t[j + 1] == ZERO);
        }
        lemma_zeros_in_front_step(s, k - 1);
        assert(s.skip(k) =~= t.skip(k + 1));
    }
}

/// Digits that are all zeros begin with as many zeros as they are long.
proof fn lemma_all_zeros_in_front(t: Seq<u8>)
    requires
        forall|j: int| 0 <= j < t.len() ==> #[trigger] t[j] == ZERO,
    ensures
        zeros_in_front(t) == t.len(),
    decreases t.len(),
{
    if t.len() > 0 {
        let s = t.skip(1);
        assert forall|j: int| 0 <= j < s.len() implies #[trigger] s[j] == ZERO by {
            assert(t[j + 1] == ZERO);
        }
        lemma_all_zeros_in_front(s);
    }
}

/// A zero counts at the end as at any place.
proof fn lemma_zeros_behind_step(t: Seq<u8>, k: int)
    requires
        0 <= k <= t.len(),
        forall|j: int| k <= j < t.len() ==> #[trigger] t[j] == ZERO,
    ensures
        k > 0 && t[k - 1] != ZERO ==> zeros_behind(t) == t.len() - k,
        k == 0 ==> zeros_behind(t) == t.len(),
    decreases t.len() - k,
{
    if k < t.len() {
        let s = t.drop_last();
        assert(t.last() == ZERO);
        assert forall|j: int| k <= j < s.len() implies #[trigger] s[j] == ZERO by {
            assert(t[j] == ZERO);
        }
        lemma_zeros_behind_step(s, k);
        if k > 0 {
            assert(s[k - 1] == t[k - 1]);
        }
    }
}

/// Appends the bytes of `t` from `from` up to `to`.
fn push_part(out: &mut Vec<u8>, t: &Vec<u8>, from: usize, to: usize)
    requires
        from <= to <= t.len(),
    ensures
        final(out)@ == old(out)@ + t@.subrange(from as int, to as int),
{
    let mut i: usize = from;
    while i < to
        invariant
            from <= i <= to <= t.len(),
            out@ == old(out)@ + t@.subrange(from as int, i as int),
        decreases to - i,
    {
        out.push(t[i]);
        assert(out@ =~= old(out)@ + t@.subrange(from as int, i + 1));
        i += 1;
    }
    assert(t@.subrange(from as int, from as int) =~= Seq::<u8>::empty());
}

/// The number of bytes that the sign takes.
pub open spec fn sign_len(t: Seq<u8>) -> int {
    if t.len() > 0 && t[0] == MINUS {
        1
    } else {
        0
    }
}

/// Where the digits of the decimal number stand that the word writes, if it
/// writes one: the place behind the digits in front of the `.`, and the
/// place of the first digit behind it.
fn decimal_places(t: &Vec<u8>) -> (r: Option<(usize, usize)>)
    ensures
        match decimal_of(t@) {
            Some(d) => r is Some && ({
                let (p, begin) = r->Some_0;
                &&& sign_len(t@) <= p <= begin <= t@.len()
                &&& d.negative == (sign_len(t@) == 1)
                &&& d.whole == t@.subrange(sign_len(t@), p as int)
                &&& d.fraction == t@.subrange(begin as int, t@.len() as int)
                &&& all_digits(d.whole)
                &&& all_digits(d.fraction)
            }),
            None => r is None,
        },
{
    let n: usize = t.len();
    let negative = n > 0 && t[0] == MINUS;
    let start: usize = if negative {
        1
    } else {
        0
    };
    let ghost body = t@.skip(start as int);
    assert(t@.skip(0) =~= t@);
    let mut p: usize = start;
    while p < n && t[p] != POINT
        invariant
            start <= p <= n,
            n == t.len(),
            start == sign_len(t@),
            body == t@.skip(start as int),
            forall|j: int| start <= j < p ==> is_digit(#[trigger] t@[j]),
            forall|j: int| 0 <= j < p - start ==> #[trigger] body[j] != POINT,
        decreases n - p,
    {
        if !digit(t[p]) {
            proof {
                assert(t@.skip(0) =~= t@);
                assert(body[p - start] == t@[p as int]);
                lemma_point_skips(body, 0, p - start + 1);
                lemma_point_from(body, p - start + 1);
                let q = first_point(body, 0);
                assert(body.take(q)[p - start] == t@[p as int]);
            }
            return None;
        }
        p += 1;
    }
    proof {
        lemma_point_skips(body, 0, p - start);
        lemma_point_from(body, p - start);
    }
    assert(first_point(body, 0) == p - start);
    let ghost whole = body.take(p - start);
    let begin: usize = if p < n {
        p + 1
    } else {
        n
    };
    let ghost fraction = if p < n {
        body.skip(p - start + 1)
    } else {
        Seq::<u8>::empty()
    };
    assert(fraction =~= t@.subrange(begin as int, n as int));
    assert(whole =~= t@.subrange(start as int, p as int));
    assert(!all_digits(fraction) ==> decimal_of(t@) is None);
    let mut j: usize = begin;
    while j < n
        invariant
            begin <= j <= n,
            n == t.len(),
            fraction == t@.subrange(begin as int, n as int),
            !all_digits(fraction) ==> decimal_of(t@) is None,
            forall|k: int| begin <= k < j ==> is_digit(#[trigger] t@[k]),
        decreases n - j,
    {
        if !digit(t[j]) {
            assert(fraction[j - begin] == t@[j as int]);
            return None;
        }
        j += 1;
    }
    assert(all_digits(whole)) by {
        assert forall|k: int| 0 <= k < whole.len() implies is_digit(#[trigger] whole[k]) by {
            assert(whole[k] == t@[start + k]);
        }
    }
    assert(all_digits(fraction)) by {
        assert forall|k: int| 0 <= k < fraction.len() implies is_digit(
            #[trigger] fraction[k],
        ) by {
            assert(fraction[k] == t@[begin + k]);
        }
    }
    if (p - start) + (n - begin) == 0 {
        return None;
    }
    Some((p, begin))
}

/// The place of the first byte from `from` up to `to` that is no zero, or
/// `to` where all are.
fn skip_zeros(t: &Vec<u8>, from: usize, to: usize) -> (a: usize)
    requires
        from <= to <= t.len(),
    ensures
        from <= a <= to,
        a - from == zeros_in_front(t@.subrange(from as int, to as int)),
{
    let ghost part = t@.subrange(from as int, to as int);
    let mut a: usize = from;
    while a < to && t[a] == ZERO
        invariant
            from <= a <= to <= t.len(),
            part == t@.subrange(from as int, to as int),
            forall|k: int| 0 <= k < a - from ==> #[trigger] part[k] == ZERO,
        decreases to - a,
    {
        a += 1;
    }
    proof {
        if a < to {
            assert(part[a - from] == t@[a as int]);
            lemma_zeros_in_front_step(part, a - from);
        } else {
            lemma_all_zeros_in_front(part);
        }
    }
    a
}

/// The place behind the last byte from `from` up to `to` that is no zero,
/// or `from` where all are.
fn drop_zeros(t: &Vec<u8>, from: usize, to: usize) -> (b: usize)
    requires
        from <= to <= t.len(),
    ensures
        from <= b <= to,
        to - b == zeros_behind(t@.subrange(from as int, to as int)),
{
    let ghost part = t@.subrange(from as int, to as int);
    let mut b: usize = to;
    while b > from && t[b - 1] == ZERO
        invariant
            from <= b <= to <= t.len(),
            part == t@.subrange(from as int, to as int),
            forall|k: int| b - from <= k < part.len() ==> #[trigger] part[k] == ZERO,
        decreases b,
    {
        b -= 1;
    }
    proof {
        if b > from {
            assert(part[b - from - 1] == t@[b - 1]);
        }
        lemma_zeros_behind_step(part, b - from);
    }
    b
}

/// The canonical form of the decimal number that the word writes, if it
/// writes one.
pub fn canonical_bytes(t: &Vec<u8>) -> (r: Option<Vec<u8>>)
    ensures
        match decimal_of(t@) {
            Some(d) => r is Some && r->Some_0@ == canonical_decimal(d),
            None => r is None,
        },
        r matches Some(v) ==> all_ascii(v@),
{
    let (p, begin) = match decimal_places(t) {
        Some(places) => places,
        None => {
            return None;
        },
    };
    let n: usize = t.len();
    let negative = n > 0 && t[0] == MINUS;
    let start: usize = if negative {
        1
    } else {
        0
    };
    let ghost d = decimal_of(t@)->Some_0;
    let a = skip_zeros(t, start, p);
    let b = drop_zeros(t, begin, n);
    let mut out: Vec<u8> = Vec::new();
    if negative {
        out.push(MINUS);
    }
    let ghost sign = out@;
    if a == p {
        out.push(ZERO);
    } else {
        push_part(&mut out, t, a, p);
    }
    let ghost front = out@;
    if b > begin {
        out.push(POINT);
        push_part(&mut out, t, begin, b);
    }
    proof {
        let whole = d.whole.skip(zeros_in_front(d.whole) as int);
        let fraction = d.fraction.take(d.fraction.len() - zeros_behind(d.fraction));
        assert(whole =~= t@.subrange(a as int, p as int));
        assert(fraction =~= t@.subrange(begin as int, b as int));
        let first = if whole.len() == 0 {
            seq![ZERO]
        } else {
            whole
        };
        let second = if fraction.len() == 0 {
            Seq::<u8>::empty()
        } else {
            seq![POINT] + fraction
        };
        assert(front =~= sign + first);
        assert(out@ =~= front + second);
        assert(out@ =~= canonical_decimal(d));
        assert forall|k: int| 0 <= k < whole.len() implies #[trigger] whole[k] < 128 by {
            assert(is_digit(d.whole[k + zeros_in_front(d.whole)]));
        }
        assert forall|k: int| 0 <= k < fraction.len() implies #[trigger] fraction[k] < 128 by {
            assert(is_digit(d.fraction[k]));
        }
        assert forall|k: int| 0 <= k < out@.len() implies #[trigger] out@[k] < 128 by {
            if k < sign.len() {
            } else if k < front.len() {
                assert(out@[k] == first[k - sign.len()]);
            } else {
                assert(out@[k] == second[k - front.len()]);
                if k > front.len() {
                    assert(second[k - front.len()] == fraction[k - front.len() - 1]);
                }
            }
        }
    }
    Some(out)
}

/// The first `.` from a place on stands at or behind the place.
proof fn lemma_point_from(t: Seq<u8>, i: int)
    requires
        0 <= i <= t.len(),
    ensures
        i <= first_point(t, i) <= t.len(),
        first_point(t, i) < t.len() ==> t[first_point(t, i)] == POINT,
        forall|j: int| i <= j < first_point(t, i) ==> #[trigger] t[j] != POINT,
    decreases t.len() - i,
{
    if i < t.len() && t[i] != POINT {
        lemma_point_from(t, i + 1);
    }
}

/// Where no `.` stands between two places, the first `.` from the one is
/// the first from the other.
proof fn lemma_point_skips(t: Seq<u8>, i: int, k: int)
    requires
        0 <= i <= k <= t.len(),
    ensures
        (forall|j: int| i <= j < k ==> #[trigger] t[j] != POINT) ==> first_point(t, i)
            == first_point(t, k),
    decreases k - i,
{
    if i < k {
        lemma_point_skips(t, i + 1, k);
    }
}

/// The canonical text of a floating-point number.
pub fn canonical_text(text: &str) -> (s: String)
    ensures
        s@ == canonical(text@),
{
    broadcast use vstd::string::is_ascii_spec_bytes;

    if !text.is_ascii() {
        return String::from_str(text);
    }
    let bytes = slice_to_vec(text.as_bytes());
    assert(bytes@ =~= text_bytes(text@));
    match canonical_bytes(&bytes) {
        Some(out) => decode(&out),
        None => String::from_str(text),
    }
}

/// Whether two floating-point numbers are equal.
pub fn equal_floats(x: &str, y: &str) -> (r: bool)
    ensures
        r == same_float(x@, y@),
{
    let a = canonical_text(x);
    let b = canonical_text(y);
    let zero = String::from_str("0");
    let a = if text_is(&a, "-0") {
        zero.clone()
    } else {
        a
    };
    let b = if text_is(&b, "-0") {
        zero
    } else {
        b
    };
    a == b && !text_is(&a, "NaN")
}

} // verus!
