//! Numeric tokens: which words read as numbers, and what integers they
//! denote.

use vstd::prelude::*;

verus! {

/// `-`.
pub const MINUS: u8 = 45;

/// `.`.
pub const POINT: u8 = 46;

/// `0`.
pub const ZERO: u8 = 48;

/// `9`.
pub const NINE: u8 = 57;

/// Whether the byte is a decimal digit.
pub open spec fn is_digit(c: u8) -> bool {
    ZERO <= c <= NINE
}

/// Whether the byte may stand in a number: a digit, `-` or `.`.
pub open spec fn is_num_char(c: u8) -> bool {
    is_digit(c) || c == MINUS || c == POINT
}

/// Whether every byte is a digit.
pub open spec fn all_digits(t: Seq<u8>) -> bool {
    forall|i: int| 0 <= i < t.len() ==> is_digit(#[trigger] t[i])
}

/// Whether the word is classified as a number: every byte may stand in a
/// number, and one of them is a digit.
pub open spec fn looks_numeric(t: Seq<u8>) -> bool {
    &&& forall|i: int| 0 <= i < t.len() ==> is_num_char(#[trigger] t[i])
    &&& exists|i: int| 0 <= i < t.len() && is_digit(#[trigger] t[i])
}

/// Whether the word holds a `.`.
pub open spec fn has_point(t: Seq<u8>) -> bool {
    exists|i: int| 0 <= i < t.len() && #[trigger] t[i] == POINT
}

/// The number that a digit stands for.
pub open spec fn digit_value(c: u8) -> nat {
    if is_digit(c) {
        (c - ZERO) as nat
    } else {
        0
    }
}

/// The number that a run of digits denotes in base ten.
pub open spec fn digits_value(t: Seq<u8>) -> nat
    decreases t.len(),
{
    if t.len() == 0 {
        0
    } else {
        digits_value(t.drop_last()) * 10 + digit_value(t.last())
    }
}

/// The integer that a word denotes: an optional `-`, then one digit or more.
pub open spec fn integer_of(t: Seq<u8>) -> Option<int> {
    if t.len() > 0 && t[0] == MINUS {
        if t.len() > 1 && all_digits(t.skip(1)) {
            Some(-(digits_value(t.skip(1)) as int))
        } else {
            None
        }
    } else if t.len() > 0 && all_digits(t) {
        Some(digits_value(t) as int)
    } else {
        None
    }
}

/// The integer that a word denotes, where it fits the machine word.
pub open spec fn machine_integer_of(t: Seq<u8>) -> Option<int> {
    match integer_of(t) {
        Some(v) => if isize::MIN <= v <= isize::MAX {
            Some(v)
        } else {
            None
        },
        None => None,
    }
}

/// Whether digits, one `.` and digits again make up the word, with a digit
/// on one side of the `.` at least.
pub open spec fn is_unsigned_float(t: Seq<u8>) -> bool {
    exists|k: int|
        0 <= k < t.len() && t.len() >= 2 && #[trigger] t[k] == POINT && all_digits(t.take(k))
            && all_digits(t.skip(k + 1))
}

/// Whether the word is a floating-point literal: an optional `-`, then
/// digits with one `.` among them.
pub open spec fn is_float_text(t: Seq<u8>) -> bool {
    if t.len() > 0 && t[0] == MINUS {
        is_unsigned_float(t.skip(1))
    } else {
        is_unsigned_float(t)
    }
}

/// A longer run of digits denotes no smaller a number.
pub proof fn lemma_digits_value_grows(t: Seq<u8>, k: int)
    requires
        0 <= k <= t.len(),
    ensures
        digits_value(t.take(k)) <= digits_value(t),
    decreases t.len() - k,
{
    if k < t.len() {
        lemma_digits_value_grows(t, k + 1);
        assert(t.take(k + 1).drop_last() =~= t.take(k));
    } else {
        assert(t.take(k) =~= t);
    }
}

/// Whether the byte is a decimal digit.
pub fn digit(c: u8) -> (r: bool)
    ensures
        r == is_digit(c),
{
    ZERO <= c && c <= NINE
}

/// Whether the word is classified as a number.
pub fn numeric(t: &Vec<u8>) -> (r: bool)
    ensures
        r == looks_numeric(t@),
{
    let mut seen_digit = false;
    let mut i: usize = 0;
    while i < t.len()
        invariant
            i <= t.len(),
            forall|j: int| 0 <= j < i ==> is_num_char(#[trigger] t@[j]),
            seen_digit == exists|j: int| 0 <= j < i && is_digit(#[trigger] t@[j]),
        decreases t.len() - i,
    {
        let c = t[i];
        if digit(c) {
            seen_digit = true;
        } else if !(c == MINUS || c == POINT) {
            return false;
        }
        i += 1;
    }
    seen_digit
}

/// Whether the word holds a `.`.
pub fn pointed(t: &Vec<u8>) -> (r: bool)
    ensures
        r == has_point(t@),
{
    let mut i: usize = 0;
    while i < t.len()
        invariant
            i <= t.len(),
            forall|j: int| 0 <= j < i ==> #[trigger] t@[j] != POINT,
        decreases t.len() - i,
    {
        if t[i] == POINT {
            return true;
        }
        i += 1;
    }
    false
}

/// The integer that the word denotes, where it denotes one that fits the
/// machine word.
pub fn parse_integer(t: &Vec<u8>) -> (r: Option<isize>)
    ensures
        match machine_integer_of(t@) {
            Some(v) => r == Some(v as isize),
            None => r is None,
        },
{
    let n = t.len();
    if n == 0 {
        return None;
    }
    let negative = t[0] == MINUS;
    let start: usize = if negative {
        1
    } else {
        0
    };
    if start == n {
        return None;
    }
    let ghost body = t@.skip(start as int);
    assert(t@.skip(0) =~= t@);
    let mut acc: isize = 0;
    let mut i: usize = start;
    while i < n
        invariant
            start <= i <= n,
            n == t.len(),
            n > 0,
            negative == (t@[0] == MINUS),
            start == if negative { 1usize } else { 0usize },
            body == t@.skip(start as int),
            all_digits(body.take(i - start)),
            negative ==> acc == -(digits_value(body.take(i - start)) as int),
            !negative ==> acc == digits_value(body.take(i - start)) as int,
        decreases n - i,
    {
        let c = t[i];
        assert(t@.skip(0) =~= t@);
        if !digit(c) {
            assert(!is_digit(body[i - start]));
            return None;
        }
        let d: isize = (c - ZERO) as isize;
        proof {
            assert(body.take(i - start + 1).drop_last() =~= body.take(i - start));
            assert(body.take(i - start + 1).last() == c);
            lemma_digits_value_grows(body, i - start + 1);
        }
        let scaled = match acc.checked_mul(10) {
            Some(v) => v,
            None => {
                return None;
            },
        };
        let next = if negative {
            scaled.checked_sub(d)
        } else {
            scaled.checked_add(d)
        };
        acc = match next {
            Some(v) => v,
            None => {
                return None;
            },
        };
        i += 1;
    }
    assert(body.take(n - start) =~= body);
    assert(t@.skip(0) =~= t@);
    Some(acc)
}

/// Whether digits, one `.` and digits again make up the bytes from `start`
/// on.
fn unsigned_float(t: &Vec<u8>, start: usize) -> (r: bool)
    requires
        start <= t.len(),
    ensures
        r == is_unsigned_float(t@.skip(start as int)),
{
    let ghost body = t@.skip(start as int);
    let n = t.len();
    let mut i: usize = start;
    while i < n && digit(t[i])
        invariant
            start <= i <= n,
            n == t.len(),
            body == t@.skip(start as int),
            all_digits(body.take(i - start)),
        decreases n - i,
    {
        i += 1;
    }
    if i == n || t[i] != POINT {
        assert(!is_unsigned_float(body)) by {
            if is_unsigned_float(body) {
                let k = choose|k: int|
                    0 <= k < body.len() && body.len() >= 2 && #[trigger] body[k] == POINT
                        && all_digits(body.take(k)) && all_digits(body.skip(k + 1));
                if k < i - start {
                    assert(is_digit(body.take(i - start)[k]));
                } else if k > i - start {
                    assert(body.take(k)[i - start] == body[i - start]);
                    assert(i < n);
                    assert(!is_digit(body[i - start]));
                }
            }
        }
        return false;
    }
    let point: usize = i;
    i += 1;
    while i < n && digit(t[i])
        invariant
            point < i <= n,
            n == t.len(),
            body == t@.skip(start as int),
            forall|j: int| point < j < i ==> is_digit(#[trigger] t@[j]),
        decreases n - i,
    {
        i += 1;
    }
    let ok = i == n && n - start >= 2;
    proof {
        let p = point - start;
        if ok {
            assert(all_digits(body.skip(p + 1))) by {
                assert forall|j: int| 0 <= j < body.skip(p + 1).len() implies is_digit(
                    #[trigger] body.skip(p + 1)[j],
                ) by {
                    assert(body.skip(p + 1)[j] == t@[point + 1 + j]);
                }
            }
            assert(body[p] == POINT);
        } else {
            if is_unsigned_float(body) {
                let k = choose|k: int|
                    0 <= k < body.len() && body.len() >= 2 && #[trigger] body[k] == POINT
                        && all_digits(body.take(k)) && all_digits(body.skip(k + 1));
                if k < p {
                    assert(is_digit(body.take(p)[k]));
                } else if k > p {
                    assert(body.take(k)[p] == body[p]);
                } else {
                    assert(i < n);
                    assert(body.skip(k + 1)[i - point - 1] == t@[i as int]);
                }
            }
        }
    }
    ok
}

/// Whether the word is a floating-point literal.
pub fn float_text(t: &Vec<u8>) -> (r: bool)
    ensures
        r == is_float_text(t@),
{
    if t.len() > 0 && t[0] == MINUS {
        unsigned_float(t, 1)
    } else {
        assert(t@.skip(0) =~= t@);
        unsigned_float(t, 0)
    }
}

} // verus!
