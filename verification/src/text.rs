//! Text helpers: the few operations on strings that the interpreter needs
//! and that the standard library performs.

use vstd::prelude::*;

verus! {

/// The text that `String::from_utf8_lossy` makes of the given bytes.
pub uninterp spec fn lossy_text(bytes: Seq<u8>) -> Seq<char>;

/// The text that `str::to_uppercase` makes of the given text.
pub uninterp spec fn upper_text(text: Seq<char>) -> Seq<char>;

/// Whether every byte is an ASCII character.
pub open spec fn all_ascii(bytes: Seq<u8>) -> bool {
    forall|i: int| 0 <= i < bytes.len() ==> #[trigger] bytes[i] < 128
}

/// The text whose characters are the given ASCII bytes.
pub open spec fn ascii_text(bytes: Seq<u8>) -> Seq<char> {
    Seq::new(bytes.len(), |i: int| bytes[i] as char)
}

/// The text of a word: its characters where it is all ASCII, else what
/// `String::from_utf8_lossy` makes of it.
pub open spec fn word_text(bytes: Seq<u8>) -> Seq<char> {
    if all_ascii(bytes) {
        ascii_text(bytes)
    } else {
        lossy_text(bytes)
    }
}

/// Decodes bytes as UTF-8 by `String::from_utf8_lossy`, which puts U+FFFD
/// in place of what is not valid UTF-8. The contract is not proved; it says
/// what the documentation of the standard library gives: the result
/// depends on the bytes alone, and bytes that are all ASCII decode to
/// themselves.
#[verifier::external_body]
fn decode_lossy(bytes: &Vec<u8>) -> (s: String)
    ensures
        s@ == lossy_text(bytes@),
        all_ascii(bytes@) ==> s@ == ascii_text(bytes@),
{
    String::from_utf8_lossy(bytes).into_owned()
}

/// The text of a word.
pub fn decode(bytes: &Vec<u8>) -> (s: String)
    ensures
        s@ == word_text(bytes@),
{
    decode_lossy(bytes)
}

/// Whether every character is an ASCII character.
pub open spec fn is_ascii_text(text: Seq<char>) -> bool {
    vstd::utf8::is_ascii_chars(text)
}

/// The upper-case form of an ASCII character: the capital letter of a small
/// letter, any other character as it is.
pub open spec fn upper_char(c: char) -> char {
    if 97 <= (c as u32) <= 122 {
        ((c as u8) - 32) as u8 as char
    } else {
        c
    }
}

/// The upper-case form of a text of ASCII characters, character by
/// character.
pub open spec fn ascii_upper_text(text: Seq<char>) -> Seq<char> {
    Seq::new(text.len(), |i: int| upper_char(text[i]))
}

/// The text in upper case: character by character where it is all ASCII,
/// else what `str::to_uppercase` makes of it.
pub open spec fn folded(text: Seq<char>) -> Seq<char> {
    if is_ascii_text(text) {
        ascii_upper_text(text)
    } else {
        upper_text(text)
    }
}

/// Folds text to upper case by `str::to_uppercase`. The contract is not
/// proved; it says what the documentation of the standard library gives:
/// the result depends on the text alone, and in a text that is all ASCII
/// each small letter becomes its capital letter and every other character
/// stays.
#[verifier::external_body]
fn to_upper(text: &str) -> (s: String)
    ensures
        s@ == upper_text(text@),
        is_ascii_text(text@) ==> s@ == ascii_upper_text(text@),
{
    text.to_uppercase()
}

/// The text in upper case.
pub fn fold(text: &str) -> (s: String)
    ensures
        s@ == folded(text@),
{
    to_upper(text)
}

/// Whether the string reads as the given text.
pub fn text_is(s: &String, text: &str) -> (r: bool)
    ensures
        r == (s@ == text@),
{
    let other = String::from_str(text);
    *s == other
}

/// The character of a decimal digit.
pub open spec fn digit_char(d: int) -> char {
    if d == 0 {
        '0'
    } else if d == 1 {
        '1'
    } else if d == 2 {
        '2'
    } else if d == 3 {
        '3'
    } else if d == 4 {
        '4'
    } else if d == 5 {
        '5'
    } else if d == 6 {
        '6'
    } else if d == 7 {
        '7'
    } else if d == 8 {
        '8'
    } else {
        '9'
    }
}

/// The decimal digits of a natural number, without leading zeros.
pub open spec fn digits_text(n: nat) -> Seq<char>
    decreases n,
{
    if n < 10 {
        seq![digit_char(n as int)]
    } else {
        digits_text(n / 10).push(digit_char((n % 10) as int))
    }
}

/// The decimal text of an integer: a minus sign where it is negative, then
/// its digits.
pub open spec fn decimal_text(n: int) -> Seq<char> {
    if n < 0 {
        seq!['-'] + digits_text((-n) as nat)
    } else {
        digits_text(n as nat)
    }
}

/// The text of one decimal digit.
fn digit_str(d: u8) -> (r: &'static str)
    requires
        d < 10,
    ensures
        r@ == seq![digit_char(d as int)],
{
    proof {
        reveal_strlit("0");
        reveal_strlit("1");
        reveal_strlit("2");
        reveal_strlit("3");
        reveal_strlit("4");
        reveal_strlit("5");
        reveal_strlit("6");
        reveal_strlit("7");
        reveal_strlit("8");
        reveal_strlit("9");
    }
    let r = if d == 0 {
        "0"
    } else if d == 1 {
        "1"
    } else if d == 2 {
        "2"
    } else if d == 3 {
        "3"
    } else if d == 4 {
        "4"
    } else if d == 5 {
        "5"
    } else if d == 6 {
        "6"
    } else if d == 7 {
        "7"
    } else if d == 8 {
        "8"
    } else {
        "9"
    };
    assert(r@ =~= seq![digit_char(d as int)]);
    r
}

/// Appends the digits of `n` to `out`.
fn push_digits(out: &mut String, n: u128)
    ensures
        final(out)@ == old(out)@ + digits_text(n as nat),
    decreases n,
{
    if n >= 10 {
        push_digits(out, n / 10);
    }
    out.append(digit_str((n % 10) as u8));
    assert(final(out)@ =~= old(out)@ + digits_text(n as nat));
}

/// The decimal text of an integer.
pub fn integer_text(n: isize) -> (s: String)
    ensures
        s@ == decimal_text(n as int),
{
    let mut out = String::new();
    if n < 0 {
        proof {
            reveal_strlit("-");
        }
        out.append("-");
        let m: u128 = (-(n as i128)) as u128;
        push_digits(&mut out, m);
        assert(out@ =~= decimal_text(n as int));
    } else {
        push_digits(&mut out, n as u128);
        assert(out@ =~= decimal_text(n as int));
    }
    out
}

/// The decimal text of a count.
pub fn count_text(n: usize) -> (s: String)
    ensures
        s@ == digits_text(n as nat),
{
    let mut out = String::new();
    push_digits(&mut out, n as u128);
    assert(out@ =~= digits_text(n as nat));
    out
}

} // verus!
