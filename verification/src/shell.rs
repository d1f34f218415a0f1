//! What a front end needs to know of a line before it hands it over.

use vstd::prelude::*;
use vstd::string::StringSliceAdditionalSpecFns;

verus! {

/// `\`.
pub const ESCAPE: u8 = 92;

/// `(`.
pub const OPEN: u8 = 40;

/// `)`.
pub const CLOSE: u8 = 41;

/// The number of parentheses that the bytes from `i` on leave open, added to
/// `count`: each `(` counts one up and each `)` one down, but not behind a
/// `\\`; `escape` says whether the byte at `i` stands behind one.
pub open spec fn open_parens(bytes: Seq<u8>, i: int, escape: bool, count: int) -> int
    decreases bytes.len() - i,
{
    if i < 0 || i >= bytes.len() {
        count
    } else {
        let c = bytes[i];
        if c == ESCAPE {
            open_parens(bytes, i + 1, !escape, count)
        } else if escape {
            open_parens(bytes, i + 1, false, count)
        } else if c == OPEN {
            open_parens(bytes, i + 1, false, count + 1)
        } else if c == CLOSE {
            open_parens(bytes, i + 1, false, count - 1)
        } else {
            open_parens(bytes, i + 1, false, count)
        }
    }
}

/// Whether the line closes every parenthesis that it opens.
pub fn quotes_matched(input: &str) -> (r: bool)
    ensures
        r == (open_parens(input.spec_bytes(), 0, false, 0) == 0),
{
    let bytes = input.as_bytes();
    let n: usize = bytes.len();
    let mut escape = false;
    let mut count: i128 = 0;
    let mut i: usize = 0;
    while i < n
        invariant
            i <= n,
            n == bytes@.len(),
            bytes@ == input.spec_bytes(),
            -(i as int) <= count <= i as int,
            open_parens(bytes@, i as int, escape, count as int) == open_parens(
                bytes@,
                0,
                false,
                0,
            ),
        decreases n - i,
    {
        let c = bytes[i];
        if c == ESCAPE {
            escape = !escape;
        } else if escape {
            escape = false;
        } else if c == OPEN {
            count = count + 1;
        } else if c == CLOSE {
            count = count - 1;
        }
        i += 1;
    }
    count == 0
}

} // verus!
