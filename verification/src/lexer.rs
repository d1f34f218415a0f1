//! The tokenizer: from bytes to tokens, one token at a call.

use vstd::prelude::*;
use vstd::slice::slice_to_vec;
use crate::number::{
    float_text, is_float_text, looks_numeric, machine_integer_of, numeric, parse_integer,
    pointed, has_point,
};
use crate::text::{all_ascii, ascii_text, decode, word_text};

verus! {

/// A space.
pub const DELIM: u8 = 32;

/// A newline.
pub const NEWLINE: u8 = 10;

/// A tab.
pub const TAB: u8 = 9;

/// `(`.
pub const PAREN_LEFT: u8 = 40;

/// `)`.
pub const PAREN_RIGHT: u8 = 41;

/// `'`.
pub const QUOTE: u8 = 39;

/// `"`, which opens and closes a string.
pub const STRING: u8 = 34;

/// `\`, after which a byte is taken as it stands.
pub const ESCAPE: u8 = 92;

/// `.`.
pub const DOT: u8 = 46;

/// `;`, which begins a comment.
pub const COMMENT: u8 = 59;

/// A token of the language.
#[derive(Clone, Debug, PartialEq)]
pub enum Token {
    Integer(isize),
    /// A floating-point literal, as the text that was read.
    Float(String),
    Quote,
    Dot,
    Symbol(String),
    String(String),
    ParenLeft,
    ParenRight,
}

/// Why a word could not be made a token.
#[derive(Clone, Debug, PartialEq)]
pub enum LexError {
    /// The word is made of digits, `-` and `.` and holds a digit, yet it
    /// denotes no number.
    MalformedNumber(String),
}

/// The model of a token.
pub enum Lexeme {
    Integer(int),
    Float(Seq<char>),
    Quote,
    Dot,
    Symbol(Seq<char>),
    Str(Seq<char>),
    ParenLeft,
    ParenRight,
    /// A word that looks like a number and denotes none.
    Malformed(Seq<char>),
}

/// The model of what one call of the tokenizer hands out.
pub open spec fn lexeme_of(r: Result<Token, LexError>) -> Lexeme {
    match r {
        Ok(Token::Integer(n)) => Lexeme::Integer(n as int),
        Ok(Token::Float(s)) => Lexeme::Float(s@),
        Ok(Token::Quote) => Lexeme::Quote,
        Ok(Token::Dot) => Lexeme::Dot,
        Ok(Token::Symbol(s)) => Lexeme::Symbol(s@),
        Ok(Token::String(s)) => Lexeme::Str(s@),
        Ok(Token::ParenLeft) => Lexeme::ParenLeft,
        Ok(Token::ParenRight) => Lexeme::ParenRight,
        Err(LexError::MalformedNumber(s)) => Lexeme::Malformed(s@),
    }
}

impl View for Token {
    type V = Lexeme;

    open spec fn view(&self) -> Lexeme {
        lexeme_of(Ok(*self))
    }
}

impl View for LexError {
    type V = Lexeme;

    open spec fn view(&self) -> Lexeme {
        lexeme_of(Err(*self))
    }
}

/// Whether the byte ends a word and is dropped: a space, a tab or a newline.
pub open spec fn is_delimiter(c: u8) -> bool {
    c == DELIM || c == NEWLINE || c == TAB
}

/// Whether the byte is a parenthesis.
pub open spec fn is_paren(c: u8) -> bool {
    c == PAREN_LEFT || c == PAREN_RIGHT
}

/// Where the tokenizer stands inside a word.
pub struct Mode {
    pub in_string: bool,
    pub escape: bool,
    pub in_comment: bool,
}

/// A word that was cut from the input, and the number of bytes that were
/// used up for it.
pub struct Word {
    pub bytes: Seq<u8>,
    pub used: int,
}

/// Cuts one word from `input`, going on at byte `i` in mode `m` with `word`
/// gathered so far. The rules, the first that fits at each byte:
/// in a comment everything up to the next newline is dropped;
/// a byte that follows `\` is taken as it stands;
/// `;` begins a comment; `\` is taken and marks the next byte;
/// `"` is taken, and ends the word where it closes a string;
/// in a string every byte is taken;
/// a parenthesis or `'` is a word of its own where no word is under way;
/// a parenthesis ends the word under way and stays in the input;
/// a delimiter ends the word under way, and is dropped;
/// any other byte is taken.
/// The end of the input ends the word.
pub open spec fn cut(input: Seq<u8>, i: int, m: Mode, word: Seq<u8>) -> Word
    decreases input.len() - i,
{
    if i < 0 || i >= input.len() {
        Word { bytes: word, used: input.len() as int }
    } else {
        let c = input[i];
        if m.in_comment {
            cut(input, i + 1, Mode { in_comment: c != NEWLINE, ..m }, word)
        } else if m.escape {
            cut(input, i + 1, Mode { escape: false, ..m }, word.push(c))
        } else if c == COMMENT {
            cut(input, i + 1, Mode { in_comment: true, ..m }, word)
        } else if c == ESCAPE {
            cut(input, i + 1, Mode { escape: true, ..m }, word.push(c))
        } else if c == STRING {
            if m.in_string {
                Word { bytes: word.push(c), used: i + 1 }
            } else {
                cut(input, i + 1, Mode { in_string: true, ..m }, word.push(c))
            }
        } else if m.in_string {
            cut(input, i + 1, m, word.push(c))
        } else if (is_paren(c) || c == QUOTE) && word.len() == 0 {
            Word { bytes: word.push(c), used: i + 1 }
        } else if is_paren(c) {
            Word { bytes: word, used: i }
        } else if is_delimiter(c) && word.len() > 0 {
            Word { bytes: word, used: i + 1 }
        } else if !is_delimiter(c) {
            cut(input, i + 1, m, word.push(c))
        } else {
            cut(input, i + 1, m, word)
        }
    }
}

/// The next word of `input`.
pub open spec fn next_word(input: Seq<u8>) -> Word {
    cut(input, 0, Mode { in_string: false, escape: false, in_comment: false }, Seq::empty())
}

/// The token that a word other than punctuation stands for. A word that
/// looks numeric is a float where it holds a `.`, else an integer, and
/// malformed where it does not denote one. A word between two `"` is a
/// string, without them. Any other word is a symbol.
pub open spec fn classify_word(w: Seq<u8>) -> Lexeme {
    if looks_numeric(w) {
        if has_point(w) {
            if is_float_text(w) {
                Lexeme::Float(ascii_text(w))
            } else {
                Lexeme::Malformed(ascii_text(w))
            }
        } else {
            match machine_integer_of(w) {
                Some(v) => Lexeme::Integer(v),
                None => Lexeme::Malformed(ascii_text(w)),
            }
        }
    } else if w.len() >= 2 && w[0] == STRING && w.last() == STRING {
        Lexeme::Str(word_text(w.subrange(1, w.len() - 1)))
    } else {
        Lexeme::Symbol(word_text(w))
    }
}

/// The token that a word stands for; none for the empty word, which only
/// the end of the input gives.
pub open spec fn classify(w: Seq<u8>) -> Option<Lexeme> {
    if w.len() == 0 {
        None
    } else if w.len() == 1 && w[0] == QUOTE {
        Some(Lexeme::Quote)
    } else if w.len() == 1 && w[0] == PAREN_LEFT {
        Some(Lexeme::ParenLeft)
    } else if w.len() == 1 && w[0] == PAREN_RIGHT {
        Some(Lexeme::ParenRight)
    } else if w.len() == 1 && w[0] == DOT {
        Some(Lexeme::Dot)
    } else {
        Some(classify_word(w))
    }
}

/// A word is cut at or after the byte where cutting went on, and within the
/// input; a word that started empty and is not, used up a byte.
pub proof fn lemma_cut_advances(input: Seq<u8>, i: int, m: Mode, word: Seq<u8>)
    requires
        0 <= i <= input.len(),
    ensures
        i <= cut(input, i, m, word).used <= input.len(),
        word.len() == 0 && cut(input, i, m, word).bytes.len() > 0 ==> cut(input, i, m, word).used
            > i,
        word.len() > 0 ==> cut(input, i, m, word).bytes.len() > 0,
        cut(input, i, m, word).bytes.len() == 0 ==> cut(input, i, m, word).used == input.len(),
    decreases input.len() - i,
{
    if i < input.len() {
        let c = input[i];
        if m.in_comment {
            lemma_cut_advances(input, i + 1, Mode { in_comment: c != NEWLINE, ..m }, word);
        } else if m.escape {
            lemma_cut_advances(input, i + 1, Mode { escape: false, ..m }, word.push(c));
        } else if c == COMMENT {
            lemma_cut_advances(input, i + 1, Mode { in_comment: true, ..m }, word);
        } else if c == ESCAPE {
            lemma_cut_advances(input, i + 1, Mode { escape: true, ..m }, word.push(c));
        } else if c == STRING {
            if !m.in_string {
                lemma_cut_advances(input, i + 1, Mode { in_string: true, ..m }, word.push(c));
            }
        } else if m.in_string {
            lemma_cut_advances(input, i + 1, m, word.push(c));
        } else if (is_paren(c) || c == QUOTE) && word.len() == 0 {
        } else if is_paren(c) {
        } else if is_delimiter(c) && word.len() > 0 {
        } else if !is_delimiter(c) {
            lemma_cut_advances(input, i + 1, m, word.push(c));
        } else {
            lemma_cut_advances(input, i + 1, m, word);
        }
    }
}

/// The tokens of `input`, in order. A word that is a token uses up a byte
/// at least (`lemma_lexemes_unfold`), so that the test on `used` always
/// holds; it stands here for the sake of termination.
pub open spec fn lexemes(input: Seq<u8>) -> Seq<Lexeme>
    decreases input.len(),
{
    let w = next_word(input);
    match classify(w.bytes) {
        None => Seq::empty(),
        Some(t) => {
            if 0 < w.used <= input.len() {
                seq![t] + lexemes(input.skip(w.used))
            } else {
                seq![t]
            }
        },
    }
}

/// The tokens of an input are its first token and the tokens of what the
/// first word left.
pub proof fn lemma_lexemes_unfold(input: Seq<u8>)
    ensures
        classify(next_word(input).bytes) is None ==> {
            &&& lexemes(input) == Seq::<Lexeme>::empty()
            &&& next_word(input).used == input.len()
        },
        classify(next_word(input).bytes) matches Some(t) ==> {
            &&& 0 < next_word(input).used <= input.len()
            &&& lexemes(input) == seq![t] + lexemes(input.skip(next_word(input).used))
        },
{
    lemma_cut_advances(
        input,
        0,
        Mode { in_string: false, escape: false, in_comment: false },
        Seq::empty(),
    );
}

/// A tokenizer over bytes held in memory.
#[derive(Debug)]
pub struct Lexer {
    buf: Vec<u8>,
    pos: usize,
}

impl View for Lexer {
    type V = Seq<u8>;

    /// The bytes that are still to be read.
    closed spec fn view(&self) -> Seq<u8> {
        self.buf@.skip(self.pos as int)
    }
}

impl Clone for Lexer {
    fn clone(&self) -> (r: Self)
        ensures
            r@ == self@,
    {
        proof {
            use_type_invariant(self);
        }
        let buf = self.buf.clone();
        assert(buf@ =~= self.buf@);
        Lexer { buf, pos: self.pos }
    }
}

/// The part of `v` from `from` up to `to`.
fn part(v: &Vec<u8>, from: usize, to: usize) -> (r: Vec<u8>)
    requires
        from <= to <= v.len(),
    ensures
        r@ == v@.subrange(from as int, to as int),
{
    let mut r: Vec<u8> = Vec::new();
    let mut i: usize = from;
    while i < to
        invariant
            from <= i <= to <= v.len(),
            r@ == v@.subrange(from as int, i as int),
        decreases to - i,
    {
        r.push(v[i]);
        assert(r@ =~= v@.subrange(from as int, i + 1));
        i += 1;
    }
    r
}

/// The token that a word other than punctuation stands for.
fn word_token(w: &Vec<u8>) -> (r: Result<Token, LexError>)
    ensures
        lexeme_of(r) == classify_word(w@),
        r is Err <==> classify_word(w@) is Malformed,
{
    if numeric(w) {
        assert(all_ascii(w@)) by {
            assert forall|i: int| 0 <= i < w@.len() implies #[trigger] w@[i] < 128 by {
                assert(crate::number::is_num_char(w@[i]));
            }
        }
        if pointed(w) {
            if float_text(w) {
                Ok(Token::Float(decode(w)))
            } else {
                Err(LexError::MalformedNumber(decode(w)))
            }
        } else {
            match parse_integer(w) {
                Some(n) => Ok(Token::Integer(n)),
                None => Err(LexError::MalformedNumber(decode(w))),
            }
        }
    } else if w.len() >= 2 && w[0] == STRING && w[w.len() - 1] == STRING {
        let inner = part(w, 1, w.len() - 1);
        Ok(Token::String(decode(&inner)))
    } else {
        Ok(Token::Symbol(decode(w)))
    }
}

/// The token that a word stands for.
fn token_of(w: &Vec<u8>) -> (r: Option<Result<Token, LexError>>)
    ensures
        match r {
            Some(t) => classify(w@) == Some(lexeme_of(t)),
            None => classify(w@) is None,
        },
        r matches Some(Err(_)) <==> classify(w@) matches Some(Lexeme::Malformed(_)),
{
    if w.len() == 0 {
        None
    } else if w.len() == 1 && w[0] == QUOTE {
        Some(Ok(Token::Quote))
    } else if w.len() == 1 && w[0] == PAREN_LEFT {
        Some(Ok(Token::ParenLeft))
    } else if w.len() == 1 && w[0] == PAREN_RIGHT {
        Some(Ok(Token::ParenRight))
    } else if w.len() == 1 && w[0] == DOT {
        Some(Ok(Token::Dot))
    } else {
        Some(word_token(w))
    }
}

impl Lexer {
    /// The place of the next byte lies within the bytes.
    #[verifier::type_invariant]
    spec fn well_formed(&self) -> bool {
        self.pos <= self.buf@.len()
    }

    /// A tokenizer over the given bytes.
    pub fn new(inner: &[u8]) -> (r: Self)
        ensures
            r@ == inner@,
    {
        let buf = slice_to_vec(inner);
        assert(buf@.skip(0) =~= buf@);
        Lexer { buf, pos: 0 }
    }

    /// Passes over `amt` bytes, or over what is left where that is less.
    pub fn consume(&mut self, amt: usize)
        ensures
            final(self)@ == if amt <= old(self)@.len() {
                old(self)@.skip(amt as int)
            } else {
                Seq::<u8>::empty()
            },
    {
        proof {
            use_type_invariant(&*self);
        }
        let left: usize = self.buf.len() - self.pos;
        if amt <= left {
            self.pos = self.pos + amt;
            assert(self.buf@.skip(self.pos as int) =~= old(self).buf@.skip(
                old(self).pos as int,
            ).skip(amt as int));
        } else {
            self.pos = self.buf.len();
            assert(self.buf@.skip(self.pos as int) =~= Seq::<u8>::empty());
        }
    }

    /// The next token, if the input holds one; the bytes of its word are
    /// used up, also where the word is malformed.
    pub fn next(&mut self) -> (r: Option<Result<Token, LexError>>)
        ensures
            final(self)@ == old(self)@.skip(next_word(old(self)@).used),
            final(self)@.len() <= old(self)@.len(),
            r is Some ==> final(self)@.len() < old(self)@.len(),
            r is None ==> final(self)@.len() == 0 && lexemes(final(self)@).len() == 0,
            match r {
                Some(t) => classify(next_word(old(self)@).bytes) == Some(lexeme_of(t)),
                None => classify(next_word(old(self)@).bytes) is None,
            },
            r matches Some(Err(_)) <==> classify(next_word(old(self)@).bytes) matches Some(
                Lexeme::Malformed(_),
            ),
            match r {
                Some(t) => lexemes(old(self)@) == seq![lexeme_of(t)] + lexemes(final(self)@),
                None => lexemes(old(self)@) == Seq::<Lexeme>::empty(),
            },
    {
        proof {
            use_type_invariant(&*self);
            lemma_lexemes_unfold(self@);
            lemma_lexemes_unfold(Seq::<u8>::empty());
        }
        let ghost input = self@;
        let start: usize = self.pos;
        let n: usize = self.buf.len();
        let mut i: usize = start;
        let mut word: Vec<u8> = Vec::new();
        let mut in_string = false;
        let mut escape = false;
        let mut in_comment = false;
        let mut done = false;
        let mut end: usize = n;
        while i < n && !done
            invariant
                start <= i <= n,
                start <= end <= n,
                n == self.buf@.len(),
                start == self.pos,
                input == self.buf@.skip(start as int),
                !done ==> cut(input, i - start, Mode { in_string, escape, in_comment }, word@)
                    == next_word(input),
                done ==> (Word { bytes: word@, used: end - start }) == next_word(input),
                !done ==> end == n,
            decreases n - i + if done { 0int } else { 1int },
        {
            let c = self.buf[i];
            assert(c == input[i - start]);
            if in_comment {
                in_comment = c != NEWLINE;
            } else if escape {
                escape = false;
                word.push(c);
            } else if c == COMMENT {
                in_comment = true;
            } else if c == ESCAPE {
                escape = true;
                word.push(c);
            } else if c == STRING {
                word.push(c);
                if in_string {
                    done = true;
                    end = i + 1;
                } else {
                    in_string = true;
                }
            } else if in_string {
                word.push(c);
            } else if (c == PAREN_LEFT || c == PAREN_RIGHT || c == QUOTE) && word.len() == 0 {
                word.push(c);
                done = true;
                end = i + 1;
            } else if c == PAREN_LEFT || c == PAREN_RIGHT {
                done = true;
                end = i;
            } else if (c == DELIM || c == NEWLINE || c == TAB) && word.len() > 0 {
                done = true;
                end = i + 1;
            } else if !(c == DELIM || c == NEWLINE || c == TAB) {
                word.push(c);
            }
            if !done {
                i += 1;
            }
        }
        assert((Word { bytes: word@, used: end - start }) == next_word(input));
        self.pos = end;
        assert(self.buf@.skip(end as int) =~= input.skip(end - start));
        token_of(&word)
    }

    /// All the tokens that are left, or the first malformed word.
    pub fn tokens(&mut self) -> (r: Result<Vec<Token>, LexError>)
        ensures
            match r {
                Ok(v) => {
                    &&& v@.map_values(|t: Token| t@) == lexemes(old(self)@)
                    &&& forall|i: int|
                        0 <= i < lexemes(old(self)@).len() ==> !(#[trigger] lexemes(
                            old(self)@,
                        )[i] is Malformed)
                },
                Err(e) => exists|k: int|
                    0 <= k < lexemes(old(self)@).len() && #[trigger] lexemes(old(self)@)[k]
                        == e@ && e@ is Malformed && forall|i: int|
                        0 <= i < k ==> !(#[trigger] lexemes(old(self)@)[i] is Malformed),
            },
    {
        let mut out: Vec<Token> = Vec::new();
        let ghost all = lexemes(self@);
        loop
            invariant
                all == lexemes(old(self)@),
                all == out@.map_values(|t: Token| t@) + lexemes(self@),
                forall|i: int| 0 <= i < out@.len() ==> !(#[trigger] all[i] is Malformed),
            decreases self@.len(),
        {
            let ghost before = self@;
            let ghost seen = out@.map_values(|t: Token| t@);
            proof {
                lemma_lexemes_unfold(before);
            }
            match self.next() {
                None => {
                    assert(all =~= out@.map_values(|t: Token| t@));
                    return Ok(out);
                },
                Some(Err(e)) => {
                    assert(all[out@.len() as int] == e@);
                    return Err(e);
                },
                Some(Ok(t)) => {
                    assert(all[out@.len() as int] == t@);
                    out.push(t);
                    assert(out@.map_values(|t: Token| t@) =~= seen + seq![t@]);
                    assert(all =~= out@.map_values(|t: Token| t@) + lexemes(self@));
                },
            }
        }
    }
}

} // verus!
