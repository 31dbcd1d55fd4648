//! What a parser of the grammar returns, and the text that it reads.

use vstd::prelude::*;
use vstd::string::*;
use vstd::utf8::is_ascii_chars_nat_bound;

verus! {

/// Which rule a text has broken.
#[derive(Debug, Clone, Copy, PartialEq, Eq, Structural)]
pub enum ErrorKind {
    /// A fixed text was expected.
    Tag,
    /// One character of a class was expected.
    Satisfy,
    /// A run of at least one character of a class was expected.
    TakeWhile1,
    /// A run of at least one character before a stop character was expected.
    TakeTill1,
    /// The number of a character reference names no character.
    Digit,
}

/// What a parser fails with.
#[derive(Debug, Clone, Copy, PartialEq, Eq)]
pub enum ParseError<'a> {
    /// The text ends before the token does: with more text the token might
    /// be complete.
    Incomplete,
    /// The text is not the token; `input` is the text at which a rule was
    /// broken. Another token may still be read at the same place.
    Error { input: &'a str, kind: ErrorKind },
    /// The text begins like the token and then breaks a rule; `input` is the
    /// text that broke it. No other token is to be tried.
    Failure { input: &'a str, kind: ErrorKind },
}

/// What the grammar says of a text at a place.
pub enum Outcome<T> {
    /// A token ends at `next`, and `value` is what it holds.
    Done { next: int, value: T },
    /// The text ends before the token does.
    Incomplete,
    /// The text from `lo` to `hi` breaks a rule.
    Error { lo: int, hi: int, kind: ErrorKind },
    /// The text from `lo` to `hi` breaks a rule, and no other token is to be
    /// tried.
    Failure { lo: int, hi: int, kind: ErrorKind },
}

impl<T> Outcome<T> {
    /// The same failure, of a parser for another token.
    pub open spec fn fail<U>(self) -> Outcome<U> {
        match self {
            Outcome::Done { .. } => Outcome::Incomplete,
            Outcome::Incomplete => Outcome::Incomplete,
            Outcome::Error { lo, hi, kind } => Outcome::Error { lo, hi, kind },
            Outcome::Failure { lo, hi, kind } => Outcome::Failure { lo, hi, kind },
        }
    }

    /// This outcome, unless it is an error: then `other`.
    pub open spec fn or(self, other: Outcome<T>) -> Outcome<T> {
        if self is Error {
            other
        } else {
            self
        }
    }

    /// This outcome if the token may be left out: an error becomes a token
    /// that ends at `pos` and holds nothing.
    pub open spec fn opt(self, pos: int) -> Outcome<Option<T>> {
        match self {
            Outcome::Done { next, value } => Outcome::Done { next, value: Some(value) },
            Outcome::Error { .. } => Outcome::Done { next: pos, value: None },
            _ => self.fail(),
        }
    }

    /// Where the text goes on after this outcome: after the token, or at
    /// `pos` where the token was left out.
    pub open spec fn after(self, pos: int) -> int {
        match self {
            Outcome::Done { next, .. } => next,
            _ => pos,
        }
    }

    /// Whether the outcome stops a parser that might leave the token out:
    /// the text is incomplete or breaks a rule for good.
    pub open spec fn stops(self) -> bool {
        self is Incomplete || self is Failure
    }
}

/// How a parser failed, by the places in the text.
#[derive(Debug, Clone, Copy)]
pub enum Fail {
    Incomplete,
    Error { lo: usize, hi: usize, kind: ErrorKind },
    Failure { lo: usize, hi: usize, kind: ErrorKind },
}

/// What a parser returns that reads at a place of the text: the place after
/// the token and the token, or how it failed.
pub type Step<T> = Result<(usize, T), Fail>;

/// The outcome that a step stands for.
pub open spec fn outcome_of<T: DeepView>(r: Step<T>) -> Outcome<T::V> {
    match r {
        Ok((next, token)) => Outcome::Done { next: next as int, value: token.deep_view() },
        Err(Fail::Incomplete) => Outcome::Incomplete,
        Err(Fail::Error { lo, hi, kind }) => Outcome::Error { lo: lo as int, hi: hi as int, kind },
        Err(Fail::Failure { lo, hi, kind }) => Outcome::Failure {
            lo: lo as int,
            hi: hi as int,
            kind,
        },
    }
}

/// Whether the places in a step lie in a text of `len` characters, a token
/// read at `pos` ending at or after `pos`.
pub open spec fn within<T>(r: Step<T>, pos: int, len: int) -> bool {
    match r {
        Ok((next, _)) => pos <= next <= len,
        Err(Fail::Incomplete) => true,
        Err(Fail::Error { lo, hi, .. }) => lo <= hi <= len,
        Err(Fail::Failure { lo, hi, .. }) => lo <= hi <= len,
    }
}

/// Whether the step `r`, made at `pos` in a text of `len` characters, is
/// what the grammar says.
pub open spec fn agrees<T: DeepView>(r: Step<T>, out: Outcome<T::V>, pos: int, len: int) -> bool {
    outcome_of(r) == out && within(r, pos, len)
}

/// Whether the result `res` of a parser on the text `s` is what the grammar
/// says: the token with the rest of the text behind it, or the failure with
/// the text that it names.
pub open spec fn parsed<T: DeepView>(
    res: Result<(&str, T), ParseError>,
    out: Outcome<T::V>,
    s: Seq<char>,
) -> bool {
    match out {
        Outcome::Done { next, value } => res matches Ok((rest, token)) && rest@ == s.subrange(
            next,
            s.len() as int,
        ) && token.deep_view() == value,
        Outcome::Incomplete => res matches Err(ParseError::Incomplete),
        Outcome::Error { lo, hi, kind } => res matches Err(ParseError::Error { input, kind: k })
            && input@ == s.subrange(lo, hi) && k == kind,
        Outcome::Failure { lo, hi, kind } => res matches Err(
            ParseError::Failure { input, kind: k },
        ) && input@ == s.subrange(lo, hi) && k == kind,
    }
}

/// A text to read by place. Nothing of the text is copied: a character is
/// looked up in the text itself, at once where the text is plain ASCII and
/// by counting from its beginning where it is not.
pub struct Source<'a> {
    text: &'a str,
    len: usize,
    ascii: bool,
}

impl<'a> View for Source<'a> {
    type V = Seq<char>;

    closed spec fn view(&self) -> Seq<char> {
        self.text@
    }
}

impl<'a> Source<'a> {
    #[verifier::type_invariant]
    spec fn inv(self) -> bool {
        self.len == self.text@.len() && (self.ascii ==> is_ascii(self.text))
    }

    /// Takes `text` for reading.
    pub fn new(text: &'a str) -> (src: Source<'a>)
        ensures
            src@ == text@,
    {
        Source { text, len: text.unicode_len(), ascii: text.is_ascii() }
    }

    /// Returns the number of characters of the text.
    pub fn len(&self) -> (n: usize)
        ensures
            n == self@.len(),
    {
        proof {
            use_type_invariant(self);
        }
        self.len
    }

    /// Returns the character at place `i`.
    pub fn at(&self, i: usize) -> (c: char)
        requires
            i < self@.len(),
        ensures
            c == self@[i as int],
    {
        proof {
            use_type_invariant(self);
        }
        if self.ascii {
            let b = self.text.get_ascii(i);
            proof {
                is_ascii_chars_nat_bound(self.text@);
            }
            b as char
        } else {
            self.text.get_char(i)
        }
    }

    /// Returns the text from place `lo` to place `hi`.
    pub fn slice(&self, lo: usize, hi: usize) -> (text: &'a str)
        requires
            lo <= hi <= self@.len(),
        ensures
            text@ == self@.subrange(lo as int, hi as int),
    {
        proof {
            use_type_invariant(self);
        }
        if self.ascii {
            self.text.substring_ascii(lo, hi)
        } else {
            self.text.substring_char(lo, hi)
        }
    }
}

/// Turns a step on `src` into the result of a parser: the places become the
/// texts at them.
pub fn finish<'a, T: DeepView>(src: &Source<'a>, r: Step<T>) -> (res: Result<
    (&'a str, T),
    ParseError<'a>,
>)
    requires
        within(r, 0, src@.len() as int),
    ensures
        parsed(res, outcome_of(r), src@),
{
    let len = src.len();
    match r {
        Ok((next, token)) => Ok((src.slice(next, len), token)),
        Err(Fail::Incomplete) => Err(ParseError::Incomplete),
        Err(Fail::Error { lo, hi, kind }) => Err(ParseError::Error { input: src.slice(lo, hi), kind }),
        Err(Fail::Failure { lo, hi, kind }) => Err(
            ParseError::Failure { input: src.slice(lo, hi), kind },
        ),
    }
}

} // verus!
