//! Parsers on a stream, one step at a time. A stream hands a parser what it
//! has read so far; a step looks at that and says that the token is there,
//! that it cannot be there, or that more must be read before it can tell.
//! Reading more is not done here: who drives the stream reads, and takes the
//! step again.

use vstd::prelude::*;
use vstd::string::*;
use vstd::utf8::{encode_scalar, encode_utf8};

verus! {

/// What a stream answers when it is asked to read ahead.
#[derive(Debug, Clone, Copy, PartialEq, Eq, Structural)]
pub enum Lookahead {
    /// So many more bytes are there now.
    Buffered(usize),
    /// The buffer of the stream is full, at so many bytes.
    Overflow(usize),
    /// Nothing more will come.
    BrokenPipe,
}

/// The parsers of a stream.
#[derive(Debug, Clone, Copy, PartialEq, Eq, Structural)]
pub enum ParserKind {
    Safisfy,
    NoneOf,
    OneOf,
    Tag,
    Search,
    Iter,
}

/// What a parser on a stream fails with.
#[derive(Debug, Clone, Copy, PartialEq, Eq, Structural)]
pub enum Error {
    /// What was read is not the token.
    ParseFailed(ParserKind),
    /// The stream ended before the token could be told.
    BrokenPipe(ParserKind),
}

/// What one step of a parser finds in what has been read so far.
#[derive(Debug, PartialEq, Eq)]
pub enum Need<T> {
    /// The token is there: it takes up `used` bytes and holds `value`.
    Done { used: usize, value: T },
    /// The token is not there.
    Failed,
    /// Too little has been read to tell: `ask` more bytes are to be asked
    /// for.
    More { ask: usize },
}

/// How many bytes are asked for where a character is missing.
pub const CHAR_AHEAD: usize = 4;

/// How many bytes are asked for where a search has found nothing yet.
pub const SEARCH_AHEAD: usize = 1024;

/// Returns the number of bytes that write `c` in UTF-8.
pub fn utf8_len(c: char) -> (n: usize)
    ensures
        n == encode_scalar(c as u32).len(),
        1 <= n <= 4,
{
    let v = c as u32;
    if v < 0x80 {
        1
    } else if v < 0x800 {
        2
    } else if v < 0x10000 {
        3
    } else {
        4
    }
}

/// What the stream's answer to reading ahead means for the parser `kind`
/// that asked: with nothing more to come it has failed, else it takes its
/// step again.
pub fn after_lookahead(answer: Lookahead, kind: ParserKind) -> (failed: Option<Error>)
    ensures
        failed == if answer is BrokenPipe {
            Some(Error::BrokenPipe(kind))
        } else {
            None::<Error>
        },
{
    match answer {
        Lookahead::BrokenPipe => Some(Error::BrokenPipe(kind)),
        _ => None,
    }
}

/// A set of characters.
pub trait FindChar {
    /// The characters of the set.
    spec fn chars(&self) -> Seq<char>;

    /// Says whether `c` is in the set.
    fn find(&self, c: char) -> (found: bool)
        ensures
            found == self.chars().contains(c),
    ;
}

/// Says whether `c` stands in `list`.
pub fn find_char(list: &str, c: char) -> (found: bool)
    ensures
        found == list@.contains(c),
{
    let len = list.unicode_len();
    let mut i: usize = 0;
    while i < len
        invariant
            i <= len == list@.len(),
            forall|j: int| 0 <= j < i ==> list@[j] != c,
        decreases len - i,
    {
        if list.get_char(i) == c {
            return true;
        }
        i = i + 1;
    }
    false
}

impl FindChar for &str {
    open spec fn chars(&self) -> Seq<char> {
        self@
    }

    fn find(&self, c: char) -> (found: bool) {
        find_char(*self, c)
    }
}

impl FindChar for String {
    open spec fn chars(&self) -> Seq<char> {
        self@
    }

    fn find(&self, c: char) -> (found: bool) {
        find_char(self.as_str(), c)
    }
}

/// Whether `bytes` begins with `prefix`.
pub open spec fn begins_with(bytes: Seq<u8>, prefix: Seq<u8>) -> bool {
    prefix.len() <= bytes.len() && bytes.subrange(0, prefix.len() as int) =~= prefix
}

/// Says whether `bytes` begins with `prefix`.
pub fn starts_with(bytes: &[u8], prefix: &[u8]) -> (found: bool)
    ensures
        found == begins_with(bytes@, prefix@),
{
    let n = prefix.len();
    if bytes.len() < n {
        return false;
    }
    let mut i: usize = 0;
    while i < n
        invariant
            i <= n == prefix@.len() <= bytes@.len(),
            forall|j: int| 0 <= j < i ==> bytes@[j] == prefix@[j],
        decreases n - i,
    {
        if bytes[i] != prefix[i] {
            assert(bytes@.subrange(0, n as int)[i as int] != prefix@[i as int]);
            return false;
        }
        i = i + 1;
    }
    true
}

/// A fixed run of bytes that a stream may begin with.
pub trait Prefix {
    /// The bytes.
    spec fn bytes(&self) -> Seq<u8>;

    /// Returns the number of the bytes.
    fn len(&self) -> (n: usize)
        ensures
            n == self.bytes().len(),
    ;

    /// Says whether `bytes` begins with the run.
    fn find(&self, bytes: &[u8]) -> (found: bool)
        ensures
            found == begins_with(bytes@, self.bytes()),
    ;
}

impl Prefix for &str {
    open spec fn bytes(&self) -> Seq<u8> {
        self.spec_bytes()
    }

    fn len(&self) -> (n: usize) {
        self.as_bytes().len()
    }

    fn find(&self, bytes: &[u8]) -> (found: bool) {
        starts_with(bytes, self.as_bytes())
    }
}

impl Prefix for String {
    open spec fn bytes(&self) -> Seq<u8> {
        encode_utf8(self@)
    }

    fn len(&self) -> (n: usize) {
        self.as_str().as_bytes().len()
    }

    fn find(&self, bytes: &[u8]) -> (found: bool) {
        starts_with(bytes, self.as_str().as_bytes())
    }
}

impl Prefix for &[u8] {
    open spec fn bytes(&self) -> Seq<u8> {
        self@
    }

    fn len(&self) -> (n: usize) {
        (*self).len()
    }

    fn find(&self, bytes: &[u8]) -> (found: bool) {
        starts_with(bytes, *self)
    }
}

/// The step of the parser of the fixed bytes `t`: with fewer bytes read
/// than `t` has, the bytes that are missing are asked for; else the token
/// is there if what was read begins with `t`.
pub fn tag_step<T: Prefix>(input: &[u8], t: &T) -> (r: Need<()>)
    ensures
        r == if input@.len() < t.bytes().len() {
            Need::More { ask: (t.bytes().len() - input@.len()) as usize }
        } else if begins_with(input@, t.bytes()) {
            Need::Done { used: t.bytes().len() as usize, value: () }
        } else {
            Need::<()>::Failed
        },
{
    let n = t.len();
    if input.len() < n {
        Need::More { ask: n - input.len() }
    } else if t.find(input) {
        Need::Done { used: n, value: () }
    } else {
        Need::Failed
    }
}

/// The step of the parser of one character that a test holds of: `first`
/// is the first character of what was read, if a whole one was read, and
/// `holds` says whether the test holds of it.
pub fn satisfy_step(first: Option<char>, holds: bool) -> (r: Need<char>)
    ensures
        r == match first {
            None => Need::More { ask: CHAR_AHEAD },
            Some(c) => if holds {
                Need::Done { used: encode_scalar(c as u32).len() as usize, value: c }
            } else {
                Need::<char>::Failed
            },
        },
{
    match first {
        None => Need::More { ask: CHAR_AHEAD },
        Some(c) => if holds {
            Need::Done { used: utf8_len(c), value: c }
        } else {
            Need::Failed
        },
    }
}

/// The step of the parser of one character out of `list`.
pub fn one_of_step<T: FindChar>(list: &T, first: Option<char>) -> (r: Need<char>)
    ensures
        r == match first {
            None => Need::More { ask: CHAR_AHEAD },
            Some(c) => if list.chars().contains(c) {
                Need::Done { used: encode_scalar(c as u32).len() as usize, value: c }
            } else {
                Need::<char>::Failed
            },
        },
{
    match first {
        None => satisfy_step(first, false),
        Some(c) => satisfy_step(first, list.find(c)),
    }
}

/// The step of the parser of one character that is not in `list`.
pub fn none_of_step<T: FindChar>(list: &T, first: Option<char>) -> (r: Need<char>)
    ensures
        r == match first {
            None => Need::More { ask: CHAR_AHEAD },
            Some(c) => if !list.chars().contains(c) {
                Need::Done { used: encode_scalar(c as u32).len() as usize, value: c }
            } else {
                Need::<char>::Failed
            },
        },
{
    match first {
        None => satisfy_step(first, false),
        Some(c) => satisfy_step(first, !list.find(c)),
    }
}

/// The step of a search: the place of the first byte, from `from` on, of
/// which `cond` holds. The search takes nothing from the stream. Where
/// `cond` holds of no byte that was read, more is asked for; a search never
/// fails.
pub fn search_step<F: Fn(usize, u8) -> bool>(input: &[u8], from: usize, cond: &F) -> (r: Need<
    usize,
>)
    requires
        from <= input@.len(),
        forall|i: usize, b: u8| call_requires(cond, (i, b)),
    ensures
        match r {
            Need::Done { used, value } => used == 0 && from <= value < input@.len()
                && call_ensures(cond, (value, input@[value as int]), true) && forall|i: usize|
                from <= i < value ==> call_ensures(cond, (i, #[trigger] input@[i as int]), false),
            Need::More { ask } => ask == SEARCH_AHEAD && forall|i: usize|
                from <= i < input@.len() ==> call_ensures(
                    cond,
                    (i, #[trigger] input@[i as int]),
                    false,
                ),
            Need::Failed => false,
        },
{
    let mut offset: usize = from;
    while offset < input.len()
        invariant
            from <= offset <= input@.len(),
            forall|i: usize, b: u8| call_requires(cond, (i, b)),
            forall|i: usize|
                from <= i < offset ==> call_ensures(cond, (i, #[trigger] input@[i as int]), false),
        decreases input@.len() - offset,
    {
        if cond(offset, input[offset]) {
            return Need::Done { used: 0, value: offset };
        }
        offset = offset + 1;
    }
    Need::More { ask: SEARCH_AHEAD }
}

/// The step of the parser of the longest run of bytes of which `cond`
/// holds: the run ends at the first byte of which `cond` does not hold.
/// Where `cond` holds of every byte that was read, the run may go on, and
/// more is asked for.
pub fn take_while_step<F: Fn(u8) -> bool>(input: &[u8], cond: &F) -> (r: Need<()>)
    requires
        forall|b: u8| call_requires(cond, (b,)),
    ensures
        match r {
            Need::Done { used, value } => used < input@.len() && call_ensures(
                cond,
                (input@[used as int],),
                false,
            ) && forall|i: int| 0 <= i < used ==> call_ensures(cond, (#[trigger] input@[i],), true),
            Need::More { ask } => ask == SEARCH_AHEAD && forall|i: int|
                0 <= i < input@.len() ==> call_ensures(cond, (#[trigger] input@[i],), true),
            Need::Failed => false,
        },
{
    let mut end: usize = 0;
    while end < input.len()
        invariant
            end <= input@.len(),
            forall|b: u8| call_requires(cond, (b,)),
            forall|i: int| 0 <= i < end ==> call_ensures(cond, (#[trigger] input@[i],), true),
        decreases input@.len() - end,
    {
        if !cond(input[end]) {
            return Need::Done { used: end, value: () };
        }
        end = end + 1;
    }
    Need::More { ask: SEARCH_AHEAD }
}

} // verus!
