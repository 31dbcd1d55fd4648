//! Characters, fixed texts, runs, names and literals.

use vstd::prelude::*;
use vstd::string::*;
use crate::chars::{
    is_ascii_letter, is_char, is_digit, is_hex_digit, is_name_char, is_name_start_char,
    is_ncname_char, is_ncname_start_char, is_pubid_char, is_whitespace,
};
use crate::grammar::tokens::{
    differs, eq, find, more_names, more_nmtokens, name, names, nmtoken, nmtokens, prepend,
    pubid_lit, quoted, run_end, satisfy, stands_at, system_lit, tag, take_until, take_while,
    take_while1, unicode_alphanumeric, ws, opt_ws, CharClass,
};
use crate::parse::{agrees, outcome_of, within, ErrorKind, Fail, Outcome, Source, Step};
use crate::symbols::{XmlName, XmlNmToken, XmlPubidLiteral, XmlSystemLiteral, XmlWhiteSpace};

verus! {

/// Says whether `c` is a letter or a digit of any script. This is
/// `char::is_alphanumeric`, which goes by the tables of the Unicode
/// standard; the contract only gives its answer a name.
#[verifier::external_body]
fn char_is_alphanumeric(c: char) -> (b: bool)
    ensures
        b == unicode_alphanumeric(c),
{
    c.is_alphanumeric()
}

/// Whether `c` may stand in the name of an encoding after its first
/// letter, given whether it is a letter or digit of any script.
pub fn is_enc_name_char(c: char, alphanumeric: bool) -> (b: bool)
    ensures
        b == (c == '-' || c == '.' || c == '_' || alphanumeric),
{
    c == '-' || c == '.' || c == '_' || alphanumeric
}

impl CharClass {
    /// Says whether `c` is of this class.
    pub fn test(&self, c: char) -> (b: bool)
        ensures
            b == self.has(c),
    {
        match *self {
            CharClass::Whitespace => is_whitespace(c),
            CharClass::NameStart => is_name_start_char(c),
            CharClass::Name => is_name_char(c),
            CharClass::Pubid => is_pubid_char(c),
            CharClass::PubidNoApos => c != '\'' && is_pubid_char(c),
            CharClass::Is(x) => c == x,
            CharClass::Not(x) => c != x,
            CharClass::Quote => c == '"' || c == '\'',
            CharClass::Hex => is_hex_digit(c),
            CharClass::Digit => is_digit(c),
            CharClass::AsciiLetter => is_ascii_letter(c),
            CharClass::EncName => is_enc_name_char(c, char_is_alphanumeric(c)),
            CharClass::CommentText => c != '-' && is_char(c),
            CharClass::CDataText => c != ']' && is_char(c),
            CharClass::Text(q) => !(c == q || c == '&' || c == '%'),
            CharClass::NcNameStart => is_ncname_start_char(c),
            CharClass::NcName => is_ncname_char(c),
            CharClass::Blank => c == ' ' || c == '\t',
            CharClass::PiData => c != '?' && c != '>',
        }
    }
}

/// Reads the fixed text `t`.
pub fn tag_at(src: &Source, pos: usize, t: &str) -> (r: Step<()>)
    requires
        pos <= src@.len(),
    ensures
        agrees(r, tag(src@, pos as int, t@), pos as int, src@.len() as int),
{
    let len = src.len();
    let n = t.unicode_len();
    let mut i: usize = 0;
    while i < n && i < len - pos
        invariant
            pos <= len == src@.len(),
            n == t@.len(),
            i <= n,
            i <= len - pos,
            forall|j: int| 0 <= j < i ==> src@[pos + j] == t@[j],
        decreases n - i,
    {
        if src.at(pos + i) != t.get_char(i) {
            assert(differs(src@, pos as int, t@));
            return Err(Fail::Error { lo: pos, hi: len, kind: ErrorKind::Tag });
        }
        i = i + 1;
    }
    if i < n {
        Err(Fail::Incomplete)
    } else {
        Ok((pos + n, ()))
    }
}

/// Reads one character of the class `class`.
pub fn satisfy_at(src: &Source, pos: usize, class: CharClass) -> (r: Step<char>)
    requires
        pos <= src@.len(),
    ensures
        agrees(r, satisfy(src@, pos as int, class), pos as int, src@.len() as int),
{
    let len = src.len();
    if pos >= len {
        return Err(Fail::Incomplete);
    }
    let c = src.at(pos);
    if class.test(c) {
        Ok((pos + 1, c))
    } else {
        Err(Fail::Error { lo: pos, hi: len, kind: ErrorKind::Satisfy })
    }
}

/// Finds the end of the run of characters of `class` at `pos`.
pub fn run_end_at(src: &Source, pos: usize, class: CharClass) -> (end: usize)
    requires
        pos <= src@.len(),
    ensures
        end == run_end(src@, pos as int, class),
        pos <= end <= src@.len(),
        forall|i: int| pos <= i < end ==> class.has(#[trigger] src@[i]),
        end < src@.len() ==> !class.has(src@[end as int]),
{
    let len = src.len();
    let mut end: usize = pos;
    while end < len && class.test(src.at(end))
        invariant
            pos <= end <= len == src@.len(),
            run_end(src@, pos as int, class) == run_end(src@, end as int, class),
            forall|i: int| pos <= i < end ==> class.has(#[trigger] src@[i]),
        decreases len - end,
    {
        end = end + 1;
    }
    end
}

/// Reads a run of characters of `class`, which may be empty.
pub fn take_while_at(src: &Source, pos: usize, class: CharClass) -> (r: Step<()>)
    requires
        pos <= src@.len(),
    ensures
        agrees(r, take_while(src@, pos as int, class), pos as int, src@.len() as int),
{
    let end = run_end_at(src, pos, class);
    if end >= src.len() {
        Err(Fail::Incomplete)
    } else {
        Ok((end, ()))
    }
}

/// Reads a run of at least one character of `class`.
pub fn take_while1_at(src: &Source, pos: usize, class: CharClass, kind: ErrorKind) -> (r: Step<()>)
    requires
        pos <= src@.len(),
    ensures
        agrees(r, take_while1(src@, pos as int, class, kind), pos as int, src@.len() as int),
        r matches Ok((next, _)) ==> next > pos,
{
    let len = src.len();
    let end = run_end_at(src, pos, class);
    if end >= len {
        Err(Fail::Incomplete)
    } else if end == pos {
        Err(Fail::Error { lo: pos, hi: len, kind })
    } else {
        Ok((end, ()))
    }
}

/// Says whether `t` stands in the text at `pos`.
pub fn stands_at_at(src: &Source, pos: usize, t: &str) -> (b: bool)
    requires
        pos <= src@.len(),
    ensures
        b == stands_at(src@, pos as int, t@),
{
    let len = src.len();
    let n = t.unicode_len();
    if n > len - pos {
        return false;
    }
    let mut i: usize = 0;
    while i < n
        invariant
            pos + n <= len == src@.len(),
            n == t@.len(),
            i <= n,
            forall|j: int| 0 <= j < i ==> src@[pos + j] == t@[j],
        decreases n - i,
    {
        if src.at(pos + i) != t.get_char(i) {
            assert(src@.subrange(pos as int, pos + n)[i as int] != t@[i as int]);
            return false;
        }
        i = i + 1;
    }
    assert(src@.subrange(pos as int, pos + n) =~= t@);
    true
}

/// Reads up to the first `t`.
pub fn take_until_at(src: &Source, pos: usize, t: &str) -> (r: Step<()>)
    requires
        pos <= src@.len(),
    ensures
        agrees(r, take_until(src@, pos as int, t@), pos as int, src@.len() as int),
{
    let len = src.len();
    let n = t.unicode_len();
    let mut at: usize = pos;
    while n <= len - at
        invariant
            pos <= at <= len == src@.len(),
            n == t@.len(),
            find(src@, pos as int, t@) == find(src@, at as int, t@),
        decreases len - at,
    {
        if stands_at_at(src, at, t) {
            return Ok((at, ()));
        }
        if at >= len {
            return Err(Fail::Incomplete);
        }
        at = at + 1;
    }
    Err(Fail::Incomplete)
}

/// Reads white space.
pub fn ws_at<'a>(src: &Source<'a>, pos: usize) -> (r: Step<XmlWhiteSpace<'a>>)
    requires
        pos <= src@.len(),
    ensures
        agrees(r, ws(src@, pos as int), pos as int, src@.len() as int),
        r matches Ok((next, _)) ==> next > pos,
{
    let (next, _) = take_while1_at(src, pos, CharClass::Whitespace, ErrorKind::TakeWhile1)?;
    Ok((next, XmlWhiteSpace(src.slice(pos, next))))
}

/// Skips white space that may be left out, and returns the place behind
/// it.
pub fn skip_ws(src: &Source, pos: usize) -> (r: Result<usize, Fail>)
    requires
        pos <= src@.len(),
    ensures
        match r {
            Ok(next) => opt_ws(src@, pos as int) is Done && opt_ws(src@, pos as int)->next == next
                && pos <= next <= src@.len(),
            Err(e) => !(opt_ws(src@, pos as int) is Done) && outcome_of::<()>(Err(e)) == opt_ws(
                src@,
                pos as int,
            ).fail::<()>() && within::<()>(Err(e), pos as int, src@.len() as int),
        },
{
    match take_while1_at(src, pos, CharClass::Whitespace, ErrorKind::TakeWhile1) {
        Ok((next, _)) => Ok(next),
        Err(Fail::Error { .. }) => Ok(pos),
        Err(e) => Err(e),
    }
}

/// Reads an equals sign, with white space around it or without.
pub fn eq_at(src: &Source, pos: usize) -> (r: Step<()>)
    requires
        pos <= src@.len(),
    ensures
        agrees(r, eq(src@, pos as int), pos as int, src@.len() as int),
{
    let a = skip_ws(src, pos)?;
    let (b, _) = satisfy_at(src, a, CharClass::Is('='))?;
    let c = skip_ws(src, b)?;
    Ok((c, ()))
}

/// Reads a name.
pub fn name_at<'a>(src: &Source<'a>, pos: usize) -> (r: Step<XmlName<'a>>)
    requires
        pos <= src@.len(),
    ensures
        agrees(r, name(src@, pos as int), pos as int, src@.len() as int),
        r matches Ok((next, _)) ==> next > pos,
{
    let (a, _) = satisfy_at(src, pos, CharClass::NameStart)?;
    let (b, _) = take_while_at(src, a, CharClass::Name)?;
    Ok((b, XmlName(src.slice(pos, b))))
}

/// Reads a name token.
pub fn nmtoken_at<'a>(src: &Source<'a>, pos: usize) -> (r: Step<XmlNmToken<'a>>)
    requires
        pos <= src@.len(),
    ensures
        agrees(r, nmtoken(src@, pos as int), pos as int, src@.len() as int),
        r matches Ok((next, _)) ==> next > pos,
{
    let (next, _) = take_while1_at(src, pos, CharClass::Name, ErrorKind::TakeWhile1)?;
    Ok((next, XmlNmToken(src.slice(pos, next))))
}

/// A list with one more item at its end is the list, then the item.
pub proof fn lemma_prepend<T>(front: Seq<T>, item: T, rest: Outcome<Seq<T>>)
    ensures
        prepend(front, prepend(seq![item], rest)) == prepend(front.push(item), rest),
{
    if let Outcome::Done { next, value } = rest {
        assert(front + (seq![item] + value) =~= front.push(item) + value);
    }
}

/// A list that goes on with nothing is the list.
pub proof fn lemma_prepend_end<T>(front: Seq<T>, next: int)
    ensures
        prepend(front, Outcome::Done { next, value: Seq::empty() }) == (Outcome::Done {
            next,
            value: front,
        }),
{
    assert(front + Seq::<T>::empty() =~= front);
}

/// The view of a vector with one more item is the view of the vector, then
/// the view of the item.
pub proof fn lemma_push_view<T: DeepView>(before: Vec<T>, after: Vec<T>, item: T)
    requires
        after@ == before@.push(item),
    ensures
        after.deep_view() == before.deep_view().push(item.deep_view()),
{
    assert(after.deep_view() =~= before.deep_view().push(item.deep_view()));
}

/// Reads names with one space between each two.
pub fn names_at<'a>(src: &Source<'a>, pos: usize) -> (r: Step<Vec<XmlName<'a>>>)
    requires
        pos <= src@.len(),
    ensures
        agrees(r, names(src@, pos as int), pos as int, src@.len() as int),
{
    let (first_end, first) = name_at(src, pos)?;
    let mut list: Vec<XmlName<'a>> = Vec::new();
    list.push(first);
    let mut cur: usize = first_end;
    assert(list.deep_view() =~= seq![first.deep_view()]);
    loop
        invariant
            pos <= cur <= src@.len(),
            names(src@, pos as int) == prepend(list.deep_view(), more_names(src@, cur as int)),
        decreases src@.len() - cur,
    {
        let a = match satisfy_at(src, cur, CharClass::Is(' ')) {
            Ok((a, _)) => a,
            Err(Fail::Error { .. }) => {
                proof {
                    lemma_prepend_end(list.deep_view(), cur as int);
                }
                return Ok((cur, list));
            },
            Err(e) => {
                return Err(e);
            },
        };
        let (b, item) = match name_at(src, a) {
            Ok(found) => found,
            Err(Fail::Error { .. }) => {
                proof {
                    lemma_prepend_end(list.deep_view(), cur as int);
                }
                return Ok((cur, list));
            },
            Err(e) => {
                return Err(e);
            },
        };
        let ghost before = list;
        list.push(item);
        proof {
            lemma_push_view(before, list, item);
            lemma_prepend(before.deep_view(), item.deep_view(), more_names(src@, b as int));
        }
        cur = b;
    }
}

/// Reads name tokens with one space between each two.
pub fn nmtokens_at<'a>(src: &Source<'a>, pos: usize) -> (r: Step<Vec<XmlNmToken<'a>>>)
    requires
        pos <= src@.len(),
    ensures
        agrees(r, nmtokens(src@, pos as int), pos as int, src@.len() as int),
{
    let (first_end, first) = nmtoken_at(src, pos)?;
    let mut list: Vec<XmlNmToken<'a>> = Vec::new();
    list.push(first);
    let mut cur: usize = first_end;
    assert(list.deep_view() =~= seq![first.deep_view()]);
    loop
        invariant
            pos <= cur <= src@.len(),
            nmtokens(src@, pos as int) == prepend(
                list.deep_view(),
                more_nmtokens(src@, cur as int),
            ),
        decreases src@.len() - cur,
    {
        let a = match satisfy_at(src, cur, CharClass::Is(' ')) {
            Ok((a, _)) => a,
            Err(Fail::Error { .. }) => {
                proof {
                    lemma_prepend_end(list.deep_view(), cur as int);
                }
                return Ok((cur, list));
            },
            Err(e) => {
                return Err(e);
            },
        };
        let (b, item) = match nmtoken_at(src, a) {
            Ok(found) => found,
            Err(Fail::Error { .. }) => {
                proof {
                    lemma_prepend_end(list.deep_view(), cur as int);
                }
                return Ok((cur, list));
            },
            Err(e) => {
                return Err(e);
            },
        };
        let ghost before = list;
        list.push(item);
        proof {
            lemma_push_view(before, list, item);
            lemma_prepend(before.deep_view(), item.deep_view(), more_nmtokens(src@, b as int));
        }
        cur = b;
    }
}

/// Reads a run of characters of `class` between two quotes `quote`.
pub fn quoted_at<'a>(src: &Source<'a>, pos: usize, quote: char, class: CharClass) -> (r: Step<
    &'a str,
>)
    requires
        pos <= src@.len(),
    ensures
        agrees(r, quoted(src@, pos as int, quote, class), pos as int, src@.len() as int),
        r matches Ok((next, _)) ==> next > pos,
{
    let (a, _) = satisfy_at(src, pos, CharClass::Is(quote))?;
    let (b, _) = take_while_at(src, a, class)?;
    let (c, _) = satisfy_at(src, b, CharClass::Is(quote))?;
    Ok((c, src.slice(a, b)))
}

/// Reads a public identifier in quotes.
pub fn pubid_lit_at<'a>(src: &Source<'a>, pos: usize) -> (r: Step<XmlPubidLiteral<'a>>)
    requires
        pos <= src@.len(),
    ensures
        agrees(r, pubid_lit(src@, pos as int), pos as int, src@.len() as int),
        r matches Ok((next, _)) ==> next > pos,
{
    match quoted_at(src, pos, '"', CharClass::Pubid) {
        Ok((next, text)) => Ok((next, XmlPubidLiteral(text))),
        Err(Fail::Error { .. }) => {
            let (next, text) = quoted_at(src, pos, '\'', CharClass::PubidNoApos)?;
            Ok((next, XmlPubidLiteral(text)))
        },
        Err(e) => Err(e),
    }
}

/// Reads a system identifier in quotes.
pub fn system_lit_at<'a>(src: &Source<'a>, pos: usize) -> (r: Step<XmlSystemLiteral<'a>>)
    requires
        pos <= src@.len(),
    ensures
        agrees(r, system_lit(src@, pos as int), pos as int, src@.len() as int),
        r matches Ok((next, _)) ==> next > pos,
{
    match quoted_at(src, pos, '"', CharClass::Not('"')) {
        Ok((next, text)) => Ok((next, XmlSystemLiteral(text))),
        Err(Fail::Error { .. }) => {
            let (next, text) = quoted_at(src, pos, '\'', CharClass::Not('\''))?;
            Ok((next, XmlSystemLiteral(text)))
        },
        Err(e) => Err(e),
    }
}

} // verus!
