//! The processing instruction at the head of a document, read from a text
//! that is there as a whole: where the text ends, the token ends.

use vstd::prelude::*;
use crate::grammar::tokens::{run_end, stands_at, CharClass};
use crate::parse::{agrees, finish, parsed, ErrorKind, Fail, Outcome, ParseError, Source, Step};
use crate::reader::tokens::{run_end_at, stands_at_at};

verus! {

/// The fixed text `t`, in a text that is there as a whole: a text that
/// ends before `t` does is an error.
pub open spec fn whole_tag(s: Seq<char>, pos: int, t: Seq<char>) -> Outcome<()> {
    if stands_at(s, pos, t) {
        Outcome::Done { next: pos + t.len(), value: () }
    } else {
        Outcome::Error { lo: pos, hi: s.len() as int, kind: ErrorKind::Tag }
    }
}

/// A name without a colon, in a text that is there as a whole: the name
/// may reach the end of the text.
pub open spec fn whole_nc_name(s: Seq<char>, pos: int) -> Outcome<Seq<char>> {
    if pos < 0 || pos >= s.len() || !CharClass::NcNameStart.has(s[pos]) {
        Outcome::Error { lo: pos, hi: s.len() as int, kind: ErrorKind::Satisfy }
    } else {
        Outcome::Done {
            next: run_end(s, pos + 1, CharClass::NcName),
            value: s.subrange(pos, run_end(s, pos + 1, CharClass::NcName)),
        }
    }
}

/// A processing instruction: `<?`, a name without a colon, spaces and
/// tabs, the data and `?>`. The data are what stands before the first `?`
/// or `>`; where nothing stands there, there are no data.
pub open spec fn whole_pi(s: Seq<char>, pos: int) -> Outcome<(Seq<char>, Option<Seq<char>>)> {
    let a = whole_tag(s, pos, "<?"@);
    if !(a is Done) {
        a.fail()
    } else {
        let b = whole_nc_name(s, a->next);
        if !(b is Done) {
            b.fail()
        } else {
            let c = run_end(s, b->next, CharClass::Blank);
            let d = run_end(s, c, CharClass::PiData);
            let e = whole_tag(s, d, "?>"@);
            if !(e is Done) {
                e.fail()
            } else {
                Outcome::Done {
                    next: e->next,
                    value: (
                        b->value,
                        if d > c {
                            Some(s.subrange(c, d))
                        } else {
                            None
                        },
                    ),
                }
            }
        }
    }
}

/// Reads the fixed text `t` from a text that is there as a whole.
fn whole_tag_at(src: &Source, pos: usize, t: &str) -> (r: Step<()>)
    requires
        pos <= src@.len(),
    ensures
        agrees(r, whole_tag(src@, pos as int, t@), pos as int, src@.len() as int),
{
    let len = src.len();
    let n = t.unicode_len();
    if stands_at_at(src, pos, t) {
        Ok((pos + n, ()))
    } else {
        Err(Fail::Error { lo: pos, hi: len, kind: ErrorKind::Tag })
    }
}

/// Reads a name without a colon from a text that is there as a whole.
pub fn nc_name_at<'a>(src: &Source<'a>, pos: usize) -> (r: Step<&'a str>)
    requires
        pos <= src@.len(),
    ensures
        agrees(r, whole_nc_name(src@, pos as int), pos as int, src@.len() as int),
{
    let len = src.len();
    if pos >= len || !CharClass::NcNameStart.test(src.at(pos)) {
        return Err(Fail::Error { lo: pos, hi: len, kind: ErrorKind::Satisfy });
    }
    let end = run_end_at(src, pos + 1, CharClass::NcName);
    Ok((end, src.slice(pos, end)))
}

/// Reads a processing instruction from a text that is there as a whole.
pub fn pi_at<'a>(src: &Source<'a>, pos: usize) -> (r: Step<(&'a str, Option<&'a str>)>)
    requires
        pos <= src@.len(),
    ensures
        agrees(r, whole_pi(src@, pos as int), pos as int, src@.len() as int),
{
    let (a, _) = whole_tag_at(src, pos, "<?")?;
    let (b, target) = nc_name_at(src, a)?;
    let c = run_end_at(src, b, CharClass::Blank);
    let d = run_end_at(src, c, CharClass::PiData);
    let (e, _) = whole_tag_at(src, d, "?>")?;
    let data = if d > c {
        Some(src.slice(c, d))
    } else {
        None
    };
    Ok((e, (target, data)))
}

/// Parses a name without a colon at the beginning of `value`.
pub fn nc_name<'a>(value: &'a str) -> (res: Result<(&'a str, &'a str), ParseError<'a>>)
    ensures
        parsed(res, whole_nc_name(value@, 0), value@),
{
    let src = Source::new(value);
    finish(&src, nc_name_at(&src, 0))
}

/// Parses a processing instruction at the beginning of `value`, and gives
/// its target and its data.
pub fn parse_pi<'a>(value: &'a str) -> (res: Result<
    (&'a str, (&'a str, Option<&'a str>)),
    ParseError<'a>,
>)
    ensures
        parsed(res, whole_pi(value@, 0), value@),
{
    let src = Source::new(value);
    finish(&src, pi_at(&src, 0))
}

} // verus!
