//! References, values, comments, processing instructions, CDATA sections and
//! the XML declaration.

use vstd::prelude::*;
use crate::grammar::markup::{
    att_value, att_value_in, att_value_part, att_value_parts, attribute_start, body_end, cdata,
    char_ref, comment, dec_char_ref, decl, digit_value, encoding_decl, entity_ref, entity_value,
    entity_value_in, entity_value_part, entity_value_parts, hex_char_ref, is_scalar, misc,
    named_ref, number, peref, pi, quote_text, reference, standalone_decl, version, Digits,
};
use crate::grammar::tokens::{prepend, tag, CharClass};
use crate::parse::{agrees, ErrorKind, Fail, Source, Step};
use crate::reader::tokens::{
    eq_at, lemma_prepend, lemma_prepend_end, lemma_push_view, name_at, run_end_at, satisfy_at,
    skip_ws, tag_at, take_until_at, take_while1_at, take_while_at, ws_at,
};
use crate::symbols::{
    XmlAttValuePart, XmlCData, XmlComment, XmlDecl, XmlEncoding, XmlEntityValuePart, XmlMisc,
    XmlPEReference, XmlPI, XmlReference, XmlSDDecl, XmlVersion,
};

verus! {

/// Where the digits of a character reference stand, and whether they
/// count in base sixteen.
#[derive(Debug, Clone, Copy)]
pub struct DigitSpan {
    pub hex: bool,
    pub lo: usize,
    pub hi: usize,
}

impl DeepView for DigitSpan {
    type V = Digits;

    open spec fn deep_view(&self) -> Digits {
        Digits {
            radix: if self.hex {
                16
            } else {
                10
            },
            lo: self.lo as int,
            hi: self.hi as int,
        }
    }
}

/// Makes the character with the number `v`, if there is one. This is
/// `char::from_u32`, which gives a character for every code point that is
/// no surrogate and for nothing else.
#[verifier::external_body]
fn char_from_u32(v: u32) -> (c: Option<char>)
    ensures
        c == if is_scalar(v as int) {
            Some(v as char)
        } else {
            None::<char>
        },
{
    char::from_u32(v)
}

/// Returns the worth of a digit of base sixteen.
pub fn digit_of(c: char) -> (v: u32)
    ensures
        v == digit_value(c),
        v < 16,
{
    if '0' <= c && c <= '9' {
        c as u32 - '0' as u32
    } else if 'a' <= c && c <= 'f' {
        c as u32 - 'a' as u32 + 10
    } else if 'A' <= c && c <= 'F' {
        c as u32 - 'A' as u32 + 10
    } else {
        0
    }
}

/// One more digit at the end of a number.
proof fn lemma_number_step(s: Seq<char>, lo: int, i: int, radix: int)
    requires
        0 <= lo <= i < s.len(),
    ensures
        number(s.subrange(lo, i + 1), radix) == number(s.subrange(lo, i), radix) * radix
            + digit_value(s[i]),
{
    assert(s.subrange(lo, i + 1).drop_last() =~= s.subrange(lo, i));
}

/// More digits do not make a number smaller.
proof fn lemma_number_grows(s: Seq<char>, lo: int, i: int, hi: int, radix: int)
    requires
        0 <= lo <= i <= hi <= s.len(),
        radix == 10 || radix == 16,
    ensures
        0 <= number(s.subrange(lo, i), radix) <= number(s.subrange(lo, hi), radix),
    decreases hi - i,
{
    if i == lo {
        assert(s.subrange(lo, i).len() == 0);
    }
    if i < hi {
        lemma_number_grows(s, lo, i, hi - 1, radix);
        lemma_number_step(s, lo, hi - 1, radix);
        assert(number(s.subrange(lo, hi - 1), radix) * radix >= number(
            s.subrange(lo, hi - 1),
            radix,
        )) by (nonlinear_arith)
            requires
                number(s.subrange(lo, hi - 1), radix) >= 0,
                radix >= 1,
        ;
    } else if i > lo {
        lemma_number_nonnegative(s.subrange(lo, i), radix);
    }
}

/// No digits write a number below zero.
proof fn lemma_number_nonnegative(d: Seq<char>, radix: int)
    requires
        radix >= 1,
    ensures
        number(d, radix) >= 0,
    decreases d.len(),
{
    if d.len() > 0 {
        lemma_number_nonnegative(d.drop_last(), radix);
        assert(number(d.drop_last(), radix) * radix >= 0) by (nonlinear_arith)
            requires
                number(d.drop_last(), radix) >= 0,
                radix >= 1,
        ;
    }
}

/// The number that the digits from `lo` to `hi` write, if it is the number
/// of a code point at all.
pub fn number_at(src: &Source, lo: usize, hi: usize, hex: bool) -> (v: Option<u32>)
    requires
        lo <= hi <= src@.len(),
    ensures
        match v {
            Some(x) => x == number(
                src@.subrange(lo as int, hi as int),
                if hex {
                    16
                } else {
                    10
                },
            ) && x <= 0x10FFFF,
            None => number(
                src@.subrange(lo as int, hi as int),
                if hex {
                    16
                } else {
                    10
                },
            ) > 0x10FFFF,
        },
{
    let ghost radix: int = if hex {
        16
    } else {
        10
    };
    let mut acc: u32 = 0;
    let mut i: usize = lo;
    assert(src@.subrange(lo as int, lo as int).len() == 0);
    while i < hi
        invariant
            lo <= i <= hi <= src@.len(),
            radix == if hex {
                16int
            } else {
                10int
            },
            acc == number(src@.subrange(lo as int, i as int), radix),
            acc <= 0x10FFFF,
        decreases hi - i,
    {
        let d = digit_of(src.at(i));
        let next: u32 = if hex {
            acc * 16 + d
        } else {
            acc * 10 + d
        };
        proof {
            lemma_number_step(src@, lo as int, i as int, radix);
        }
        if next > 0x10FFFF {
            proof {
                lemma_number_grows(src@, lo as int, i + 1, hi as int, radix);
            }
            return None;
        }
        acc = next;
        i = i + 1;
    }
    Some(acc)
}

/// Reads `&#x`, digits of base sixteen and `;`.
fn hex_char_ref_at(src: &Source, pos: usize) -> (r: Step<DigitSpan>)
    requires
        pos <= src@.len(),
    ensures
        agrees(r, hex_char_ref(src@, pos as int), pos as int, src@.len() as int),
        r matches Ok((next, d)) ==> pos < next && d.lo <= d.hi <= next && d.hex,
{
    let (a, _) = tag_at(src, pos, "&#")?;
    let (b, _) = satisfy_at(src, a, CharClass::Is('x'))?;
    let (c, _) = take_while1_at(src, b, CharClass::Hex, ErrorKind::TakeWhile1)?;
    let (d, _) = satisfy_at(src, c, CharClass::Is(';'))?;
    Ok((d, DigitSpan { hex: true, lo: b, hi: c }))
}

/// Reads `&#`, digits of base ten and `;`.
fn dec_char_ref_at(src: &Source, pos: usize) -> (r: Step<DigitSpan>)
    requires
        pos <= src@.len(),
    ensures
        agrees(r, dec_char_ref(src@, pos as int), pos as int, src@.len() as int),
        r matches Ok((next, d)) ==> pos < next && d.lo <= d.hi <= next && !d.hex,
{
    let (a, _) = tag_at(src, pos, "&#")?;
    let (c, _) = take_while1_at(src, a, CharClass::Digit, ErrorKind::TakeWhile1)?;
    let (d, _) = satisfy_at(src, c, CharClass::Is(';'))?;
    Ok((d, DigitSpan { hex: false, lo: a, hi: c }))
}

/// Reads a character reference and gives the character that it stands
/// for.
pub fn char_ref_at(src: &Source, pos: usize) -> (r: Step<char>)
    requires
        pos <= src@.len(),
    ensures
        agrees(r, char_ref(src@, pos as int), pos as int, src@.len() as int),
        r matches Ok((next, _)) ==> next > pos,
{
    let (next, digits) = match hex_char_ref_at(src, pos) {
        Ok(found) => found,
        Err(Fail::Error { .. }) => dec_char_ref_at(src, pos)?,
        Err(e) => {
            return Err(e);
        },
    };
    let found = match number_at(src, digits.lo, digits.hi, digits.hex) {
        Some(v) => char_from_u32(v),
        None => None,
    };
    match found {
        Some(c) => Ok((next, c)),
        None => Err(Fail::Failure { lo: digits.lo, hi: digits.hi, kind: ErrorKind::Digit }),
    }
}

/// Reads a name between the character `open` and a semicolon.
pub fn named_ref_at<'a>(src: &Source<'a>, pos: usize, open: char) -> (r: Step<&'a str>)
    requires
        pos <= src@.len(),
    ensures
        agrees(r, named_ref(src@, pos as int, open), pos as int, src@.len() as int),
        r matches Ok((next, _)) ==> next > pos,
{
    let (a, _) = satisfy_at(src, pos, CharClass::Is(open))?;
    let (b, name) = name_at(src, a)?;
    let (c, _) = satisfy_at(src, b, CharClass::Is(';'))?;
    Ok((c, name.0))
}

/// Reads an entity reference and gives the name of the entity.
pub fn entity_ref_at<'a>(src: &Source<'a>, pos: usize) -> (r: Step<&'a str>)
    requires
        pos <= src@.len(),
    ensures
        agrees(r, entity_ref(src@, pos as int), pos as int, src@.len() as int),
        r matches Ok((next, _)) ==> next > pos,
{
    named_ref_at(src, pos, '&')
}

/// Reads a parameter-entity reference.
pub fn peref_at<'a>(src: &Source<'a>, pos: usize) -> (r: Step<XmlPEReference<'a>>)
    requires
        pos <= src@.len(),
    ensures
        agrees(r, peref(src@, pos as int), pos as int, src@.len() as int),
        r matches Ok((next, _)) ==> next > pos,
{
    let (next, name) = named_ref_at(src, pos, '%')?;
    Ok((next, XmlPEReference(name)))
}

/// Reads a character reference or an entity reference.
pub fn reference_at<'a>(src: &Source<'a>, pos: usize) -> (r: Step<XmlReference<'a>>)
    requires
        pos <= src@.len(),
    ensures
        agrees(r, reference(src@, pos as int), pos as int, src@.len() as int),
        r matches Ok((next, _)) ==> next > pos,
{
    match char_ref_at(src, pos) {
        Ok((next, c)) => Ok((next, XmlReference::Char(c))),
        Err(Fail::Error { .. }) => {
            let (next, name) = entity_ref_at(src, pos)?;
            Ok((next, XmlReference::Entity(name)))
        },
        Err(e) => Err(e),
    }
}

/// Reads the quote `quote` as a fixed text.
fn quote_at(src: &Source, pos: usize, quote: char) -> (r: Step<()>)
    requires
        pos <= src@.len(),
    ensures
        agrees(r, tag(src@, pos as int, quote_text(quote)), pos as int, src@.len() as int),
        r matches Ok((next, _)) ==> next > pos,
{
    proof {
        reveal_strlit("'");
        reveal_strlit("\"");
    }
    if quote == '\'' {
        tag_at(src, pos, "'")
    } else {
        tag_at(src, pos, "\"")
    }
}

/// Reads one part of the value of an entity.
pub fn entity_value_part_at<'a>(src: &Source<'a>, pos: usize, quote: char) -> (r: Step<
    XmlEntityValuePart<'a>,
>)
    requires
        pos <= src@.len(),
    ensures
        agrees(r, entity_value_part(src@, pos as int, quote), pos as int, src@.len() as int),
        r matches Ok((next, _)) ==> next > pos,
{
    match take_while1_at(src, pos, CharClass::Text(quote), ErrorKind::TakeTill1) {
        Ok((next, _)) => {
            return Ok((next, XmlEntityValuePart::Literal(src.slice(pos, next))));
        },
        Err(Fail::Error { .. }) => {},
        Err(e) => {
            return Err(e);
        },
    }
    match reference_at(src, pos) {
        Ok((next, XmlReference::Char(c))) => {
            return Ok((next, XmlEntityValuePart::CharRef(c)));
        },
        Ok((next, XmlReference::Entity(name))) => {
            return Ok((next, XmlEntityValuePart::EntityRef(name)));
        },
        Err(Fail::Error { .. }) => {},
        Err(e) => {
            return Err(e);
        },
    }
    let (next, name) = peref_at(src, pos)?;
    Ok((next, XmlEntityValuePart::PEReference(name.0)))
}

/// Reads the value of an entity in quotes `quote`.
pub fn entity_value_in_at<'a>(src: &Source<'a>, pos: usize, quote: char) -> (r: Step<
    Vec<XmlEntityValuePart<'a>>,
>)
    requires
        pos <= src@.len(),
    ensures
        agrees(r, entity_value_in(src@, pos as int, quote), pos as int, src@.len() as int),
        r matches Ok((next, _)) ==> next > pos,
{
    let (start, _) = quote_at(src, pos, quote)?;
    let mut parts: Vec<XmlEntityValuePart<'a>> = Vec::new();
    let mut cur: usize = start;
    assert(parts.deep_view() =~= Seq::empty());
    loop
        invariant
            pos < start <= cur <= src@.len(),
            tag(src@, pos as int, quote_text(quote)) is Done,
            tag(src@, pos as int, quote_text(quote))->next == start,
            entity_value_parts(src@, start as int, quote) == prepend(
                parts.deep_view(),
                entity_value_parts(src@, cur as int, quote),
            ),
        decreases src@.len() - cur,
    {
        match entity_value_part_at(src, cur, quote) {
            Ok((next, part)) => {
                let ghost before = parts;
                parts.push(part);
                proof {
                    lemma_push_view(before, parts, part);
                    lemma_prepend(
                        before.deep_view(),
                        part.deep_view(),
                        entity_value_parts(src@, next as int, quote),
                    );
                }
                cur = next;
            },
            Err(Fail::Error { .. }) => {
                proof {
                    lemma_prepend_end(parts.deep_view(), cur as int);
                }
                let (end, _) = quote_at(src, cur, quote)?;
                return Ok((end, parts));
            },
            Err(e) => {
                return Err(e);
            },
        }
    }
}

/// Reads the value of an entity, in single or in double quotes.
pub fn entity_value_at<'a>(src: &Source<'a>, pos: usize) -> (r: Step<Vec<XmlEntityValuePart<'a>>>)
    requires
        pos <= src@.len(),
    ensures
        agrees(r, entity_value(src@, pos as int), pos as int, src@.len() as int),
        r matches Ok((next, _)) ==> next > pos,
{
    match entity_value_in_at(src, pos, '\'') {
        Err(Fail::Error { .. }) => entity_value_in_at(src, pos, '"'),
        r => r,
    }
}

/// Reads one part of the value of an attribute.
pub fn att_value_part_at<'a>(src: &Source<'a>, pos: usize, quote: char) -> (r: Step<
    XmlAttValuePart<'a>,
>)
    requires
        pos <= src@.len(),
    ensures
        agrees(r, att_value_part(src@, pos as int, quote), pos as int, src@.len() as int),
        r matches Ok((next, _)) ==> next > pos,
{
    match take_while1_at(src, pos, CharClass::Text(quote), ErrorKind::TakeTill1) {
        Ok((next, _)) => {
            return Ok((next, XmlAttValuePart::Literal(src.slice(pos, next))));
        },
        Err(Fail::Error { .. }) => {},
        Err(e) => {
            return Err(e);
        },
    }
    match reference_at(src, pos) {
        Ok((next, XmlReference::Char(c))) => Ok((next, XmlAttValuePart::CharRef(c))),
        Ok((next, XmlReference::Entity(name))) => Ok((next, XmlAttValuePart::EntityRef(name))),
        Err(e) => Err(e),
    }
}

/// Reads the value of an attribute in quotes `quote`.
pub fn att_value_in_at<'a>(src: &Source<'a>, pos: usize, quote: char) -> (r: Step<
    Vec<XmlAttValuePart<'a>>,
>)
    requires
        pos <= src@.len(),
    ensures
        agrees(r, att_value_in(src@, pos as int, quote), pos as int, src@.len() as int),
        r matches Ok((next, _)) ==> next > pos,
{
    let (start, _) = quote_at(src, pos, quote)?;
    let mut parts: Vec<XmlAttValuePart<'a>> = Vec::new();
    let mut cur: usize = start;
    assert(parts.deep_view() =~= Seq::empty());
    loop
        invariant
            pos < start <= cur <= src@.len(),
            tag(src@, pos as int, quote_text(quote)) is Done,
            tag(src@, pos as int, quote_text(quote))->next == start,
            att_value_parts(src@, start as int, quote) == prepend(
                parts.deep_view(),
                att_value_parts(src@, cur as int, quote),
            ),
        decreases src@.len() - cur,
    {
        match att_value_part_at(src, cur, quote) {
            Ok((next, part)) => {
                let ghost before = parts;
                parts.push(part);
                proof {
                    lemma_push_view(before, parts, part);
                    lemma_prepend(
                        before.deep_view(),
                        part.deep_view(),
                        att_value_parts(src@, next as int, quote),
                    );
                }
                cur = next;
            },
            Err(Fail::Error { .. }) => {
                proof {
                    lemma_prepend_end(parts.deep_view(), cur as int);
                }
                let (end, _) = quote_at(src, cur, quote)?;
                return Ok((end, parts));
            },
            Err(e) => {
                return Err(e);
            },
        }
    }
}

/// Reads the value of an attribute, in single or in double quotes.
pub fn att_value_at<'a>(src: &Source<'a>, pos: usize) -> (r: Step<Vec<XmlAttValuePart<'a>>>)
    requires
        pos <= src@.len(),
    ensures
        agrees(r, att_value(src@, pos as int), pos as int, src@.len() as int),
        r matches Ok((next, _)) ==> next > pos,
{
    match att_value_in_at(src, pos, '\'') {
        Err(Fail::Error { .. }) => att_value_in_at(src, pos, '"'),
        r => r,
    }
}

/// Finds the end of a body.
pub fn body_end_at(src: &Source, pos: usize, class: CharClass, close: char, end: &str) -> (r: Step<
    (),
>)
    requires
        pos <= src@.len(),
    ensures
        agrees(
            r,
            body_end(src@, pos as int, class, close, end@),
            pos as int,
            src@.len() as int,
        ),
{
    let len = src.len();
    let mut cur: usize = pos;
    loop
        invariant
            pos <= cur <= len == src@.len(),
            body_end(src@, pos as int, class, close, end@) == body_end(
                src@,
                cur as int,
                class,
                close,
                end@,
            ),
        decreases len - cur,
    {
        let e = run_end_at(src, cur, class);
        if e >= len {
            return Err(Fail::Incomplete);
        }
        if src.at(e) == close {
            match tag_at(src, e, end) {
                Ok(_) => {
                    return Ok((e, ()));
                },
                Err(Fail::Error { .. }) => {
                    cur = e + 1;
                },
                Err(x) => {
                    return Err(x);
                },
            }
        } else {
            return Ok((e, ()));
        }
    }
}

/// Reads a comment.
pub fn comment_at<'a>(src: &Source<'a>, pos: usize) -> (r: Step<XmlComment<'a>>)
    requires
        pos <= src@.len(),
    ensures
        agrees(r, comment(src@, pos as int), pos as int, src@.len() as int),
        r matches Ok((next, _)) ==> next > pos,
{
    let (a, _) = tag_at(src, pos, "<!--")?;
    let (b, _) = body_end_at(src, a, CharClass::CommentText, '-', "--")?;
    let (c, _) = tag_at(src, b, "-->")?;
    proof {
        reveal_strlit("-->");
    }
    Ok((c, XmlComment(src.slice(a, b))))
}

/// Reads a CDATA section.
pub fn cdata_at<'a>(src: &Source<'a>, pos: usize) -> (r: Step<XmlCData<'a>>)
    requires
        pos <= src@.len(),
    ensures
        agrees(r, cdata(src@, pos as int), pos as int, src@.len() as int),
        r matches Ok((next, _)) ==> next > pos,
{
    let (a, _) = tag_at(src, pos, "<![CDATA[")?;
    let (b, _) = body_end_at(src, a, CharClass::CDataText, ']', "]]>")?;
    let (c, _) = tag_at(src, b, "]]>")?;
    proof {
        reveal_strlit("]]>");
    }
    Ok((c, XmlCData(src.slice(a, b))))
}

/// Reads a processing instruction.
pub fn pi_at<'a>(src: &Source<'a>, pos: usize) -> (r: Step<XmlPI<'a>>)
    requires
        pos <= src@.len(),
    ensures
        agrees(r, pi(src@, pos as int), pos as int, src@.len() as int),
        r matches Ok((next, _)) ==> next > pos,
{
    let (a, _) = tag_at(src, pos, "<?")?;
    let (b, target) = name_at(src, a)?;
    match ws_at(src, b) {
        Ok((c, _)) => {
            let (d, _) = take_until_at(src, c, "?>")?;
            let (e, _) = tag_at(src, d, "?>")?;
            Ok((e, XmlPI { target: target.0, data: Some(src.slice(c, d)) }))
        },
        Err(Fail::Error { .. }) => {
            let (e, _) = tag_at(src, b, "?>")?;
            Ok((e, XmlPI { target: target.0, data: None }))
        },
        Err(e) => Err(e),
    }
}

/// Reads white space, the word `word`, an equals sign and the opening
/// quote, and gives the quote.
pub fn attribute_start_at(src: &Source, pos: usize, word: &str) -> (r: Step<char>)
    requires
        pos <= src@.len(),
    ensures
        agrees(r, attribute_start(src@, pos as int, word@), pos as int, src@.len() as int),
        r matches Ok((next, _)) ==> next > pos,
{
    let (a, _) = ws_at(src, pos)?;
    let (b, _) = tag_at(src, a, word)?;
    let (c, _) = eq_at(src, b)?;
    satisfy_at(src, c, CharClass::Quote)
}

/// Reads the version of the XML declaration.
pub fn version_at(src: &Source, pos: usize) -> (r: Step<XmlVersion>)
    requires
        pos <= src@.len(),
    ensures
        agrees(r, version(src@, pos as int), pos as int, src@.len() as int),
        r matches Ok((next, _)) ==> next > pos,
{
    let (a, quote) = attribute_start_at(src, pos, "version")?;
    let (after, found) = match tag_at(src, a, "1.1") {
        Ok((after, _)) => (after, XmlVersion::Version1_1),
        Err(Fail::Error { .. }) => {
            let (after, _) = tag_at(src, a, "1.0")?;
            (after, XmlVersion::Version1_0)
        },
        Err(e) => {
            return Err(e);
        },
    };
    let (d, _) = satisfy_at(src, after, CharClass::Is(quote))?;
    Ok((d, found))
}

/// Reads the encoding of the XML declaration.
pub fn encoding_decl_at<'a>(src: &Source<'a>, pos: usize) -> (r: Step<XmlEncoding<'a>>)
    requires
        pos <= src@.len(),
    ensures
        agrees(r, encoding_decl(src@, pos as int), pos as int, src@.len() as int),
        r matches Ok((next, _)) ==> next > pos,
{
    let (a, quote) = attribute_start_at(src, pos, "encoding")?;
    let (b, _) = satisfy_at(src, a, CharClass::AsciiLetter)?;
    let (c, _) = take_while_at(src, b, CharClass::EncName)?;
    let (d, _) = satisfy_at(src, c, CharClass::Is(quote))?;
    Ok((d, XmlEncoding(src.slice(a, c))))
}

/// Reads the standalone declaration of the XML declaration.
pub fn standalone_decl_at(src: &Source, pos: usize) -> (r: Step<XmlSDDecl>)
    requires
        pos <= src@.len(),
    ensures
        agrees(r, standalone_decl(src@, pos as int), pos as int, src@.len() as int),
        r matches Ok((next, _)) ==> next > pos,
{
    let (a, quote) = attribute_start_at(src, pos, "standalone")?;
    let (after, found) = match tag_at(src, a, "yes") {
        Ok((after, _)) => (after, true),
        Err(Fail::Error { .. }) => {
            let (after, _) = tag_at(src, a, "no")?;
            (after, false)
        },
        Err(e) => {
            return Err(e);
        },
    };
    let (d, _) = satisfy_at(src, after, CharClass::Is(quote))?;
    Ok((d, XmlSDDecl(found)))
}

/// Reads the XML declaration.
pub fn decl_at<'a>(src: &Source<'a>, pos: usize) -> (r: Step<XmlDecl<'a>>)
    requires
        pos <= src@.len(),
    ensures
        agrees(r, decl(src@, pos as int), pos as int, src@.len() as int),
{
    let (a, _) = tag_at(src, pos, "<?xml")?;
    let (b, version) = version_at(src, a)?;
    let (c, encoding) = match encoding_decl_at(src, b) {
        Ok((c, found)) => (c, Some(found.0)),
        Err(Fail::Error { .. }) => (b, None),
        Err(e) => {
            return Err(e);
        },
    };
    let (d, standalone) = match standalone_decl_at(src, c) {
        Ok((d, found)) => (d, Some(found.0)),
        Err(Fail::Error { .. }) => (c, None),
        Err(e) => {
            return Err(e);
        },
    };
    let e = skip_ws(src, d)?;
    let (f, _) = tag_at(src, e, "?>")?;
    Ok((f, XmlDecl { version, encoding, standalone }))
}

/// Reads a processing instruction, a comment or white space.
pub fn misc_at<'a>(src: &Source<'a>, pos: usize) -> (r: Step<XmlMisc<'a>>)
    requires
        pos <= src@.len(),
    ensures
        agrees(r, misc(src@, pos as int), pos as int, src@.len() as int),
        r matches Ok((next, _)) ==> next > pos,
{
    match pi_at(src, pos) {
        Ok((next, found)) => {
            return Ok((next, XmlMisc::PI { target: found.target, data: found.data }));
        },
        Err(Fail::Error { .. }) => {},
        Err(e) => {
            return Err(e);
        },
    }
    match comment_at(src, pos) {
        Ok((next, found)) => {
            return Ok((next, XmlMisc::Comment(found.0)));
        },
        Err(Fail::Error { .. }) => {},
        Err(e) => {
            return Err(e);
        },
    }
    let (next, found) = ws_at(src, pos)?;
    Ok((next, XmlMisc::Space(found.0)))
}

} // verus!
