//! References, values, comments, processing instructions, CDATA sections and
//! the XML declaration.

use vstd::prelude::*;
use crate::grammar::tokens::{
    eq, lemma_run_end, name, opt_ws, prepend, run_end, satisfy, tag, take_until, take_while, take_while1, ws,
    CharClass,
};
use crate::parse::{ErrorKind, Outcome};
use crate::symbols::{
    XmlAttValuePartView, XmlDeclView, XmlEntityValuePartView, XmlMiscView, XmlPIView,
    XmlReferenceView, XmlVersion,
};

verus! {

/// The worth of a digit of base sixteen.
pub open spec fn digit_value(c: char) -> int {
    if '0' <= c && c <= '9' {
        c as int - '0' as int
    } else if 'a' <= c && c <= 'f' {
        c as int - 'a' as int + 10
    } else if 'A' <= c && c <= 'F' {
        c as int - 'A' as int + 10
    } else {
        0
    }
}

/// The number that the digits `d` write in base `radix`.
pub open spec fn number(d: Seq<char>, radix: int) -> int
    decreases d.len(),
{
    if d.len() == 0 {
        0
    } else {
        number(d.drop_last(), radix) * radix + digit_value(d.last())
    }
}

/// Whether `v` is the number of a character: a code point that is no
/// surrogate.
pub open spec fn is_scalar(v: int) -> bool {
    (0 <= v <= 0xD7FF) || (0xE000 <= v <= 0x10FFFF)
}

/// The digits of a character reference: where they stand and in which
/// base they count.
pub struct Digits {
    pub radix: int,
    pub lo: int,
    pub hi: int,
}

/// `&#x`, digits of base sixteen and `;`.
pub open spec fn hex_char_ref(s: Seq<char>, pos: int) -> Outcome<Digits> {
    let a = tag(s, pos, "&#"@);
    if !(a is Done) {
        a.fail()
    } else {
        let b = satisfy(s, a->next, CharClass::Is('x'));
        if !(b is Done) {
            b.fail()
        } else {
            let c = take_while1(s, b->next, CharClass::Hex, ErrorKind::TakeWhile1);
            if !(c is Done) {
                c.fail()
            } else {
                let d = satisfy(s, c->next, CharClass::Is(';'));
                if !(d is Done) {
                    d.fail()
                } else {
                    Outcome::Done {
                        next: d->next,
                        value: Digits { radix: 16, lo: b->next, hi: c->next },
                    }
                }
            }
        }
    }
}

/// `&#`, digits of base ten and `;`.
pub open spec fn dec_char_ref(s: Seq<char>, pos: int) -> Outcome<Digits> {
    let a = tag(s, pos, "&#"@);
    if !(a is Done) {
        a.fail()
    } else {
        let c = take_while1(s, a->next, CharClass::Digit, ErrorKind::TakeWhile1);
        if !(c is Done) {
            c.fail()
        } else {
            let d = satisfy(s, c->next, CharClass::Is(';'));
            if !(d is Done) {
                d.fail()
            } else {
                Outcome::Done {
                    next: d->next,
                    value: Digits { radix: 10, lo: a->next, hi: c->next },
                }
            }
        }
    }
}

/// `CharRef`: the character whose number the digits write. Digits that
/// write no character's number, a surrogate's among them, fail for good,
/// and the failure names the digits.
pub open spec fn char_ref(s: Seq<char>, pos: int) -> Outcome<char> {
    let d = hex_char_ref(s, pos).or(dec_char_ref(s, pos));
    if !(d is Done) {
        d.fail()
    } else {
        let v = number(s.subrange(d->value.lo, d->value.hi), d->value.radix);
        if is_scalar(v) {
            Outcome::Done { next: d->next, value: v as char }
        } else {
            Outcome::Failure { lo: d->value.lo, hi: d->value.hi, kind: ErrorKind::Digit }
        }
    }
}

/// A name between the character `open` and a semicolon.
pub open spec fn named_ref(s: Seq<char>, pos: int, open: char) -> Outcome<Seq<char>> {
    let a = satisfy(s, pos, CharClass::Is(open));
    if !(a is Done) {
        a.fail()
    } else {
        let b = name(s, a->next);
        if !(b is Done) {
            b.fail()
        } else {
            let c = satisfy(s, b->next, CharClass::Is(';'));
            if !(c is Done) {
                c.fail()
            } else {
                Outcome::Done { next: c->next, value: b->value }
            }
        }
    }
}

/// `EntityRef`: `&`, a name and `;`.
pub open spec fn entity_ref(s: Seq<char>, pos: int) -> Outcome<Seq<char>> {
    named_ref(s, pos, '&')
}

/// `PEReference`: `%`, a name and `;`.
pub open spec fn peref(s: Seq<char>, pos: int) -> Outcome<Seq<char>> {
    named_ref(s, pos, '%')
}

/// `Reference`: a character reference or an entity reference.
pub open spec fn reference(s: Seq<char>, pos: int) -> Outcome<XmlReferenceView> {
    let a = char_ref(s, pos);
    if a is Done {
        Outcome::Done { next: a->next, value: XmlReferenceView::Char(a->value) }
    } else if !(a is Error) {
        a.fail()
    } else {
        let b = entity_ref(s, pos);
        if b is Done {
            Outcome::Done { next: b->next, value: XmlReferenceView::Entity(b->value) }
        } else {
            b.fail()
        }
    }
}

/// One part of the value of an entity in quotes `quote`: a run of text, a
/// reference or a parameter-entity reference.
pub open spec fn entity_value_part(s: Seq<char>, pos: int, quote: char) -> Outcome<
    XmlEntityValuePartView,
> {
    let a = take_while1(s, pos, CharClass::Text(quote), ErrorKind::TakeTill1);
    if a is Done {
        Outcome::Done { next: a->next, value: XmlEntityValuePartView::Literal(s.subrange(pos, a->next)) }
    } else if !(a is Error) {
        a.fail()
    } else {
        let b = reference(s, pos);
        if b is Done {
            Outcome::Done {
                next: b->next,
                value: match b->value {
                    XmlReferenceView::Char(c) => XmlEntityValuePartView::CharRef(c),
                    XmlReferenceView::Entity(n) => XmlEntityValuePartView::EntityRef(n),
                },
            }
        } else if !(b is Error) {
            b.fail()
        } else {
            let c = peref(s, pos);
            if c is Done {
                Outcome::Done { next: c->next, value: XmlEntityValuePartView::PEReference(c->value) }
            } else {
                c.fail()
            }
        }
    }
}

/// The quote `quote` as a fixed text: the single quote, or the double
/// quote for every other character.
pub open spec fn quote_text(quote: char) -> Seq<char> {
    if quote == '\'' {
        "'"@
    } else {
        "\""@
    }
}

/// The parts of the value of an entity, as many as follow one another.
pub open spec fn entity_value_parts(s: Seq<char>, pos: int, quote: char) -> Outcome<
    Seq<XmlEntityValuePartView>,
>
    decreases s.len() - pos,
{
    let a = entity_value_part(s, pos, quote);
    if a is Error {
        Outcome::Done { next: pos, value: Seq::empty() }
    } else if !(a is Done) {
        a.fail()
    } else if a->next <= pos || a->next > s.len() {
        Outcome::Done { next: pos, value: Seq::empty() }
    } else {
        prepend(seq![a->value], entity_value_parts(s, a->next, quote))
    }
}

/// The value of an entity in quotes `quote`.
pub open spec fn entity_value_in(s: Seq<char>, pos: int, quote: char) -> Outcome<
    Seq<XmlEntityValuePartView>,
> {
    let a = tag(s, pos, quote_text(quote));
    if !(a is Done) {
        a.fail()
    } else {
        let b = entity_value_parts(s, a->next, quote);
        if !(b is Done) {
            b.fail()
        } else {
            let c = tag(s, b->next, quote_text(quote));
            if !(c is Done) {
                c.fail()
            } else {
                Outcome::Done { next: c->next, value: b->value }
            }
        }
    }
}

/// `EntityValue`: the parts of a value in single or in double quotes.
pub open spec fn entity_value(s: Seq<char>, pos: int) -> Outcome<Seq<XmlEntityValuePartView>> {
    entity_value_in(s, pos, '\'').or(entity_value_in(s, pos, '"'))
}

/// One part of the value of an attribute in quotes `quote`: a run of text
/// or a reference.
pub open spec fn att_value_part(s: Seq<char>, pos: int, quote: char) -> Outcome<
    XmlAttValuePartView,
> {
    let a = take_while1(s, pos, CharClass::Text(quote), ErrorKind::TakeTill1);
    if a is Done {
        Outcome::Done { next: a->next, value: XmlAttValuePartView::Literal(s.subrange(pos, a->next)) }
    } else if !(a is Error) {
        a.fail()
    } else {
        let b = reference(s, pos);
        if b is Done {
            Outcome::Done {
                next: b->next,
                value: match b->value {
                    XmlReferenceView::Char(c) => XmlAttValuePartView::CharRef(c),
                    XmlReferenceView::Entity(n) => XmlAttValuePartView::EntityRef(n),
                },
            }
        } else {
            b.fail()
        }
    }
}

/// The parts of the value of an attribute, as many as follow one another.
pub open spec fn att_value_parts(s: Seq<char>, pos: int, quote: char) -> Outcome<
    Seq<XmlAttValuePartView>,
>
    decreases s.len() - pos,
{
    let a = att_value_part(s, pos, quote);
    if a is Error {
        Outcome::Done { next: pos, value: Seq::empty() }
    } else if !(a is Done) {
        a.fail()
    } else if a->next <= pos || a->next > s.len() {
        Outcome::Done { next: pos, value: Seq::empty() }
    } else {
        prepend(seq![a->value], att_value_parts(s, a->next, quote))
    }
}

/// The value of an attribute in quotes `quote`.
pub open spec fn att_value_in(s: Seq<char>, pos: int, quote: char) -> Outcome<
    Seq<XmlAttValuePartView>,
> {
    let a = tag(s, pos, quote_text(quote));
    if !(a is Done) {
        a.fail()
    } else {
        let b = att_value_parts(s, a->next, quote);
        if !(b is Done) {
            b.fail()
        } else {
            let c = tag(s, b->next, quote_text(quote));
            if !(c is Done) {
                c.fail()
            } else {
                Outcome::Done { next: c->next, value: b->value }
            }
        }
    }
}

/// `AttValue`: the parts of a value in single or in double quotes. A
/// parameter-entity reference is no part of it.
pub open spec fn att_value(s: Seq<char>, pos: int) -> Outcome<Seq<XmlAttValuePartView>> {
    att_value_in(s, pos, '\'').or(att_value_in(s, pos, '"'))
}

/// Where the body that starts at `pos` ends: at the first `close`
/// character with which `end` begins to stand, or at the first character
/// that is neither `close` nor of `class`. A `close` character with which
/// `end` does not stand belongs to the body.
pub open spec fn body_end(s: Seq<char>, pos: int, class: CharClass, close: char, end: Seq<char>) -> Outcome<
    (),
>
    decreases s.len() - pos,
{
    let e = run_end(s, pos, class);
    if pos < 0 || pos > s.len() || e >= s.len() {
        Outcome::Incomplete
    } else if s[e] == close {
        let t = tag(s, e, end);
        if t is Done {
            Outcome::Done { next: e, value: () }
        } else if t is Error {
            proof {
                lemma_run_end(s, pos, class);
            }
            body_end(s, e + 1, class, close, end)
        } else {
            t.fail()
        }
    } else {
        Outcome::Done { next: e, value: () }
    }
}

/// `Comment`: `<!--`, a body and `-->`. The body ends at the first two
/// hyphens in a row, so two hyphens that `>` does not follow are an error.
pub open spec fn comment(s: Seq<char>, pos: int) -> Outcome<Seq<char>> {
    let a = tag(s, pos, "<!--"@);
    if !(a is Done) {
        a.fail()
    } else {
        let b = body_end(s, a->next, CharClass::CommentText, '-', "--"@);
        if !(b is Done) {
            b.fail()
        } else {
            let c = tag(s, b->next, "-->"@);
            if !(c is Done) {
                c.fail()
            } else {
                Outcome::Done { next: c->next, value: s.subrange(a->next, b->next) }
            }
        }
    }
}

/// `CDSect`: `<![CDATA[`, a body and `]]>`. The body ends at the first
/// `]]>`; closing brackets that do not begin one belong to the body.
pub open spec fn cdata(s: Seq<char>, pos: int) -> Outcome<Seq<char>> {
    let a = tag(s, pos, "<![CDATA["@);
    if !(a is Done) {
        a.fail()
    } else {
        let b = body_end(s, a->next, CharClass::CDataText, ']', "]]>"@);
        if !(b is Done) {
            b.fail()
        } else {
            let c = tag(s, b->next, "]]>"@);
            if !(c is Done) {
                c.fail()
            } else {
                Outcome::Done { next: c->next, value: s.subrange(a->next, b->next) }
            }
        }
    }
}

/// `PI`: `<?`, a name, and `?>`; between them, if white space follows the
/// name, the data up to the first `?>`. The name is not held against the
/// reserved names.
pub open spec fn pi(s: Seq<char>, pos: int) -> Outcome<XmlPIView> {
    let a = tag(s, pos, "<?"@);
    if !(a is Done) {
        a.fail()
    } else {
        let b = name(s, a->next);
        if !(b is Done) {
            b.fail()
        } else {
            let c = opt_ws(s, b->next);
            if !(c is Done) {
                c.fail()
            } else if c->value is None {
                let e = tag(s, c->next, "?>"@);
                if !(e is Done) {
                    e.fail()
                } else {
                    Outcome::Done { next: e->next, value: XmlPIView { target: b->value, data: None } }
                }
            } else {
                let d = take_until(s, c->next, "?>"@);
                if !(d is Done) {
                    d.fail()
                } else {
                    let e = tag(s, d->next, "?>"@);
                    if !(e is Done) {
                        e.fail()
                    } else {
                        Outcome::Done {
                            next: e->next,
                            value: XmlPIView {
                                target: b->value,
                                data: Some(s.subrange(c->next, d->next)),
                            },
                        }
                    }
                }
            }
        }
    }
}

/// White space, the word `word`, an equals sign and an opening quote: the
/// quote is the value.
pub open spec fn attribute_start(s: Seq<char>, pos: int, word: Seq<char>) -> Outcome<char> {
    let a = ws(s, pos);
    if !(a is Done) {
        a.fail()
    } else {
        let b = tag(s, a->next, word);
        if !(b is Done) {
            b.fail()
        } else {
            let c = eq(s, b->next);
            if !(c is Done) {
                c.fail()
            } else {
                satisfy(s, c->next, CharClass::Quote)
            }
        }
    }
}

/// `VersionInfo`: `version`, an equals sign and `1.0` or `1.1` in quotes.
pub open spec fn version(s: Seq<char>, pos: int) -> Outcome<XmlVersion> {
    let a = attribute_start(s, pos, "version"@);
    if !(a is Done) {
        a.fail()
    } else {
        let b = tag(s, a->next, "1.1"@);
        let c = tag(s, a->next, "1.0"@);
        if !(b is Done) && !(b is Error) {
            b.fail()
        } else if !(b is Done) && !(c is Done) {
            c.fail()
        } else {
            let after = if b is Done {
                b->next
            } else {
                c->next
            };
            let d = satisfy(s, after, CharClass::Is(a->value));
            if !(d is Done) {
                d.fail()
            } else {
                Outcome::Done {
                    next: d->next,
                    value: if b is Done {
                        XmlVersion::Version1_1
                    } else {
                        XmlVersion::Version1_0
                    },
                }
            }
        }
    }
}

/// `EncodingDecl`: `encoding`, an equals sign and in quotes the name of
/// the encoding, a letter A to Z and then letters, digits, `-`, `.` and
/// `_`.
pub open spec fn encoding_decl(s: Seq<char>, pos: int) -> Outcome<Seq<char>> {
    let a = attribute_start(s, pos, "encoding"@);
    if !(a is Done) {
        a.fail()
    } else {
        let b = satisfy(s, a->next, CharClass::AsciiLetter);
        if !(b is Done) {
            b.fail()
        } else {
            let c = take_while(s, b->next, CharClass::EncName);
            if !(c is Done) {
                c.fail()
            } else {
                let d = satisfy(s, c->next, CharClass::Is(a->value));
                if !(d is Done) {
                    d.fail()
                } else {
                    Outcome::Done { next: d->next, value: s.subrange(a->next, c->next) }
                }
            }
        }
    }
}

/// `SDDecl`: `standalone`, an equals sign and `yes` or `no` in quotes.
pub open spec fn standalone_decl(s: Seq<char>, pos: int) -> Outcome<bool> {
    let a = attribute_start(s, pos, "standalone"@);
    if !(a is Done) {
        a.fail()
    } else {
        let b = tag(s, a->next, "yes"@);
        let c = tag(s, a->next, "no"@);
        if !(b is Done) && !(b is Error) {
            b.fail()
        } else if !(b is Done) && !(c is Done) {
            c.fail()
        } else {
            let after = if b is Done {
                b->next
            } else {
                c->next
            };
            let d = satisfy(s, after, CharClass::Is(a->value));
            if !(d is Done) {
                d.fail()
            } else {
                Outcome::Done { next: d->next, value: b is Done }
            }
        }
    }
}

/// `XMLDecl`: `<?xml`, the version, the encoding and the standalone
/// declaration, of which the last two may be left out, and `?>`.
pub open spec fn decl(s: Seq<char>, pos: int) -> Outcome<XmlDeclView> {
    let a = tag(s, pos, "<?xml"@);
    if !(a is Done) {
        a.fail()
    } else {
        let b = version(s, a->next);
        if !(b is Done) {
            b.fail()
        } else {
            let c = encoding_decl(s, b->next).opt(b->next);
            if !(c is Done) {
                c.fail()
            } else {
                let d = standalone_decl(s, c->next).opt(c->next);
                if !(d is Done) {
                    d.fail()
                } else {
                    let e = opt_ws(s, d->next);
                    if !(e is Done) {
                        e.fail()
                    } else {
                        let f = tag(s, e->next, "?>"@);
                        if !(f is Done) {
                            f.fail()
                        } else {
                            Outcome::Done {
                                next: f->next,
                                value: XmlDeclView {
                                    version: b->value,
                                    encoding: c->value,
                                    standalone: d->value,
                                },
                            }
                        }
                    }
                }
            }
        }
    }
}

/// `Misc`: a processing instruction, a comment or white space.
pub open spec fn misc(s: Seq<char>, pos: int) -> Outcome<XmlMiscView> {
    let a = pi(s, pos);
    if a is Done {
        Outcome::Done {
            next: a->next,
            value: XmlMiscView::PI { target: a->value.target, data: a->value.data },
        }
    } else if !(a is Error) {
        a.fail()
    } else {
        let b = comment(s, pos);
        if b is Done {
            Outcome::Done { next: b->next, value: XmlMiscView::Comment(b->value) }
        } else if !(b is Error) {
            b.fail()
        } else {
            let c = ws(s, pos);
            if c is Done {
                Outcome::Done { next: c->next, value: XmlMiscView::Space(c->value) }
            } else {
                c.fail()
            }
        }
    }
}

} // verus!
