//! Characters, fixed texts, runs, names and literals.

use vstd::prelude::*;
use crate::chars::{
    spec_is_ascii_letter, spec_is_char, spec_is_digit, spec_is_hex_digit, spec_is_name_char,
    spec_is_name_start_char, spec_is_ncname_char, spec_is_ncname_start_char, spec_is_pubid_char,
    spec_is_whitespace,
};
use crate::parse::{ErrorKind, Outcome};

verus! {

/// Whether `c` is a letter or a digit of any script, as the Unicode
/// standard has it.
pub uninterp spec fn unicode_alphanumeric(c: char) -> bool;

/// A class of characters.
#[derive(Debug, Clone, Copy)]
pub enum CharClass {
    /// White space.
    Whitespace,
    /// What may open a name.
    NameStart,
    /// What a name may hold.
    Name,
    /// What a public identifier may hold.
    Pubid,
    /// What a public identifier in single quotes may hold.
    PubidNoApos,
    /// The one character.
    Is(char),
    /// Every character but the one.
    Not(char),
    /// The double and the single quote.
    Quote,
    /// The digits of base sixteen.
    Hex,
    /// The digits 0 to 9.
    Digit,
    /// The letters A to Z, in either case.
    AsciiLetter,
    /// What the name of an encoding may hold after its first letter.
    EncName,
    /// What a comment may hold besides hyphens.
    CommentText,
    /// What a CDATA section may hold besides closing brackets.
    CDataText,
    /// What stands for itself in a value quoted by the one character: every
    /// character but the quote, the ampersand and the percent sign.
    Text(char),
    /// What may open a name that has no colon in it.
    NcNameStart,
    /// What a name that has no colon in it may hold.
    NcName,
    /// The space and the tab.
    Blank,
    /// Every character but the question mark and the closing angle
    /// bracket.
    PiData,
}

impl CharClass {
    /// Whether `c` is of this class.
    pub open spec fn has(self, c: char) -> bool {
        match self {
            CharClass::Whitespace => spec_is_whitespace(c),
            CharClass::NameStart => spec_is_name_start_char(c),
            CharClass::Name => spec_is_name_char(c),
            CharClass::Pubid => spec_is_pubid_char(c),
            CharClass::PubidNoApos => c != '\'' && spec_is_pubid_char(c),
            CharClass::Is(x) => c == x,
            CharClass::Not(x) => c != x,
            CharClass::Quote => c == '"' || c == '\'',
            CharClass::Hex => spec_is_hex_digit(c),
            CharClass::Digit => spec_is_digit(c),
            CharClass::AsciiLetter => spec_is_ascii_letter(c),
            CharClass::EncName => c == '-' || c == '.' || c == '_' || unicode_alphanumeric(c),
            CharClass::CommentText => c != '-' && spec_is_char(c),
            CharClass::CDataText => c != ']' && spec_is_char(c),
            CharClass::Text(q) => !(c == q || c == '&' || c == '%'),
            CharClass::NcNameStart => spec_is_ncname_start_char(c),
            CharClass::NcName => spec_is_ncname_char(c),
            CharClass::Blank => c == ' ' || c == '\t',
            CharClass::PiData => c != '?' && c != '>',
        }
    }
}

/// Whether the text at `pos` differs from `t` in some character, as far as
/// the text goes.
pub open spec fn differs(s: Seq<char>, pos: int, t: Seq<char>) -> bool {
    exists|i: int| 0 <= i < t.len() && pos + i < s.len() && s[pos + i] != t[i]
}

/// The fixed text `t`.
pub open spec fn tag(s: Seq<char>, pos: int, t: Seq<char>) -> Outcome<()> {
    if differs(s, pos, t) {
        Outcome::Error { lo: pos, hi: s.len() as int, kind: ErrorKind::Tag }
    } else if s.len() - pos < t.len() {
        Outcome::Incomplete
    } else {
        Outcome::Done { next: pos + t.len(), value: () }
    }
}

/// One character of the class `class`.
pub open spec fn satisfy(s: Seq<char>, pos: int, class: CharClass) -> Outcome<char> {
    if pos >= s.len() {
        Outcome::Incomplete
    } else if class.has(s[pos]) {
        Outcome::Done { next: pos + 1, value: s[pos] }
    } else {
        Outcome::Error { lo: pos, hi: s.len() as int, kind: ErrorKind::Satisfy }
    }
}

/// The end of the run of characters of `class` that starts at `pos`: the
/// place of the first character from `pos` on that is not of the class, or
/// the end of the text.
pub open spec fn run_end(s: Seq<char>, pos: int, class: CharClass) -> int
    decreases s.len() - pos,
{
    if pos < 0 || pos >= s.len() || !class.has(s[pos]) {
        pos
    } else {
        run_end(s, pos + 1, class)
    }
}

/// A run ends at or behind the place where it starts, within the text;
/// every character of it is of the class, and the character at which it
/// ends is not.
pub proof fn lemma_run_end(s: Seq<char>, pos: int, class: CharClass)
    requires
        0 <= pos <= s.len(),
    ensures
        pos <= run_end(s, pos, class) <= s.len(),
        forall|i: int| pos <= i < run_end(s, pos, class) ==> class.has(#[trigger] s[i]),
        run_end(s, pos, class) < s.len() ==> !class.has(s[run_end(s, pos, class)]),
    decreases s.len() - pos,
{
    if pos < s.len() && class.has(s[pos]) {
        lemma_run_end(s, pos + 1, class);
    }
}

/// The run of characters of `class` at `pos`, which may be empty. A run that
/// reaches the end of the text is incomplete.
pub open spec fn take_while(s: Seq<char>, pos: int, class: CharClass) -> Outcome<()> {
    if run_end(s, pos, class) >= s.len() {
        Outcome::Incomplete
    } else {
        Outcome::Done { next: run_end(s, pos, class), value: () }
    }
}

/// The run of at least one character of `class` at `pos`; an empty run is
/// an error of kind `kind`.
pub open spec fn take_while1(s: Seq<char>, pos: int, class: CharClass, kind: ErrorKind) -> Outcome<
    (),
> {
    if run_end(s, pos, class) >= s.len() {
        Outcome::Incomplete
    } else if run_end(s, pos, class) == pos {
        Outcome::Error { lo: pos, hi: s.len() as int, kind }
    } else {
        Outcome::Done { next: run_end(s, pos, class), value: () }
    }
}

/// Whether `t` stands in `s` at `pos`.
pub open spec fn stands_at(s: Seq<char>, pos: int, t: Seq<char>) -> bool {
    pos + t.len() <= s.len() && s.subrange(pos, pos + t.len()) =~= t
}

/// The first place from `pos` on at which `t` stands, or a place behind the
/// end of the text if it stands nowhere.
pub open spec fn find(s: Seq<char>, pos: int, t: Seq<char>) -> int
    decreases s.len() - pos,
{
    if pos < 0 || pos + t.len() > s.len() {
        s.len() as int + 1
    } else if stands_at(s, pos, t) {
        pos
    } else if pos >= s.len() {
        s.len() as int + 1
    } else {
        find(s, pos + 1, t)
    }
}

/// The text up to the first `t` from `pos` on. A text without `t` is
/// incomplete.
pub open spec fn take_until(s: Seq<char>, pos: int, t: Seq<char>) -> Outcome<()> {
    if find(s, pos, t) > s.len() {
        Outcome::Incomplete
    } else {
        Outcome::Done { next: find(s, pos, t), value: () }
    }
}

/// `S`: white space, at least one character of it.
pub open spec fn ws(s: Seq<char>, pos: int) -> Outcome<Seq<char>> {
    match take_while1(s, pos, CharClass::Whitespace, ErrorKind::TakeWhile1) {
        Outcome::Done { next, .. } => Outcome::Done { next, value: s.subrange(pos, next) },
        other => other.fail(),
    }
}

/// The place behind the white space at `pos`, if the text goes on behind
/// it: white space that may be left out. White space that reaches the end
/// of the text is incomplete.
pub open spec fn opt_ws(s: Seq<char>, pos: int) -> Outcome<Option<Seq<char>>> {
    ws(s, pos).opt(pos)
}

/// `Eq`: an equals sign, with white space around it or without.
pub open spec fn eq(s: Seq<char>, pos: int) -> Outcome<()> {
    let a = opt_ws(s, pos);
    if !(a is Done) {
        a.fail()
    } else {
        let b = satisfy(s, a->next, CharClass::Is('='));
        if !(b is Done) {
            b.fail()
        } else {
            let c = opt_ws(s, b->next);
            if !(c is Done) {
                c.fail()
            } else {
                Outcome::Done { next: c->next, value: () }
            }
        }
    }
}

/// `Name`: a name-start character, then name characters.
pub open spec fn name(s: Seq<char>, pos: int) -> Outcome<Seq<char>> {
    let a = satisfy(s, pos, CharClass::NameStart);
    if !(a is Done) {
        a.fail()
    } else {
        let b = take_while(s, a->next, CharClass::Name);
        if !(b is Done) {
            b.fail()
        } else {
            Outcome::Done { next: b->next, value: s.subrange(pos, b->next) }
        }
    }
}

/// `Nmtoken`: name characters, at least one.
pub open spec fn nmtoken(s: Seq<char>, pos: int) -> Outcome<Seq<char>> {
    match take_while1(s, pos, CharClass::Name, ErrorKind::TakeWhile1) {
        Outcome::Done { next, .. } => Outcome::Done { next, value: s.subrange(pos, next) },
        other => other.fail(),
    }
}

/// A list that begins with `first` and goes on as `rest` says.
pub open spec fn prepend<T>(first: Seq<T>, rest: Outcome<Seq<T>>) -> Outcome<Seq<T>> {
    match rest {
        Outcome::Done { next, value } => Outcome::Done { next, value: first + value },
        other => other,
    }
}

/// What follows a name in a list of names: a space and a name, any number
/// of times. A space that no name follows is not part of the list.
pub open spec fn more_names(s: Seq<char>, pos: int) -> Outcome<Seq<Seq<char>>>
    decreases s.len() - pos,
{
    let a = satisfy(s, pos, CharClass::Is(' '));
    if a is Error {
        Outcome::Done { next: pos, value: Seq::empty() }
    } else if !(a is Done) {
        a.fail()
    } else {
        let b = name(s, a->next);
        if b is Error {
            Outcome::Done { next: pos, value: Seq::empty() }
        } else if !(b is Done) {
            b.fail()
        } else if b->next <= pos || b->next > s.len() {
            Outcome::Done { next: pos, value: Seq::empty() }
        } else {
            prepend(seq![b->value], more_names(s, b->next))
        }
    }
}

/// `Names`: names with one space between each two.
pub open spec fn names(s: Seq<char>, pos: int) -> Outcome<Seq<Seq<char>>> {
    let a = name(s, pos);
    if !(a is Done) {
        a.fail()
    } else {
        prepend(seq![a->value], more_names(s, a->next))
    }
}

/// What follows a name token in a list of them: a space and a name token,
/// any number of times.
pub open spec fn more_nmtokens(s: Seq<char>, pos: int) -> Outcome<Seq<Seq<char>>>
    decreases s.len() - pos,
{
    let a = satisfy(s, pos, CharClass::Is(' '));
    if a is Error {
        Outcome::Done { next: pos, value: Seq::empty() }
    } else if !(a is Done) {
        a.fail()
    } else {
        let b = nmtoken(s, a->next);
        if b is Error {
            Outcome::Done { next: pos, value: Seq::empty() }
        } else if !(b is Done) {
            b.fail()
        } else if b->next <= pos || b->next > s.len() {
            Outcome::Done { next: pos, value: Seq::empty() }
        } else {
            prepend(seq![b->value], more_nmtokens(s, b->next))
        }
    }
}

/// `Nmtokens`: name tokens with one space between each two.
pub open spec fn nmtokens(s: Seq<char>, pos: int) -> Outcome<Seq<Seq<char>>> {
    let a = nmtoken(s, pos);
    if !(a is Done) {
        a.fail()
    } else {
        prepend(seq![a->value], more_nmtokens(s, a->next))
    }
}

/// A run of characters of `class` between two quotes `quote`, the run
/// being the value.
pub open spec fn quoted(s: Seq<char>, pos: int, quote: char, class: CharClass) -> Outcome<
    Seq<char>,
> {
    let a = satisfy(s, pos, CharClass::Is(quote));
    if !(a is Done) {
        a.fail()
    } else {
        let b = take_while(s, a->next, class);
        if !(b is Done) {
            b.fail()
        } else {
            let c = satisfy(s, b->next, CharClass::Is(quote));
            if !(c is Done) {
                c.fail()
            } else {
                Outcome::Done { next: c->next, value: s.subrange(a->next, b->next) }
            }
        }
    }
}

/// `PubidLiteral`: public identifier characters in double quotes, or those
/// but the single quote in single quotes.
pub open spec fn pubid_lit(s: Seq<char>, pos: int) -> Outcome<Seq<char>> {
    quoted(s, pos, '"', CharClass::Pubid).or(quoted(s, pos, '\'', CharClass::PubidNoApos))
}

/// `SystemLiteral`: any characters but the quote, in double or in single
/// quotes.
pub open spec fn system_lit(s: Seq<char>, pos: int) -> Outcome<Seq<char>> {
    quoted(s, pos, '"', CharClass::Not('"')).or(quoted(s, pos, '\'', CharClass::Not('\'')))
}

} // verus!
