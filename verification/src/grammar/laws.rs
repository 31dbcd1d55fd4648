//! What holds of the grammar: what a comment and a CDATA section may hold,
//! and what a character reference stands for.

use vstd::prelude::*;
use crate::chars::spec_is_char;
use crate::grammar::markup::{
    body_end, cdata, char_ref, comment, dec_char_ref, hex_char_ref, is_scalar, number,
};
use crate::grammar::tokens::{differs, lemma_run_end, run_end, stands_at, tag, CharClass};
use crate::parse::{ErrorKind, Outcome};

verus! {

/// A fixed text is read where it stands, and where it is read the text
/// goes on behind it.
pub proof fn lemma_tag(s: Seq<char>, pos: int, t: Seq<char>)
    requires
        0 <= pos <= s.len(),
    ensures
        tag(s, pos, t) is Done <==> stands_at(s, pos, t),
        tag(s, pos, t) is Done ==> tag(s, pos, t)->next == pos + t.len(),
        tag(s, pos, t) is Error ==> !stands_at(s, pos, t),
{
    if stands_at(s, pos, t) {
        if differs(s, pos, t) {
            let i = choose|i: int| 0 <= i < t.len() && pos + i < s.len() && s[pos + i] != t[i];
            assert(s.subrange(pos, pos + t.len())[i] == s[pos + i]);
        }
    } else if pos + t.len() <= s.len() {
        if !differs(s, pos, t) {
            assert(s.subrange(pos, pos + t.len()) =~= t);
        }
    }
}

/// Where a body ends: every character of it is of the class of the body, or
/// is a closing character with which the end mark does not stand; and at
/// its end stands a character that is not of the class, with the end mark
/// if it is the closing character.
pub proof fn lemma_body_end(s: Seq<char>, pos: int, class: CharClass, close: char, end: Seq<char>)
    requires
        0 <= pos <= s.len(),
        body_end(s, pos, class, close, end) is Done,
        !class.has(close),
    ensures
        pos <= body_end(s, pos, class, close, end)->next < s.len(),
        forall|i: int|
            pos <= i < body_end(s, pos, class, close, end)->next ==> class.has(#[trigger] s[i]) || (
            s[i] == close && !stands_at(s, i, end)),
        !class.has(s[body_end(s, pos, class, close, end)->next]),
        s[body_end(s, pos, class, close, end)->next] == close ==> stands_at(
            s,
            body_end(s, pos, class, close, end)->next,
            end,
        ),
    decreases s.len() - pos,
{
    lemma_run_end(s, pos, class);
    let e = run_end(s, pos, class);
    if s[e] == close {
        lemma_tag(s, e, end);
        if tag(s, e, end) is Error {
            lemma_body_end(s, e + 1, class, close, end);
        }
    }
}

/// What a comment holds: characters of XML only, no two hyphens in a row,
/// and no hyphen at its end. Behind it stands `-->`.
pub proof fn lemma_comment(s: Seq<char>, pos: int)
    requires
        0 <= pos <= s.len(),
        comment(s, pos) is Done,
    ensures
        pos + 4 <= comment(s, pos)->next - 3,
        comment(s, pos)->next <= s.len(),
        stands_at(s, pos, "<!--"@),
        comment(s, pos)->value == s.subrange(pos + 4, comment(s, pos)->next - 3),
        stands_at(s, comment(s, pos)->next - 3, "-->"@),
        forall|i: int|
            0 <= i < comment(s, pos)->value.len() ==> spec_is_char(
                #[trigger] comment(s, pos)->value[i],
            ),
        forall|i: int|
            0 <= i < comment(s, pos)->value.len() - 1 ==> !(#[trigger] comment(s, pos)->value[i]
                == '-' && comment(s, pos)->value[i + 1] == '-'),
        comment(s, pos)->value.len() > 0 ==> comment(s, pos)->value.last() != '-',
{
    reveal_strlit("<!--");
    reveal_strlit("--");
    reveal_strlit("-->");
    lemma_tag(s, pos, "<!--"@);
    let a = pos + 4;
    let class = CharClass::CommentText;
    lemma_body_end(s, a, class, '-', "--"@);
    let e = body_end(s, a, class, '-', "--"@)->next;
    lemma_tag(s, e, "-->"@);
    let v = comment(s, pos)->value;
    assert(s.subrange(e, e + 3)[0] == s[e]);
    assert forall|i: int| 0 <= i < v.len() implies spec_is_char(#[trigger] v[i]) by {
        assert(v[i] == s[a + i]);
    }
    assert forall|i: int| 0 <= i < v.len() - 1 implies !(#[trigger] v[i] == '-' && v[i + 1]
        == '-') by {
        assert(v[i] == s[a + i]);
        assert(v[i + 1] == s[a + i + 1]);
        if v[i] == '-' && v[i + 1] == '-' {
            assert(!class.has(s[a + i]));
            assert(s.subrange(a + i, a + i + 2) =~= "--"@);
        }
    }
    if v.len() > 0 && v.last() == '-' {
        assert(v.last() == s[e - 1]);
        assert(!class.has(s[e - 1]));
        assert(s.subrange(e - 1, e + 1) =~= "--"@);
    }
}

/// Two hyphens in the body of a comment that `>` does not follow are an
/// error, named at the hyphens.
pub proof fn lemma_comment_double_hyphen(s: Seq<char>, pos: int)
    requires
        0 <= pos <= s.len(),
        tag(s, pos, "<!--"@) is Done,
        body_end(s, pos + 4, CharClass::CommentText, '-', "--"@) is Done,
        ({
            let e = body_end(s, pos + 4, CharClass::CommentText, '-', "--"@)->next;
            e + 2 < s.len() && s[e] == '-' && s[e + 2] != '>'
        }),
    ensures
        comment(s, pos) == (Outcome::<Seq<char>>::Error {
            lo: body_end(s, pos + 4, CharClass::CommentText, '-', "--"@)->next,
            hi: s.len() as int,
            kind: ErrorKind::Tag,
        }),
{
    reveal_strlit("<!--");
    reveal_strlit("-->");
    let e = body_end(s, pos + 4, CharClass::CommentText, '-', "--"@)->next;
    assert("-->"@[2] == '>');
    assert(differs(s, e, "-->"@));
}

/// What a CDATA section holds: characters of XML only, and nowhere `]]>`.
/// Behind it stands `]]>`.
pub proof fn lemma_cdata(s: Seq<char>, pos: int)
    requires
        0 <= pos <= s.len(),
        cdata(s, pos) is Done,
    ensures
        pos + 9 <= cdata(s, pos)->next - 3,
        cdata(s, pos)->next <= s.len(),
        stands_at(s, pos, "<![CDATA["@),
        cdata(s, pos)->value == s.subrange(pos + 9, cdata(s, pos)->next - 3),
        stands_at(s, cdata(s, pos)->next - 3, "]]>"@),
        forall|i: int|
            0 <= i < cdata(s, pos)->value.len() ==> spec_is_char(#[trigger] cdata(s, pos)->value[i]),
        forall|i: int|
            0 <= i <= cdata(s, pos)->value.len() - 3 ==> !#[trigger] stands_at(
                cdata(s, pos)->value,
                i,
                "]]>"@,
            ),
{
    reveal_strlit("<![CDATA[");
    reveal_strlit("]]>");
    lemma_tag(s, pos, "<![CDATA["@);
    let a = pos + 9;
    let class = CharClass::CDataText;
    lemma_body_end(s, a, class, ']', "]]>"@);
    let e = body_end(s, a, class, ']', "]]>"@)->next;
    lemma_tag(s, e, "]]>"@);
    let v = cdata(s, pos)->value;
    assert forall|i: int| 0 <= i < v.len() implies spec_is_char(#[trigger] v[i]) by {
        assert(v[i] == s[a + i]);
    }
    assert forall|i: int| 0 <= i <= v.len() - 3 implies !#[trigger] stands_at(v, i, "]]>"@) by {
        if stands_at(v, i, "]]>"@) {
            assert(v.subrange(i, i + 3)[0] == v[i]);
            assert(v[i] == s[a + i]);
            assert(!class.has(s[a + i]));
            assert(s.subrange(a + i, a + i + 3) =~= v.subrange(i, i + 3));
        }
    }
}

/// What a character reference stands for: the character whose number its
/// digits write. No reference stands for a surrogate or for a number
/// behind the last code point.
pub proof fn lemma_char_ref(s: Seq<char>, pos: int)
    requires
        0 <= pos <= s.len(),
        char_ref(s, pos) is Done,
    ensures
        ({
            let d = hex_char_ref(s, pos).or(dec_char_ref(s, pos));
            &&& d is Done
            &&& char_ref(s, pos)->next == d->next
            &&& char_ref(s, pos)->value as int == number(
                s.subrange(d->value.lo, d->value.hi),
                d->value.radix,
            )
            &&& is_scalar(char_ref(s, pos)->value as int)
        }),
{
}

/// Digits that write the number of a surrogate, or a number behind the last
/// code point, make no character: the reference fails for good, and the
/// failure names the digits.
pub proof fn lemma_char_ref_refused(s: Seq<char>, pos: int)
    requires
        0 <= pos <= s.len(),
        hex_char_ref(s, pos).or(dec_char_ref(s, pos)) is Done,
        ({
            let d = hex_char_ref(s, pos).or(dec_char_ref(s, pos))->value;
            !is_scalar(number(s.subrange(d.lo, d.hi), d.radix))
        }),
    ensures
        char_ref(s, pos) == (Outcome::<char>::Failure {
            lo: hex_char_ref(s, pos).or(dec_char_ref(s, pos))->value.lo,
            hi: hex_char_ref(s, pos).or(dec_char_ref(s, pos))->value.hi,
            kind: ErrorKind::Digit,
        }),
{
}

} // verus!
