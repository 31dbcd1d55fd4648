//! Qualified names: `prefix:local` or `local`.

use vstd::prelude::*;
use vstd::string::*;
use crate::chars::{is_ncname_char, is_ncname_start_char, lemma_name_chars, spec_is_ncname_char, spec_is_ncname_start_char};
use crate::errors::Error;
use crate::parse::Source;

verus! {

/// Whether `s` is a name without a colon: one start character, then name
/// characters.
pub open spec fn is_ncname(s: Seq<char>) -> bool {
    &&& s.len() > 0
    &&& spec_is_ncname_start_char(s[0])
    &&& forall|i: int| 1 <= i < s.len() ==> spec_is_ncname_char(#[trigger] s[i])
}

/// Whether `s` is a qualified name: a name without a colon, or two of them
/// with one colon between.
pub open spec fn is_qname(s: Seq<char>) -> bool {
    is_ncname(s) || exists|k: int| is_qname_split(s, k)
}

/// Whether the colon at `k` parts `s` into a prefix and a local part.
pub open spec fn is_qname_split(s: Seq<char>, k: int) -> bool {
    &&& 0 < k < s.len()
    &&& s[k] == ':'
    &&& is_ncname(s.subrange(0, k))
    &&& is_ncname(s.subrange(k + 1, s.len() as int))
}

/// The place of the first colon of `s`, or the length of `s` if it has none.
pub open spec fn first_colon(s: Seq<char>) -> int
    decreases s.len(),
{
    if s.len() == 0 || s[0] == ':' {
        0
    } else {
        1 + first_colon(s.drop_first())
    }
}

/// What a qualified name holds, as plain text.
pub struct QNameView {
    pub prefix: Option<Seq<char>>,
    pub local_part: Seq<char>,
}

impl QNameView {
    /// The name as it is written: the prefix and a colon, if there is a
    /// prefix, then the local part.
    pub open spec fn text(self) -> Seq<char> {
        match self.prefix {
            Some(p) => p + seq![':'] + self.local_part,
            None => self.local_part,
        }
    }

    /// Both parts are names without a colon.
    pub open spec fn wf(self) -> bool {
        &&& is_ncname(self.local_part)
        &&& self.prefix matches Some(p) ==> is_ncname(p)
    }

    /// The parts of `s`, cut at its first colon.
    pub open spec fn of_text(s: Seq<char>) -> QNameView {
        let k = first_colon(s);
        if k < s.len() {
            QNameView { prefix: Some(s.subrange(0, k)), local_part: s.subrange(k + 1, s.len() as int) }
        } else {
            QNameView { prefix: None, local_part: s }
        }
    }
}

/// A qualified name, the name of an element or an attribute. Both parts
/// borrow from the text that the name was read from.
#[derive(Debug, Clone, Copy, PartialEq, Eq)]
pub struct QName<'a> {
    /// The prefix, if the name has one.
    pub prefix: Option<&'a str>,
    /// The local part.
    pub local_part: &'a str,
}

impl<'a> View for QName<'a> {
    type V = QNameView;

    open spec fn view(&self) -> QNameView {
        QNameView {
            prefix: match self.prefix {
                Some(p) => Some(p@),
                None => None,
            },
            local_part: self.local_part@,
        }
    }
}

/// `first_colon` finds the first colon: no colon stands before it, and one
/// stands at it unless `s` has none.
pub proof fn lemma_first_colon(s: Seq<char>)
    ensures
        0 <= first_colon(s) <= s.len(),
        forall|i: int| 0 <= i < first_colon(s) ==> s[i] != ':',
        first_colon(s) < s.len() ==> s[first_colon(s)] == ':',
    decreases s.len(),
{
    if s.len() == 0 || s[0] == ':' {
    } else {
        let t = s.drop_first();
        lemma_first_colon(t);
        assert forall|i: int| 0 <= i < first_colon(s) implies s[i] != ':' by {
            if i > 0 {
                assert(s[i] == t[i - 1]);
            }
        }
        if first_colon(t) < t.len() {
            assert(t[first_colon(t)] == s[first_colon(t) + 1]);
        }
    }
}

/// A qualified name is written in one way only: well-formed parts are the
/// parts of their text, cut at its first colon.
pub proof fn lemma_qname_unique(q: QNameView)
    requires
        q.wf(),
    ensures
        QNameView::of_text(q.text()) == q,
        is_qname(q.text()),
{
    let s = q.text();
    lemma_first_colon(s);
    let k = first_colon(s);
    lemma_name_chars(':');
    match q.prefix {
        Some(p) => {
            let n = p.len() as int;
            assert(s[n] == ':');
            assert forall|i: int| 0 <= i < n implies s[i] != ':' by {
                assert(s[i] == p[i]);
            }
            assert(k == n);
            assert(s.subrange(0, k) =~= p);
            assert(s.subrange(k + 1, s.len() as int) =~= q.local_part);
            assert(is_qname_split(s, k));
        },
        None => {
            if k < s.len() {
                assert(spec_is_ncname_char(s[k]) || spec_is_ncname_start_char(s[k]));
            }
        },
    }
}

/// The text of a well-formed name, cut at its first colon, gives the text
/// back: reading a qualified name and writing it out again changes nothing.
pub proof fn lemma_qname_round_trip(s: Seq<char>)
    requires
        is_qname(s),
    ensures
        QNameView::of_text(s).wf(),
        QNameView::of_text(s).text() == s,
{
    lemma_first_colon(s);
    lemma_name_chars(':');
    let k = first_colon(s);
    if is_ncname(s) {
        if k < s.len() {
            assert(spec_is_ncname_char(s[k]) || spec_is_ncname_start_char(s[k]));
        }
    } else {
        let j = choose|j: int| is_qname_split(s, j);
        let p = s.subrange(0, j);
        let l = s.subrange(j + 1, s.len() as int);
        assert forall|i: int| 0 <= i < j implies s[i] != ':' by {
            assert(s[i] == p[i]);
            assert(spec_is_ncname_char(p[i]) || spec_is_ncname_start_char(p[i]));
        }
        assert(k == j);
        assert(p + seq![':'] + l =~= s);
    }
}

/// The end of the longest name without a colon that starts at `from`:
/// `from` itself where no such name starts there.
fn scan_ncname(s: &Source, len: usize, from: usize) -> (end: usize)
    requires
        len == s@.len(),
        from <= len,
    ensures
        from <= end <= len,
        end > from ==> is_ncname(s@.subrange(from as int, end as int)),
        end == from ==> (from == len || !spec_is_ncname_start_char(s@[from as int])),
        end < len ==> !spec_is_ncname_char(s@[end as int]) || end == from,
{
    if from == len || !is_ncname_start_char(s.at(from)) {
        return from;
    }
    let mut end: usize = from + 1;
    while end < len && is_ncname_char(s.at(end))
        invariant
            len == s@.len(),
            from < end <= len,
            spec_is_ncname_start_char(s@[from as int]),
            forall|i: int| from < i < end ==> spec_is_ncname_char(#[trigger] s@[i]),
        decreases len - end,
    {
        end = end + 1;
    }
    assert(is_ncname(s@.subrange(from as int, end as int))) by {
        let t = s@.subrange(from as int, end as int);
        assert forall|i: int| 1 <= i < t.len() implies spec_is_ncname_char(#[trigger] t[i]) by {
            assert(t[i] == s@[from + i]);
        }
    }
    end
}

impl<'a> QName<'a> {
    /// Reads a qualified name. The whole of `input` must be the name: an
    /// empty text, a first character that opens no name, a second colon or
    /// anything after the name is refused.
    pub fn parse(input: &'a str) -> (res: Result<QName<'a>, Error<'a>>)
        ensures
            res is Ok <==> is_qname(input@),
            res matches Ok(q) ==> q@ == QNameView::of_text(input@) && q@.wf() && q@.text()
                == input@,
            res matches Err(e) ==> e == Error::QName(input),
    {
        let src = Source::new(input);
        let len = src.len();
        let ghost s = input@;
        proof {
            lemma_first_colon(s);
            lemma_name_chars(':');
        }
        let mid = scan_ncname(&src, len, 0);
        if mid == 0 {
            proof {
                if is_qname(s) {
                    if !is_ncname(s) {
                        let k = choose|k: int| is_qname_split(s, k);
                        assert(s.subrange(0, k)[0] == s[0]);
                    }
                }
            }
            return Err(Error::QName(input));
        }
        proof {
            let p = s.subrange(0, mid as int);
            assert forall|i: int| 0 <= i < mid implies s[i] != ':' by {
                assert(s[i] == p[i]);
                assert(spec_is_ncname_char(p[i]) || spec_is_ncname_start_char(p[i]));
            }
        }
        if mid == len {
            assert(s.subrange(0, len as int) =~= s);
            proof {
                lemma_qname_round_trip(s);
            }
            return Ok(QName { prefix: None, local_part: input });
        }
        if src.at(mid) != ':' {
            proof {
                // the first character that is no name character is no colon
                // either, so no colon parts the text into two names
                if is_qname(s) {
                    if is_ncname(s) {
                        assert(spec_is_ncname_char(s[mid as int]));
                    } else {
                        let k = choose|k: int| is_qname_split(s, k);
                        let p = s.subrange(0, k);
                        if k > mid {
                            assert(p[mid as int] == s[mid as int]);
                            assert(spec_is_ncname_char(p[mid as int]));
                        }
                    }
                }
            }
            return Err(Error::QName(input));
        }
        assert(first_colon(s) == mid);
        let end = scan_ncname(&src, len, mid + 1);
        if end == mid + 1 || end < len {
            proof {
                if is_qname(s) {
                    if is_ncname(s) {
                        assert(spec_is_ncname_char(s[mid as int]));
                    } else {
                        let k = choose|k: int| is_qname_split(s, k);
                        let p = s.subrange(0, k);
                        let l = s.subrange(k + 1, s.len() as int);
                        if k > mid {
                            assert(p[mid as int] == s[mid as int]);
                            assert(spec_is_ncname_char(p[mid as int]));
                        }
                        assert(k == mid);
                        assert(l[0] == s[mid + 1]);
                        if end < len && end > mid + 1 {
                            assert(l[end - mid - 1] == s[end as int]);
                        }
                    }
                }
            }
            return Err(Error::QName(input));
        }
        let prefix = src.slice(0, mid);
        let local_part = src.slice(mid + 1, len);
        proof {
            assert(is_qname_split(s, mid as int));
            lemma_qname_round_trip(s);
        }
        Ok(QName { prefix: Some(prefix), local_part })
    }

    /// Writes the name out: `prefix:local`, or `local` where there is no
    /// prefix.
    pub fn to_string(&self) -> (text: String)
        ensures
            text@ == self@.text(),
    {
        match self.prefix {
            Some(p) => {
                let mut text = String::from_str(p);
                text.append(":");
                proof {
                    reveal_strlit(":");
                    assert(":"@ =~= seq![':']);
                }
                text.append(self.local_part);
                text
            },
            None => String::from_str(self.local_part),
        }
    }
}

impl<'a> TryFrom<&'a str> for QName<'a> {
    type Error = Error<'a>;

    /// Reads a qualified name, as `QName::parse` does.
    fn try_from(value: &'a str) -> (res: Result<QName<'a>, Error<'a>>)
        ensures
            res is Ok <==> is_qname(value@),
            res matches Ok(q) ==> q@ == QNameView::of_text(value@) && q@.wf() && q@.text()
                == value@,
            res matches Err(e) ==> e == Error::QName(value),
    {
        QName::parse(value)
    }
}

impl<'a> vstd::std_specs::convert::TryFromSpecImpl<&'a str> for QName<'a> {
    open spec fn obeys_try_from_spec() -> bool {
        false
    }

    open spec fn try_from_spec(v: &'a str) -> Result<Self, Error<'a>> {
        Err(Error::QName(v))
    }
}

} // verus!
