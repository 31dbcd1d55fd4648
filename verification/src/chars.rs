//! The character classes of the XML grammar.

use vstd::prelude::*;

verus! {

/// `Char`: any Unicode character but the surrogate blocks, U+0000, U+FFFE and
/// U+FFFF.
pub open spec fn spec_is_char(c: char) -> bool {
    ('\u{1}' <= c && c <= '\u{D7FF}') || ('\u{E000}' <= c && c <= '\u{FFFD}') || ('\u{10000}' <= c
        && c <= '\u{10FFFF}')
}

/// `RestrictedChar`: the control characters that may only be written as
/// references.
pub open spec fn spec_is_restricted_char(c: char) -> bool {
    ('\u{1}' <= c && c <= '\u{8}') || ('\u{b}' <= c && c <= '\u{c}') || ('\u{e}' <= c && c
        <= '\u{1f}') || ('\u{7f}' <= c && c <= '\u{84}') || ('\u{86}' <= c && c <= '\u{9f}')
}

/// `S`: white space, which is the space, the tab, the carriage return and
/// the line feed, and nothing else.
pub open spec fn spec_is_whitespace(c: char) -> bool {
    c == ' ' || c == '\t' || c == '\r' || c == '\n'
}

/// `NameStartChar` without the colon: the characters that may open a name
/// that has no colon in it.
pub open spec fn spec_is_ncname_start_char(c: char) -> bool {
    c == '_' || ('A' <= c && c <= 'Z') || ('a' <= c && c <= 'z') || ('\u{c0}' <= c && c <= '\u{d6}')
        || ('\u{d8}' <= c && c <= '\u{f6}') || ('\u{f8}' <= c && c <= '\u{2ff}') || ('\u{370}' <= c
        && c <= '\u{37d}') || ('\u{37f}' <= c && c <= '\u{1fff}') || ('\u{200c}' <= c && c
        <= '\u{200d}') || ('\u{2070}' <= c && c <= '\u{218f}') || ('\u{2c00}' <= c && c
        <= '\u{2fef}') || ('\u{3001}' <= c && c <= '\u{d7ff}') || ('\u{f900}' <= c && c
        <= '\u{fdcf}') || ('\u{fdf0}' <= c && c <= '\u{fffd}') || ('\u{10000}' <= c && c
        <= '\u{effff}')
}

/// What a name may hold after its first character, beyond the characters
/// that may open it.
pub open spec fn spec_is_name_extender(c: char) -> bool {
    c == '-' || c == '.' || ('0' <= c && c <= '9') || c == '\u{b7}' || ('\u{0300}' <= c && c
        <= '\u{036f}') || ('\u{203f}' <= c && c <= '\u{2040}')
}

/// `NameChar` without the colon.
pub open spec fn spec_is_ncname_char(c: char) -> bool {
    spec_is_ncname_start_char(c) || spec_is_name_extender(c)
}

/// `NameStartChar`: the colon and the characters that may open a name
/// without one.
pub open spec fn spec_is_name_start_char(c: char) -> bool {
    c == ':' || spec_is_ncname_start_char(c)
}

/// `NameChar`.
pub open spec fn spec_is_name_char(c: char) -> bool {
    spec_is_name_start_char(c) || spec_is_name_extender(c)
}

/// `PubidChar`: what a public identifier may hold.
pub open spec fn spec_is_pubid_char(c: char) -> bool {
    c == '-' || c == '\'' || c == '(' || c == ')' || c == '+' || c == ',' || c == '.' || c == '/'
        || c == ':' || c == '=' || c == '?' || c == ';' || c == '!' || c == '*' || c == '#' || c
        == '@' || c == '$' || c == '_' || c == '%' || c == '\u{20}' || c == '\u{d}' || c
        == '\u{a}' || ('A' <= c && c <= 'Z') || ('a' <= c && c <= 'z') || ('0' <= c && c <= '9')
}

/// The digits 0 to 9.
pub open spec fn spec_is_digit(c: char) -> bool {
    '0' <= c && c <= '9'
}

/// The digits of base sixteen, in either case.
pub open spec fn spec_is_hex_digit(c: char) -> bool {
    ('0' <= c && c <= '9') || ('a' <= c && c <= 'f') || ('A' <= c && c <= 'F')
}

/// The letters A to Z, in either case.
pub open spec fn spec_is_ascii_letter(c: char) -> bool {
    ('A' <= c && c <= 'Z') || ('a' <= c && c <= 'z')
}

/// `[#x1-#xD7FF] | [#xE000-#xFFFD] | [#x10000-#x10FFFF]`
#[verifier::when_used_as_spec(spec_is_char)]
pub fn is_char(c: char) -> (b: bool)
    ensures
        b == spec_is_char(c),
{
    ('\u{1}' <= c && c <= '\u{D7FF}') || ('\u{E000}' <= c && c <= '\u{FFFD}') || ('\u{10000}' <= c
        && c <= '\u{10FFFF}')
}

/// `[#x1-#x8] | [#xB-#xC] | [#xE-#x1F] | [#x7F-#x84] | [#x86-#x9F]`
#[verifier::when_used_as_spec(spec_is_restricted_char)]
pub fn is_restricted_char(c: char) -> (b: bool)
    ensures
        b == spec_is_restricted_char(c),
{
    ('\u{1}' <= c && c <= '\u{8}') || ('\u{b}' <= c && c <= '\u{c}') || ('\u{e}' <= c && c
        <= '\u{1f}') || ('\u{7f}' <= c && c <= '\u{84}') || ('\u{86}' <= c && c <= '\u{9f}')
}

/// `#x20 | #x9 | #xD | #xA`
#[verifier::when_used_as_spec(spec_is_whitespace)]
pub fn is_whitespace(c: char) -> (b: bool)
    ensures
        b == spec_is_whitespace(c),
{
    c == ' ' || c == '\t' || c == '\r' || c == '\n'
}

/// Whether `c` may open a name that has no colon in it.
#[verifier::when_used_as_spec(spec_is_ncname_start_char)]
pub fn is_ncname_start_char(c: char) -> (b: bool)
    ensures
        b == spec_is_ncname_start_char(c),
{
    c == '_' || ('A' <= c && c <= 'Z') || ('a' <= c && c <= 'z') || ('\u{c0}' <= c && c <= '\u{d6}')
        || ('\u{d8}' <= c && c <= '\u{f6}') || ('\u{f8}' <= c && c <= '\u{2ff}') || ('\u{370}' <= c
        && c <= '\u{37d}') || ('\u{37f}' <= c && c <= '\u{1fff}') || ('\u{200c}' <= c && c
        <= '\u{200d}') || ('\u{2070}' <= c && c <= '\u{218f}') || ('\u{2c00}' <= c && c
        <= '\u{2fef}') || ('\u{3001}' <= c && c <= '\u{d7ff}') || ('\u{f900}' <= c && c
        <= '\u{fdcf}') || ('\u{fdf0}' <= c && c <= '\u{fffd}') || ('\u{10000}' <= c && c
        <= '\u{effff}')
}

/// Whether `c` is one of the characters that a name may hold only after its
/// first.
#[verifier::when_used_as_spec(spec_is_name_extender)]
pub fn is_name_extender(c: char) -> (b: bool)
    ensures
        b == spec_is_name_extender(c),
{
    c == '-' || c == '.' || ('0' <= c && c <= '9') || c == '\u{b7}' || ('\u{0300}' <= c && c
        <= '\u{036f}') || ('\u{203f}' <= c && c <= '\u{2040}')
}

/// Whether `c` may stand in a name that has no colon in it.
#[verifier::when_used_as_spec(spec_is_ncname_char)]
pub fn is_ncname_char(c: char) -> (b: bool)
    ensures
        b == spec_is_ncname_char(c),
{
    is_ncname_start_char(c) || is_name_extender(c)
}

/// `":" | [A-Z] | "_" | [a-z] | [#xC0-#xD6] | [#xD8-#xF6] | [#xF8-#x2FF] |
/// [#x370-#x37D] | [#x37F-#x1FFF] | [#x200C-#x200D] | [#x2070-#x218F] |
/// [#x2C00-#x2FEF] | [#x3001-#xD7FF] | [#xF900-#xFDCF] | [#xFDF0-#xFFFD] |
/// [#x10000-#xEFFFF]`
#[verifier::when_used_as_spec(spec_is_name_start_char)]
pub fn is_name_start_char(c: char) -> (b: bool)
    ensures
        b == spec_is_name_start_char(c),
{
    c == ':' || is_ncname_start_char(c)
}

/// `NameStartChar | "-" | "." | [0-9] | #xB7 | [#x0300-#x036F] | [#x203F-#x2040]`
#[verifier::when_used_as_spec(spec_is_name_char)]
pub fn is_name_char(c: char) -> (b: bool)
    ensures
        b == spec_is_name_char(c),
{
    is_name_start_char(c) || is_name_extender(c)
}

/// `#x20 | #xD | #xA | [a-zA-Z0-9] | [-'()+,./:=?;!*#@$_%]`
#[verifier::when_used_as_spec(spec_is_pubid_char)]
pub fn is_pubid_char(c: char) -> (b: bool)
    ensures
        b == spec_is_pubid_char(c),
{
    c == '-' || c == '\'' || c == '(' || c == ')' || c == '+' || c == ',' || c == '.' || c == '/'
        || c == ':' || c == '=' || c == '?' || c == ';' || c == '!' || c == '*' || c == '#' || c
        == '@' || c == '$' || c == '_' || c == '%' || c == '\u{20}' || c == '\u{d}' || c
        == '\u{a}' || ('A' <= c && c <= 'Z') || ('a' <= c && c <= 'z') || ('0' <= c && c <= '9')
}

/// Whether `c` is one of the digits 0 to 9.
#[verifier::when_used_as_spec(spec_is_digit)]
pub fn is_digit(c: char) -> (b: bool)
    ensures
        b == spec_is_digit(c),
{
    '0' <= c && c <= '9'
}

/// Whether `c` is a digit of base sixteen.
#[verifier::when_used_as_spec(spec_is_hex_digit)]
pub fn is_hex_digit(c: char) -> (b: bool)
    ensures
        b == spec_is_hex_digit(c),
{
    ('0' <= c && c <= '9') || ('a' <= c && c <= 'f') || ('A' <= c && c <= 'F')
}

/// Whether `c` is one of the letters A to Z, in either case.
#[verifier::when_used_as_spec(spec_is_ascii_letter)]
pub fn is_ascii_letter(c: char) -> (b: bool)
    ensures
        b == spec_is_ascii_letter(c),
{
    ('A' <= c && c <= 'Z') || ('a' <= c && c <= 'z')
}

/// White space is made of characters of XML that need no reference, and no
/// name holds any of it.
pub proof fn lemma_whitespace(c: char)
    requires
        spec_is_whitespace(c),
    ensures
        spec_is_char(c),
        !spec_is_restricted_char(c),
        !spec_is_name_char(c),
{
}

/// A name character is a name-start character or an extender, and the colon
/// is the one name character that a name without a colon may not hold.
pub proof fn lemma_name_chars(c: char)
    ensures
        spec_is_name_char(c) <==> (c == ':' || spec_is_ncname_char(c)),
        !spec_is_ncname_char(':'),
        spec_is_name_start_char(c) ==> spec_is_name_char(c),
        spec_is_ncname_start_char(c) ==> spec_is_ncname_char(c),
{
}

} // verus!
