use rexml::lexer::Token;
use rexml::stream::{
    after_lookahead, find_char, none_of_step, one_of_step, satisfy_step, search_step, starts_with,
    tag_step, take_while_step, utf8_len, Error, FindChar, Lookahead, Need, ParserKind, Prefix,
};

/// What a parser makes of a text that is there as a whole: the step, and a
/// broken pipe where the step asks for more.
fn on_text<'a, T>(
    input: &'a str,
    step: Need<T>,
    kind: ParserKind,
) -> Result<(&'a str, T), (&'a str, Error)> {
    match step {
        Need::Done { used, value } => Ok((&input[used..], value)),
        Need::Failed => Err((input, Error::ParseFailed(kind))),
        Need::More { ask } => {
            assert!(ask > 0);
            Err((input, after_lookahead(Lookahead::BrokenPipe, kind).unwrap()))
        }
    }
}

fn satisfy<'a>(cond: impl Fn(char) -> bool, input: &'a str) -> Result<(&'a str, char), (&'a str, Error)> {
    let first = input.chars().next();
    let holds = first.map(|c| cond(c)).unwrap_or(false);
    on_text(input, satisfy_step(first, holds), ParserKind::Safisfy)
}

fn one_of<'a, T: FindChar>(list: T, input: &'a str) -> Result<(&'a str, char), (&'a str, Error)> {
    on_text(input, one_of_step(&list, input.chars().next()), ParserKind::OneOf)
}

fn none_of<'a, T: FindChar>(list: T, input: &'a str) -> Result<(&'a str, char), (&'a str, Error)> {
    on_text(input, none_of_step(&list, input.chars().next()), ParserKind::NoneOf)
}

fn tag<'a, T: Prefix>(t: T, input: &'a str) -> Result<(&'a str, ()), (&'a str, Error)> {
    on_text(input, tag_step(input.as_bytes(), &t), ParserKind::Tag)
}

fn search<'a>(cond: impl Fn(usize, u8) -> bool, input: &'a str) -> Result<(&'a str, usize), (&'a str, Error)> {
    on_text(input, search_step(input.as_bytes(), 0, &cond), ParserKind::Search)
}

#[test]
fn test_tag() {
    assert_eq!(
        search(|_, v| { (v as char).is_whitespace() }, "hello ~~~"),
        Ok(("hello ~~~", 5))
    );

    assert_eq!(
        search(|_, v| { (v as char).is_whitespace() }, ""),
        Err(("", Error::BrokenPipe(ParserKind::Search)))
    );
}

#[test]
fn test_none_of() {
    assert_eq!(none_of("é", "hello"), Ok(("ello", 'h')));

    assert_eq!(
        none_of("é", "éhello"),
        Err(("éhello", Error::ParseFailed(ParserKind::NoneOf)))
    );
}

#[test]
fn test_one_of() {
    assert_eq!(one_of("é", "éhello"), Ok(("hello", 'é')));

    assert_eq!(
        one_of("é", "hello"),
        Err(("hello", Error::ParseFailed(ParserKind::OneOf)))
    );

    assert_eq!(one_of("1234567890.".to_string(), "32.4"), Ok(("2.4", '3')));

    assert_eq!(
        one_of("é", "hello"),
        Err(("hello", Error::ParseFailed(ParserKind::OneOf)))
    );
}

#[test]
fn test_satisfy() {
    assert_eq!(satisfy(|c| c == 'é', "éhello"), Ok(("hello", 'é')));

    assert_eq!(
        satisfy(|c| c == 'é', "hello"),
        Err(("hello", Error::ParseFailed(ParserKind::Safisfy)))
    );
}

#[test]
fn steps_that_need_more() {
    assert_eq!(satisfy_step(None, false), Need::More { ask: 4 });
    assert_eq!(satisfy_step(None, true), Need::More { ask: 4 });
    assert_eq!(one_of_step(&"abc", None), Need::More { ask: 4 });
    assert_eq!(none_of_step(&"abc", None), Need::More { ask: 4 });
    assert_eq!(tag_step(b"", &"xml"), Need::More { ask: 3 });
    assert_eq!(tag_step(b"xm", &"xml"), Need::More { ask: 1 });
    // too short is asked for even where what is there differs already
    assert_eq!(tag_step(b"js", &"xml"), Need::More { ask: 1 });
    assert_eq!(search_step(b"hello", 0, &|_, b| b == b' '), Need::More { ask: 1024 });
    assert_eq!(search_step(b"a b", 2, &|_, b| b == b' '), Need::More { ask: 1024 });
    assert_eq!(take_while_step(b"aaa", &|b| b == b'a'), Need::More { ask: 1024 });
    assert_eq!(take_while_step(b"", &|b| b == b'a'), Need::More { ask: 1024 });
    assert_eq!(after_lookahead(Lookahead::Buffered(3), ParserKind::Tag), None);
    assert_eq!(after_lookahead(Lookahead::Overflow(3), ParserKind::Tag), None);
    assert_eq!(
        after_lookahead(Lookahead::BrokenPipe, ParserKind::Tag),
        Some(Error::BrokenPipe(ParserKind::Tag))
    );
}

#[test]
fn steps_that_decide() {
    assert_eq!(tag_step(b"xml hello", &"xml"), Need::Done { used: 3, value: () });
    assert_eq!(tag_step(b"json hello", &"xml"), Need::Failed);
    assert_eq!(tag_step(b"anything", &""), Need::Done { used: 0, value: () });
    assert_eq!(tag_step(b"xml hello", &"xml".to_string()), Need::Done { used: 3, value: () });
    let bytes: &[u8] = "éhello".as_bytes();
    assert_eq!(tag_step("éhello~~~".as_bytes(), &bytes), Need::Done { used: 7, value: () });
    assert_eq!(tag("éhello", "éhello~~~"), Ok(("~~~", ())));
    assert_eq!(tag("éhello", "hello~~~"), Err(("hello~~~", Error::ParseFailed(ParserKind::Tag))));
    assert_eq!(tag("json", "js"), Err(("js", Error::BrokenPipe(ParserKind::Tag))));
    assert_eq!(satisfy_step(Some('a'), true), Need::Done { used: 1, value: 'a' });
    assert_eq!(satisfy_step(Some('é'), true), Need::Done { used: 2, value: 'é' });
    assert_eq!(satisfy_step(Some('\u{2122}'), true), Need::Done { used: 3, value: '\u{2122}' });
    assert_eq!(satisfy_step(Some('\u{10000}'), true), Need::Done { used: 4, value: '\u{10000}' });
    assert_eq!(satisfy_step(Some('a'), false), Need::Failed);
    assert_eq!(search_step(b"a b c", 0, &|_, b| b == b' '), Need::Done { used: 0, value: 1 });
    assert_eq!(search_step(b"a b c", 2, &|_, b| b == b' '), Need::Done { used: 0, value: 3 });
    assert_eq!(search_step(b"abc", 0, &|at, _| at == 2), Need::Done { used: 0, value: 2 });
    assert_eq!(take_while_step(b"aab", &|b| b == b'a'), Need::Done { used: 2, value: () });
    assert_eq!(take_while_step(b"b", &|b| b == b'a'), Need::Done { used: 0, value: () });
}

#[test]
fn bytes_of_a_character() {
    for c in ['\u{0}', 'a', '\u{7f}', '\u{80}', '\u{7ff}', '\u{800}', '\u{d7ff}', '\u{e000}', '\u{ffff}', '\u{10000}', '\u{10ffff}'] {
        assert_eq!(utf8_len(c), c.len_utf8(), "{:?}", c);
    }
}

#[test]
fn sets_and_prefixes() {
    assert!(find_char("1234567890.", '.'));
    assert!(!find_char("1234567890.", 'x'));
    assert!(!find_char("", 'x'));
    assert!(FindChar::find(&"é", 'é'));
    assert!(FindChar::find(&"abc".to_string(), 'c'));
    assert!(!FindChar::find(&"abc".to_string(), 'd'));
    assert!(starts_with(b"xml hello", b"xml"));
    assert!(starts_with(b"xml", b""));
    assert!(!starts_with(b"xm", b"xml"));
    assert!(!starts_with(b"xnl", b"xml"));
    assert_eq!(Prefix::len(&"éa"), 3);
    assert!(Prefix::find(&"éa", "éab".as_bytes()));
    assert!(!Prefix::find(&"éa", "ea".as_bytes()));
    assert_eq!(Prefix::len(&"xml".to_string()), 3);
    assert!(Prefix::find(&"xml".to_string(), b"xml "));
    let bytes: &[u8] = b"ab";
    assert_eq!(Prefix::len(&bytes), 2);
    assert!(Prefix::find(&bytes, b"abc"));
    assert!(!Prefix::find(&bytes, b"a"));
}

#[test]
fn texts_of_the_lexemes() {
    let fixed = [
        (Token::OpeningTagStart, "<"),
        (Token::ProcessingInstructionStart, "<?"),
        (Token::DoctypeStart, "<!DOCTYPE"),
        (Token::ClosingTagStart, "</"),
        (Token::CommentStart, "<!--"),
        (Token::CDataStart, "<![CDATA["),
        (Token::TagEnd, ">"),
        (Token::EmptyTagEnd, "/>"),
        (Token::ProcessingInstructionEnd, "?>"),
        (Token::CommentEnd, "-->"),
        (Token::CDataEnd, "]]>"),
        (Token::ReferenceStart, "&"),
        (Token::ReferenceEnd, ";"),
        (Token::EqualsSign, "="),
        (Token::SingleQuote, "'"),
        (Token::DoubleQuote, "\""),
        (Token::MarkupDeclarationStart, "<!"),
        (Token::Name("name"), "name"),
        (Token::Nmtoken("9token"), "9token"),
        (Token::S(" \t"), " \t"),
    ];
    for (token, text) in fixed {
        assert_eq!(token.text(), text);
    }
}
