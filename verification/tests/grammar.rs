use rexml::chars::{
    is_char, is_name_char, is_name_start_char, is_pubid_char, is_restricted_char, is_whitespace,
};
use rexml::ebnf::{
    xml_att_value, xml_cdata, xml_char_ref, xml_children, xml_comment, xml_decl,
    xml_encoding_decl, xml_entity_value, xml_eq, xml_name, xml_peref, xml_pi, xml_ref,
    xml_standalone_decl, xml_version, xml_ws,
};
use rexml::parse::{ErrorKind, ParseError};
use rexml::reader::markup::digit_of;
use rexml::reader::tokens::is_enc_name_char;
use rexml::symbols::{
    XmlAttValuePart, XmlCData, XmlCP, XmlChildren, XmlComment, XmlDecl, XmlDeclName, XmlEncoding,
    XmlEntityValuePart, XmlName, XmlPEReference, XmlPI, XmlReference, XmlRepeat, XmlSDDecl,
    XmlVersion, XmlWhiteSpace,
};

#[test]
fn comment_terminator() {
    assert_eq!(
        xml_comment("<!-- hello -- world -->"),
        Err(ParseError::Error { input: "-- world -->", kind: ErrorKind::Tag })
    );
    assert_eq!(
        xml_comment("<!-- hello - world -->"),
        Ok(("", XmlComment(" hello - world ")))
    );
    assert_eq!(xml_comment("<!---->x"), Ok(("x", XmlComment(""))));
    assert_eq!(
        xml_comment("<!-- a --->"),
        Err(ParseError::Error { input: "--->", kind: ErrorKind::Tag })
    );
    // a character that XML does not have ends the body too
    assert_eq!(
        xml_comment("<!-- a\u{0}b -->"),
        Err(ParseError::Error { input: "\u{0}b -->", kind: ErrorKind::Tag })
    );
}

#[test]
fn comment_that_the_text_cuts_short() {
    assert_eq!(xml_comment(""), Err(ParseError::Incomplete));
    assert_eq!(xml_comment("<!-"), Err(ParseError::Incomplete));
    assert_eq!(xml_comment("<!-- hello"), Err(ParseError::Incomplete));
    assert_eq!(xml_comment("<!-- hello -"), Err(ParseError::Incomplete));
    assert_eq!(xml_comment("<!-- hello --"), Err(ParseError::Incomplete));
    assert_eq!(
        xml_comment("<!x"),
        Err(ParseError::Error { input: "<!x", kind: ErrorKind::Tag })
    );
}

#[test]
fn cdata_nested_bracket() {
    assert_eq!(
        xml_cdata("<![CDATA[ he<![CDATA[]]llo]]>"),
        Ok(("", XmlCData(" he<![CDATA[]]llo")))
    );
    assert_eq!(xml_cdata("<![CDATA[]]]]>x"), Ok(("x", XmlCData("]]"))));
    assert_eq!(xml_cdata("<![CDATA[a]>b]]>"), Ok(("", XmlCData("a]>b"))));
    assert_eq!(xml_cdata("<![CDATA[a]]"), Err(ParseError::Incomplete));
    assert_eq!(xml_cdata("<![CDATA[a"), Err(ParseError::Incomplete));
}

#[test]
fn char_reference_decoding() {
    assert_eq!(xml_ref("&#x2122;"), Ok(("", XmlReference::Char('\u{2122}'))));
    assert_eq!(xml_char_ref("&#x2122;"), Ok(("", '\u{2122}')));
    assert_eq!(xml_char_ref("&#8482;x"), Ok(("x", '\u{2122}')));
    assert_eq!(xml_char_ref("&#x10FFFF;"), Ok(("", '\u{10FFFF}')));
    assert_eq!(xml_char_ref("&#xD7FF;"), Ok(("", '\u{D7FF}')));
    assert_eq!(xml_char_ref("&#xe000;"), Ok(("", '\u{E000}')));
    assert_eq!(xml_char_ref("&#0;"), Ok(("", '\u{0}')));
    assert_eq!(xml_char_ref("&#x0000000000000000041;"), Ok(("", 'A')));
    // a surrogate, a number behind the last code point, a number that no
    // machine word holds
    assert_eq!(
        xml_ref("&#xd800;"),
        Err(ParseError::Failure { input: "d800", kind: ErrorKind::Digit })
    );
    assert_eq!(
        xml_char_ref("&#xDFFF; "),
        Err(ParseError::Failure { input: "DFFF", kind: ErrorKind::Digit })
    );
    assert_eq!(
        xml_char_ref("&#x110000;"),
        Err(ParseError::Failure { input: "110000", kind: ErrorKind::Digit })
    );
    assert_eq!(
        xml_char_ref("&#99999999999999999999999;"),
        Err(ParseError::Failure { input: "99999999999999999999999", kind: ErrorKind::Digit })
    );
    // no digits, a digit of the wrong base, no semicolon
    assert_eq!(
        xml_char_ref("&#;"),
        Err(ParseError::Error { input: ";", kind: ErrorKind::TakeWhile1 })
    );
    assert_eq!(
        xml_char_ref("&#12a;"),
        Err(ParseError::Error { input: "a;", kind: ErrorKind::Satisfy })
    );
    assert_eq!(xml_char_ref("&#12"), Err(ParseError::Incomplete));
    assert_eq!(xml_char_ref("&"), Err(ParseError::Incomplete));
    assert_eq!(
        xml_char_ref("&x;"),
        Err(ParseError::Error { input: "&x;", kind: ErrorKind::Tag })
    );
}

#[test]
fn digits() {
    assert_eq!(digit_of('0'), 0);
    assert_eq!(digit_of('9'), 9);
    assert_eq!(digit_of('a'), 10);
    assert_eq!(digit_of('f'), 15);
    assert_eq!(digit_of('A'), 10);
    assert_eq!(digit_of('F'), 15);
    assert_eq!(digit_of('g'), 0);
}

#[test]
fn parameter_entities_only_in_entity_values() {
    assert_eq!(xml_peref("%draft;x"), Ok(("x", XmlPEReference("draft"))));
    assert_eq!(
        xml_entity_value("'a%b;c'"),
        Ok((
            "",
            vec![
                XmlEntityValuePart::Literal("a"),
                XmlEntityValuePart::PEReference("b"),
                XmlEntityValuePart::Literal("c")
            ]
        ))
    );
    assert_eq!(
        xml_att_value("'a%b;c'"),
        Err(ParseError::Error { input: "'a%b;c'", kind: ErrorKind::Tag })
    );
    assert_eq!(
        xml_att_value("\"a'&lt;'\""),
        Ok((
            "",
            vec![
                XmlAttValuePart::Literal("a'"),
                XmlAttValuePart::EntityRef("lt"),
                XmlAttValuePart::Literal("'")
            ]
        ))
    );
    assert_eq!(xml_att_value("''"), Ok(("", vec![])));
    // a reference that names no character fails the whole value
    assert_eq!(
        xml_att_value("'a&#xd800;'"),
        Err(ParseError::Failure { input: "d800", kind: ErrorKind::Digit })
    );
}

#[test]
fn xml_declaration() {
    assert_eq!(
        xml_decl("<?xml version='1.1' encoding='ISO-8859-1' standalone='no' ?>"),
        Ok((
            "",
            XmlDecl {
                version: XmlVersion::Version1_1,
                encoding: Some("ISO-8859-1"),
                standalone: Some(false)
            }
        ))
    );
    assert_eq!(xml_version(" version = \"1.0\""), Ok(("", XmlVersion::Version1_0)));
    assert_eq!(
        xml_version(" version='1.2'"),
        Err(ParseError::Error { input: "1.2'", kind: ErrorKind::Tag })
    );
    assert_eq!(
        xml_version(" version='1.0\""),
        Err(ParseError::Error { input: "\"", kind: ErrorKind::Satisfy })
    );
    assert_eq!(
        xml_version("version='1.0'"),
        Err(ParseError::Error { input: "version='1.0'", kind: ErrorKind::TakeWhile1 })
    );
    assert_eq!(xml_standalone_decl(" standalone='yes'"), Ok(("", XmlSDDecl(true))));
    assert_eq!(xml_standalone_decl(" standalone=\"no\""), Ok(("", XmlSDDecl(false))));
    assert_eq!(
        xml_standalone_decl(" standalone='maybe'"),
        Err(ParseError::Error { input: "maybe'", kind: ErrorKind::Tag })
    );
    assert_eq!(
        xml_decl("<?xml?>"),
        Err(ParseError::Error { input: "?>", kind: ErrorKind::TakeWhile1 })
    );
    assert_eq!(xml_eq(" = x"), Ok(("x", ())));
    assert_eq!(xml_eq("=x"), Ok(("x", ())));
}

#[test]
fn encoding_names() {
    assert_eq!(xml_encoding_decl(" encoding='utf-8'"), Ok(("", XmlEncoding("utf-8"))));
    assert_eq!(
        xml_encoding_decl(" encoding='a-b.c_d9\u{e9}\u{4e2d}'"),
        Ok(("", XmlEncoding("a-b.c_d9\u{e9}\u{4e2d}")))
    );
    assert_eq!(
        xml_encoding_decl(" encoding='9x'"),
        Err(ParseError::Error { input: "9x'", kind: ErrorKind::Satisfy })
    );
    assert_eq!(
        xml_encoding_decl(" encoding='\u{e9}x'"),
        Err(ParseError::Error { input: "\u{e9}x'", kind: ErrorKind::Satisfy })
    );
    assert_eq!(
        xml_encoding_decl(" encoding='x!'"),
        Err(ParseError::Error { input: "!'", kind: ErrorKind::Satisfy })
    );
    assert!(is_enc_name_char('-', false));
    assert!(is_enc_name_char('.', false));
    assert!(is_enc_name_char('_', false));
    assert!(is_enc_name_char('\u{e9}', true));
    assert!(!is_enc_name_char('!', false));
}

#[test]
fn processing_instructions() {
    assert_eq!(xml_pi("<?t?>"), Ok(("", XmlPI { target: "t", data: None })));
    assert_eq!(xml_pi("<?t ?>"), Ok(("", XmlPI { target: "t", data: Some("") })));
    assert_eq!(xml_pi("<?xml d?>"), Ok(("", XmlPI { target: "xml", data: Some("d") })));
    assert_eq!(xml_pi("<?t a?b>c?>d"), Ok(("d", XmlPI { target: "t", data: Some("a?b>c") })));
    assert_eq!(xml_pi("<?t x"), Err(ParseError::Incomplete));
    assert_eq!(xml_pi("<?t"), Err(ParseError::Incomplete));
    assert_eq!(xml_pi("<?t/>"), Err(ParseError::Error { input: "/>", kind: ErrorKind::Tag }));
}

#[test]
fn names_of_many_scripts() {
    assert_eq!(xml_name("\u{e9}l\u{e9}ment "), Ok((" ", XmlName("\u{e9}l\u{e9}ment"))));
    assert_eq!(xml_name("a\u{b7}\u{300}\u{203f}>"), Ok((">", XmlName("a\u{b7}\u{300}\u{203f}"))));
    assert_eq!(xml_name("\u{10000}\u{effff}\u{f0000}"), Ok(("\u{f0000}", XmlName("\u{10000}\u{effff}"))));
    assert_eq!(xml_name("name"), Err(ParseError::Incomplete));
    assert_eq!(xml_name(""), Err(ParseError::Incomplete));
    assert_eq!(
        xml_name("\u{d7}"),
        Err(ParseError::Error { input: "\u{d7}", kind: ErrorKind::Satisfy })
    );
    assert_eq!(xml_ws(" \t\r\nx"), Ok(("x", XmlWhiteSpace(" \t\r\n"))));
    // a form feed is no white space
    assert_eq!(xml_ws(" \t\u{c}x"), Ok(("\u{c}x", XmlWhiteSpace(" \t"))));
    assert_eq!(
        xml_ws("\u{c} "),
        Err(ParseError::Error { input: "\u{c} ", kind: ErrorKind::TakeWhile1 })
    );
    assert_eq!(xml_ws("x"), Err(ParseError::Error { input: "x", kind: ErrorKind::TakeWhile1 }));
    assert_eq!(xml_ws("  "), Err(ParseError::Incomplete));
}

#[test]
fn nested_content_particles() {
    assert_eq!(
        xml_children("(a,(b|c)*,d)+ "),
        Ok((
            " ",
            XmlChildren::Sequence {
                cps: vec![
                    XmlCP::Name(XmlDeclName::Name("a")),
                    XmlCP::Children(XmlChildren::Choice {
                        cps: vec![
                            XmlCP::Name(XmlDeclName::Name("b")),
                            XmlCP::Name(XmlDeclName::Name("c"))
                        ],
                        repeat: Some(XmlRepeat::ZeroOrMany)
                    }),
                    XmlCP::Name(XmlDeclName::Name("d"))
                ],
                repeat: Some(XmlRepeat::OneOrMany)
            }
        ))
    );
    assert_eq!(
        xml_children("(a) "),
        Ok((
            " ",
            XmlChildren::Choice { cps: vec![XmlCP::Name(XmlDeclName::Name("a"))], repeat: None }
        ))
    );
    // a name has no mark of its own for how often it may occur
    assert_eq!(
        xml_children("(a,d?)+ "),
        Err(ParseError::Error { input: "?)+ ", kind: ErrorKind::Tag })
    );
    assert_eq!(
        xml_children("() "),
        Ok((" ", XmlChildren::Sequence { cps: vec![], repeat: None }))
    );
}

#[test]
fn character_classes() {
    assert!(is_char('\u{1}'));
    assert!(is_char('\u{D7FF}'));
    assert!(is_char('\u{E000}'));
    assert!(is_char('\u{FFFD}'));
    assert!(is_char('\u{10000}'));
    assert!(is_char('\u{10FFFF}'));
    assert!(!is_char('\u{0}'));
    assert!(!is_char('\u{FFFE}'));
    assert!(!is_char('\u{FFFF}'));
    assert!(is_restricted_char('\u{1}'));
    assert!(is_restricted_char('\u{8}'));
    assert!(!is_restricted_char('\u{9}'));
    assert!(!is_restricted_char('\u{a}'));
    assert!(is_restricted_char('\u{b}'));
    assert!(!is_restricted_char('\u{d}'));
    assert!(is_restricted_char('\u{1f}'));
    assert!(!is_restricted_char(' '));
    assert!(is_restricted_char('\u{7f}'));
    assert!(!is_restricted_char('\u{85}'));
    assert!(is_restricted_char('\u{9f}'));
    for c in [' ', '\t', '\r', '\n'] {
        assert!(is_whitespace(c));
    }
    for c in ['\u{c}', '\u{b}', '\u{a0}', '\u{85}', '\u{2028}', '\u{0}', 'x'] {
        assert!(!is_whitespace(c), "{:?}", c);
    }
    for c in [':', '_', 'A', 'Z', 'a', 'z', '\u{c0}', '\u{d6}', '\u{d8}', '\u{f6}', '\u{f8}', '\u{2ff}', '\u{370}', '\u{37d}', '\u{37f}', '\u{1fff}', '\u{200c}', '\u{200d}', '\u{2070}', '\u{218f}', '\u{2c00}', '\u{2fef}', '\u{3001}', '\u{d7ff}', '\u{f900}', '\u{fdcf}', '\u{fdf0}', '\u{fffd}', '\u{10000}', '\u{effff}'] {
        assert!(is_name_start_char(c), "{:?}", c);
        assert!(is_name_char(c), "{:?}", c);
    }
    for c in ['-', '.', '0', '9', '\u{b7}', '\u{300}', '\u{36f}', '\u{203f}', '\u{2040}'] {
        assert!(!is_name_start_char(c), "{:?}", c);
        assert!(is_name_char(c), "{:?}", c);
    }
    for c in [' ', '@', '[', '`', '{', '\u{d7}', '\u{f7}', '\u{300}', '\u{37e}', '\u{2000}', '\u{200b}', '\u{200e}', '\u{206f}', '\u{2190}', '\u{2bff}', '\u{2ff0}', '\u{3000}', '\u{e000}', '\u{f8ff}', '\u{fdd0}', '\u{fdef}', '\u{fffe}', '\u{f0000}'] {
        assert!(!is_name_start_char(c), "{:?}", c);
    }
    for c in [' ', '@', '\u{d7}', '\u{2041}', '\u{203e}', '\u{36f}'.max('\u{2041}'), '\u{f0000}'] {
        assert!(!is_name_char(c), "{:?}", c);
    }
    for c in ['-', '\'', '(', ')', '+', ',', '.', '/', ':', '=', '?', ';', '!', '*', '#', '@', '$', '_', '%', ' ', '\r', '\n', 'A', 'z', '0', '9'] {
        assert!(is_pubid_char(c), "{:?}", c);
    }
    for c in ['"', '&', '<', '>', '\t', '[', '\u{e9}'] {
        assert!(!is_pubid_char(c), "{:?}", c);
    }
}
