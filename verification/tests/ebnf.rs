use rexml::ebnf::{
    xml_att_list_decl, xml_att_type, xml_att_value, xml_cdata, xml_comment, xml_decl,
    xml_default_decl, xml_doctype_decl, xml_element_decl, xml_entity_decl, xml_entity_value,
    xml_enum_type, xml_external_id, xml_mixed, xml_name, xml_names, xml_ndata_decl, xml_nmtoken,
    xml_nmtokens, xml_notation_decl, xml_pi, xml_public_id, xml_pubid_lit, xml_ref,
    xml_system_lit, xml_tokenized_type,
};
use rexml::parse::{ErrorKind, ParseError};
use rexml::symbols::{
    XmlAttDef, XmlAttListDecl, XmlAttType, XmlAttValuePart, XmlCData, XmlCP, XmlChildren,
    XmlComment, XmlContentSpec, XmlDecl, XmlDeclName, XmlDefaultDecl, XmlDocTypeDecl,
    XmlElementDecl, XmlEntityDecl, XmlEntityDef, XmlEntityValuePart, XmlEnumType, XmlExternalId,
    XmlMarkupDecl, XmlMixed, XmlNDataDecl, XmlName, XmlNmToken, XmlNotationDecl, XmlNotationId,
    XmlPI, XmlPubidLiteral, XmlPublicId, XmlReference, XmlSystemLiteral, XmlTokenizedType,
    XmlVersion,
};

#[test]
fn name() {
    let (_, symbol) = xml_name(":hello:world ").unwrap();

    assert_eq!(symbol, XmlName(":hello:world"));

    assert_eq!(
        xml_name(".hello:world "),
        Err(ParseError::Error { input: ".hello:world ", kind: ErrorKind::Satisfy })
    );

    assert_eq!(
        xml_name("-hello:world "),
        Err(ParseError::Error { input: "-hello:world ", kind: ErrorKind::Satisfy })
    );

    assert_eq!(
        xml_name("9hello:world "),
        Err(ParseError::Error { input: "9hello:world ", kind: ErrorKind::Satisfy })
    );
}

#[test]
fn names() {
    let (_, symbol) = xml_names(":hello:world :hello:world :hello:world  ").unwrap();

    assert_eq!(
        symbol,
        vec![
            XmlName(":hello:world"),
            XmlName(":hello:world"),
            XmlName(":hello:world")
        ]
    );
}

#[test]
fn nmtoken() {
    let (_, symbol) = xml_nmtoken("9hello:world ").unwrap();

    assert_eq!(symbol, XmlNmToken("9hello:world"));
}

#[test]
fn nmtokens() {
    let (_, symbol) = xml_nmtokens("9hello:world 7hello:world 8hello:world>").unwrap();

    assert_eq!(
        symbol,
        vec![
            XmlNmToken("9hello:world"),
            XmlNmToken("7hello:world"),
            XmlNmToken("8hello:world")
        ]
    );
}

#[test]
fn pubid_lit() {
    let (_, symbol) = xml_pubid_lit(r#""-/he'llo" "#).unwrap();

    assert_eq!(symbol, XmlPubidLiteral(r#"-/he'llo"#));

    let (_, symbol) = xml_pubid_lit(r#"'-/hello' "#).unwrap();

    assert_eq!(symbol, XmlPubidLiteral(r#"-/hello"#));
}

#[test]
fn system_lit() {
    let (_, value) = xml_system_lit("'\u{2122}' ").unwrap();

    assert_eq!(value, XmlSystemLiteral("\u{2122}"));

    let (_, value) = xml_system_lit(r#"'"hello' "#).unwrap();

    assert_eq!(value, XmlSystemLiteral("\"hello"));

    let (_, value) = xml_system_lit(r#""" "#).unwrap();

    assert_eq!(value, XmlSystemLiteral(""));

    let (_, value) = xml_system_lit(r#""'hello" "#).unwrap();

    assert_eq!(value, XmlSystemLiteral("'hello"));
}

#[test]
fn reference() {
    let (_, reference) = xml_ref("&#x2122; ").unwrap();

    assert_eq!(reference, XmlReference::Char('\u{2122}'));

    let (_, reference) = xml_ref("&#10; ").unwrap();

    assert_eq!(reference, XmlReference::Char('\u{a}'));

    let (_, reference) = xml_ref("&hello; ").unwrap();

    assert_eq!(reference, XmlReference::Entity("hello"));
}

#[test]
fn entity_value() {
    let (_, value) = xml_entity_value(r#"'%hello:a; hello &#x2122; world &hello;' "#).unwrap();

    assert_eq!(
        value,
        vec![
            XmlEntityValuePart::PEReference("hello:a"),
            XmlEntityValuePart::Literal(" hello "),
            XmlEntityValuePart::CharRef('™'),
            XmlEntityValuePart::Literal(" world "),
            XmlEntityValuePart::EntityRef("hello")
        ]
    );
}

#[test]
fn attr_value() {
    let (_, value) = xml_att_value(r#"' hello &#x2122; world &hello;' "#).unwrap();

    assert_eq!(
        value,
        vec![
            XmlAttValuePart::Literal(" hello "),
            XmlAttValuePart::CharRef('™'),
            XmlAttValuePart::Literal(" world "),
            XmlAttValuePart::EntityRef("hello")
        ]
    );

    xml_att_value(r#"'%hello:a; hello &#x2122; world &hello;' "#)
        .expect_err("AttValue: unspport PEReference");
}

#[test]
fn comment() {
    let (_, value) = xml_comment("<!-- hello - world& --> ").unwrap();

    assert_eq!(value, XmlComment(" hello - world& "));

    let (_, value) = xml_comment("<!-- declarations for <head> & <body> --> ").unwrap();

    assert_eq!(value, XmlComment(" declarations for <head> & <body> "));

    assert_eq!(
        xml_comment("<!-- B+, B, or B---> "),
        Err(ParseError::Error { input: "---> ", kind: ErrorKind::Tag })
    );

    let (_, value) = xml_comment("<!--hello - <<<!>> world&--> ").unwrap();

    assert_eq!(value, XmlComment("hello - <<<!>> world&"));

    assert_eq!(
        xml_comment("<!-- hello -- world& --> "),
        Err(ParseError::Error { input: "-- world& --> ", kind: ErrorKind::Tag })
    );
}

#[test]
fn pi() {
    let (_, value) = xml_pi("<?xml-stylesheet?> ").unwrap();

    assert_eq!(
        value,
        XmlPI {
            target: "xml-stylesheet",
            data: None
        }
    );

    let (_, value) = xml_pi("<?xml-stylesheet ?> ").unwrap();

    assert_eq!(
        value,
        XmlPI {
            target: "xml-stylesheet",
            data: Some("")
        }
    );

    let (_, value) = xml_pi("<?xml-stylesheet   &#160; hello<>world   ?> ").unwrap();

    assert_eq!(
        value,
        XmlPI {
            target: "xml-stylesheet",
            data: Some("&#160; hello<>world   ")
        }
    );
}

#[test]
fn cdata() {
    let (_, value) = xml_cdata("<![CDATA[]]> ").unwrap();

    assert_eq!(value, XmlCData(""));

    let (_, value) = xml_cdata("<![CDATA[ he<![CDATA[]]llo]]> ").unwrap();

    assert_eq!(value, XmlCData(" he<![CDATA[]]llo"));
}

#[test]
fn xmldecl() {
    assert_eq!(
        xml_decl(r#"<?xml version="1.0"?> "#),
        Ok((
            " ",
            XmlDecl {
                version: XmlVersion::Version1_0,
                encoding: None,
                standalone: None
            }
        ))
    );

    assert_eq!(
        xml_decl(r#"<?xml version="1.0" encoding="utf-8"?> "#),
        Ok((
            " ",
            XmlDecl {
                version: XmlVersion::Version1_0,
                encoding: Some("utf-8"),
                standalone: None
            }
        ))
    );

    assert_eq!(
        xml_decl(r#"<?xml version="1.1"  standalone="yes"       ?> "#),
        Ok((
            " ",
            XmlDecl {
                version: XmlVersion::Version1_1,
                encoding: None,
                standalone: Some(true)
            }
        ))
    );
}

#[test]
fn external_id() {
    let (_, id) =
        xml_external_id(r#"SYSTEM "http://www.textuality.com/boilerplate/OpenHatch.xml" "#)
            .unwrap();

    assert_eq!(
        id,
        XmlExternalId::System("http://www.textuality.com/boilerplate/OpenHatch.xml")
    );

    let (_, id) = xml_external_id(
        r#"PUBLIC "-//Textuality//TEXT Standard open-hatch boilerplate//EN" 
                "http://www.textuality.com/boilerplate/OpenHatch.xml" "#,
    )
    .unwrap();

    assert_eq!(
        id,
        XmlExternalId::Public {
            public_id: "-//Textuality//TEXT Standard open-hatch boilerplate//EN",
            system_id: "http://www.textuality.com/boilerplate/OpenHatch.xml"
        }
    );
}

#[test]
fn public_id() {
    let (_, value) = xml_public_id("PUBLIC '' ").unwrap();

    assert_eq!(value, XmlPublicId(""));

    let (_, value) = xml_public_id(r#"PUBLIC "'hello" "#).unwrap();

    assert_eq!(value, XmlPublicId("'hello"));

    assert_eq!(
        xml_public_id("PUBLIC '\u{2122}' "),
        Err(ParseError::Error { input: "\u{2122}' ", kind: ErrorKind::Satisfy })
    );
}

#[test]
fn notation_decl() {
    assert_eq!(
        xml_notation_decl(r#"<!NOTATION PNG SYSTEM "image/png"> "#),
        Ok((
            " ",
            XmlNotationDecl {
                name: "PNG",
                id: XmlNotationId::System("image/png")
            }
        ))
    );

    assert_eq!(
        xml_notation_decl(
            r#"<!NOTATION PNG PUBLIC "-//Textuality//TEXT Standard open-hatch boilerplate//EN" 
                "http://www.textuality.com/boilerplate/OpenHatch.xml" > "#
        ),
        Ok((
            " ",
            XmlNotationDecl {
                name: "PNG",
                id: XmlNotationId::PublicSystem {
                    public_id: "-//Textuality//TEXT Standard open-hatch boilerplate//EN",
                    system_id: "http://www.textuality.com/boilerplate/OpenHatch.xml"
                }
            }
        ))
    );
}

#[test]
fn ndata_decl() {
    assert_eq!(
        xml_ndata_decl(r#" NDATA gif "#),
        Ok((" ", XmlNDataDecl("gif")))
    );
}

#[test]
fn entity_decl() {
    assert_eq!(
        xml_entity_decl(
            r#"<!ENTITY picture SYSTEM "http://www.somesite.com/somePic.gif" NDATA GIF> "#
        ),
        Ok((
            " ",
            XmlEntityDecl::GEDecl {
                name: "picture",
                def: XmlEntityDef::External {
                    id: XmlExternalId::System("http://www.somesite.com/somePic.gif"),
                    ndata_decl: Some("GIF")
                }
            }
        ))
    );

    assert_eq!(
        xml_entity_decl(
            r#"<!ENTITY Pub-Status "This is a pre-release of the specification."> "#
        ),
        Ok((
            " ",
            XmlEntityDecl::GEDecl {
                name: "Pub-Status",
                def: XmlEntityDef::Value(vec![XmlEntityValuePart::Literal(
                    "This is a pre-release of the specification."
                )])
            }
        ))
    );
}

#[test]
fn enum_type() {
    assert_eq!(
        xml_enum_type(r#"NOTATION (js|cs|perl) "#),
        Ok((" ", XmlEnumType::Notation(vec!["js", "cs", "perl"])))
    );

    assert_eq!(
        xml_enum_type(r#"(apple | pear | bannan) "#),
        Ok((" ", XmlEnumType::NmToken(vec!["apple", "pear", "bannan"])))
    );
}

#[test]
fn tokenized_type() {
    assert_eq!(
        xml_tokenized_type(r#"ID "#),
        Ok((" ", XmlTokenizedType::Id))
    );

    assert_eq!(
        xml_tokenized_type(r#"IDREF "#),
        Ok((" ", XmlTokenizedType::IdRef))
    );

    assert_eq!(
        xml_tokenized_type(r#"IDREFS "#),
        Ok((" ", XmlTokenizedType::IdRefs))
    );

    assert_eq!(
        xml_tokenized_type(r#"ENTITY "#),
        Ok((" ", XmlTokenizedType::Entity))
    );

    assert_eq!(
        xml_tokenized_type(r#"ENTITIES "#),
        Ok((" ", XmlTokenizedType::Entities))
    );

    assert_eq!(
        xml_tokenized_type(r#"NMTOKEN "#),
        Ok((" ", XmlTokenizedType::NmToken))
    );

    assert_eq!(
        xml_tokenized_type(r#"NMTOKENS "#),
        Ok((" ", XmlTokenizedType::NmTokens))
    );
}

#[test]
fn att_type() {
    assert_eq!(
        xml_att_type(r#"NMTOKENS "#),
        Ok((" ", XmlAttType::Tokenized(XmlTokenizedType::NmTokens)))
    );

    assert_eq!(xml_att_type(r#"CDATA "#), Ok((" ", XmlAttType::String)));

    assert_eq!(
        xml_att_type(r#"NOTATION (js|cs|perl) "#),
        Ok((" ", XmlAttType::Notation(vec!["js", "cs", "perl"])))
    );

    assert_eq!(
        xml_att_type(r#"(apple | pear | bannan) "#),
        Ok((" ", XmlAttType::NmToken(vec!["apple", "pear", "bannan"])))
    );
}

#[test]
fn default_decl() {
    assert_eq!(
        xml_default_decl(r#"#REQUIRED "#),
        Ok((" ", XmlDefaultDecl::Required))
    );

    assert_eq!(
        xml_default_decl(r#"#IMPLIED "#),
        Ok((" ", XmlDefaultDecl::Implied))
    );

    assert_eq!(
        xml_default_decl(r#"#FIXED   ' hello &#x2122; world &hello;' "#),
        Ok((
            " ",
            XmlDefaultDecl::Fixed(vec![
                XmlAttValuePart::Literal(" hello "),
                XmlAttValuePart::CharRef('™'),
                XmlAttValuePart::Literal(" world "),
                XmlAttValuePart::EntityRef("hello")
            ])
        ))
    );
}

#[test]
fn att_list_decl() {
    assert_eq!(
        xml_att_list_decl(r#"<!ATTLIST test myAttr CDATA #IMPLIED> "#),
        Ok((
            " ",
            XmlAttListDecl {
                name: "test",
                att_defs: vec![XmlAttDef {
                    name: "myAttr",
                    att_type: XmlAttType::String,
                    default_decl: XmlDefaultDecl::Implied
                }]
            }
        ))
    );

    assert_eq!(
        xml_att_list_decl(r#"<!ATTLIST test fruit (apple | pear | bannan) #REQUIRED> "#),
        Ok((
            " ",
            XmlAttListDecl {
                name: "test",
                att_defs: vec![XmlAttDef {
                    name: "fruit",
                    att_type: XmlAttType::NmToken(vec!["apple", "pear", "bannan"]),
                    default_decl: XmlDefaultDecl::Required
                }]
            }
        ))
    );

    assert_eq!(
        xml_att_list_decl(
            r#"<!ATTLIST test fruit (apple | pear | bannan) #REQUIRED     
                myAttr CDATA #IMPLIED > "#
        ),
        Ok((
            " ",
            XmlAttListDecl {
                name: "test",
                att_defs: vec![
                    XmlAttDef {
                        name: "fruit",
                        att_type: XmlAttType::NmToken(vec!["apple", "pear", "bannan"]),
                        default_decl: XmlDefaultDecl::Required
                    },
                    XmlAttDef {
                        name: "myAttr",
                        att_type: XmlAttType::String,
                        default_decl: XmlDefaultDecl::Implied
                    }
                ]
            }
        ))
    );
}

#[test]
fn mixed() {
    let (_, mixed) = xml_mixed(r#"(#PCDATA) "#).unwrap();

    assert_eq!(mixed, XmlMixed(None));

    assert_eq!(xml_mixed(r#"(#PCDATA)* "#), Ok(("* ", XmlMixed(None))));

    let (_, mixed) = xml_mixed(r#"(#PCDATA|a|ul|b|i|em)* "#).unwrap();

    assert_eq!(
        mixed,
        XmlMixed(Some(vec![
            XmlDeclName::Name("a"),
            XmlDeclName::Name("ul"),
            XmlDeclName::Name("b"),
            XmlDeclName::Name("i"),
            XmlDeclName::Name("em")
        ]))
    );

    let (_, mixed) =
        xml_mixed(r#"(#PCDATA | %font; | %phrase; | %special; | %form;)* "#).unwrap();

    assert_eq!(
        mixed,
        XmlMixed(Some(vec![
            XmlDeclName::PEReference("font"),
            XmlDeclName::PEReference("phrase"),
            XmlDeclName::PEReference("special"),
            XmlDeclName::PEReference("form"),
        ]))
    );
}

#[test]
fn element_decl() {
    assert_eq!(
        xml_element_decl(r#"<!ELEMENT br EMPTY> "#),
        Ok((
            " ",
            XmlElementDecl {
                name: XmlDeclName::Name("br"),
                content: XmlContentSpec::Empty
            }
        ))
    );

    assert_eq!(
        xml_element_decl(r#"<!ELEMENT p (#PCDATA|emph)* > "#),
        Ok((
            " ",
            XmlElementDecl {
                name: XmlDeclName::Name("p"),
                content: XmlContentSpec::Mixed(XmlMixed(Some(vec![XmlDeclName::Name("emph")])))
            }
        ))
    );

    assert_eq!(
        xml_element_decl(r#"<!ELEMENT %name.para; %content.para; > "#),
        Ok((
            " ",
            XmlElementDecl {
                name: XmlDeclName::PEReference("name.para"),
                content: XmlContentSpec::PEReference("content.para")
            }
        ))
    );

    assert_eq!(
        xml_element_decl(r#"<!ELEMENT container ANY> "#),
        Ok((
            " ",
            XmlElementDecl {
                name: XmlDeclName::Name("container"),
                content: XmlContentSpec::Any
            }
        ))
    );
}

#[test]
fn doctype_decl() {
    assert_eq!(
        xml_doctype_decl(
            r#"<!DOCTYPE note [
                                    <!ELEMENT note (to,from,heading,body)>
                                    <!ELEMENT to (#PCDATA)>
                                    <!ELEMENT from (#PCDATA)>
                                    <!ELEMENT heading (#PCDATA)>
                                    <!ELEMENT body (#PCDATA)>
                ]>
                "#
        ),
        Ok((
            "\n                ",
            XmlDocTypeDecl {
                name: "note",
                external_id: None,
                int_subset: Some(vec![
                    XmlMarkupDecl::Space("\n                                    "),
                    XmlMarkupDecl::ElementDecl(XmlElementDecl {
                        name: XmlDeclName::Name("note"),
                        content: XmlContentSpec::Children(XmlChildren::Sequence {
                            cps: vec![
                                XmlCP::Name(XmlDeclName::Name("to")),
                                XmlCP::Name(XmlDeclName::Name("from")),
                                XmlCP::Name(XmlDeclName::Name("heading")),
                                XmlCP::Name(XmlDeclName::Name("body"))
                            ],
                            repeat: None
                        })
                    }),
                    XmlMarkupDecl::Space("\n                                    "),
                    XmlMarkupDecl::ElementDecl(XmlElementDecl {
                        name: XmlDeclName::Name("to"),
                        content: XmlContentSpec::Mixed(XmlMixed(None))
                    }),
                    XmlMarkupDecl::Space("\n                                    "),
                    XmlMarkupDecl::ElementDecl(XmlElementDecl {
                        name: XmlDeclName::Name("from"),
                        content: XmlContentSpec::Mixed(XmlMixed(None))
                    }),
                    XmlMarkupDecl::Space("\n                                    "),
                    XmlMarkupDecl::ElementDecl(XmlElementDecl {
                        name: XmlDeclName::Name("heading"),
                        content: XmlContentSpec::Mixed(XmlMixed(None))
                    }),
                    XmlMarkupDecl::Space("\n                                    "),
                    XmlMarkupDecl::ElementDecl(XmlElementDecl {
                        name: XmlDeclName::Name("body"),
                        content: XmlContentSpec::Mixed(XmlMixed(None))
                    }),
                    XmlMarkupDecl::Space("\n                "),
                ])
            }
        ))
    );
}
