//! The parsers held against the same grammar written with the combinators
//! of nom: on every text of a corpus both must say the same.

use nom::branch::alt;
use nom::bytes::streaming::{tag, take_till1, take_until, take_while, take_while1};
use nom::character::streaming::satisfy;
use nom::combinator::{cond, opt, peek};
use nom::error::Error;
use nom::multi::{many0, separated_list0, separated_list1};
use nom::sequence::{delimited, pair, tuple};
use nom::IResult;
use rexml::block::{nc_name, parse_pi};
use rexml::chars::{
    is_char, is_name_char, is_name_start_char, is_ncname_char, is_ncname_start_char,
    is_pubid_char, is_whitespace,
};
use rexml::ebnf::{
    xml_att_list_decl, xml_att_type, xml_att_value, xml_cdata, xml_char_ref, xml_children,
    xml_choice, xml_comment, xml_cp, xml_decl, xml_decl_name, xml_decl_sep, xml_default_decl,
    xml_doctype_decl, xml_element_decl, xml_encoding_decl, xml_entity_decl, xml_entity_ref,
    xml_entity_value, xml_enum_type, xml_eq, xml_external_id, xml_misc, xml_mixed, xml_name,
    xml_names, xml_ndata_decl, xml_nmtoken, xml_nmtokens, xml_notation_decl, xml_peref, xml_pi,
    xml_public_id, xml_pubid_lit, xml_ref, xml_repeat, xml_seq, xml_standalone_decl,
    xml_system_lit, xml_tokenized_type, xml_version, xml_ws,
};
use rexml::parse::{ErrorKind, ParseError};
use rexml::symbols::{
    XmlAttDef, XmlAttListDecl, XmlAttType, XmlAttValuePart, XmlCData, XmlCP, XmlChildren,
    XmlComment, XmlContentSpec, XmlDecl, XmlDeclName, XmlDeclSep, XmlDefaultDecl, XmlDocTypeDecl,
    XmlElementDecl, XmlEncoding, XmlEntityDecl, XmlEntityDef, XmlEntityValuePart, XmlEnumType,
    XmlExternalId, XmlMarkupDecl, XmlMisc, XmlMixed, XmlNDataDecl, XmlName, XmlNmToken,
    XmlNotationDecl, XmlNotationId, XmlPEDef, XmlPEReference, XmlPI, XmlPubidLiteral,
    XmlPublicId, XmlReference, XmlRepeat, XmlSDDecl, XmlSystemLiteral, XmlTokenizedType,
    XmlVersion, XmlWhiteSpace,
};

fn nom_xml_ws(value: &str) -> IResult<&str, XmlWhiteSpace<'_>> {
    nom::combinator::map(take_while1(is_whitespace), |v| XmlWhiteSpace(v))(value)
}

fn nom_xml_name(value: &str) -> IResult<&str, XmlName<'_>> {
    nom::combinator::map(
        nom::combinator::recognize(pair(satisfy(is_name_start_char), take_while(is_name_char))),
        |name| XmlName(name),
    )(value)
}

fn nom_xml_names(value: &str) -> IResult<&str, Vec<XmlName<'_>>> {
    separated_list1(satisfy(|c| c == '\u{20}'), nom_xml_name)(value)
}

fn nom_xml_nmtoken(value: &str) -> IResult<&str, XmlNmToken<'_>> {
    nom::combinator::map(take_while1(is_name_char), |v| XmlNmToken(v))(value)
}

fn nom_xml_nmtokens(value: &str) -> IResult<&str, Vec<XmlNmToken<'_>>> {
    separated_list1(satisfy(|c| c == '\u{20}'), nom_xml_nmtoken)(value)
}

fn nom_xml_pubid_lit(value: &str) -> IResult<&str, XmlPubidLiteral<'_>> {
    nom::combinator::map(
        alt((
            delimited(
                satisfy(|c| c == '"'),
                take_while(is_pubid_char),
                satisfy(|c| c == '"'),
            ),
            delimited(
                satisfy(|c| c == '\''),
                take_while(|c| c != '\'' && is_pubid_char(c)),
                satisfy(|c| c == '\''),
            ),
        )),
        |v| XmlPubidLiteral(v),
    )(value)
}

fn nom_xml_system_lit(value: &str) -> IResult<&str, XmlSystemLiteral<'_>> {
    nom::combinator::map(
        alt((
            delimited(
                satisfy(|c| c == '"'),
                take_while(|c| c != '"'),
                satisfy(|c| c == '"'),
            ),
            delimited(
                satisfy(|c| c == '\''),
                take_while(|c| c != '\''),
                satisfy(|c| c == '\''),
            ),
        )),
        |v| XmlSystemLiteral(v),
    )(value)
}

fn nom_xml_char_ref(value: &str) -> IResult<&str, char> {
    let (value, (hex, digit)) = alt((
        nom::combinator::map(
            tuple((
                tag("&#"),
                satisfy(|c| c == 'x'),
                take_while1(|c: char| c.is_ascii_hexdigit()),
                satisfy(|c| c == ';'),
            )),
            |(_, _, v, _)| (true, v),
        ),
        nom::combinator::map(
            tuple((
                tag("&#"),
                take_while1(|c: char| c.is_ascii_digit()),
                satisfy(|c| c == ';'),
            )),
            |(_, v, _)| (false, v),
        ),
    ))(value)?;

    let digit = match u32::from_str_radix(digit, if hex { 16 } else { 10 }) {
        Ok(v) => char::from_u32(v).ok_or(nom::Err::Failure(Error::new(
            digit,
            nom::error::ErrorKind::Digit,
        )))?,
        Err(_) => {
            return Err(nom::Err::Failure(Error::new(
                digit,
                nom::error::ErrorKind::Digit,
            )))
        }
    };

    Ok((value, digit))
}

fn nom_xml_entity_ref(value: &str) -> IResult<&str, &str> {
    let (value, _) = satisfy(|c| c == '&')(value)?;

    let (value, name) = nom_xml_name(value)?;

    let (value, _) = satisfy(|c| c == ';')(value)?;

    Ok((value, name.0))
}

fn nom_xml_ref(value: &str) -> IResult<&str, XmlReference<'_>> {
    alt((
        nom::combinator::map(nom_xml_char_ref, |v| XmlReference::Char(v)),
        nom::combinator::map(nom_xml_entity_ref, |v| XmlReference::Entity(v)),
    ))(value)
}

fn nom_xml_peref(value: &str) -> IResult<&str, XmlPEReference<'_>> {
    let (value, _) = satisfy(|c| c == '%')(value)?;

    let (value, name) = nom_xml_name(value)?;

    let (value, _) = satisfy(|c| c == ';')(value)?;

    Ok((value, XmlPEReference(name.0)))
}

fn nom_xml_entity_value_parts(quote: char) -> impl Fn(&str) -> IResult<&str, XmlEntityValuePart<'_>> {
    move |value| {
        alt((
            nom::combinator::map(take_till1(|c| c == quote || c == '&' || c == '%'), |v| {
                XmlEntityValuePart::Literal(v)
            }),
            nom::combinator::map(nom_xml_ref, |v| match v {
                XmlReference::Char(v) => XmlEntityValuePart::CharRef(v),
                XmlReference::Entity(v) => XmlEntityValuePart::EntityRef(v),
            }),
            nom::combinator::map(nom_xml_peref, |v| XmlEntityValuePart::PEReference(v.0)),
        ))(value)
    }
}

fn nom_xml_entity_value(value: &str) -> IResult<&str, Vec<XmlEntityValuePart<'_>>> {
    let (value, (_, parts, _)) = alt((
        tuple((tag("'"), many0(nom_xml_entity_value_parts('\'')), tag("'"))),
        tuple((tag("\""), many0(nom_xml_entity_value_parts('"')), tag("\""))),
    ))(value)?;

    Ok((value, parts))
}

fn nom_xml_attr_value_parts(quote: char) -> impl Fn(&str) -> IResult<&str, XmlAttValuePart<'_>> {
    move |value| {
        alt((
            nom::combinator::map(take_till1(|c| c == quote || c == '&' || c == '%'), |v| {
                XmlAttValuePart::Literal(v)
            }),
            nom::combinator::map(nom_xml_ref, |v| match v {
                XmlReference::Char(v) => XmlAttValuePart::CharRef(v),
                XmlReference::Entity(v) => XmlAttValuePart::EntityRef(v),
            }),
        ))(value)
    }
}

fn nom_xml_att_value(value: &str) -> IResult<&str, Vec<XmlAttValuePart<'_>>> {
    let (value, (_, parts, _)) = alt((
        tuple((tag("'"), many0(nom_xml_attr_value_parts('\'')), tag("'"))),
        tuple((tag("\""), many0(nom_xml_attr_value_parts('"')), tag("\""))),
    ))(value)?;

    Ok((value, parts))
}

fn nom_xml_comment(value: &str) -> IResult<&str, XmlComment<'_>> {
    let (value, _) = tag("<!--")(value)?;

    let mut input = value;

    loop {
        (input, _) = take_while(|c| c != '-' && is_char(c))(input)?;

        if input.chars().next().unwrap() == '-' {
            let comment_end;
            (input, comment_end) = peek(opt(tag("--")))(input)?;

            if comment_end.is_none() {
                (_, input) = input.split_at(1);
                continue;
            }
        }

        break;
    }

    let (comment, value) = value.split_at(value.len() - input.len());

    let (value, _) = tag("-->")(value)?;

    Ok((value, XmlComment(comment)))
}

fn nom_xml_pi(value: &str) -> IResult<&str, XmlPI<'_>> {
    let (value, _) = tag("<?")(value)?;

    let (value, target) = nom_xml_name(value)?;

    let (value, space) = opt(nom_xml_ws)(value)?;

    let (value, data) = cond(space.is_some(), take_until("?>"))(value)?;

    let (value, _) = tag("?>")(value)?;

    Ok((
        value,
        XmlPI {
            target: target.0,
            data,
        },
    ))
}

fn nom_xml_cdata(value: &str) -> IResult<&str, XmlCData<'_>> {
    let (value, _) = tag("<![CDATA[")(value)?;

    let mut input = value;

    loop {
        (input, _) = take_while(|c| c != ']' && is_char(c))(input)?;

        if input.chars().next().unwrap() == ']' {
            let comment_end;
            (input, comment_end) = peek(opt(tag("]]>")))(input)?;

            if comment_end.is_none() {
                (_, input) = input.split_at(1);
                continue;
            }
        }

        break;
    }

    let (cdata, value) = value.split_at(value.len() - input.len());

    let (value, _) = tag("]]>")(value)?;

    Ok((value, XmlCData(cdata)))
}

fn nom_xml_decl(value: &str) -> IResult<&str, XmlDecl<'_>> {
    let (value, _) = tag("<?xml")(value)?;
    let (value, version) = nom_xml_version(value)?;
    let (value, encoding) = opt(nom_xml_encoding_decl)(value)?;
    let (value, standalone) = opt(nom_xml_standalone_decl)(value)?;
    let (value, _) = opt(nom_xml_ws)(value)?;
    let (value, _) = tag("?>")(value)?;

    Ok((
        value,
        XmlDecl {
            version,
            encoding: encoding.map(|v| v.0),
            standalone: standalone.map(|v| v.0),
        },
    ))
}

fn nom_xml_version(value: &str) -> IResult<&str, XmlVersion> {
    let (value, _) = nom_xml_ws(value)?;
    let (value, _) = tag("version")(value)?;
    let (value, _) = nom_xml_eq(value)?;
    let (value, start) = satisfy(|c| c == '"' || c == '\'')(value)?;
    let (value, version_info) = alt((
        nom::combinator::map(tag("1.1"), |_| XmlVersion::Version1_1),
        nom::combinator::map(tag("1.0"), |_| XmlVersion::Version1_0),
    ))(value)?;
    let (value, _) = satisfy(|c| c == start)(value)?;

    Ok((value, version_info))
}

fn nom_xml_eq(value: &str) -> IResult<&str, ()> {
    let (value, _) = opt(nom_xml_ws)(value)?;

    let (value, _) = satisfy(|c| c == '=')(value)?;

    let (value, _) = opt(nom_xml_ws)(value)?;

    Ok((value, ()))
}

fn nom_xml_encoding_decl(value: &str) -> IResult<&str, XmlEncoding<'_>> {
    let (value, _) = nom_xml_ws(value)?;
    let (value, _) = tag("encoding")(value)?;
    let (value, _) = nom_xml_eq(value)?;
    let (value, start) = satisfy(|c| c == '"' || c == '\'')(value)?;
    let (input, _) = satisfy(|c| c.is_ascii_alphabetic())(value)?;
    let (input, _) =
        take_while(|c: char| c == '-' || c == '.' || c == '_' || c.is_alphanumeric())(input)?;

    let (enc_name, value) = value.split_at(value.len() - input.len());

    let (value, _) = satisfy(|c| c == start)(value)?;

    Ok((value, XmlEncoding(enc_name)))
}

fn nom_xml_standalone_decl(value: &str) -> IResult<&str, XmlSDDecl> {
    let (value, _) = nom_xml_ws(value)?;
    let (value, _) = tag("standalone")(value)?;
    let (value, _) = nom_xml_eq(value)?;
    let (value, start) = satisfy(|c| c == '"' || c == '\'')(value)?;

    let (value, sd_decl) = nom::combinator::map(alt((tag("yes"), tag("no"))), |v| {
        if v == "yes" {
            XmlSDDecl(true)
        } else {
            XmlSDDecl(false)
        }
    })(value)?;

    let (value, _) = satisfy(|c| c == start)(value)?;

    Ok((value, sd_decl))
}

fn nom_xml_misc(value: &str) -> IResult<&str, XmlMisc<'_>> {
    alt((
        nom::combinator::map(nom_xml_pi, |v| XmlMisc::PI {
            target: v.target,
            data: v.data,
        }),
        nom::combinator::map(nom_xml_comment, |v| XmlMisc::Comment(v.0)),
        nom::combinator::map(nom_xml_ws, |v| XmlMisc::Space(v.0)),
    ))(value)
}

fn nom_xml_external_id(value: &str) -> IResult<&str, XmlExternalId<'_>> {
    let (value, start) = alt((tag("SYSTEM"), tag("PUBLIC")))(value)?;

    let (value, _) = nom_xml_ws(value)?;

    let (value, external_id) = if start == "SYSTEM" {
        let (value, system_id) = nom_xml_system_lit(value)?;

        (value, XmlExternalId::System(system_id.0))
    } else {
        let (value, public_id) = nom_xml_pubid_lit(value)?;
        let (value, _) = nom_xml_ws(value)?;
        let (value, system_id) = nom_xml_system_lit(value)?;

        (
            value,
            XmlExternalId::Public {
                public_id: public_id.0,
                system_id: system_id.0,
            },
        )
    };

    Ok((value, external_id))
}

fn nom_xml_public_id(value: &str) -> IResult<&str, XmlPublicId<'_>> {
    let (value, _) = tag("PUBLIC")(value)?;
    let (value, _) = nom_xml_ws(value)?;

    nom::combinator::map(nom_xml_pubid_lit, |v| XmlPublicId(v.0))(value)
}

fn nom_xml_ndata_decl(value: &str) -> IResult<&str, XmlNDataDecl<'_>> {
    nom::combinator::map(
        tuple((nom_xml_ws, tag("NDATA"), nom_xml_ws, nom_xml_name)),
        |(_, _, _, name)| XmlNDataDecl(name.0),
    )(value)
}

fn nom_xml_decl_sep(value: &str) -> IResult<&str, XmlDeclSep<'_>> {
    alt((
        nom::combinator::map(nom_xml_ws, |v| XmlDeclSep::Space(v.0)),
        nom::combinator::map(nom_xml_peref, |v| XmlDeclSep::PEReference(v.0)),
    ))(value)
}

fn nom_xml_notation_decl(value: &str) -> IResult<&str, XmlNotationDecl<'_>> {
    let (value, _) = tag("<!NOTATION")(value)?;
    let (value, _) = nom_xml_ws(value)?;
    let (value, name) = nom_xml_name(value)?;
    let (value, _) = nom_xml_ws(value)?;

    let (value, id) = alt((
        nom::combinator::map(nom_xml_external_id, |v| match v {
            XmlExternalId::System(v) => XmlNotationId::System(v),
            XmlExternalId::Public {
                public_id,
                system_id,
            } => XmlNotationId::PublicSystem {
                public_id,
                system_id,
            },
        }),
        nom::combinator::map(nom_xml_public_id, |v| XmlNotationId::Public(v.0)),
    ))(value)?;

    let (value, _) = opt(nom_xml_ws)(value)?;

    let (value, _) = satisfy(|c| c == '>')(value)?;

    Ok((value, XmlNotationDecl { name: name.0, id }))
}

fn nom_xml_entity_decl(value: &str) -> IResult<&str, XmlEntityDecl<'_>> {
    let (value, _) = tuple((tag("<!ENTITY"), nom_xml_ws))(value)?;

    let (mut value, is_pe) = opt(satisfy(|c| c == '%'))(value)?;

    if is_pe.is_some() {
        (value, _) = nom_xml_ws(value)?;
    }

    let (value, name) = nom_xml_name(value)?;

    let (value, _) = nom_xml_ws(value)?;

    let (value, decl) = if is_pe.is_none() {
        nom::combinator::map(
            alt((
                nom::combinator::map(nom_xml_entity_value, |v| XmlEntityDef::Value(v)),
                nom::combinator::map(
                    tuple((nom_xml_external_id, opt(nom_xml_ndata_decl))),
                    |(id, ndata_decl)| XmlEntityDef::External {
                        id,
                        ndata_decl: ndata_decl.map(|v| v.0),
                    },
                ),
            )),
            |v| XmlEntityDecl::GEDecl {
                name: name.0,
                def: v,
            },
        )(value)?
    } else {
        nom::combinator::map(
            alt((
                nom::combinator::map(nom_xml_entity_value, |v| XmlPEDef::Value(v)),
                nom::combinator::map(nom_xml_external_id, |id| XmlPEDef::External(id)),
            )),
            |v| XmlEntityDecl::PEDecl {
                name: name.0,
                def: v,
            },
        )(value)?
    };

    let (value, _) = opt(nom_xml_ws)(value)?;

    let (value, _) = satisfy(|c| c == '>')(value)?;

    Ok((value, decl))
}

fn nom_xml_enum_type(value: &str) -> IResult<&str, XmlEnumType<'_>> {
    alt((
        nom::combinator::map(
            tuple((
                tag("NOTATION"),
                nom_xml_ws,
                delimited(
                    tag("("),
                    separated_list1(tag("|"), tuple((opt(nom_xml_ws), nom_xml_name, opt(nom_xml_ws)))),
                    tag(")"),
                ),
            )),
            |(_, _, v)| XmlEnumType::Notation(v.into_iter().map(|(_, v, _)| v.0).collect()),
        ),
        nom::combinator::map(
            delimited(
                tag("("),
                separated_list1(tag("|"), tuple((opt(nom_xml_ws), nom_xml_nmtoken, opt(nom_xml_ws)))),
                tag(")"),
            ),
            |v| XmlEnumType::NmToken(v.into_iter().map(|(_, v, _)| v.0).collect()),
        ),
    ))(value)
}

fn nom_xml_tokenized_type(value: &str) -> IResult<&str, XmlTokenizedType> {
    alt((
        nom::combinator::map(tag("IDREFS"), |_| XmlTokenizedType::IdRefs),
        nom::combinator::map(tag("IDREF"), |_| XmlTokenizedType::IdRef),
        nom::combinator::map(tag("ID"), |_| XmlTokenizedType::Id),
        nom::combinator::map(tag("ENTITY"), |_| XmlTokenizedType::Entity),
        nom::combinator::map(tag("ENTITIES"), |_| XmlTokenizedType::Entities),
        nom::combinator::map(tag("NMTOKENS"), |_| XmlTokenizedType::NmTokens),
        nom::combinator::map(tag("NMTOKEN"), |_| XmlTokenizedType::NmToken),
    ))(value)
}

fn nom_xml_att_type(value: &str) -> IResult<&str, XmlAttType<'_>> {
    alt((
        nom::combinator::map(tag("CDATA"), |_| XmlAttType::String),
        nom::combinator::map(nom_xml_enum_type, |v| match v {
            XmlEnumType::Notation(v) => XmlAttType::Notation(v),
            XmlEnumType::NmToken(v) => XmlAttType::NmToken(v),
        }),
        nom::combinator::map(nom_xml_tokenized_type, |v| XmlAttType::Tokenized(v)),
    ))(value)
}

fn nom_xml_default_decl(value: &str) -> IResult<&str, XmlDefaultDecl<'_>> {
    alt((
        nom::combinator::map(tag("#REQUIRED"), |_| XmlDefaultDecl::Required),
        nom::combinator::map(tag("#IMPLIED"), |_| XmlDefaultDecl::Implied),
        nom::combinator::map(
            tuple((opt(tuple((tag("#FIXED"), nom_xml_ws))), nom_xml_att_value)),
            |(_, v)| XmlDefaultDecl::Fixed(v),
        ),
    ))(value)
}

fn nom_xml_att_list_decl(value: &str) -> IResult<&str, XmlAttListDecl<'_>> {
    nom::combinator::map(
        tuple((
            tag("<!ATTLIST"),
            nom_xml_ws,
            nom_xml_name,
            many0(nom::combinator::map(
                tuple((
                    nom_xml_ws,
                    nom_xml_name,
                    nom_xml_ws,
                    nom_xml_att_type,
                    nom_xml_ws,
                    nom_xml_default_decl,
                )),
                |(_, name, _, att_type, _, default_decl)| XmlAttDef {
                    name: name.0,
                    att_type,
                    default_decl,
                },
            )),
            opt(nom_xml_ws),
            tag(">"),
        )),
        |(_, _, name, att_defs, _, _)| XmlAttListDecl {
            name: name.0,
            att_defs,
        },
    )(value)
}

fn nom_xml_mixed(value: &str) -> IResult<&str, XmlMixed<'_>> {
    let (value, _) = satisfy(|c| c == '(')(value)?;

    let (value, _) = opt(nom_xml_ws)(value)?;

    let (value, _) = tag("#PCDATA")(value)?;

    let (value, _) = opt(nom_xml_ws)(value)?;

    let (value, list) = opt(tuple((opt(nom_xml_ws), satisfy(|c| c == '|'), opt(nom_xml_ws))))(value)?;

    let (value, types) = if list.is_some() {
        let (value, types) = separated_list0(
            tuple((opt(nom_xml_ws), satisfy(|c| c == '|'), opt(nom_xml_ws))),
            nom_xml_decl_name,
        )(value)?;

        (value, Some(types))
    } else {
        (value, None)
    };

    let (value, _) = opt(nom_xml_ws)(value)?;

    let value = if types.is_none() {
        let (value, _) = satisfy(|c| c == ')')(value)?;
        value
    } else {
        let (value, _) = tag(")*")(value)?;
        value
    };

    Ok((value, XmlMixed(types)))
}

fn nom_xml_decl_name(value: &str) -> IResult<&str, XmlDeclName<'_>> {
    alt((
        nom::combinator::map(nom_xml_peref, |v| XmlDeclName::PEReference(v.0)),
        nom::combinator::map(nom_xml_name, |v| XmlDeclName::Name(v.0)),
    ))(value)
}

fn nom_xml_repeat(value: &str) -> IResult<&str, XmlRepeat> {
    alt((
        nom::combinator::map(tag("?"), |_| XmlRepeat::ZeroOrOne),
        nom::combinator::map(tag("*"), |_| XmlRepeat::ZeroOrMany),
        nom::combinator::map(tag("+"), |_| XmlRepeat::OneOrMany),
    ))(value)
}

fn nom_xml_cp(value: &str) -> IResult<&str, XmlCP<'_>> {
    alt((
        nom::combinator::map(nom_xml_decl_name, |v| XmlCP::Name(v)),
        nom::combinator::map(nom_xml_children, |v| XmlCP::Children(v)),
    ))(value)
}

fn nom_xml_children(value: &str) -> IResult<&str, XmlChildren<'_>> {
    alt((
        nom::combinator::map(tuple((nom_xml_choice, opt(nom_xml_repeat))), |(cps, repeat)| {
            XmlChildren::Choice { cps, repeat }
        }),
        nom::combinator::map(tuple((nom_xml_seq, opt(nom_xml_repeat))), |(cps, repeat)| {
            XmlChildren::Sequence { cps, repeat }
        }),
    ))(value)
}

fn nom_xml_choice(value: &str) -> IResult<&str, Vec<XmlCP<'_>>> {
    delimited(
        tuple((tag("("), opt(nom_xml_ws))),
        separated_list1(tuple((opt(nom_xml_ws), tag("|"), opt(nom_xml_ws))), nom_xml_cp),
        tuple((opt(nom_xml_ws), tag(")"))),
    )(value)
}

fn nom_xml_seq(value: &str) -> IResult<&str, Vec<XmlCP<'_>>> {
    delimited(
        tuple((tag("("), opt(nom_xml_ws))),
        separated_list0(tuple((opt(nom_xml_ws), tag(","), opt(nom_xml_ws))), nom_xml_cp),
        tuple((opt(nom_xml_ws), tag(")"))),
    )(value)
}

fn nom_xml_element_decl(value: &str) -> IResult<&str, XmlElementDecl<'_>> {
    nom::combinator::map(
        tuple((
            tag("<!ELEMENT"),
            nom_xml_ws,
            nom_xml_decl_name,
            nom_xml_ws,
            alt((
                nom::combinator::map(tag("EMPTY"), |_| XmlContentSpec::Empty),
                nom::combinator::map(tag("ANY"), |_| XmlContentSpec::Any),
                nom::combinator::map(nom_xml_peref, |v| XmlContentSpec::PEReference(v.0)),
                nom::combinator::map(nom_xml_mixed, |v| XmlContentSpec::Mixed(v)),
                nom::combinator::map(nom_xml_children, |v| XmlContentSpec::Children(v)),
            )),
            opt(nom_xml_ws),
            tag(">"),
        )),
        |(_, _, name, _, content, _, _)| XmlElementDecl { name, content },
    )(value)
}

fn nom_xml_doctype_decl(value: &str) -> IResult<&str, XmlDocTypeDecl<'_>> {
    nom::combinator::map(
        tuple((
            tag("<!DOCTYPE"),
            nom_xml_ws,
            nom_xml_name,
            opt(tuple((nom_xml_ws, nom_xml_external_id))),
            opt(nom_xml_ws),
            opt(delimited(
                tag("["),
                many0(alt((
                    nom::combinator::map(nom_xml_decl_sep, |v| match v {
                        XmlDeclSep::PEReference(v) => XmlMarkupDecl::PEReference(v),
                        XmlDeclSep::Space(v) => XmlMarkupDecl::Space(v),
                    }),
                    nom::combinator::map(nom_xml_element_decl, |v| XmlMarkupDecl::ElementDecl(v)),
                    nom::combinator::map(nom_xml_att_list_decl, |v| XmlMarkupDecl::AttListDecl(v)),
                    nom::combinator::map(nom_xml_entity_decl, |v| XmlMarkupDecl::EntityDecl(v)),
                    nom::combinator::map(nom_xml_notation_decl, |v| XmlMarkupDecl::Notation(v)),
                    nom::combinator::map(nom_xml_pi, |v| XmlMarkupDecl::PI(v)),
                    nom::combinator::map(nom_xml_comment, |v| XmlMarkupDecl::Comment(v)),
                ))),
                tag("]"),
            )),
            opt(nom_xml_ws),
            tag(">"),
        )),
        |(_, _, name, external_id, _, int_subset, _, _)| XmlDocTypeDecl {
            name: name.0,
            external_id: external_id.map(|(_, id)| id),
            int_subset,
        },
    )(value)
}

fn nom_nc_name(value: &str) -> IResult<&str, &str> {
    nom::combinator::recognize(pair(
        nom::character::complete::satisfy(is_ncname_start_char),
        nom::bytes::complete::take_while(is_ncname_char),
    ))(value)
}

fn nom_parse_pi(value: &str) -> IResult<&str, (&str, Option<&str>)> {
    let (value, _) = nom::bytes::complete::tag("<?")(value)?;
    let (value, target) = nom_nc_name(value)?;
    let (value, _) = nom::character::complete::space0(value)?;
    let (value, data) = opt(nom::bytes::complete::is_not("?>"))(value)?;
    let (value, _) = nom::bytes::complete::tag("?>")(value)?;
    Ok((value, (target, data)))
}

fn kind_of(kind: nom::error::ErrorKind) -> ErrorKind {
    match kind {
        nom::error::ErrorKind::Tag => ErrorKind::Tag,
        nom::error::ErrorKind::Satisfy => ErrorKind::Satisfy,
        nom::error::ErrorKind::TakeWhile1 => ErrorKind::TakeWhile1,
        nom::error::ErrorKind::TakeTill1 => ErrorKind::TakeTill1,
        nom::error::ErrorKind::Digit => ErrorKind::Digit,
        other => panic!("a kind of error that the grammar does not have: {:?}", other),
    }
}

fn said_by_nom<'a, T>(result: IResult<&'a str, T>) -> Result<(&'a str, T), ParseError<'a>> {
    match result {
        Ok(found) => Ok(found),
        Err(nom::Err::Incomplete(_)) => Err(ParseError::Incomplete),
        Err(nom::Err::Error(e)) => Err(ParseError::Error { input: e.input, kind: kind_of(e.code) }),
        Err(nom::Err::Failure(e)) => {
            Err(ParseError::Failure { input: e.input, kind: kind_of(e.code) })
        }
    }
}

fn seeds() -> Vec<&'static str> {
    vec![
        ":hello:world ",
        ".hello:world ",
        "-hello:world ",
        "9hello:world ",
        ":hello:world :hello:world :hello:world  ",
        "9hello:world 7hello:world 8hello:world>",
        r#""-/he'llo" "#,
        r#"'-/hello' "#,
        "'\u{2122}' ",
        r#"'"hello' "#,
        r#""" "#,
        r#""'hello" "#,
        "&#x2122; ",
        "&#10; ",
        "&hello; ",
        "&#xd800; ",
        "&#xD7FF;&#xE000;&#x10FFFF;&#x110000; ",
        "&#55296; &#1114111; &#1114112; &#4294967295; &#4294967296; &#x100000000; ",
        "&#0; &#x0; &#00000000000000000065; &#x000000000000041; ",
        "&#xAbCdEf; &#x1g; &#12a; &#; &#x; &; &#x41 ",
        r#"'%hello:a; hello &#x2122; world &hello;' "#,
        r#"' hello &#x2122; world &hello;' "#,
        r#""%a;b&c;&#99;d'e" '' "" 'x%' "y&" '&#xd800;' "#,
        "<!-- hello - world& --> ",
        "<!-- declarations for <head> & <body> --> ",
        "<!-- B+, B, or B---> ",
        "<!--hello - <<<!>> world&--> ",
        "<!-- hello -- world& --> ",
        "<!----> <!-----> <!-- - --> <!-- a\u{0}b --> <!-- \u{fffe} -->",
        "<?xml-stylesheet?> ",
        "<?xml-stylesheet ?> ",
        "<?xml-stylesheet   &#160; hello<>world   ?> ",
        "<?a b?c>d??> <?\u{e9} \t\n?> <? x?> <?x",
        "<![CDATA[]]> ",
        "<![CDATA[ he<![CDATA[]]llo]]> ",
        "<![CDATA[]]]]> <![CDATA[]>]]]> <![CDATA[ \u{0} ]]> <![CDATA[ ]] > ]]>",
        r#"<?xml version="1.0"?> "#,
        r#"<?xml version="1.0" encoding="utf-8"?> "#,
        r#"<?xml version="1.1"  standalone="yes"       ?> "#,
        r#"<?xml version='1.0' encoding='UTF-16' standalone='no'?><a/>"#,
        r#"<?xml version="1.2"?> <?xml version="1.0'?> <?xml version = "1.0" ?> <?xmlversion="1.0"?> "#,
        " version=\"1.1\" encoding = 'a-b.c_d9\u{e9}' standalone = \"yes\" standalone='maybe' encoding='9x' encoding='x!' ",
        " \t\r\n= \n=x =",
        " \u{c}= \u{c} \u{b}=",
        r#"SYSTEM "http://www.textuality.com/boilerplate/OpenHatch.xml" "#,
        "PUBLIC \"-//Textuality//TEXT Standard open-hatch boilerplate//EN\" \n                \"http://www.textuality.com/boilerplate/OpenHatch.xml\" ",
        "PUBLIC '' ",
        r#"PUBLIC "'hello" "#,
        "PUBLIC '\u{2122}' ",
        "SYSTEM'x' PUBLIC 'a''b' PUBLIC 'a' SYSTEMS ",
        r#"<!NOTATION PNG SYSTEM "image/png"> "#,
        "<!NOTATION PNG PUBLIC \"-//Textuality//TEXT Standard open-hatch boilerplate//EN\" \n                \"http://www.textuality.com/boilerplate/OpenHatch.xml\" > ",
        "<!NOTATION n PUBLIC 'p'> <!NOTATION n PUBLIC 'p' > <!NOTATION n PUBLIC 'p' 's'> <!NOTATION n x> ",
        r#" NDATA gif "#,
        r#"<!ENTITY picture SYSTEM "http://www.somesite.com/somePic.gif" NDATA GIF> "#,
        r#"<!ENTITY Pub-Status "This is a pre-release of the specification."> "#,
        "<!ENTITY % draft 'INCLUDE' > <!ENTITY % ISOLat2 SYSTEM \"http://www.xml.com/iso/isolat2-xml.entities\" > <!ENTITY %x 'y'> <!ENTITY % x PUBLIC 'a' 'b' NDATA c> ",
        r#"NOTATION (js|cs|perl) "#,
        r#"(apple | pear | bannan) "#,
        "( a ) (a|) (|a) () NOTATION(a) NOTATION  ( a | b ) (9|8) NOTATION (9) ",
        "ID ",
        "IDREF ",
        "IDREFS ",
        "ENTITY ",
        "ENTITIES ",
        "NMTOKEN ",
        "NMTOKENS ",
        "CDATA ",
        "IDx ENTITIE NMTOKE CDAT NOTATIO ",
        r#"#REQUIRED "#,
        r#"#IMPLIED "#,
        r#"#FIXED   ' hello &#x2122; world &hello;' "#,
        "#FIXED'x' 'x' \"y\" #FIXED #REQUIRE #",
        r#"<!ATTLIST test myAttr CDATA #IMPLIED> "#,
        r#"<!ATTLIST test fruit (apple | pear | bannan) #REQUIRED> "#,
        "<!ATTLIST test fruit (apple | pear | bannan) #REQUIRED     \n                myAttr CDATA #IMPLIED > ",
        "<!ATTLIST t> <!ATTLIST t > <!ATTLIST t a ID 'd' b NOTATION (x) #FIXED \"y\"> <!ATTLIST t a> ",
        r#"(#PCDATA) "#,
        r#"(#PCDATA)* "#,
        r#"(#PCDATA|a|ul|b|i|em)* "#,
        r#"(#PCDATA | %font; | %phrase; | %special; | %form;)* "#,
        "( #PCDATA ) (#PCDATA|)* (#PCDATA|a) (#PCDATA | a | )* (#PCDATA a)* ",
        "?*+x",
        "%n; n (a) (a,b) (a|b) (a,b|c) ((a|b),c)* (a?,(b+|c*)?)+ ( a , b ) () (,) (|) ((((a)))) (a,(b,(c,(d|e)))) ",
        r#"<!ELEMENT br EMPTY> "#,
        r#"<!ELEMENT p (#PCDATA|emph)* > "#,
        r#"<!ELEMENT %name.para; %content.para; > "#,
        r#"<!ELEMENT container ANY> "#,
        "<!ELEMENT spec (front, body, back?)> <!ELEMENT div1 (head, (p | list | note)*, div2*)> <!ELEMENT x EMPTYY> <!ELEMENT x (a)*> ",
        "<!DOCTYPE note [\n                                    <!ELEMENT note (to,from,heading,body)>\n                                    <!ELEMENT to (#PCDATA)>\n                                    <!ELEMENT from (#PCDATA)>\n                                    <!ELEMENT heading (#PCDATA)>\n                                    <!ELEMENT body (#PCDATA)>\n                ]>\n                ",
        "<!DOCTYPE greeting SYSTEM \"hello.dtd\"> <!DOCTYPE g PUBLIC 'p' 's' [ %e; <!ATTLIST a b CDATA #IMPLIED><!ENTITY x 'y'><!NOTATION n SYSTEM 's'><?pi d?><!-- c --> ] > <!DOCTYPE g[]> <!DOCTYPE g [ x ]> ",
        "\u{e9}l\u{e9}ment \u{2122} \u{10000}\u{effff}\u{f0000} \u{b7}\u{300}\u{203f} \u{37e}\u{d7}",
        "%hello; %9; % x; %x ; %:;",
    ]
}

fn corpus() -> Vec<&'static str> {
    let mut texts = Vec::new();
    for seed in seeds() {
        let mut starts: Vec<usize> = seed.char_indices().map(|(at, _)| at).collect();
        starts.push(seed.len());
        // every text that begins where a word of the seed begins, and every
        // beginning of it
        let mut previous = ' ';
        for &from in &starts {
            let first = seed[from..].chars().next().unwrap_or(' ');
            if from == 0 || previous.is_whitespace() || first == '<' || first == '(' {
                for &to in &starts {
                    if to >= from {
                        texts.push(&seed[from..to]);
                    }
                }
            }
            previous = first;
        }
    }
    texts
}

#[test]
fn agrees_with_nom_on_ws() {
    for text in corpus() {
        assert_eq!(xml_ws(text), said_by_nom(nom_xml_ws(text)), "on {:?}", text);
    }
}

#[test]
fn agrees_with_nom_on_name() {
    for text in corpus() {
        assert_eq!(xml_name(text), said_by_nom(nom_xml_name(text)), "on {:?}", text);
    }
}

#[test]
fn agrees_with_nom_on_names() {
    for text in corpus() {
        assert_eq!(xml_names(text), said_by_nom(nom_xml_names(text)), "on {:?}", text);
    }
}

#[test]
fn agrees_with_nom_on_nmtoken() {
    for text in corpus() {
        assert_eq!(xml_nmtoken(text), said_by_nom(nom_xml_nmtoken(text)), "on {:?}", text);
    }
}

#[test]
fn agrees_with_nom_on_nmtokens() {
    for text in corpus() {
        assert_eq!(xml_nmtokens(text), said_by_nom(nom_xml_nmtokens(text)), "on {:?}", text);
    }
}

#[test]
fn agrees_with_nom_on_pubid_lit() {
    for text in corpus() {
        assert_eq!(xml_pubid_lit(text), said_by_nom(nom_xml_pubid_lit(text)), "on {:?}", text);
    }
}

#[test]
fn agrees_with_nom_on_system_lit() {
    for text in corpus() {
        assert_eq!(xml_system_lit(text), said_by_nom(nom_xml_system_lit(text)), "on {:?}", text);
    }
}

#[test]
fn agrees_with_nom_on_char_ref() {
    for text in corpus() {
        assert_eq!(xml_char_ref(text), said_by_nom(nom_xml_char_ref(text)), "on {:?}", text);
    }
}

#[test]
fn agrees_with_nom_on_entity_ref() {
    for text in corpus() {
        assert_eq!(xml_entity_ref(text), said_by_nom(nom_xml_entity_ref(text)), "on {:?}", text);
    }
}

#[test]
fn agrees_with_nom_on_ref() {
    for text in corpus() {
        assert_eq!(xml_ref(text), said_by_nom(nom_xml_ref(text)), "on {:?}", text);
    }
}

#[test]
fn agrees_with_nom_on_peref() {
    for text in corpus() {
        assert_eq!(xml_peref(text), said_by_nom(nom_xml_peref(text)), "on {:?}", text);
    }
}

#[test]
fn agrees_with_nom_on_entity_value() {
    for text in corpus() {
        assert_eq!(xml_entity_value(text), said_by_nom(nom_xml_entity_value(text)), "on {:?}", text);
    }
}

#[test]
fn agrees_with_nom_on_att_value() {
    for text in corpus() {
        assert_eq!(xml_att_value(text), said_by_nom(nom_xml_att_value(text)), "on {:?}", text);
    }
}

#[test]
fn agrees_with_nom_on_comment() {
    for text in corpus() {
        assert_eq!(xml_comment(text), said_by_nom(nom_xml_comment(text)), "on {:?}", text);
    }
}

#[test]
fn agrees_with_nom_on_pi() {
    for text in corpus() {
        assert_eq!(xml_pi(text), said_by_nom(nom_xml_pi(text)), "on {:?}", text);
    }
}

#[test]
fn agrees_with_nom_on_cdata() {
    for text in corpus() {
        assert_eq!(xml_cdata(text), said_by_nom(nom_xml_cdata(text)), "on {:?}", text);
    }
}

#[test]
fn agrees_with_nom_on_decl() {
    for text in corpus() {
        assert_eq!(xml_decl(text), said_by_nom(nom_xml_decl(text)), "on {:?}", text);
    }
}

#[test]
fn agrees_with_nom_on_version() {
    for text in corpus() {
        assert_eq!(xml_version(text), said_by_nom(nom_xml_version(text)), "on {:?}", text);
    }
}

#[test]
fn agrees_with_nom_on_eq() {
    for text in corpus() {
        assert_eq!(xml_eq(text), said_by_nom(nom_xml_eq(text)), "on {:?}", text);
    }
}

#[test]
fn agrees_with_nom_on_encoding_decl() {
    for text in corpus() {
        assert_eq!(xml_encoding_decl(text), said_by_nom(nom_xml_encoding_decl(text)), "on {:?}", text);
    }
}

#[test]
fn agrees_with_nom_on_standalone_decl() {
    for text in corpus() {
        assert_eq!(xml_standalone_decl(text), said_by_nom(nom_xml_standalone_decl(text)), "on {:?}", text);
    }
}

#[test]
fn agrees_with_nom_on_misc() {
    for text in corpus() {
        assert_eq!(xml_misc(text), said_by_nom(nom_xml_misc(text)), "on {:?}", text);
    }
}

#[test]
fn agrees_with_nom_on_external_id() {
    for text in corpus() {
        assert_eq!(xml_external_id(text), said_by_nom(nom_xml_external_id(text)), "on {:?}", text);
    }
}

#[test]
fn agrees_with_nom_on_public_id() {
    for text in corpus() {
        assert_eq!(xml_public_id(text), said_by_nom(nom_xml_public_id(text)), "on {:?}", text);
    }
}

#[test]
fn agrees_with_nom_on_ndata_decl() {
    for text in corpus() {
        assert_eq!(xml_ndata_decl(text), said_by_nom(nom_xml_ndata_decl(text)), "on {:?}", text);
    }
}

#[test]
fn agrees_with_nom_on_decl_sep() {
    for text in corpus() {
        assert_eq!(xml_decl_sep(text), said_by_nom(nom_xml_decl_sep(text)), "on {:?}", text);
    }
}

#[test]
fn agrees_with_nom_on_notation_decl() {
    for text in corpus() {
        assert_eq!(xml_notation_decl(text), said_by_nom(nom_xml_notation_decl(text)), "on {:?}", text);
    }
}

#[test]
fn agrees_with_nom_on_entity_decl() {
    for text in corpus() {
        assert_eq!(xml_entity_decl(text), said_by_nom(nom_xml_entity_decl(text)), "on {:?}", text);
    }
}

#[test]
fn agrees_with_nom_on_enum_type() {
    for text in corpus() {
        assert_eq!(xml_enum_type(text), said_by_nom(nom_xml_enum_type(text)), "on {:?}", text);
    }
}

#[test]
fn agrees_with_nom_on_tokenized_type() {
    for text in corpus() {
        assert_eq!(xml_tokenized_type(text), said_by_nom(nom_xml_tokenized_type(text)), "on {:?}", text);
    }
}

#[test]
fn agrees_with_nom_on_att_type() {
    for text in corpus() {
        assert_eq!(xml_att_type(text), said_by_nom(nom_xml_att_type(text)), "on {:?}", text);
    }
}

#[test]
fn agrees_with_nom_on_default_decl() {
    for text in corpus() {
        assert_eq!(xml_default_decl(text), said_by_nom(nom_xml_default_decl(text)), "on {:?}", text);
    }
}

#[test]
fn agrees_with_nom_on_att_list_decl() {
    for text in corpus() {
        assert_eq!(xml_att_list_decl(text), said_by_nom(nom_xml_att_list_decl(text)), "on {:?}", text);
    }
}

#[test]
fn agrees_with_nom_on_mixed() {
    for text in corpus() {
        assert_eq!(xml_mixed(text), said_by_nom(nom_xml_mixed(text)), "on {:?}", text);
    }
}

#[test]
fn agrees_with_nom_on_decl_name() {
    for text in corpus() {
        assert_eq!(xml_decl_name(text), said_by_nom(nom_xml_decl_name(text)), "on {:?}", text);
    }
}

#[test]
fn agrees_with_nom_on_repeat() {
    for text in corpus() {
        assert_eq!(xml_repeat(text), said_by_nom(nom_xml_repeat(text)), "on {:?}", text);
    }
}

#[test]
fn agrees_with_nom_on_cp() {
    for text in corpus() {
        assert_eq!(xml_cp(text), said_by_nom(nom_xml_cp(text)), "on {:?}", text);
    }
}

#[test]
fn agrees_with_nom_on_children() {
    for text in corpus() {
        assert_eq!(xml_children(text), said_by_nom(nom_xml_children(text)), "on {:?}", text);
    }
}

#[test]
fn agrees_with_nom_on_choice() {
    for text in corpus() {
        assert_eq!(xml_choice(text), said_by_nom(nom_xml_choice(text)), "on {:?}", text);
    }
}

#[test]
fn agrees_with_nom_on_seq() {
    for text in corpus() {
        assert_eq!(xml_seq(text), said_by_nom(nom_xml_seq(text)), "on {:?}", text);
    }
}

#[test]
fn agrees_with_nom_on_element_decl() {
    for text in corpus() {
        assert_eq!(xml_element_decl(text), said_by_nom(nom_xml_element_decl(text)), "on {:?}", text);
    }
}

#[test]
fn agrees_with_nom_on_doctype_decl() {
    for text in corpus() {
        assert_eq!(xml_doctype_decl(text), said_by_nom(nom_xml_doctype_decl(text)), "on {:?}", text);
    }
}

#[test]
fn agrees_with_nom_on_whole_text_pi() {
    for text in corpus() {
        assert_eq!(parse_pi(text), said_by_nom(nom_parse_pi(text)), "on {:?}", text);
        assert_eq!(nc_name(text), said_by_nom(nom_nc_name(text)), "on {:?}", text);
    }
}
