//! The parsers of the XML grammar. Each reads one token at the beginning of
//! a text and returns it with the rest of the text, or says how the text
//! fails to begin with the token. Nothing is copied: every text in a token
//! is a part of the text that was read.
//!
//! What each parser returns is what the function of `grammar` that its
//! contract names says of the text at place 0.

use vstd::prelude::*;
use crate::grammar;
use crate::parse::{finish, parsed, ParseError, Source};
use crate::reader;
use crate::symbols::{
    XmlAttListDecl, XmlAttType, XmlAttValuePart, XmlCData, XmlCP, XmlChildren, XmlComment,
    XmlDecl, XmlDeclName, XmlDeclSep, XmlDefaultDecl, XmlDocTypeDecl, XmlElementDecl, XmlEncoding,
    XmlEntityDecl, XmlEntityValuePart, XmlEnumType, XmlExternalId, XmlMisc, XmlMixed,
    XmlNDataDecl, XmlName, XmlNmToken, XmlNotationDecl, XmlPEReference, XmlPI, XmlPubidLiteral,
    XmlPublicId, XmlReference, XmlRepeat, XmlSDDecl, XmlSystemLiteral, XmlTokenizedType,
    XmlVersion, XmlWhiteSpace,
};

verus! {

/// Parses white space: at least one character of it.
pub fn xml_ws<'a>(value: &'a str) -> (res: Result<(&'a str, XmlWhiteSpace<'a>), ParseError<'a>>)
    ensures
        parsed(res, grammar::tokens::ws(value@, 0), value@),
{
    let src = Source::new(value);
    finish(&src, reader::tokens::ws_at(&src, 0))
}

/// Parses a `Name`.
pub fn xml_name<'a>(value: &'a str) -> (res: Result<(&'a str, XmlName<'a>), ParseError<'a>>)
    ensures
        parsed(res, grammar::tokens::name(value@, 0), value@),
{
    let src = Source::new(value);
    finish(&src, reader::tokens::name_at(&src, 0))
}

/// Parses `Names`: names with one space between each two.
pub fn xml_names<'a>(value: &'a str) -> (res: Result<(&'a str, Vec<XmlName<'a>>), ParseError<'a>>)
    ensures
        parsed(res, grammar::tokens::names(value@, 0), value@),
{
    let src = Source::new(value);
    finish(&src, reader::tokens::names_at(&src, 0))
}

/// Parses an `Nmtoken`.
pub fn xml_nmtoken<'a>(value: &'a str) -> (res: Result<(&'a str, XmlNmToken<'a>), ParseError<'a>>)
    ensures
        parsed(res, grammar::tokens::nmtoken(value@, 0), value@),
{
    let src = Source::new(value);
    finish(&src, reader::tokens::nmtoken_at(&src, 0))
}

/// Parses `Nmtokens`: name tokens with one space between each two.
pub fn xml_nmtokens<'a>(value: &'a str) -> (res: Result<(&'a str, Vec<XmlNmToken<'a>>), ParseError<'a>>)
    ensures
        parsed(res, grammar::tokens::nmtokens(value@, 0), value@),
{
    let src = Source::new(value);
    finish(&src, reader::tokens::nmtokens_at(&src, 0))
}

/// Parses a `PubidLiteral`.
pub fn xml_pubid_lit<'a>(value: &'a str) -> (res: Result<(&'a str, XmlPubidLiteral<'a>), ParseError<'a>>)
    ensures
        parsed(res, grammar::tokens::pubid_lit(value@, 0), value@),
{
    let src = Source::new(value);
    finish(&src, reader::tokens::pubid_lit_at(&src, 0))
}

/// Parses a `SystemLiteral`.
pub fn xml_system_lit<'a>(value: &'a str) -> (res: Result<(&'a str, XmlSystemLiteral<'a>), ParseError<'a>>)
    ensures
        parsed(res, grammar::tokens::system_lit(value@, 0), value@),
{
    let src = Source::new(value);
    finish(&src, reader::tokens::system_lit_at(&src, 0))
}

/// Parses a `CharRef` and gives the character that it stands for. A
/// number that is no character's, such as a surrogate's, is a failure.
pub fn xml_char_ref<'a>(value: &'a str) -> (res: Result<(&'a str, char), ParseError<'a>>)
    ensures
        parsed(res, grammar::markup::char_ref(value@, 0), value@),
{
    let src = Source::new(value);
    finish(&src, reader::markup::char_ref_at(&src, 0))
}

/// Parses an `EntityRef` and gives the name of the entity.
pub fn xml_entity_ref<'a>(value: &'a str) -> (res: Result<(&'a str, &'a str), ParseError<'a>>)
    ensures
        parsed(res, grammar::markup::entity_ref(value@, 0), value@),
{
    let src = Source::new(value);
    finish(&src, reader::markup::entity_ref_at(&src, 0))
}

/// Parses a `Reference`.
pub fn xml_ref<'a>(value: &'a str) -> (res: Result<(&'a str, XmlReference<'a>), ParseError<'a>>)
    ensures
        parsed(res, grammar::markup::reference(value@, 0), value@),
{
    let src = Source::new(value);
    finish(&src, reader::markup::reference_at(&src, 0))
}

/// Parses a `PEReference`.
pub fn xml_peref<'a>(value: &'a str) -> (res: Result<(&'a str, XmlPEReference<'a>), ParseError<'a>>)
    ensures
        parsed(res, grammar::markup::peref(value@, 0), value@),
{
    let src = Source::new(value);
    finish(&src, reader::markup::peref_at(&src, 0))
}

/// Parses an `EntityValue` into its parts.
pub fn xml_entity_value<'a>(value: &'a str) -> (res: Result<(&'a str, Vec<XmlEntityValuePart<'a>>), ParseError<'a>>)
    ensures
        parsed(res, grammar::markup::entity_value(value@, 0), value@),
{
    let src = Source::new(value);
    finish(&src, reader::markup::entity_value_at(&src, 0))
}

/// Parses an `AttValue` into its parts.
pub fn xml_att_value<'a>(value: &'a str) -> (res: Result<(&'a str, Vec<XmlAttValuePart<'a>>), ParseError<'a>>)
    ensures
        parsed(res, grammar::markup::att_value(value@, 0), value@),
{
    let src = Source::new(value);
    finish(&src, reader::markup::att_value_at(&src, 0))
}

/// Parses a `Comment`. Two hyphens in a row end the body, so a body
/// with two hyphens that `>` does not follow is an error.
pub fn xml_comment<'a>(value: &'a str) -> (res: Result<(&'a str, XmlComment<'a>), ParseError<'a>>)
    ensures
        parsed(res, grammar::markup::comment(value@, 0), value@),
        res matches Ok((rest, body)) ==> {
            &&& value@ == "<!--"@ + body.0@ + "-->"@ + rest@
            &&& forall|i: int|
                0 <= i < body.0@.len() - 1 ==> !(#[trigger] body.0@[i] == '-' && body.0@[i + 1]
                    == '-')
            &&& body.0@.len() > 0 ==> body.0@.last() != '-'
        },
{
    let src = Source::new(value);
    let res = finish(&src, reader::markup::comment_at(&src, 0));
    proof {
        if res is Ok {
            let s = value@;
            let end = grammar::markup::comment(s, 0)->next;
            grammar::laws::lemma_comment(s, 0);
            reveal_strlit("<!--");
            reveal_strlit("-->");
            assert(s =~= s.subrange(0, 4) + s.subrange(4, end - 3) + s.subrange(end - 3, end)
                + s.subrange(end, s.len() as int));
        }
    }
    res
}

/// Parses a `PI`.
///
/// The target is not held against the reserved names (`xml` and the like).
pub fn xml_pi<'a>(value: &'a str) -> (res: Result<(&'a str, XmlPI<'a>), ParseError<'a>>)
    ensures
        parsed(res, grammar::markup::pi(value@, 0), value@),
{
    let src = Source::new(value);
    finish(&src, reader::markup::pi_at(&src, 0))
}

/// Parses a `CDSect`. The body ends at the first `]]>`.
pub fn xml_cdata<'a>(value: &'a str) -> (res: Result<(&'a str, XmlCData<'a>), ParseError<'a>>)
    ensures
        parsed(res, grammar::markup::cdata(value@, 0), value@),
        res matches Ok((rest, body)) ==> {
            &&& value@ == "<![CDATA["@ + body.0@ + "]]>"@ + rest@
            &&& forall|i: int|
                0 <= i <= body.0@.len() - 3 ==> !#[trigger] grammar::tokens::stands_at(
                    body.0@,
                    i,
                    "]]>"@,
                )
        },
{
    let src = Source::new(value);
    let res = finish(&src, reader::markup::cdata_at(&src, 0));
    proof {
        if res is Ok {
            let s = value@;
            let end = grammar::markup::cdata(s, 0)->next;
            grammar::laws::lemma_cdata(s, 0);
            reveal_strlit("<![CDATA[");
            reveal_strlit("]]>");
            assert(s =~= s.subrange(0, 9) + s.subrange(9, end - 3) + s.subrange(end - 3, end)
                + s.subrange(end, s.len() as int));
        }
    }
    res
}

/// Parses the `XMLDecl`.
pub fn xml_decl<'a>(value: &'a str) -> (res: Result<(&'a str, XmlDecl<'a>), ParseError<'a>>)
    ensures
        parsed(res, grammar::markup::decl(value@, 0), value@),
{
    let src = Source::new(value);
    finish(&src, reader::markup::decl_at(&src, 0))
}

/// Parses the `VersionInfo` of the XML declaration.
pub fn xml_version<'a>(value: &'a str) -> (res: Result<(&'a str, XmlVersion), ParseError<'a>>)
    ensures
        parsed(res, grammar::markup::version(value@, 0), value@),
{
    let src = Source::new(value);
    finish(&src, reader::markup::version_at(&src, 0))
}

/// Parses `Eq`: an equals sign, with white space around it or without.
pub fn xml_eq<'a>(value: &'a str) -> (res: Result<(&'a str, ()), ParseError<'a>>)
    ensures
        parsed(res, grammar::tokens::eq(value@, 0), value@),
{
    let src = Source::new(value);
    finish(&src, reader::tokens::eq_at(&src, 0))
}

/// Parses the `EncodingDecl` of the XML declaration.
pub fn xml_encoding_decl<'a>(value: &'a str) -> (res: Result<(&'a str, XmlEncoding<'a>), ParseError<'a>>)
    ensures
        parsed(res, grammar::markup::encoding_decl(value@, 0), value@),
{
    let src = Source::new(value);
    finish(&src, reader::markup::encoding_decl_at(&src, 0))
}

/// Parses the `SDDecl` of the XML declaration.
pub fn xml_standalone_decl<'a>(value: &'a str) -> (res: Result<(&'a str, XmlSDDecl), ParseError<'a>>)
    ensures
        parsed(res, grammar::markup::standalone_decl(value@, 0), value@),
{
    let src = Source::new(value);
    finish(&src, reader::markup::standalone_decl_at(&src, 0))
}

/// Parses a `Misc`.
pub fn xml_misc<'a>(value: &'a str) -> (res: Result<(&'a str, XmlMisc<'a>), ParseError<'a>>)
    ensures
        parsed(res, grammar::markup::misc(value@, 0), value@),
{
    let src = Source::new(value);
    finish(&src, reader::markup::misc_at(&src, 0))
}

/// Parses an `ExternalID`.
pub fn xml_external_id<'a>(value: &'a str) -> (res: Result<(&'a str, XmlExternalId<'a>), ParseError<'a>>)
    ensures
        parsed(res, grammar::dtd::external_id(value@, 0), value@),
{
    let src = Source::new(value);
    finish(&src, reader::dtd::external_id_at(&src, 0))
}

/// Parses a `PublicID`.
pub fn xml_public_id<'a>(value: &'a str) -> (res: Result<(&'a str, XmlPublicId<'a>), ParseError<'a>>)
    ensures
        parsed(res, grammar::dtd::public_id(value@, 0), value@),
{
    let src = Source::new(value);
    finish(&src, reader::dtd::public_id_at(&src, 0))
}

/// Parses an `NDataDecl`.
pub fn xml_ndata_decl<'a>(value: &'a str) -> (res: Result<(&'a str, XmlNDataDecl<'a>), ParseError<'a>>)
    ensures
        parsed(res, grammar::dtd::ndata_decl(value@, 0), value@),
{
    let src = Source::new(value);
    finish(&src, reader::dtd::ndata_decl_at(&src, 0))
}

/// Parses a `DeclSep`.
pub fn xml_decl_sep<'a>(value: &'a str) -> (res: Result<(&'a str, XmlDeclSep<'a>), ParseError<'a>>)
    ensures
        parsed(res, grammar::dtd::decl_sep(value@, 0), value@),
{
    let src = Source::new(value);
    finish(&src, reader::dtd::decl_sep_at(&src, 0))
}

/// Parses a `NotationDecl`.
pub fn xml_notation_decl<'a>(value: &'a str) -> (res: Result<(&'a str, XmlNotationDecl<'a>), ParseError<'a>>)
    ensures
        parsed(res, grammar::dtd::notation_decl(value@, 0), value@),
{
    let src = Source::new(value);
    finish(&src, reader::dtd::notation_decl_at(&src, 0))
}

/// Parses an `EntityDecl`.
pub fn xml_entity_decl<'a>(value: &'a str) -> (res: Result<(&'a str, XmlEntityDecl<'a>), ParseError<'a>>)
    ensures
        parsed(res, grammar::dtd::entity_decl(value@, 0), value@),
{
    let src = Source::new(value);
    finish(&src, reader::dtd::entity_decl_at(&src, 0))
}

/// Parses an `EnumeratedType`.
pub fn xml_enum_type<'a>(value: &'a str) -> (res: Result<(&'a str, XmlEnumType<'a>), ParseError<'a>>)
    ensures
        parsed(res, grammar::dtd::enum_type(value@, 0), value@),
{
    let src = Source::new(value);
    finish(&src, reader::dtd::enum_type_at(&src, 0))
}

/// Parses a `TokenizedType`.
pub fn xml_tokenized_type<'a>(value: &'a str) -> (res: Result<(&'a str, XmlTokenizedType), ParseError<'a>>)
    ensures
        parsed(res, grammar::dtd::tokenized_type(value@, 0), value@),
{
    let src = Source::new(value);
    finish(&src, reader::dtd::tokenized_type_at(&src, 0))
}

/// Parses an `AttType`.
pub fn xml_att_type<'a>(value: &'a str) -> (res: Result<(&'a str, XmlAttType<'a>), ParseError<'a>>)
    ensures
        parsed(res, grammar::dtd::att_type(value@, 0), value@),
{
    let src = Source::new(value);
    finish(&src, reader::dtd::att_type_at(&src, 0))
}

/// Parses a `DefaultDecl`.
pub fn xml_default_decl<'a>(value: &'a str) -> (res: Result<(&'a str, XmlDefaultDecl<'a>), ParseError<'a>>)
    ensures
        parsed(res, grammar::dtd::default_decl(value@, 0), value@),
{
    let src = Source::new(value);
    finish(&src, reader::dtd::default_decl_at(&src, 0))
}

/// Parses an `AttlistDecl`.
pub fn xml_att_list_decl<'a>(value: &'a str) -> (res: Result<(&'a str, XmlAttListDecl<'a>), ParseError<'a>>)
    ensures
        parsed(res, grammar::dtd::att_list_decl(value@, 0), value@),
{
    let src = Source::new(value);
    finish(&src, reader::dtd::att_list_decl_at(&src, 0))
}

/// Parses a `Mixed`.
pub fn xml_mixed<'a>(value: &'a str) -> (res: Result<(&'a str, XmlMixed<'a>), ParseError<'a>>)
    ensures
        parsed(res, grammar::dtd::mixed(value@, 0), value@),
{
    let src = Source::new(value);
    finish(&src, reader::dtd::mixed_at(&src, 0))
}

/// Parses a name in a declaration, or the parameter-entity reference that
/// stands for it.
pub fn xml_decl_name<'a>(value: &'a str) -> (res: Result<(&'a str, XmlDeclName<'a>), ParseError<'a>>)
    ensures
        parsed(res, grammar::dtd::decl_name(value@, 0), value@),
{
    let src = Source::new(value);
    finish(&src, reader::dtd::decl_name_at(&src, 0))
}

/// Parses how often a content particle may occur: `?`, `*` or `+`.
pub fn xml_repeat<'a>(value: &'a str) -> (res: Result<(&'a str, XmlRepeat), ParseError<'a>>)
    ensures
        parsed(res, grammar::dtd::repeat(value@, 0), value@),
{
    let src = Source::new(value);
    finish(&src, reader::dtd::repeat_at(&src, 0))
}

/// Parses a `cp`.
pub fn xml_cp<'a>(value: &'a str) -> (res: Result<(&'a str, XmlCP<'a>), ParseError<'a>>)
    ensures
        parsed(res, grammar::dtd::cp(value@, 0), value@),
{
    let src = Source::new(value);
    finish(&src, reader::dtd::cp_at(&src, 0))
}

/// Parses `children`.
pub fn xml_children<'a>(value: &'a str) -> (res: Result<(&'a str, XmlChildren<'a>), ParseError<'a>>)
    ensures
        parsed(res, grammar::dtd::children(value@, 0), value@),
{
    let src = Source::new(value);
    finish(&src, reader::dtd::children_at(&src, 0))
}

/// Parses a `choice`.
pub fn xml_choice<'a>(value: &'a str) -> (res: Result<(&'a str, Vec<XmlCP<'a>>), ParseError<'a>>)
    ensures
        parsed(res, grammar::dtd::group(value@, 0, '|'), value@),
{
    let src = Source::new(value);
    finish(&src, reader::dtd::group_at(&src, 0, '|'))
}

/// Parses a `seq`.
pub fn xml_seq<'a>(value: &'a str) -> (res: Result<(&'a str, Vec<XmlCP<'a>>), ParseError<'a>>)
    ensures
        parsed(res, grammar::dtd::group(value@, 0, ','), value@),
{
    let src = Source::new(value);
    finish(&src, reader::dtd::group_at(&src, 0, ','))
}

/// Parses an `elementdecl`.
pub fn xml_element_decl<'a>(value: &'a str) -> (res: Result<(&'a str, XmlElementDecl<'a>), ParseError<'a>>)
    ensures
        parsed(res, grammar::dtd::element_decl(value@, 0), value@),
{
    let src = Source::new(value);
    finish(&src, reader::dtd::element_decl_at(&src, 0))
}

/// Parses a `doctypedecl`.
pub fn xml_doctype_decl<'a>(value: &'a str) -> (res: Result<(&'a str, XmlDocTypeDecl<'a>), ParseError<'a>>)
    ensures
        parsed(res, grammar::dtd::doctype_decl(value@, 0), value@),
{
    let src = Source::new(value);
    finish(&src, reader::dtd::doctype_decl_at(&src, 0))
}

} // verus!
