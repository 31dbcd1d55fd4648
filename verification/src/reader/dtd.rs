//! The declarations of a document type.

use vstd::prelude::*;
use crate::grammar::dtd::{
    att_def, att_defs, att_list_decl, att_type, children, closing, closing_bracket, closing_paren,
    content_spec, cp, decl_name, decl_sep, declared_name, default_decl, doctype_decl,
    element_decl, element_start, entity_decl, entity_def, entity_start, enum_item, enum_items,
    enum_type, external_id, fixed_mark, fixed_value, group, group_items, group_sep, group_start,
    int_subset, markup_decl, markup_decl_rest, markup_decls, mixed, mixed_names, mixed_start,
    more_cps, more_enum_items, more_mixed_names, ndata_decl, notation_decl, notation_id,
    notation_type, pe_def, public_id, public_part, repeat, spaced_char, spaced_external_id,
    spaced_name, spaced_tag, system_part, tagged, tokenized_type,
};
use crate::grammar::tokens::{prepend, tag, CharClass};
use crate::parse::{agrees, Fail, Source, Step};
use crate::reader::markup::{att_value_at, comment_at, entity_value_at, peref_at, pi_at};
use crate::reader::tokens::{
    lemma_prepend, lemma_prepend_end, lemma_push_view, name_at, nmtoken_at, pubid_lit_at,
    satisfy_at, skip_ws, system_lit_at, tag_at, ws_at,
};
use crate::symbols::{
    lemma_cps_view, XmlAttDef, XmlAttListDecl, XmlAttType, XmlAttValuePart, XmlCP, XmlChildren,
    XmlContentSpec, XmlDeclName, XmlDeclSep, XmlDefaultDecl, XmlDocTypeDecl, XmlElementDecl,
    XmlEntityDecl, XmlEntityDef, XmlEnumType, XmlExternalId, XmlMarkupDecl, XmlMixed, XmlNDataDecl,
    XmlName, XmlNotationDecl, XmlNotationId, XmlPEDef, XmlPublicId, XmlRepeat, XmlTokenizedType,
};

verus! {

/// Reads the fixed text `t` and gives `value` for it.
pub fn tagged_at<T: DeepView>(src: &Source, pos: usize, t: &str, value: T) -> (r: Step<T>)
    requires
        pos <= src@.len(),
    ensures
        agrees(r, tagged(src@, pos as int, t@, value.deep_view()), pos as int, src@.len() as int),
{
    let (next, _) = tag_at(src, pos, t)?;
    Ok((next, value))
}

/// Reads white space and a system identifier.
fn system_part_at<'a>(src: &Source<'a>, pos: usize) -> (r: Step<&'a str>)
    requires
        pos <= src@.len(),
    ensures
        agrees(r, system_part(src@, pos as int), pos as int, src@.len() as int),
{
    let (a, _) = ws_at(src, pos)?;
    let (b, id) = system_lit_at(src, a)?;
    Ok((b, id.0))
}

/// Reads white space and a public identifier.
fn public_part_at<'a>(src: &Source<'a>, pos: usize) -> (r: Step<&'a str>)
    requires
        pos <= src@.len(),
    ensures
        agrees(r, public_part(src@, pos as int), pos as int, src@.len() as int),
{
    let (a, _) = ws_at(src, pos)?;
    let (b, id) = pubid_lit_at(src, a)?;
    Ok((b, id.0))
}

/// Reads an external identifier.
pub fn external_id_at<'a>(src: &Source<'a>, pos: usize) -> (r: Step<XmlExternalId<'a>>)
    requires
        pos <= src@.len(),
    ensures
        agrees(r, external_id(src@, pos as int), pos as int, src@.len() as int),
{
    match tag_at(src, pos, "SYSTEM") {
        Ok((a, _)) => {
            let (b, system_id) = system_part_at(src, a)?;
            Ok((b, XmlExternalId::System(system_id)))
        },
        Err(Fail::Error { .. }) => {
            let (b, _) = tag_at(src, pos, "PUBLIC")?;
            let (c, public_id) = public_part_at(src, b)?;
            let (d, system_id) = system_part_at(src, c)?;
            Ok((d, XmlExternalId::Public { public_id, system_id }))
        },
        Err(e) => Err(e),
    }
}

/// Reads `PUBLIC` and a public identifier.
pub fn public_id_at<'a>(src: &Source<'a>, pos: usize) -> (r: Step<XmlPublicId<'a>>)
    requires
        pos <= src@.len(),
    ensures
        agrees(r, public_id(src@, pos as int), pos as int, src@.len() as int),
{
    let (a, _) = tag_at(src, pos, "PUBLIC")?;
    let (b, id) = public_part_at(src, a)?;
    Ok((b, XmlPublicId(id)))
}

/// Reads the name of the notation of an unparsed entity.
pub fn ndata_decl_at<'a>(src: &Source<'a>, pos: usize) -> (r: Step<XmlNDataDecl<'a>>)
    requires
        pos <= src@.len(),
    ensures
        agrees(r, ndata_decl(src@, pos as int), pos as int, src@.len() as int),
{
    let (a, _) = ws_at(src, pos)?;
    let (b, _) = tag_at(src, a, "NDATA")?;
    let (c, _) = ws_at(src, b)?;
    let (d, name) = name_at(src, c)?;
    Ok((d, XmlNDataDecl(name.0)))
}

/// Reads white space or a parameter-entity reference.
pub fn decl_sep_at<'a>(src: &Source<'a>, pos: usize) -> (r: Step<XmlDeclSep<'a>>)
    requires
        pos <= src@.len(),
    ensures
        agrees(r, decl_sep(src@, pos as int), pos as int, src@.len() as int),
        r matches Ok((next, _)) ==> next > pos,
{
    match ws_at(src, pos) {
        Ok((next, space)) => Ok((next, XmlDeclSep::Space(space.0))),
        Err(Fail::Error { .. }) => {
            let (next, name) = peref_at(src, pos)?;
            Ok((next, XmlDeclSep::PEReference(name.0)))
        },
        Err(e) => Err(e),
    }
}

/// Reads the identifier of a notation.
fn notation_id_at<'a>(src: &Source<'a>, pos: usize) -> (r: Step<XmlNotationId<'a>>)
    requires
        pos <= src@.len(),
    ensures
        agrees(r, notation_id(src@, pos as int), pos as int, src@.len() as int),
{
    match external_id_at(src, pos) {
        Ok((next, XmlExternalId::System(id))) => Ok((next, XmlNotationId::System(id))),
        Ok((next, XmlExternalId::Public { public_id, system_id })) => Ok(
            (next, XmlNotationId::PublicSystem { public_id, system_id }),
        ),
        Err(Fail::Error { .. }) => {
            let (next, id) = public_id_at(src, pos)?;
            Ok((next, XmlNotationId::Public(id.0)))
        },
        Err(e) => Err(e),
    }
}

/// Reads white space that may be left out, and the fixed text `t`.
fn closing_at(src: &Source, pos: usize, t: &str) -> (r: Step<()>)
    requires
        pos <= src@.len(),
    ensures
        agrees(r, closing(src@, pos as int, t@), pos as int, src@.len() as int),
{
    let a = skip_ws(src, pos)?;
    tag_at(src, a, t)
}

/// Reads white space that may be left out, and `>`.
fn closing_bracket_at(src: &Source, pos: usize) -> (r: Step<()>)
    requires
        pos <= src@.len(),
    ensures
        agrees(r, closing_bracket(src@, pos as int), pos as int, src@.len() as int),
{
    let a = skip_ws(src, pos)?;
    let (b, _) = satisfy_at(src, a, CharClass::Is('>'))?;
    Ok((b, ()))
}

/// Reads white space that may be left out, and `)`.
fn closing_paren_at(src: &Source, pos: usize) -> (r: Step<()>)
    requires
        pos <= src@.len(),
    ensures
        agrees(r, closing_paren(src@, pos as int), pos as int, src@.len() as int),
{
    let a = skip_ws(src, pos)?;
    let (b, _) = satisfy_at(src, a, CharClass::Is(')'))?;
    Ok((b, ()))
}

/// Reads the fixed text `t`, white space and a name.
fn declared_name_at<'a>(src: &Source<'a>, pos: usize, t: &str) -> (r: Step<XmlName<'a>>)
    requires
        pos <= src@.len(),
    ensures
        agrees(r, declared_name(src@, pos as int, t@), pos as int, src@.len() as int),
        r matches Ok((next, _)) ==> next > pos,
{
    let (a, _) = tag_at(src, pos, t)?;
    let (b, _) = ws_at(src, a)?;
    name_at(src, b)
}

/// Reads the declaration of a notation.
pub fn notation_decl_at<'a>(src: &Source<'a>, pos: usize) -> (r: Step<XmlNotationDecl<'a>>)
    requires
        pos <= src@.len(),
    ensures
        agrees(r, notation_decl(src@, pos as int), pos as int, src@.len() as int),
        r matches Ok((next, _)) ==> next > pos,
{
    let (a, name) = declared_name_at(src, pos, "<!NOTATION")?;
    let (b, _) = ws_at(src, a)?;
    let (c, id) = notation_id_at(src, b)?;
    let (d, _) = closing_bracket_at(src, c)?;
    Ok((d, XmlNotationDecl { name: name.0, id }))
}

/// Reads the definition of a general entity.
fn entity_def_at<'a>(src: &Source<'a>, pos: usize) -> (r: Step<XmlEntityDef<'a>>)
    requires
        pos <= src@.len(),
    ensures
        agrees(r, entity_def(src@, pos as int), pos as int, src@.len() as int),
{
    match entity_value_at(src, pos) {
        Ok((next, parts)) => Ok((next, XmlEntityDef::Value(parts))),
        Err(Fail::Error { .. }) => {
            let (b, id) = external_id_at(src, pos)?;
            let (c, ndata_decl) = match ndata_decl_at(src, b) {
                Ok((c, found)) => (c, Some(found.0)),
                Err(Fail::Error { .. }) => (b, None),
                Err(e) => {
                    return Err(e);
                },
            };
            Ok((c, XmlEntityDef::External { id, ndata_decl }))
        },
        Err(e) => Err(e),
    }
}

/// Reads the definition of a parameter entity.
fn pe_def_at<'a>(src: &Source<'a>, pos: usize) -> (r: Step<XmlPEDef<'a>>)
    requires
        pos <= src@.len(),
    ensures
        agrees(r, pe_def(src@, pos as int), pos as int, src@.len() as int),
{
    match entity_value_at(src, pos) {
        Ok((next, parts)) => Ok((next, XmlPEDef::Value(parts))),
        Err(Fail::Error { .. }) => {
            let (next, id) = external_id_at(src, pos)?;
            Ok((next, XmlPEDef::External(id)))
        },
        Err(e) => Err(e),
    }
}

/// Reads what opens the declaration of an entity, and says whether it is
/// a parameter entity.
fn entity_start_at(src: &Source, pos: usize) -> (r: Step<bool>)
    requires
        pos <= src@.len(),
    ensures
        agrees(r, entity_start(src@, pos as int), pos as int, src@.len() as int),
        r matches Ok((next, _)) ==> next > pos,
{
    let (a, _) = tag_at(src, pos, "<!ENTITY")?;
    let (b, _) = ws_at(src, a)?;
    match satisfy_at(src, b, CharClass::Is('%')) {
        Ok((c, _)) => {
            let (d, _) = ws_at(src, c)?;
            Ok((d, true))
        },
        Err(Fail::Error { .. }) => Ok((b, false)),
        Err(e) => Err(e),
    }
}

/// Reads the declaration of an entity.
pub fn entity_decl_at<'a>(src: &Source<'a>, pos: usize) -> (r: Step<XmlEntityDecl<'a>>)
    requires
        pos <= src@.len(),
    ensures
        agrees(r, entity_decl(src@, pos as int), pos as int, src@.len() as int),
        r matches Ok((next, _)) ==> next > pos,
{
    let (a, parameter) = entity_start_at(src, pos)?;
    let (b, name) = name_at(src, a)?;
    let (c, _) = ws_at(src, b)?;
    if parameter {
        let (d, def) = pe_def_at(src, c)?;
        let (e, _) = closing_bracket_at(src, d)?;
        Ok((e, XmlEntityDecl::PEDecl { name: name.0, def }))
    } else {
        let (d, def) = entity_def_at(src, c)?;
        let (e, _) = closing_bracket_at(src, d)?;
        Ok((e, XmlEntityDecl::GEDecl { name: name.0, def }))
    }
}

/// Reads one item of an enumeration.
fn enum_item_at<'a>(src: &Source<'a>, pos: usize, tokens: bool) -> (r: Step<&'a str>)
    requires
        pos <= src@.len(),
    ensures
        agrees(r, enum_item(src@, pos as int, tokens), pos as int, src@.len() as int),
        r matches Ok((next, _)) ==> next > pos,
{
    let a = skip_ws(src, pos)?;
    let (b, text) = if tokens {
        let (b, token) = nmtoken_at(src, a)?;
        (b, token.0)
    } else {
        let (b, name) = name_at(src, a)?;
        (b, name.0)
    };
    let c = skip_ws(src, b)?;
    Ok((c, text))
}

/// Reads the items of an enumeration in parentheses.
fn enum_items_at<'a>(src: &Source<'a>, pos: usize, tokens: bool) -> (r: Step<Vec<&'a str>>)
    requires
        pos <= src@.len(),
    ensures
        agrees(r, enum_items(src@, pos as int, tokens), pos as int, src@.len() as int),
{
    let (start, _) = tag_at(src, pos, "(")?;
    let (first_end, first) = enum_item_at(src, start, tokens)?;
    let mut list: Vec<&'a str> = Vec::new();
    list.push(first);
    let mut cur: usize = first_end;
    assert(list.deep_view() =~= seq![first@]);
    loop
        invariant
            pos <= start <= cur <= src@.len(),
            tag(src@, pos as int, "("@) is Done,
            tag(src@, pos as int, "("@)->next == start,
            enum_item(src@, start as int, tokens) is Done,
            enum_item(src@, start as int, tokens)->next == first_end,
            enum_item(src@, start as int, tokens)->value == first@,
            prepend(seq![first@], more_enum_items(src@, first_end as int, tokens)) == prepend(
                list.deep_view(),
                more_enum_items(src@, cur as int, tokens),
            ),
        decreases src@.len() - cur,
    {
        let a = match tag_at(src, cur, "|") {
            Ok((a, _)) => a,
            Err(Fail::Error { .. }) => {
                proof {
                    lemma_prepend_end(list.deep_view(), cur as int);
                }
                let (end, _) = tag_at(src, cur, ")")?;
                return Ok((end, list));
            },
            Err(e) => {
                return Err(e);
            },
        };
        proof {
            reveal_strlit("|");
        }
        let (b, item) = match enum_item_at(src, a, tokens) {
            Ok(found) => found,
            Err(Fail::Error { .. }) => {
                proof {
                    lemma_prepend_end(list.deep_view(), cur as int);
                }
                let (end, _) = tag_at(src, cur, ")")?;
                return Ok((end, list));
            },
            Err(e) => {
                return Err(e);
            },
        };
        let ghost before = list;
        list.push(item);
        proof {
            lemma_push_view(before, list, item);
            lemma_prepend(before.deep_view(), item@, more_enum_items(src@, b as int, tokens));
        }
        cur = b;
    }
}

/// Reads `NOTATION`, white space and names in parentheses.
fn notation_type_at<'a>(src: &Source<'a>, pos: usize) -> (r: Step<Vec<&'a str>>)
    requires
        pos <= src@.len(),
    ensures
        agrees(r, notation_type(src@, pos as int), pos as int, src@.len() as int),
{
    let (a, _) = tag_at(src, pos, "NOTATION")?;
    let (b, _) = ws_at(src, a)?;
    enum_items_at(src, b, false)
}

/// Reads an enumeration: the names of notations, or name tokens.
pub fn enum_type_at<'a>(src: &Source<'a>, pos: usize) -> (r: Step<XmlEnumType<'a>>)
    requires
        pos <= src@.len(),
    ensures
        agrees(r, enum_type(src@, pos as int), pos as int, src@.len() as int),
{
    match notation_type_at(src, pos) {
        Ok((next, names)) => Ok((next, XmlEnumType::Notation(names))),
        Err(Fail::Error { .. }) => {
            let (next, tokens) = enum_items_at(src, pos, true)?;
            Ok((next, XmlEnumType::NmToken(tokens)))
        },
        Err(e) => Err(e),
    }
}

/// Reads a tokenized type.
pub fn tokenized_type_at(src: &Source, pos: usize) -> (r: Step<XmlTokenizedType>)
    requires
        pos <= src@.len(),
    ensures
        agrees(r, tokenized_type(src@, pos as int), pos as int, src@.len() as int),
{
    match tagged_at(src, pos, "IDREFS", XmlTokenizedType::IdRefs) {
        Err(Fail::Error { .. }) => {},
        r => {
            return r;
        },
    }
    match tagged_at(src, pos, "IDREF", XmlTokenizedType::IdRef) {
        Err(Fail::Error { .. }) => {},
        r => {
            return r;
        },
    }
    match tagged_at(src, pos, "ID", XmlTokenizedType::Id) {
        Err(Fail::Error { .. }) => {},
        r => {
            return r;
        },
    }
    match tagged_at(src, pos, "ENTITY", XmlTokenizedType::Entity) {
        Err(Fail::Error { .. }) => {},
        r => {
            return r;
        },
    }
    match tagged_at(src, pos, "ENTITIES", XmlTokenizedType::Entities) {
        Err(Fail::Error { .. }) => {},
        r => {
            return r;
        },
    }
    match tagged_at(src, pos, "NMTOKENS", XmlTokenizedType::NmTokens) {
        Err(Fail::Error { .. }) => {},
        r => {
            return r;
        },
    }
    tagged_at(src, pos, "NMTOKEN", XmlTokenizedType::NmToken)
}

/// Reads the type of an attribute.
pub fn att_type_at<'a>(src: &Source<'a>, pos: usize) -> (r: Step<XmlAttType<'a>>)
    requires
        pos <= src@.len(),
    ensures
        agrees(r, att_type(src@, pos as int), pos as int, src@.len() as int),
{
    match tag_at(src, pos, "CDATA") {
        Ok((next, _)) => {
            return Ok((next, XmlAttType::String));
        },
        Err(Fail::Error { .. }) => {},
        Err(e) => {
            return Err(e);
        },
    }
    match enum_type_at(src, pos) {
        Ok((next, XmlEnumType::Notation(names))) => {
            return Ok((next, XmlAttType::Notation(names)));
        },
        Ok((next, XmlEnumType::NmToken(tokens))) => {
            return Ok((next, XmlAttType::NmToken(tokens)));
        },
        Err(Fail::Error { .. }) => {},
        Err(e) => {
            return Err(e);
        },
    }
    let (next, found) = tokenized_type_at(src, pos)?;
    Ok((next, XmlAttType::Tokenized(found)))
}

/// Reads `#FIXED` and white space.
fn fixed_mark_at(src: &Source, pos: usize) -> (r: Step<()>)
    requires
        pos <= src@.len(),
    ensures
        agrees(r, fixed_mark(src@, pos as int), pos as int, src@.len() as int),
{
    let (a, _) = tag_at(src, pos, "#FIXED")?;
    let (b, _) = ws_at(src, a)?;
    Ok((b, ()))
}

/// Reads a value that may be marked `#FIXED`.
fn fixed_value_at<'a>(src: &Source<'a>, pos: usize) -> (r: Step<Vec<XmlAttValuePart<'a>>>)
    requires
        pos <= src@.len(),
    ensures
        agrees(r, fixed_value(src@, pos as int), pos as int, src@.len() as int),
{
    let a = match fixed_mark_at(src, pos) {
        Ok((a, _)) => a,
        Err(Fail::Error { .. }) => pos,
        Err(e) => {
            return Err(e);
        },
    };
    match att_value_at(src, a) {
        Ok((next, parts)) => Ok((next, parts)),
        Err(e) => Err(e),
    }
}

/// Reads the default of an attribute.
pub fn default_decl_at<'a>(src: &Source<'a>, pos: usize) -> (r: Step<XmlDefaultDecl<'a>>)
    requires
        pos <= src@.len(),
    ensures
        agrees(r, default_decl(src@, pos as int), pos as int, src@.len() as int),
{
    match tag_at(src, pos, "#REQUIRED") {
        Ok((next, _)) => {
            return Ok((next, XmlDefaultDecl::Required));
        },
        Err(Fail::Error { .. }) => {},
        Err(e) => {
            return Err(e);
        },
    }
    match tag_at(src, pos, "#IMPLIED") {
        Ok((next, _)) => {
            return Ok((next, XmlDefaultDecl::Implied));
        },
        Err(Fail::Error { .. }) => {},
        Err(e) => {
            return Err(e);
        },
    }
    let (next, parts) = fixed_value_at(src, pos)?;
    Ok((next, XmlDefaultDecl::Fixed(parts)))
}

/// Reads white space and a name.
fn spaced_name_at<'a>(src: &Source<'a>, pos: usize) -> (r: Step<XmlName<'a>>)
    requires
        pos <= src@.len(),
    ensures
        agrees(r, spaced_name(src@, pos as int), pos as int, src@.len() as int),
        r matches Ok((next, _)) ==> next > pos,
{
    let (a, _) = ws_at(src, pos)?;
    name_at(src, a)
}

/// Reads the definition of one attribute.
fn att_def_at<'a>(src: &Source<'a>, pos: usize) -> (r: Step<XmlAttDef<'a>>)
    requires
        pos <= src@.len(),
    ensures
        agrees(r, att_def(src@, pos as int), pos as int, src@.len() as int),
        r matches Ok((next, _)) ==> next > pos,
{
    let (a, name) = spaced_name_at(src, pos)?;
    let (b, _) = ws_at(src, a)?;
    let (c, att_type) = att_type_at(src, b)?;
    let (d, _) = ws_at(src, c)?;
    let (e, default_decl) = default_decl_at(src, d)?;
    Ok((e, XmlAttDef { name: name.0, att_type, default_decl }))
}

/// Reads the declaration of the attributes of an element.
pub fn att_list_decl_at<'a>(src: &Source<'a>, pos: usize) -> (r: Step<XmlAttListDecl<'a>>)
    requires
        pos <= src@.len(),
    ensures
        agrees(r, att_list_decl(src@, pos as int), pos as int, src@.len() as int),
        r matches Ok((next, _)) ==> next > pos,
{
    let (start, name) = declared_name_at(src, pos, "<!ATTLIST")?;
    let mut list: Vec<XmlAttDef<'a>> = Vec::new();
    let mut cur: usize = start;
    assert(list.deep_view() =~= Seq::empty());
    loop
        invariant
            pos < start <= cur <= src@.len(),
            declared_name(src@, pos as int, "<!ATTLIST"@) is Done,
            declared_name(src@, pos as int, "<!ATTLIST"@)->next == start,
            declared_name(src@, pos as int, "<!ATTLIST"@)->value == name.deep_view(),
            att_defs(src@, start as int) == prepend(list.deep_view(), att_defs(src@, cur as int)),
        decreases src@.len() - cur,
    {
        match att_def_at(src, cur) {
            Ok((next, item)) => {
                let ghost before = list;
                let ghost added = item;
                list.push(item);
                proof {
                    lemma_push_view(before, list, added);
                    lemma_prepend(
                        before.deep_view(),
                        added.deep_view(),
                        att_defs(src@, next as int),
                    );
                }
                cur = next;
            },
            Err(Fail::Error { .. }) => {
                proof {
                    lemma_prepend_end(list.deep_view(), cur as int);
                }
                let (end, _) = closing_at(src, cur, ">")?;
                return Ok((end, XmlAttListDecl { name: name.0, att_defs: list }));
            },
            Err(e) => {
                return Err(e);
            },
        }
    }
}

/// Reads a name in a declaration, or the parameter-entity reference that
/// stands for it.
pub fn decl_name_at<'a>(src: &Source<'a>, pos: usize) -> (r: Step<XmlDeclName<'a>>)
    requires
        pos <= src@.len(),
    ensures
        agrees(r, decl_name(src@, pos as int), pos as int, src@.len() as int),
        r matches Ok((next, _)) ==> next > pos,
{
    match peref_at(src, pos) {
        Ok((next, name)) => Ok((next, XmlDeclName::PEReference(name.0))),
        Err(Fail::Error { .. }) => {
            let (next, name) = name_at(src, pos)?;
            Ok((next, XmlDeclName::Name(name.0)))
        },
        Err(e) => Err(e),
    }
}

/// Reads the character `c`, with white space around it or without.
fn spaced_char_at(src: &Source, pos: usize, c: char) -> (r: Step<()>)
    requires
        pos <= src@.len(),
    ensures
        agrees(r, spaced_char(src@, pos as int, c), pos as int, src@.len() as int),
        r matches Ok((next, _)) ==> next > pos,
{
    let a = skip_ws(src, pos)?;
    let (b, _) = satisfy_at(src, a, CharClass::Is(c))?;
    let d = skip_ws(src, b)?;
    Ok((d, ()))
}

/// Reads the fixed text `t`, with white space around it or without.
fn spaced_tag_at(src: &Source, pos: usize, t: &str) -> (r: Step<()>)
    requires
        pos <= src@.len(),
    ensures
        agrees(r, spaced_tag(src@, pos as int, t@), pos as int, src@.len() as int),
        r matches Ok((next, _)) ==> next >= pos + t@.len(),
{
    let a = skip_ws(src, pos)?;
    let (b, _) = tag_at(src, a, t)?;
    let d = skip_ws(src, b)?;
    Ok((d, ()))
}

/// Reads the names of a mixed content, with `|` between each two.
fn mixed_names_at<'a>(src: &Source<'a>, pos: usize) -> (r: Step<Vec<XmlDeclName<'a>>>)
    requires
        pos <= src@.len(),
    ensures
        agrees(r, mixed_names(src@, pos as int), pos as int, src@.len() as int),
{
    let mut list: Vec<XmlDeclName<'a>> = Vec::new();
    let (first_end, first) = match decl_name_at(src, pos) {
        Ok(found) => found,
        Err(Fail::Error { .. }) => {
            assert(list.deep_view() =~= Seq::empty());
            return Ok((pos, list));
        },
        Err(e) => {
            return Err(e);
        },
    };
    list.push(first);
    let mut cur: usize = first_end;
    assert(list.deep_view() =~= seq![first.deep_view()]);
    loop
        invariant
            pos <= cur <= src@.len(),
            mixed_names(src@, pos as int) == prepend(
                list.deep_view(),
                more_mixed_names(src@, cur as int),
            ),
        decreases src@.len() - cur,
    {
        let a = match spaced_char_at(src, cur, '|') {
            Ok((a, _)) => a,
            Err(Fail::Error { .. }) => {
                proof {
                    lemma_prepend_end(list.deep_view(), cur as int);
                }
                return Ok((cur, list));
            },
            Err(e) => {
                return Err(e);
            },
        };
        let (b, item) = match decl_name_at(src, a) {
            Ok(found) => found,
            Err(Fail::Error { .. }) => {
                proof {
                    lemma_prepend_end(list.deep_view(), cur as int);
                }
                return Ok((cur, list));
            },
            Err(e) => {
                return Err(e);
            },
        };
        let ghost before = list;
        list.push(item);
        proof {
            lemma_push_view(before, list, item);
            lemma_prepend(before.deep_view(), item.deep_view(), more_mixed_names(src@, b as int));
        }
        cur = b;
    }
}

/// Reads what opens a mixed content.
fn mixed_start_at(src: &Source, pos: usize) -> (r: Step<()>)
    requires
        pos <= src@.len(),
    ensures
        agrees(r, mixed_start(src@, pos as int), pos as int, src@.len() as int),
{
    let (a, _) = satisfy_at(src, pos, CharClass::Is('('))?;
    let (b, _) = spaced_tag_at(src, a, "#PCDATA")?;
    Ok((b, ()))
}

/// Reads a mixed content.
pub fn mixed_at<'a>(src: &Source<'a>, pos: usize) -> (r: Step<XmlMixed<'a>>)
    requires
        pos <= src@.len(),
    ensures
        agrees(r, mixed(src@, pos as int), pos as int, src@.len() as int),
{
    let (a, _) = mixed_start_at(src, pos)?;
    match spaced_char_at(src, a, '|') {
        Ok((b, _)) => {
            let (c, names) = mixed_names_at(src, b)?;
            let (d, _) = closing_at(src, c, ")*")?;
            Ok((d, XmlMixed(Some(names))))
        },
        Err(Fail::Error { .. }) => {
            let (c, _) = closing_paren_at(src, a)?;
            Ok((c, XmlMixed(None)))
        },
        Err(e) => Err(e),
    }
}

/// Reads how often a content particle may occur.
pub fn repeat_at(src: &Source, pos: usize) -> (r: Step<XmlRepeat>)
    requires
        pos <= src@.len(),
    ensures
        agrees(r, repeat(src@, pos as int), pos as int, src@.len() as int),
{
    match tagged_at(src, pos, "?", XmlRepeat::ZeroOrOne) {
        Err(Fail::Error { .. }) => {},
        r => {
            return r;
        },
    }
    match tagged_at(src, pos, "*", XmlRepeat::ZeroOrMany) {
        Err(Fail::Error { .. }) => {},
        r => {
            return r;
        },
    }
    tagged_at(src, pos, "+", XmlRepeat::OneOrMany)
}

/// Reads a content particle.
pub fn cp_at<'a>(src: &Source<'a>, pos: usize) -> (r: Step<XmlCP<'a>>)
    requires
        pos <= src@.len(),
    ensures
        agrees(r, cp(src@, pos as int), pos as int, src@.len() as int),
    decreases src@.len() - pos, 3int,
{
    match decl_name_at(src, pos) {
        Ok((next, name)) => Ok((next, XmlCP::Name(name))),
        Err(Fail::Error { .. }) => {
            let (next, found) = children_at(src, pos)?;
            Ok((next, XmlCP::Children(found)))
        },
        Err(e) => Err(e),
    }
}

/// Reads how often a group may occur, if the text says.
fn opt_repeat_at(src: &Source, pos: usize) -> (r: Step<Option<XmlRepeat>>)
    requires
        pos <= src@.len(),
    ensures
        agrees(r, repeat(src@, pos as int).opt(pos as int), pos as int, src@.len() as int),
{
    match repeat_at(src, pos) {
        Ok((next, found)) => Ok((next, Some(found))),
        Err(Fail::Error { .. }) => Ok((pos, None)),
        Err(e) => Err(e),
    }
}

/// Reads a choice or a sequence.
pub fn children_at<'a>(src: &Source<'a>, pos: usize) -> (r: Step<XmlChildren<'a>>)
    requires
        pos <= src@.len(),
    ensures
        agrees(r, children(src@, pos as int), pos as int, src@.len() as int),
    decreases src@.len() - pos, 2int,
{
    match group_at(src, pos, '|') {
        Ok((a, cps)) => {
            let (b, repeat) = opt_repeat_at(src, a)?;
            proof {
                lemma_cps_view(cps);
            }
            Ok((b, XmlChildren::Choice { cps, repeat }))
        },
        Err(Fail::Error { .. }) => {
            let (a, cps) = group_at(src, pos, ',')?;
            let (b, repeat) = opt_repeat_at(src, a)?;
            proof {
                lemma_cps_view(cps);
            }
            Ok((b, XmlChildren::Sequence { cps, repeat }))
        },
        Err(e) => Err(e),
    }
}

/// Reads the separator of a group.
fn group_sep_at(src: &Source, pos: usize, sep: char) -> (r: Step<()>)
    requires
        pos <= src@.len(),
    ensures
        agrees(r, group_sep(src@, pos as int, sep), pos as int, src@.len() as int),
        r matches Ok((next, _)) ==> next > pos,
{
    proof {
        reveal_strlit("|");
        reveal_strlit(",");
    }
    if sep == '|' {
        spaced_tag_at(src, pos, "|")
    } else {
        spaced_tag_at(src, pos, ",")
    }
}

/// Reads what opens a group.
fn group_start_at(src: &Source, pos: usize) -> (r: Step<()>)
    requires
        pos <= src@.len(),
    ensures
        agrees(r, group_start(src@, pos as int), pos as int, src@.len() as int),
        r matches Ok((next, _)) ==> next > pos,
{
    let (a, _) = tag_at(src, pos, "(")?;
    proof {
        reveal_strlit("(");
    }
    let b = skip_ws(src, a)?;
    Ok((b, ()))
}

/// Reads the content particles of a group.
fn group_items_at<'a>(src: &Source<'a>, pos: usize, sep: char) -> (r: Step<Vec<XmlCP<'a>>>)
    requires
        pos <= src@.len(),
    ensures
        agrees(r, group_items(src@, pos as int, sep), pos as int, src@.len() as int),
    decreases src@.len() - pos, 4int,
{
    let mut list: Vec<XmlCP<'a>> = Vec::new();
    let (first_end, first) = match cp_at(src, pos) {
        Ok(found) => found,
        Err(Fail::Error { lo, hi, kind }) => {
            if sep != '|' {
                assert(list.deep_view() =~= Seq::empty());
                return Ok((pos, list));
            }
            return Err(Fail::Error { lo, hi, kind });
        },
        Err(e) => {
            return Err(e);
        },
    };
    if first_end <= pos {
        assert(list.deep_view() =~= Seq::empty());
        return Ok((pos, list));
    }
    let ghost first_view = first.deep_view();
    let ghost first_item = first;
    list.push(first);
    let mut cur: usize = first_end;
    assert(list.deep_view() =~= seq![first_view]);
    loop
        invariant
            pos < cur <= src@.len(),
            group_items(src@, pos as int, sep) == prepend(
                list.deep_view(),
                more_cps(src@, cur as int, sep),
            ),
        decreases src@.len() - cur,
    {
        let a = match group_sep_at(src, cur, sep) {
            Ok((a, _)) => a,
            Err(Fail::Error { .. }) => {
                proof {
                    lemma_prepend_end(list.deep_view(), cur as int);
                }
                return Ok((cur, list));
            },
            Err(e) => {
                return Err(e);
            },
        };
        let (b, item) = match cp_at(src, a) {
            Ok(found) => found,
            Err(Fail::Error { .. }) => {
                proof {
                    lemma_prepend_end(list.deep_view(), cur as int);
                }
                return Ok((cur, list));
            },
            Err(e) => {
                return Err(e);
            },
        };
        let ghost before = list;
        let ghost added = item;
        list.push(item);
        proof {
            lemma_push_view(before, list, added);
            lemma_prepend(before.deep_view(), added.deep_view(), more_cps(src@, b as int, sep));
        }
        cur = b;
    }
}

/// Reads a choice, where `sep` is `|`, or a sequence, where it is `,`.
pub fn group_at<'a>(src: &Source<'a>, pos: usize, sep: char) -> (r: Step<Vec<XmlCP<'a>>>)
    requires
        pos <= src@.len(),
    ensures
        agrees(r, group(src@, pos as int, sep), pos as int, src@.len() as int),
    decreases src@.len() - pos, 1int,
{
    let (a, _) = group_start_at(src, pos)?;
    let (b, cps) = group_items_at(src, a, sep)?;
    let (c, _) = closing_at(src, b, ")")?;
    Ok((c, cps))
}

/// Reads the content of an element.
pub fn content_spec_at<'a>(src: &Source<'a>, pos: usize) -> (r: Step<XmlContentSpec<'a>>)
    requires
        pos <= src@.len(),
    ensures
        agrees(r, content_spec(src@, pos as int), pos as int, src@.len() as int),
{
    match tag_at(src, pos, "EMPTY") {
        Ok((next, _)) => {
            return Ok((next, XmlContentSpec::Empty));
        },
        Err(Fail::Error { .. }) => {},
        Err(e) => {
            return Err(e);
        },
    }
    match tag_at(src, pos, "ANY") {
        Ok((next, _)) => {
            return Ok((next, XmlContentSpec::Any));
        },
        Err(Fail::Error { .. }) => {},
        Err(e) => {
            return Err(e);
        },
    }
    match peref_at(src, pos) {
        Ok((next, name)) => {
            return Ok((next, XmlContentSpec::PEReference(name.0)));
        },
        Err(Fail::Error { .. }) => {},
        Err(e) => {
            return Err(e);
        },
    }
    match mixed_at(src, pos) {
        Ok((next, found)) => {
            return Ok((next, XmlContentSpec::Mixed(found)));
        },
        Err(Fail::Error { .. }) => {},
        Err(e) => {
            return Err(e);
        },
    }
    let (next, found) = children_at(src, pos)?;
    Ok((next, XmlContentSpec::Children(found)))
}

/// Reads what opens the declaration of an element.
fn element_start_at<'a>(src: &Source<'a>, pos: usize) -> (r: Step<XmlDeclName<'a>>)
    requires
        pos <= src@.len(),
    ensures
        agrees(r, element_start(src@, pos as int), pos as int, src@.len() as int),
        r matches Ok((next, _)) ==> next > pos,
{
    let (a, _) = tag_at(src, pos, "<!ELEMENT")?;
    let (b, _) = ws_at(src, a)?;
    decl_name_at(src, b)
}

/// Reads the declaration of an element.
pub fn element_decl_at<'a>(src: &Source<'a>, pos: usize) -> (r: Step<XmlElementDecl<'a>>)
    requires
        pos <= src@.len(),
    ensures
        agrees(r, element_decl(src@, pos as int), pos as int, src@.len() as int),
        r matches Ok((next, _)) ==> next > pos,
{
    let (a, name) = element_start_at(src, pos)?;
    let (b, _) = ws_at(src, a)?;
    let (c, content) = content_spec_at(src, b)?;
    let (d, _) = closing_at(src, c, ">")?;
    Ok((d, XmlElementDecl { name, content }))
}

/// Reads the parts of an internal subset that are tried last.
fn markup_decl_rest_at<'a>(src: &Source<'a>, pos: usize) -> (r: Step<XmlMarkupDecl<'a>>)
    requires
        pos <= src@.len(),
    ensures
        agrees(r, markup_decl_rest(src@, pos as int), pos as int, src@.len() as int),
        r matches Ok((next, _)) ==> next > pos,
{
    match entity_decl_at(src, pos) {
        Ok((next, found)) => {
            return Ok((next, XmlMarkupDecl::EntityDecl(found)));
        },
        Err(Fail::Error { .. }) => {},
        Err(e) => {
            return Err(e);
        },
    }
    match notation_decl_at(src, pos) {
        Ok((next, found)) => {
            return Ok((next, XmlMarkupDecl::Notation(found)));
        },
        Err(Fail::Error { .. }) => {},
        Err(e) => {
            return Err(e);
        },
    }
    match pi_at(src, pos) {
        Ok((next, found)) => {
            return Ok((next, XmlMarkupDecl::PI(found)));
        },
        Err(Fail::Error { .. }) => {},
        Err(e) => {
            return Err(e);
        },
    }
    let (next, found) = comment_at(src, pos)?;
    Ok((next, XmlMarkupDecl::Comment(found)))
}

/// Reads one part of an internal subset.
pub fn markup_decl_at<'a>(src: &Source<'a>, pos: usize) -> (r: Step<XmlMarkupDecl<'a>>)
    requires
        pos <= src@.len(),
    ensures
        agrees(r, markup_decl(src@, pos as int), pos as int, src@.len() as int),
        r matches Ok((next, _)) ==> next > pos,
{
    match decl_sep_at(src, pos) {
        Ok((next, XmlDeclSep::PEReference(name))) => {
            return Ok((next, XmlMarkupDecl::PEReference(name)));
        },
        Ok((next, XmlDeclSep::Space(space))) => {
            return Ok((next, XmlMarkupDecl::Space(space)));
        },
        Err(Fail::Error { .. }) => {},
        Err(e) => {
            return Err(e);
        },
    }
    match element_decl_at(src, pos) {
        Ok((next, found)) => {
            return Ok((next, XmlMarkupDecl::ElementDecl(found)));
        },
        Err(Fail::Error { .. }) => {},
        Err(e) => {
            return Err(e);
        },
    }
    match att_list_decl_at(src, pos) {
        Ok((next, found)) => {
            return Ok((next, XmlMarkupDecl::AttListDecl(found)));
        },
        Err(Fail::Error { .. }) => {},
        Err(e) => {
            return Err(e);
        },
    }
    markup_decl_rest_at(src, pos)
}

/// Reads the internal subset.
fn int_subset_at<'a>(src: &Source<'a>, pos: usize) -> (r: Step<Vec<XmlMarkupDecl<'a>>>)
    requires
        pos <= src@.len(),
    ensures
        agrees(r, int_subset(src@, pos as int), pos as int, src@.len() as int),
{
    let (start, _) = tag_at(src, pos, "[")?;
    let mut list: Vec<XmlMarkupDecl<'a>> = Vec::new();
    let mut cur: usize = start;
    assert(list.deep_view() =~= Seq::empty());
    loop
        invariant
            pos <= start <= cur <= src@.len(),
            tag(src@, pos as int, "["@) is Done,
            tag(src@, pos as int, "["@)->next == start,
            markup_decls(src@, start as int) == prepend(
                list.deep_view(),
                markup_decls(src@, cur as int),
            ),
        decreases src@.len() - cur,
    {
        match markup_decl_at(src, cur) {
            Ok((next, item)) => {
                let ghost before = list;
                let ghost added = item;
                list.push(item);
                proof {
                    lemma_push_view(before, list, added);
                    lemma_prepend(
                        before.deep_view(),
                        added.deep_view(),
                        markup_decls(src@, next as int),
                    );
                }
                cur = next;
            },
            Err(Fail::Error { .. }) => {
                proof {
                    lemma_prepend_end(list.deep_view(), cur as int);
                }
                let (end, _) = tag_at(src, cur, "]")?;
                return Ok((end, list));
            },
            Err(e) => {
                return Err(e);
            },
        }
    }
}

/// Reads white space and an external identifier.
fn spaced_external_id_at<'a>(src: &Source<'a>, pos: usize) -> (r: Step<XmlExternalId<'a>>)
    requires
        pos <= src@.len(),
    ensures
        agrees(r, spaced_external_id(src@, pos as int), pos as int, src@.len() as int),
{
    let (a, _) = ws_at(src, pos)?;
    external_id_at(src, a)
}

/// Reads the declaration of a document type.
pub fn doctype_decl_at<'a>(src: &Source<'a>, pos: usize) -> (r: Step<XmlDocTypeDecl<'a>>)
    requires
        pos <= src@.len(),
    ensures
        agrees(r, doctype_decl(src@, pos as int), pos as int, src@.len() as int),
{
    let (a, name) = declared_name_at(src, pos, "<!DOCTYPE")?;
    let (b, external_id) = match spaced_external_id_at(src, a) {
        Ok((b, found)) => (b, Some(found)),
        Err(Fail::Error { .. }) => (a, None),
        Err(e) => {
            return Err(e);
        },
    };
    let c = skip_ws(src, b)?;
    let (d, int_subset) = match int_subset_at(src, c) {
        Ok((d, found)) => (d, Some(found)),
        Err(Fail::Error { .. }) => (c, None),
        Err(e) => {
            return Err(e);
        },
    };
    let (e, _) = closing_at(src, d, ">")?;
    Ok((e, XmlDocTypeDecl { name: name.0, external_id, int_subset }))
}

} // verus!
