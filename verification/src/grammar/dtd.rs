//! The declarations of a document type.

use vstd::prelude::*;
use crate::grammar::markup::{att_value, comment, entity_value, peref, pi};
use crate::grammar::tokens::{
    name, nmtoken, opt_ws, prepend, pubid_lit, satisfy, system_lit, tag, ws, CharClass,
};
use crate::parse::Outcome;
use crate::symbols::{
    XmlAttDefView, XmlAttListDeclView, XmlAttTypeView, XmlAttValuePartView, XmlCPView,
    XmlChildrenView, XmlContentSpecView, XmlDeclNameView, XmlDeclSepView, XmlDefaultDeclView,
    XmlDocTypeDeclView, XmlElementDeclView, XmlEntityDeclView, XmlEntityDefView, XmlEnumTypeView,
    XmlExternalIdView, XmlMarkupDeclView, XmlNotationDeclView, XmlNotationIdView, XmlPEDefView,
    XmlRepeat, XmlTokenizedType,
};

verus! {

/// The fixed text `t`, standing for `value`.
pub open spec fn tagged<T>(s: Seq<char>, pos: int, t: Seq<char>, value: T) -> Outcome<T> {
    match tag(s, pos, t) {
        Outcome::Done { next, .. } => Outcome::Done { next, value },
        other => other.fail(),
    }
}

/// White space and a system identifier.
pub open spec fn system_part(s: Seq<char>, pos: int) -> Outcome<Seq<char>> {
    let a = ws(s, pos);
    if !(a is Done) {
        a.fail()
    } else {
        system_lit(s, a->next)
    }
}

/// White space and a public identifier.
pub open spec fn public_part(s: Seq<char>, pos: int) -> Outcome<Seq<char>> {
    let a = ws(s, pos);
    if !(a is Done) {
        a.fail()
    } else {
        pubid_lit(s, a->next)
    }
}

/// `ExternalID`: `SYSTEM` and a system identifier, or `PUBLIC`, a public
/// and a system identifier.
pub open spec fn external_id(s: Seq<char>, pos: int) -> Outcome<XmlExternalIdView> {
    let a = tag(s, pos, "SYSTEM"@);
    if a is Done {
        let b = system_part(s, a->next);
        if !(b is Done) {
            b.fail()
        } else {
            Outcome::Done { next: b->next, value: XmlExternalIdView::System(b->value) }
        }
    } else if !(a is Error) {
        a.fail()
    } else {
        let b = tag(s, pos, "PUBLIC"@);
        if !(b is Done) {
            b.fail()
        } else {
            let c = public_part(s, b->next);
            if !(c is Done) {
                c.fail()
            } else {
                let d = system_part(s, c->next);
                if !(d is Done) {
                    d.fail()
                } else {
                    Outcome::Done {
                        next: d->next,
                        value: XmlExternalIdView::Public { public_id: c->value, system_id: d->value },
                    }
                }
            }
        }
    }
}

/// `PublicID`: `PUBLIC` and a public identifier.
pub open spec fn public_id(s: Seq<char>, pos: int) -> Outcome<Seq<char>> {
    let a = tag(s, pos, "PUBLIC"@);
    if !(a is Done) {
        a.fail()
    } else {
        public_part(s, a->next)
    }
}

/// `NDataDecl`: white space, `NDATA`, white space and a name.
pub open spec fn ndata_decl(s: Seq<char>, pos: int) -> Outcome<Seq<char>> {
    let a = ws(s, pos);
    if !(a is Done) {
        a.fail()
    } else {
        let b = tag(s, a->next, "NDATA"@);
        if !(b is Done) {
            b.fail()
        } else {
            let c = ws(s, b->next);
            if !(c is Done) {
                c.fail()
            } else {
                name(s, c->next)
            }
        }
    }
}

/// `DeclSep`: white space or a parameter-entity reference.
pub open spec fn decl_sep(s: Seq<char>, pos: int) -> Outcome<XmlDeclSepView> {
    let a = ws(s, pos);
    if a is Done {
        Outcome::Done { next: a->next, value: XmlDeclSepView::Space(a->value) }
    } else if !(a is Error) {
        a.fail()
    } else {
        let b = peref(s, pos);
        if b is Done {
            Outcome::Done { next: b->next, value: XmlDeclSepView::PEReference(b->value) }
        } else {
            b.fail()
        }
    }
}

/// The identifier of a notation: an external identifier, or a public
/// identifier alone.
pub open spec fn notation_id(s: Seq<char>, pos: int) -> Outcome<XmlNotationIdView> {
    let a = external_id(s, pos);
    if a is Done {
        Outcome::Done {
            next: a->next,
            value: match a->value {
                XmlExternalIdView::System(id) => XmlNotationIdView::System(id),
                XmlExternalIdView::Public { public_id, system_id } => XmlNotationIdView::PublicSystem {
                    public_id,
                    system_id,
                },
            },
        }
    } else if !(a is Error) {
        a.fail()
    } else {
        let b = public_id(s, pos);
        if b is Done {
            Outcome::Done { next: b->next, value: XmlNotationIdView::Public(b->value) }
        } else {
            b.fail()
        }
    }
}

/// White space that may be left out, and the fixed text `t`.
pub open spec fn closing(s: Seq<char>, pos: int, t: Seq<char>) -> Outcome<()> {
    let a = opt_ws(s, pos);
    if !(a is Done) {
        a.fail()
    } else {
        tag(s, a->next, t)
    }
}

/// White space that may be left out, and `>`, read as one character.
pub open spec fn closing_bracket(s: Seq<char>, pos: int) -> Outcome<()> {
    let a = opt_ws(s, pos);
    if !(a is Done) {
        a.fail()
    } else {
        let b = satisfy(s, a->next, CharClass::Is('>'));
        if !(b is Done) {
            b.fail()
        } else {
            Outcome::Done { next: b->next, value: () }
        }
    }
}

/// The fixed text `t`, white space and a name.
pub open spec fn declared_name(s: Seq<char>, pos: int, t: Seq<char>) -> Outcome<Seq<char>> {
    let a = tag(s, pos, t);
    if !(a is Done) {
        a.fail()
    } else {
        let b = ws(s, a->next);
        if !(b is Done) {
            b.fail()
        } else {
            name(s, b->next)
        }
    }
}

/// `NotationDecl`: `<!NOTATION`, a name, the identifier and `>`.
pub open spec fn notation_decl(s: Seq<char>, pos: int) -> Outcome<XmlNotationDeclView> {
    let a = declared_name(s, pos, "<!NOTATION"@);
    if !(a is Done) {
        a.fail()
    } else {
        let b = ws(s, a->next);
        if !(b is Done) {
            b.fail()
        } else {
            let c = notation_id(s, b->next);
            if !(c is Done) {
                c.fail()
            } else {
                let d = closing_bracket(s, c->next);
                if !(d is Done) {
                    d.fail()
                } else {
                    Outcome::Done {
                        next: d->next,
                        value: XmlNotationDeclView { name: a->value, id: c->value },
                    }
                }
            }
        }
    }
}

/// `EntityDef`: the value of a general entity, or where it is to be found
/// and, for an unparsed one, the name of its notation.
pub open spec fn entity_def(s: Seq<char>, pos: int) -> Outcome<XmlEntityDefView> {
    let a = entity_value(s, pos);
    if a is Done {
        Outcome::Done { next: a->next, value: XmlEntityDefView::Value(a->value) }
    } else if !(a is Error) {
        a.fail()
    } else {
        let b = external_id(s, pos);
        if !(b is Done) {
            b.fail()
        } else {
            let c = ndata_decl(s, b->next).opt(b->next);
            if !(c is Done) {
                c.fail()
            } else {
                Outcome::Done {
                    next: c->next,
                    value: XmlEntityDefView::External { id: b->value, ndata_decl: c->value },
                }
            }
        }
    }
}

/// `PEDef`: the value of a parameter entity, or where it is to be found.
pub open spec fn pe_def(s: Seq<char>, pos: int) -> Outcome<XmlPEDefView> {
    let a = entity_value(s, pos);
    if a is Done {
        Outcome::Done { next: a->next, value: XmlPEDefView::Value(a->value) }
    } else if !(a is Error) {
        a.fail()
    } else {
        let b = external_id(s, pos);
        if b is Done {
            Outcome::Done { next: b->next, value: XmlPEDefView::External(b->value) }
        } else {
            b.fail()
        }
    }
}

/// What opens the declaration of an entity: `<!ENTITY`, white space and,
/// for a parameter entity, `%` and white space. The value says whether it
/// is a parameter entity.
pub open spec fn entity_start(s: Seq<char>, pos: int) -> Outcome<bool> {
    let a = tag(s, pos, "<!ENTITY"@);
    if !(a is Done) {
        a.fail()
    } else {
        let b = ws(s, a->next);
        if !(b is Done) {
            b.fail()
        } else {
            let c = satisfy(s, b->next, CharClass::Is('%'));
            if c is Error {
                Outcome::Done { next: b->next, value: false }
            } else if !(c is Done) {
                c.fail()
            } else {
                let d = ws(s, c->next);
                if !(d is Done) {
                    d.fail()
                } else {
                    Outcome::Done { next: d->next, value: true }
                }
            }
        }
    }
}

/// `EntityDecl`: the declaration of a general or of a parameter entity.
pub open spec fn entity_decl(s: Seq<char>, pos: int) -> Outcome<XmlEntityDeclView> {
    let a = entity_start(s, pos);
    if !(a is Done) {
        a.fail()
    } else {
        let b = name(s, a->next);
        if !(b is Done) {
            b.fail()
        } else {
            let c = ws(s, b->next);
            if !(c is Done) {
                c.fail()
            } else if a->value {
                let d = pe_def(s, c->next);
                if !(d is Done) {
                    d.fail()
                } else {
                    let e = closing_bracket(s, d->next);
                    if !(e is Done) {
                        e.fail()
                    } else {
                        Outcome::Done {
                            next: e->next,
                            value: XmlEntityDeclView::PEDecl { name: b->value, def: d->value },
                        }
                    }
                }
            } else {
                let d = entity_def(s, c->next);
                if !(d is Done) {
                    d.fail()
                } else {
                    let e = closing_bracket(s, d->next);
                    if !(e is Done) {
                        e.fail()
                    } else {
                        Outcome::Done {
                            next: e->next,
                            value: XmlEntityDeclView::GEDecl { name: b->value, def: d->value },
                        }
                    }
                }
            }
        }
    }
}

/// One item of an enumeration: a name, or a name token if `tokens`, with
/// white space around it or without.
pub open spec fn enum_item(s: Seq<char>, pos: int, tokens: bool) -> Outcome<Seq<char>> {
    let a = opt_ws(s, pos);
    if !(a is Done) {
        a.fail()
    } else {
        let b = if tokens {
            nmtoken(s, a->next)
        } else {
            name(s, a->next)
        };
        if !(b is Done) {
            b.fail()
        } else {
            let c = opt_ws(s, b->next);
            if !(c is Done) {
                c.fail()
            } else {
                Outcome::Done { next: c->next, value: b->value }
            }
        }
    }
}

/// What follows an item of an enumeration: `|` and an item, any number of
/// times.
pub open spec fn more_enum_items(s: Seq<char>, pos: int, tokens: bool) -> Outcome<Seq<Seq<char>>>
    decreases s.len() - pos,
{
    let a = tag(s, pos, "|"@);
    if a is Error {
        Outcome::Done { next: pos, value: Seq::empty() }
    } else if !(a is Done) {
        a.fail()
    } else {
        let b = enum_item(s, a->next, tokens);
        if b is Error {
            Outcome::Done { next: pos, value: Seq::empty() }
        } else if !(b is Done) {
            b.fail()
        } else if b->next <= pos || b->next > s.len() {
            Outcome::Done { next: pos, value: Seq::empty() }
        } else {
            prepend(seq![b->value], more_enum_items(s, b->next, tokens))
        }
    }
}

/// The items of an enumeration in parentheses, with `|` between each two.
pub open spec fn enum_items(s: Seq<char>, pos: int, tokens: bool) -> Outcome<Seq<Seq<char>>> {
    let a = tag(s, pos, "("@);
    if !(a is Done) {
        a.fail()
    } else {
        let b = enum_item(s, a->next, tokens);
        if !(b is Done) {
            b.fail()
        } else {
            let c = prepend(seq![b->value], more_enum_items(s, b->next, tokens));
            if !(c is Done) {
                c.fail()
            } else {
                let d = tag(s, c->next, ")"@);
                if !(d is Done) {
                    d.fail()
                } else {
                    Outcome::Done { next: d->next, value: c->value }
                }
            }
        }
    }
}

/// `NOTATION`, white space and names in parentheses.
pub open spec fn notation_type(s: Seq<char>, pos: int) -> Outcome<Seq<Seq<char>>> {
    let a = tag(s, pos, "NOTATION"@);
    if !(a is Done) {
        a.fail()
    } else {
        let b = ws(s, a->next);
        if !(b is Done) {
            b.fail()
        } else {
            enum_items(s, b->next, false)
        }
    }
}

/// `EnumeratedType`: the names of notations, or name tokens.
pub open spec fn enum_type(s: Seq<char>, pos: int) -> Outcome<XmlEnumTypeView> {
    let a = notation_type(s, pos);
    if a is Done {
        Outcome::Done { next: a->next, value: XmlEnumTypeView::Notation(a->value) }
    } else if !(a is Error) {
        a.fail()
    } else {
        let b = enum_items(s, pos, true);
        if b is Done {
            Outcome::Done { next: b->next, value: XmlEnumTypeView::NmToken(b->value) }
        } else {
            b.fail()
        }
    }
}

/// `TokenizedType`: one of seven words, the longer of two tried first
/// where one begins the other.
pub open spec fn tokenized_type(s: Seq<char>, pos: int) -> Outcome<XmlTokenizedType> {
    tagged(s, pos, "IDREFS"@, XmlTokenizedType::IdRefs).or(
        tagged(s, pos, "IDREF"@, XmlTokenizedType::IdRef),
    ).or(tagged(s, pos, "ID"@, XmlTokenizedType::Id)).or(
        tagged(s, pos, "ENTITY"@, XmlTokenizedType::Entity),
    ).or(tagged(s, pos, "ENTITIES"@, XmlTokenizedType::Entities)).or(
        tagged(s, pos, "NMTOKENS"@, XmlTokenizedType::NmTokens),
    ).or(tagged(s, pos, "NMTOKEN"@, XmlTokenizedType::NmToken))
}

/// `AttType`: `CDATA`, an enumeration or a tokenized type.
pub open spec fn att_type(s: Seq<char>, pos: int) -> Outcome<XmlAttTypeView> {
    let a = tag(s, pos, "CDATA"@);
    if a is Done {
        Outcome::Done { next: a->next, value: XmlAttTypeView::String }
    } else if !(a is Error) {
        a.fail()
    } else {
        let b = enum_type(s, pos);
        if b is Done {
            Outcome::Done {
                next: b->next,
                value: match b->value {
                    XmlEnumTypeView::Notation(v) => XmlAttTypeView::Notation(v),
                    XmlEnumTypeView::NmToken(v) => XmlAttTypeView::NmToken(v),
                },
            }
        } else if !(b is Error) {
            b.fail()
        } else {
            let c = tokenized_type(s, pos);
            if c is Done {
                Outcome::Done { next: c->next, value: XmlAttTypeView::Tokenized(c->value) }
            } else {
                c.fail()
            }
        }
    }
}

/// `#FIXED` and white space.
pub open spec fn fixed_mark(s: Seq<char>, pos: int) -> Outcome<()> {
    let a = tag(s, pos, "#FIXED"@);
    if !(a is Done) {
        a.fail()
    } else {
        let b = ws(s, a->next);
        if !(b is Done) {
            b.fail()
        } else {
            Outcome::Done { next: b->next, value: () }
        }
    }
}

/// A value that may be marked `#FIXED`.
pub open spec fn fixed_value(s: Seq<char>, pos: int) -> Outcome<Seq<XmlAttValuePartView>> {
    let a = fixed_mark(s, pos).opt(pos);
    if !(a is Done) {
        a.fail()
    } else {
        att_value(s, a->next)
    }
}

/// `DefaultDecl`: `#REQUIRED`, `#IMPLIED`, or a value that may be marked
/// `#FIXED`.
pub open spec fn default_decl(s: Seq<char>, pos: int) -> Outcome<XmlDefaultDeclView> {
    let a = tag(s, pos, "#REQUIRED"@);
    if a is Done {
        Outcome::Done { next: a->next, value: XmlDefaultDeclView::Required }
    } else if !(a is Error) {
        a.fail()
    } else {
        let b = tag(s, pos, "#IMPLIED"@);
        if b is Done {
            Outcome::Done { next: b->next, value: XmlDefaultDeclView::Implied }
        } else if !(b is Error) {
            b.fail()
        } else {
            let c = fixed_value(s, pos);
            if c is Done {
                Outcome::Done { next: c->next, value: XmlDefaultDeclView::Fixed(c->value) }
            } else {
                c.fail()
            }
        }
    }
}

/// White space and a name.
pub open spec fn spaced_name(s: Seq<char>, pos: int) -> Outcome<Seq<char>> {
    let a = ws(s, pos);
    if !(a is Done) {
        a.fail()
    } else {
        name(s, a->next)
    }
}

/// `AttDef`: a name, the type and the default of one attribute, with white
/// space before each.
pub open spec fn att_def(s: Seq<char>, pos: int) -> Outcome<XmlAttDefView> {
    let a = spaced_name(s, pos);
    if !(a is Done) {
        a.fail()
    } else {
        let b = ws(s, a->next);
        if !(b is Done) {
            b.fail()
        } else {
            let c = att_type(s, b->next);
            if !(c is Done) {
                c.fail()
            } else {
                let d = ws(s, c->next);
                if !(d is Done) {
                    d.fail()
                } else {
                    let e = default_decl(s, d->next);
                    if !(e is Done) {
                        e.fail()
                    } else {
                        Outcome::Done {
                            next: e->next,
                            value: XmlAttDefView {
                                name: a->value,
                                att_type: c->value,
                                default_decl: e->value,
                            },
                        }
                    }
                }
            }
        }
    }
}

/// The definitions of attributes, as many as follow one another.
pub open spec fn att_defs(s: Seq<char>, pos: int) -> Outcome<Seq<XmlAttDefView>>
    decreases s.len() - pos,
{
    let a = att_def(s, pos);
    if a is Error {
        Outcome::Done { next: pos, value: Seq::empty() }
    } else if !(a is Done) {
        a.fail()
    } else if a->next <= pos || a->next > s.len() {
        Outcome::Done { next: pos, value: Seq::empty() }
    } else {
        prepend(seq![a->value], att_defs(s, a->next))
    }
}

/// `AttlistDecl`: `<!ATTLIST`, the name of the element, the definitions of
/// its attributes and `>`.
pub open spec fn att_list_decl(s: Seq<char>, pos: int) -> Outcome<XmlAttListDeclView> {
    let a = declared_name(s, pos, "<!ATTLIST"@);
    if !(a is Done) {
        a.fail()
    } else {
        let b = att_defs(s, a->next);
        if !(b is Done) {
            b.fail()
        } else {
            let c = closing(s, b->next, ">"@);
            if !(c is Done) {
                c.fail()
            } else {
                Outcome::Done {
                    next: c->next,
                    value: XmlAttListDeclView { name: a->value, att_defs: b->value },
                }
            }
        }
    }
}

/// A name in a declaration, or the parameter-entity reference that stands
/// for it.
pub open spec fn decl_name(s: Seq<char>, pos: int) -> Outcome<XmlDeclNameView> {
    let a = peref(s, pos);
    if a is Done {
        Outcome::Done { next: a->next, value: XmlDeclNameView::PEReference(a->value) }
    } else if !(a is Error) {
        a.fail()
    } else {
        let b = name(s, pos);
        if b is Done {
            Outcome::Done { next: b->next, value: XmlDeclNameView::Name(b->value) }
        } else {
            b.fail()
        }
    }
}

/// The character `c`, read as one character, with white space around it
/// or without.
pub open spec fn spaced_char(s: Seq<char>, pos: int, c: char) -> Outcome<()> {
    let a = opt_ws(s, pos);
    if !(a is Done) {
        a.fail()
    } else {
        let b = satisfy(s, a->next, CharClass::Is(c));
        if !(b is Done) {
            b.fail()
        } else {
            let d = opt_ws(s, b->next);
            if !(d is Done) {
                d.fail()
            } else {
                Outcome::Done { next: d->next, value: () }
            }
        }
    }
}

/// The fixed text `t`, with white space around it or without.
pub open spec fn spaced_tag(s: Seq<char>, pos: int, t: Seq<char>) -> Outcome<()> {
    let a = opt_ws(s, pos);
    if !(a is Done) {
        a.fail()
    } else {
        let b = tag(s, a->next, t);
        if !(b is Done) {
            b.fail()
        } else {
            let d = opt_ws(s, b->next);
            if !(d is Done) {
                d.fail()
            } else {
                Outcome::Done { next: d->next, value: () }
            }
        }
    }
}

/// What follows a name of a mixed content: `|` and a name, any number of
/// times.
pub open spec fn more_mixed_names(s: Seq<char>, pos: int) -> Outcome<Seq<XmlDeclNameView>>
    decreases s.len() - pos,
{
    let a = spaced_char(s, pos, '|');
    if a is Error {
        Outcome::Done { next: pos, value: Seq::empty() }
    } else if !(a is Done) {
        a.fail()
    } else {
        let b = decl_name(s, a->next);
        if b is Error {
            Outcome::Done { next: pos, value: Seq::empty() }
        } else if !(b is Done) {
            b.fail()
        } else if b->next <= pos || b->next > s.len() {
            Outcome::Done { next: pos, value: Seq::empty() }
        } else {
            prepend(seq![b->value], more_mixed_names(s, b->next))
        }
    }
}

/// The names of a mixed content, with `|` between each two; there may be
/// none.
pub open spec fn mixed_names(s: Seq<char>, pos: int) -> Outcome<Seq<XmlDeclNameView>> {
    let a = decl_name(s, pos);
    if a is Error {
        Outcome::Done { next: pos, value: Seq::empty() }
    } else if !(a is Done) {
        a.fail()
    } else {
        prepend(seq![a->value], more_mixed_names(s, a->next))
    }
}

/// What opens a mixed content: `(`, `#PCDATA` and the white space around
/// them.
pub open spec fn mixed_start(s: Seq<char>, pos: int) -> Outcome<()> {
    let a = satisfy(s, pos, CharClass::Is('('));
    if !(a is Done) {
        a.fail()
    } else {
        let b = spaced_tag(s, a->next, "#PCDATA"@);
        if !(b is Done) {
            b.fail()
        } else {
            Outcome::Done { next: b->next, value: () }
        }
    }
}

/// `Mixed`: `(#PCDATA)`, or `(#PCDATA|` names `)*`.
pub open spec fn mixed(s: Seq<char>, pos: int) -> Outcome<Option<Seq<XmlDeclNameView>>> {
    let a = mixed_start(s, pos);
    if !(a is Done) {
        a.fail()
    } else {
        let b = spaced_char(s, a->next, '|');
        if b is Error {
            let c = closing_paren(s, a->next);
            if !(c is Done) {
                c.fail()
            } else {
                Outcome::Done { next: c->next, value: None }
            }
        } else if !(b is Done) {
            b.fail()
        } else {
            let c = mixed_names(s, b->next);
            if !(c is Done) {
                c.fail()
            } else {
                let d = closing(s, c->next, ")*"@);
                if !(d is Done) {
                    d.fail()
                } else {
                    Outcome::Done { next: d->next, value: Some(c->value) }
                }
            }
        }
    }
}

/// White space that may be left out, and `)`, read as one character.
pub open spec fn closing_paren(s: Seq<char>, pos: int) -> Outcome<()> {
    let a = opt_ws(s, pos);
    if !(a is Done) {
        a.fail()
    } else {
        let b = satisfy(s, a->next, CharClass::Is(')'));
        if !(b is Done) {
            b.fail()
        } else {
            Outcome::Done { next: b->next, value: () }
        }
    }
}

/// How often a content particle may occur: `?`, `*` or `+`.
pub open spec fn repeat(s: Seq<char>, pos: int) -> Outcome<XmlRepeat> {
    tagged(s, pos, "?"@, XmlRepeat::ZeroOrOne).or(tagged(s, pos, "*"@, XmlRepeat::ZeroOrMany)).or(
        tagged(s, pos, "+"@, XmlRepeat::OneOrMany),
    )
}

/// `cp`: a name, or a choice or sequence in parentheses.
pub open spec fn cp(s: Seq<char>, pos: int) -> Outcome<XmlCPView>
    decreases s.len() - pos, 3int,
{
    let a = decl_name(s, pos);
    if a is Done {
        Outcome::Done { next: a->next, value: XmlCPView::Name(a->value) }
    } else if !(a is Error) {
        a.fail()
    } else {
        let b = children(s, pos);
        if b is Done {
            Outcome::Done { next: b->next, value: XmlCPView::Children(b->value) }
        } else {
            b.fail()
        }
    }
}

/// `children`: a choice or a sequence, and how often it may occur. What
/// is no choice is read again as a sequence.
pub open spec fn children(s: Seq<char>, pos: int) -> Outcome<XmlChildrenView>
    decreases s.len() - pos, 2int,
{
    let a = group(s, pos, '|');
    if a is Done {
        let b = repeat(s, a->next).opt(a->next);
        if !(b is Done) {
            b.fail()
        } else {
            Outcome::Done {
                next: b->next,
                value: XmlChildrenView::Choice { cps: a->value, repeat: b->value },
            }
        }
    } else if !(a is Error) {
        a.fail()
    } else {
        let c = group(s, pos, ',');
        if !(c is Done) {
            c.fail()
        } else {
            let b = repeat(s, c->next).opt(c->next);
            if !(b is Done) {
                b.fail()
            } else {
                Outcome::Done {
                    next: b->next,
                    value: XmlChildrenView::Sequence { cps: c->value, repeat: b->value },
                }
            }
        }
    }
}

/// The separator of a group: `sep`, with white space around it or
/// without.
pub open spec fn group_sep(s: Seq<char>, pos: int, sep: char) -> Outcome<()> {
    spaced_tag(
        s,
        pos,
        if sep == '|' {
            "|"@
        } else {
            ","@
        },
    )
}

/// What follows a content particle in a group: the separator and a
/// particle, any number of times.
pub open spec fn more_cps(s: Seq<char>, pos: int, sep: char) -> Outcome<Seq<XmlCPView>>
    decreases s.len() - pos, 0int,
{
    let a = group_sep(s, pos, sep);
    if a is Error {
        Outcome::Done { next: pos, value: Seq::empty() }
    } else if !(a is Done) {
        a.fail()
    } else if a->next <= pos || a->next > s.len() {
        Outcome::Done { next: pos, value: Seq::empty() }
    } else {
        let b = cp(s, a->next);
        if b is Error {
            Outcome::Done { next: pos, value: Seq::empty() }
        } else if !(b is Done) {
            b.fail()
        } else if b->next <= pos || b->next > s.len() {
            Outcome::Done { next: pos, value: Seq::empty() }
        } else {
            prepend(seq![b->value], more_cps(s, b->next, sep))
        }
    }
}

/// What opens a group: `(` and white space that may be left out.
pub open spec fn group_start(s: Seq<char>, pos: int) -> Outcome<()> {
    let a = tag(s, pos, "("@);
    if !(a is Done) {
        a.fail()
    } else {
        let b = opt_ws(s, a->next);
        if !(b is Done) {
            b.fail()
        } else {
            Outcome::Done { next: b->next, value: () }
        }
    }
}

/// The content particles of a group with the separator `sep`: a choice has
/// at least one, a sequence may have none.
pub open spec fn group_items(s: Seq<char>, pos: int, sep: char) -> Outcome<Seq<XmlCPView>>
    decreases s.len() - pos, 4int,
{
    let a = cp(s, pos);
    if a is Error && sep != '|' {
        Outcome::Done { next: pos, value: Seq::empty() }
    } else if !(a is Done) {
        a.fail()
    } else if a->next <= pos || a->next > s.len() {
        Outcome::Done { next: pos, value: Seq::empty() }
    } else {
        prepend(seq![a->value], more_cps(s, a->next, sep))
    }
}

/// `choice` where `sep` is `|`, `seq` where it is `,`: content particles
/// in parentheses, with the separator between each two.
pub open spec fn group(s: Seq<char>, pos: int, sep: char) -> Outcome<Seq<XmlCPView>>
    decreases s.len() - pos, 1int,
{
    let a = group_start(s, pos);
    if !(a is Done) {
        a.fail()
    } else if a->next <= pos || a->next > s.len() {
        Outcome::Incomplete
    } else {
        let b = group_items(s, a->next, sep);
        if !(b is Done) {
            b.fail()
        } else {
            let c = closing(s, b->next, ")"@);
            if !(c is Done) {
                c.fail()
            } else {
                Outcome::Done { next: c->next, value: b->value }
            }
        }
    }
}

/// `contentspec`: `EMPTY`, `ANY`, a parameter-entity reference, a mixed
/// content or children.
pub open spec fn content_spec(s: Seq<char>, pos: int) -> Outcome<XmlContentSpecView> {
    let a = tag(s, pos, "EMPTY"@);
    if a is Done {
        Outcome::Done { next: a->next, value: XmlContentSpecView::Empty }
    } else if !(a is Error) {
        a.fail()
    } else {
        let b = tag(s, pos, "ANY"@);
        if b is Done {
            Outcome::Done { next: b->next, value: XmlContentSpecView::Any }
        } else if !(b is Error) {
            b.fail()
        } else {
            let c = peref(s, pos);
            if c is Done {
                Outcome::Done { next: c->next, value: XmlContentSpecView::PEReference(c->value) }
            } else if !(c is Error) {
                c.fail()
            } else {
                let d = mixed(s, pos);
                if d is Done {
                    Outcome::Done { next: d->next, value: XmlContentSpecView::Mixed(d->value) }
                } else if !(d is Error) {
                    d.fail()
                } else {
                    let e = children(s, pos);
                    if e is Done {
                        Outcome::Done { next: e->next, value: XmlContentSpecView::Children(e->value) }
                    } else {
                        e.fail()
                    }
                }
            }
        }
    }
}

/// What opens the declaration of an element: `<!ELEMENT`, white space and
/// the name.
pub open spec fn element_start(s: Seq<char>, pos: int) -> Outcome<XmlDeclNameView> {
    let a = tag(s, pos, "<!ELEMENT"@);
    if !(a is Done) {
        a.fail()
    } else {
        let b = ws(s, a->next);
        if !(b is Done) {
            b.fail()
        } else {
            decl_name(s, b->next)
        }
    }
}

/// `elementdecl`: `<!ELEMENT`, the name, the content and `>`.
pub open spec fn element_decl(s: Seq<char>, pos: int) -> Outcome<XmlElementDeclView> {
    let a = element_start(s, pos);
    if !(a is Done) {
        a.fail()
    } else {
        let b = ws(s, a->next);
        if !(b is Done) {
            b.fail()
        } else {
            let c = content_spec(s, b->next);
            if !(c is Done) {
                c.fail()
            } else {
                let d = closing(s, c->next, ">"@);
                if !(d is Done) {
                    d.fail()
                } else {
                    Outcome::Done {
                        next: d->next,
                        value: XmlElementDeclView { name: a->value, content: c->value },
                    }
                }
            }
        }
    }
}

/// One part of an internal subset: a separator, a declaration, a
/// processing instruction or a comment.
pub open spec fn markup_decl(s: Seq<char>, pos: int) -> Outcome<XmlMarkupDeclView> {
    let a = decl_sep(s, pos);
    if a is Done {
        Outcome::Done {
            next: a->next,
            value: match a->value {
                XmlDeclSepView::PEReference(n) => XmlMarkupDeclView::PEReference(n),
                XmlDeclSepView::Space(t) => XmlMarkupDeclView::Space(t),
            },
        }
    } else if !(a is Error) {
        a.fail()
    } else {
        let b = element_decl(s, pos);
        if b is Done {
            Outcome::Done { next: b->next, value: XmlMarkupDeclView::ElementDecl(b->value) }
        } else if !(b is Error) {
            b.fail()
        } else {
            let c = att_list_decl(s, pos);
            if c is Done {
                Outcome::Done { next: c->next, value: XmlMarkupDeclView::AttListDecl(c->value) }
            } else if !(c is Error) {
                c.fail()
            } else {
                markup_decl_rest(s, pos)
            }
        }
    }
}

/// The parts of an internal subset that are tried last: the declaration
/// of an entity or of a notation, a processing instruction or a comment.
pub open spec fn markup_decl_rest(s: Seq<char>, pos: int) -> Outcome<XmlMarkupDeclView> {
    let d = entity_decl(s, pos);
    if d is Done {
        Outcome::Done { next: d->next, value: XmlMarkupDeclView::EntityDecl(d->value) }
    } else if !(d is Error) {
        d.fail()
    } else {
        let e = notation_decl(s, pos);
        if e is Done {
            Outcome::Done { next: e->next, value: XmlMarkupDeclView::Notation(e->value) }
        } else if !(e is Error) {
            e.fail()
        } else {
            let f = pi(s, pos);
            if f is Done {
                Outcome::Done { next: f->next, value: XmlMarkupDeclView::PI(f->value) }
            } else if !(f is Error) {
                f.fail()
            } else {
                let g = comment(s, pos);
                if g is Done {
                    Outcome::Done { next: g->next, value: XmlMarkupDeclView::Comment(g->value) }
                } else {
                    g.fail()
                }
            }
        }
    }
}

/// The parts of an internal subset, as many as follow one another.
pub open spec fn markup_decls(s: Seq<char>, pos: int) -> Outcome<Seq<XmlMarkupDeclView>>
    decreases s.len() - pos,
{
    let a = markup_decl(s, pos);
    if a is Error {
        Outcome::Done { next: pos, value: Seq::empty() }
    } else if !(a is Done) {
        a.fail()
    } else if a->next <= pos || a->next > s.len() {
        Outcome::Done { next: pos, value: Seq::empty() }
    } else {
        prepend(seq![a->value], markup_decls(s, a->next))
    }
}

/// The internal subset: its parts between `[` and `]`.
pub open spec fn int_subset(s: Seq<char>, pos: int) -> Outcome<Seq<XmlMarkupDeclView>> {
    let a = tag(s, pos, "["@);
    if !(a is Done) {
        a.fail()
    } else {
        let b = markup_decls(s, a->next);
        if !(b is Done) {
            b.fail()
        } else {
            let c = tag(s, b->next, "]"@);
            if !(c is Done) {
                c.fail()
            } else {
                Outcome::Done { next: c->next, value: b->value }
            }
        }
    }
}

/// White space and an external identifier.
pub open spec fn spaced_external_id(s: Seq<char>, pos: int) -> Outcome<XmlExternalIdView> {
    let a = ws(s, pos);
    if !(a is Done) {
        a.fail()
    } else {
        external_id(s, a->next)
    }
}

/// `doctypedecl`: `<!DOCTYPE`, the name, and `>`; between them, each of
/// which may be left out, an external identifier and the internal subset.
pub open spec fn doctype_decl(s: Seq<char>, pos: int) -> Outcome<XmlDocTypeDeclView> {
    let a = declared_name(s, pos, "<!DOCTYPE"@);
    if !(a is Done) {
        a.fail()
    } else {
        let b = spaced_external_id(s, a->next).opt(a->next);
        if !(b is Done) {
            b.fail()
        } else {
            let c = opt_ws(s, b->next);
            if !(c is Done) {
                c.fail()
            } else {
                let d = int_subset(s, c->next).opt(c->next);
                if !(d is Done) {
                    d.fail()
                } else {
                    let e = closing(s, d->next, ">"@);
                    if !(e is Done) {
                        e.fail()
                    } else {
                        Outcome::Done {
                            next: e->next,
                            value: XmlDocTypeDeclView {
                                name: a->value,
                                external_id: b->value,
                                int_subset: d->value,
                            },
                        }
                    }
                }
            }
        }
    }
}

} // verus!
