//! The tokens of the XML grammar. Every text in a token borrows from the
//! text that was read. Each token has a view that holds the same as plain
//! text; the grammar is stated over the views.

use vstd::prelude::*;

verus! {

/// `S`: a run of white space.
#[derive(Debug, Clone, Copy, PartialEq, Eq, PartialOrd, Ord)]
pub struct XmlWhiteSpace<'a>(pub &'a str);

impl<'a> DeepView for XmlWhiteSpace<'a> {
    type V = Seq<char>;

    open spec fn deep_view(&self) -> Seq<char> {
        self.0@
    }
}

/// `Name`.
#[derive(Debug, Clone, Copy, PartialEq, Eq, PartialOrd, Ord)]
pub struct XmlName<'a>(pub &'a str);

impl<'a> DeepView for XmlName<'a> {
    type V = Seq<char>;

    open spec fn deep_view(&self) -> Seq<char> {
        self.0@
    }
}

/// `Nmtoken`: a run of name characters.
#[derive(Debug, Clone, Copy, PartialEq, Eq, PartialOrd, Ord)]
pub struct XmlNmToken<'a>(pub &'a str);

impl<'a> DeepView for XmlNmToken<'a> {
    type V = Seq<char>;

    open spec fn deep_view(&self) -> Seq<char> {
        self.0@
    }
}

/// `PubidLiteral`: what stands between the quotes of a public identifier.
#[derive(Debug, Clone, Copy, PartialEq, Eq, PartialOrd, Ord)]
pub struct XmlPubidLiteral<'a>(pub &'a str);

impl<'a> DeepView for XmlPubidLiteral<'a> {
    type V = Seq<char>;

    open spec fn deep_view(&self) -> Seq<char> {
        self.0@
    }
}

/// `SystemLiteral`: what stands between the quotes of a system identifier.
#[derive(Debug, Clone, Copy, PartialEq, Eq, PartialOrd, Ord)]
pub struct XmlSystemLiteral<'a>(pub &'a str);

impl<'a> DeepView for XmlSystemLiteral<'a> {
    type V = Seq<char>;

    open spec fn deep_view(&self) -> Seq<char> {
        self.0@
    }
}

/// `Reference`: a character reference, with the character it stands for, or the name of an entity.
#[derive(Debug, Clone, Copy, PartialEq, Eq, PartialOrd, Ord)]
pub enum XmlReference<'a> {
    Char(char),
    Entity(&'a str),
}

/// What an `XmlReference` holds, as plain text.
pub enum XmlReferenceView {
    Char(char),
    Entity(Seq<char>),
}

impl<'a> DeepView for XmlReference<'a> {
    type V = XmlReferenceView;

    open spec fn deep_view(&self) -> XmlReferenceView {
        match *self {
            XmlReference::Char(x) => XmlReferenceView::Char(x),
            XmlReference::Entity(x) => XmlReferenceView::Entity(x@),
        }
    }
}

/// `PEReference`: the name of a parameter entity.
#[derive(Debug, Clone, Copy, PartialEq, Eq, PartialOrd, Ord)]
pub struct XmlPEReference<'a>(pub &'a str);

impl<'a> DeepView for XmlPEReference<'a> {
    type V = Seq<char>;

    open spec fn deep_view(&self) -> Seq<char> {
        self.0@
    }
}

/// One part of an `EntityValue`.
#[derive(Debug, Clone, Copy, PartialEq, Eq, PartialOrd, Ord)]
pub enum XmlEntityValuePart<'a> {
    CharRef(char),
    EntityRef(&'a str),
    PEReference(&'a str),
    Literal(&'a str),
}

/// What an `XmlEntityValuePart` holds, as plain text.
pub enum XmlEntityValuePartView {
    CharRef(char),
    EntityRef(Seq<char>),
    PEReference(Seq<char>),
    Literal(Seq<char>),
}

impl<'a> DeepView for XmlEntityValuePart<'a> {
    type V = XmlEntityValuePartView;

    open spec fn deep_view(&self) -> XmlEntityValuePartView {
        match *self {
            XmlEntityValuePart::CharRef(x) => XmlEntityValuePartView::CharRef(x),
            XmlEntityValuePart::EntityRef(x) => XmlEntityValuePartView::EntityRef(x@),
            XmlEntityValuePart::PEReference(x) => XmlEntityValuePartView::PEReference(x@),
            XmlEntityValuePart::Literal(x) => XmlEntityValuePartView::Literal(x@),
        }
    }
}

/// One part of an `AttValue`.
#[derive(Debug, Clone, Copy, PartialEq, Eq, PartialOrd, Ord)]
pub enum XmlAttValuePart<'a> {
    CharRef(char),
    EntityRef(&'a str),
    Literal(&'a str),
}

/// What an `XmlAttValuePart` holds, as plain text.
pub enum XmlAttValuePartView {
    CharRef(char),
    EntityRef(Seq<char>),
    Literal(Seq<char>),
}

impl<'a> DeepView for XmlAttValuePart<'a> {
    type V = XmlAttValuePartView;

    open spec fn deep_view(&self) -> XmlAttValuePartView {
        match *self {
            XmlAttValuePart::CharRef(x) => XmlAttValuePartView::CharRef(x),
            XmlAttValuePart::EntityRef(x) => XmlAttValuePartView::EntityRef(x@),
            XmlAttValuePart::Literal(x) => XmlAttValuePartView::Literal(x@),
        }
    }
}

/// `Comment`: what stands between `<!--` and `-->`.
#[derive(Debug, Clone, Copy, PartialEq, Eq, PartialOrd, Ord)]
pub struct XmlComment<'a>(pub &'a str);

impl<'a> DeepView for XmlComment<'a> {
    type V = Seq<char>;

    open spec fn deep_view(&self) -> Seq<char> {
        self.0@
    }
}

/// `PI`: a processing instruction.
#[derive(Debug, Clone, Copy, PartialEq, Eq, PartialOrd, Ord)]
pub struct XmlPI<'a> {
    pub target: &'a str,
    pub data: Option<&'a str>,
}

/// What an `XmlPI` holds, as plain text.
pub struct XmlPIView {
    pub target: Seq<char>,
    pub data: Option<Seq<char>>,
}

impl<'a> DeepView for XmlPI<'a> {
    type V = XmlPIView;

    open spec fn deep_view(&self) -> XmlPIView {
        XmlPIView { target: self.target@, data: self.data.deep_view() }
    }
}

/// `CDSect`: what stands between `<![CDATA[` and `]]>`.
#[derive(Debug, Clone, Copy, PartialEq, Eq, PartialOrd, Ord)]
pub struct XmlCData<'a>(pub &'a str);

impl<'a> DeepView for XmlCData<'a> {
    type V = Seq<char>;

    open spec fn deep_view(&self) -> Seq<char> {
        self.0@
    }
}

/// `EncName`: the name of an encoding.
#[derive(Debug, Clone, Copy, PartialEq, Eq, PartialOrd, Ord)]
pub struct XmlEncoding<'a>(pub &'a str);

impl<'a> DeepView for XmlEncoding<'a> {
    type V = Seq<char>;

    open spec fn deep_view(&self) -> Seq<char> {
        self.0@
    }
}

/// `SDDecl`: whether the document stands alone.
#[derive(Debug, Clone, Copy, PartialEq, Eq, PartialOrd, Ord)]
pub struct XmlSDDecl(pub bool);

impl DeepView for XmlSDDecl {
    type V = bool;

    open spec fn deep_view(&self) -> bool {
        self.0
    }
}

/// `VersionNum`.
#[allow(non_camel_case_types)]
#[derive(Debug, Clone, Copy, PartialEq, Eq, PartialOrd, Ord)]
pub enum XmlVersion {
    Version1_0,
    Version1_1,
}

impl DeepView for XmlVersion {
    type V = XmlVersion;

    open spec fn deep_view(&self) -> XmlVersion {
        *self
    }
}

/// `XMLDecl`: the XML declaration.
#[derive(Debug, Clone, Copy, PartialEq, Eq, PartialOrd, Ord)]
pub struct XmlDecl<'a> {
    pub version: XmlVersion,
    pub encoding: Option<&'a str>,
    pub standalone: Option<bool>,
}

/// What an `XmlDecl` holds, as plain text.
pub struct XmlDeclView {
    pub version: XmlVersion,
    pub encoding: Option<Seq<char>>,
    pub standalone: Option<bool>,
}

impl<'a> DeepView for XmlDecl<'a> {
    type V = XmlDeclView;

    open spec fn deep_view(&self) -> XmlDeclView {
        XmlDeclView { version: self.version.deep_view(), encoding: self.encoding.deep_view(), standalone: self.standalone }
    }
}

/// `Misc`: what may stand between the parts of a document.
#[derive(Debug, Clone, Copy, PartialEq, Eq, PartialOrd, Ord)]
pub enum XmlMisc<'a> {
    PI { target: &'a str, data: Option<&'a str> },
    Comment(&'a str),
    Space(&'a str),
}

/// What an `XmlMisc` holds, as plain text.
pub enum XmlMiscView {
    PI { target: Seq<char>, data: Option<Seq<char>> },
    Comment(Seq<char>),
    Space(Seq<char>),
}

impl<'a> DeepView for XmlMisc<'a> {
    type V = XmlMiscView;

    open spec fn deep_view(&self) -> XmlMiscView {
        match *self {
            XmlMisc::PI { target, data } => XmlMiscView::PI { target: target@, data: data.deep_view() },
            XmlMisc::Comment(x) => XmlMiscView::Comment(x@),
            XmlMisc::Space(x) => XmlMiscView::Space(x@),
        }
    }
}

/// `ExternalID`.
#[derive(Debug, Clone, Copy, PartialEq, Eq, PartialOrd, Ord)]
pub enum XmlExternalId<'a> {
    System(&'a str),
    Public { public_id: &'a str, system_id: &'a str },
}

/// What an `XmlExternalId` holds, as plain text.
pub enum XmlExternalIdView {
    System(Seq<char>),
    Public { public_id: Seq<char>, system_id: Seq<char> },
}

impl<'a> DeepView for XmlExternalId<'a> {
    type V = XmlExternalIdView;

    open spec fn deep_view(&self) -> XmlExternalIdView {
        match *self {
            XmlExternalId::System(x) => XmlExternalIdView::System(x@),
            XmlExternalId::Public { public_id, system_id } => XmlExternalIdView::Public { public_id: public_id@, system_id: system_id@ },
        }
    }
}

/// `NDataDecl`: the name of the notation of an unparsed entity.
#[derive(Debug, Clone, Copy, PartialEq, Eq, PartialOrd, Ord)]
pub struct XmlNDataDecl<'a>(pub &'a str);

impl<'a> DeepView for XmlNDataDecl<'a> {
    type V = Seq<char>;

    open spec fn deep_view(&self) -> Seq<char> {
        self.0@
    }
}

/// `DeclSep`: what may stand between the declarations of an internal subset.
#[derive(Debug, Clone, Copy, PartialEq, Eq, PartialOrd, Ord)]
pub enum XmlDeclSep<'a> {
    PEReference(&'a str),
    Space(&'a str),
}

/// What an `XmlDeclSep` holds, as plain text.
pub enum XmlDeclSepView {
    PEReference(Seq<char>),
    Space(Seq<char>),
}

impl<'a> DeepView for XmlDeclSep<'a> {
    type V = XmlDeclSepView;

    open spec fn deep_view(&self) -> XmlDeclSepView {
        match *self {
            XmlDeclSep::PEReference(x) => XmlDeclSepView::PEReference(x@),
            XmlDeclSep::Space(x) => XmlDeclSepView::Space(x@),
        }
    }
}

/// `PublicID`.
#[derive(Debug, Clone, Copy, PartialEq, Eq, PartialOrd, Ord)]
pub struct XmlPublicId<'a>(pub &'a str);

impl<'a> DeepView for XmlPublicId<'a> {
    type V = Seq<char>;

    open spec fn deep_view(&self) -> Seq<char> {
        self.0@
    }
}

/// `NotationDecl`.
#[derive(Debug, Clone, Copy, PartialEq, Eq, PartialOrd, Ord)]
pub struct XmlNotationDecl<'a> {
    pub name: &'a str,
    pub id: XmlNotationId<'a>,
}

/// What an `XmlNotationDecl` holds, as plain text.
pub struct XmlNotationDeclView {
    pub name: Seq<char>,
    pub id: XmlNotationIdView,
}

impl<'a> DeepView for XmlNotationDecl<'a> {
    type V = XmlNotationDeclView;

    open spec fn deep_view(&self) -> XmlNotationDeclView {
        XmlNotationDeclView { name: self.name@, id: self.id.deep_view() }
    }
}

/// The identifier of a notation.
#[derive(Debug, Clone, Copy, PartialEq, Eq, PartialOrd, Ord)]
pub enum XmlNotationId<'a> {
    System(&'a str),
    PublicSystem { public_id: &'a str, system_id: &'a str },
    Public(&'a str),
}

/// What an `XmlNotationId` holds, as plain text.
pub enum XmlNotationIdView {
    System(Seq<char>),
    PublicSystem { public_id: Seq<char>, system_id: Seq<char> },
    Public(Seq<char>),
}

impl<'a> DeepView for XmlNotationId<'a> {
    type V = XmlNotationIdView;

    open spec fn deep_view(&self) -> XmlNotationIdView {
        match *self {
            XmlNotationId::System(x) => XmlNotationIdView::System(x@),
            XmlNotationId::PublicSystem { public_id, system_id } => XmlNotationIdView::PublicSystem { public_id: public_id@, system_id: system_id@ },
            XmlNotationId::Public(x) => XmlNotationIdView::Public(x@),
        }
    }
}

/// `EntityDecl`: the declaration of a general or of a parameter entity.
#[allow(inconsistent_fields)]
#[derive(Debug, PartialEq, Eq, PartialOrd, Ord)]
pub enum XmlEntityDecl<'a> {
    GEDecl { name: &'a str, def: XmlEntityDef<'a> },
    PEDecl { name: &'a str, def: XmlPEDef<'a> },
}

/// What an `XmlEntityDecl` holds, as plain text.
#[allow(inconsistent_fields)]
pub enum XmlEntityDeclView {
    GEDecl { name: Seq<char>, def: XmlEntityDefView },
    PEDecl { name: Seq<char>, def: XmlPEDefView },
}

impl<'a> DeepView for XmlEntityDecl<'a> {
    type V = XmlEntityDeclView;

    open spec fn deep_view(&self) -> XmlEntityDeclView {
        match *self {
            XmlEntityDecl::GEDecl { name, def } => XmlEntityDeclView::GEDecl { name: name@, def: def.deep_view() },
            XmlEntityDecl::PEDecl { name, def } => XmlEntityDeclView::PEDecl { name: name@, def: def.deep_view() },
        }
    }
}

/// `EntityDef`.
#[derive(Debug, PartialEq, Eq, PartialOrd, Ord)]
pub enum XmlEntityDef<'a> {
    Value(Vec<XmlEntityValuePart<'a>>),
    External { id: XmlExternalId<'a>, ndata_decl: Option<&'a str> },
}

/// What an `XmlEntityDef` holds, as plain text.
pub enum XmlEntityDefView {
    Value(Seq<XmlEntityValuePartView>),
    External { id: XmlExternalIdView, ndata_decl: Option<Seq<char>> },
}

impl<'a> DeepView for XmlEntityDef<'a> {
    type V = XmlEntityDefView;

    open spec fn deep_view(&self) -> XmlEntityDefView {
        match *self {
            XmlEntityDef::Value(x) => XmlEntityDefView::Value(x.deep_view()),
            XmlEntityDef::External { id, ndata_decl } => XmlEntityDefView::External { id: id.deep_view(), ndata_decl: ndata_decl.deep_view() },
        }
    }
}

/// `PEDef`.
#[derive(Debug, PartialEq, Eq, PartialOrd, Ord)]
pub enum XmlPEDef<'a> {
    Value(Vec<XmlEntityValuePart<'a>>),
    External(XmlExternalId<'a>),
}

/// What an `XmlPEDef` holds, as plain text.
pub enum XmlPEDefView {
    Value(Seq<XmlEntityValuePartView>),
    External(XmlExternalIdView),
}

impl<'a> DeepView for XmlPEDef<'a> {
    type V = XmlPEDefView;

    open spec fn deep_view(&self) -> XmlPEDefView {
        match *self {
            XmlPEDef::Value(x) => XmlPEDefView::Value(x.deep_view()),
            XmlPEDef::External(x) => XmlPEDefView::External(x.deep_view()),
        }
    }
}

/// `EnumeratedType`.
#[derive(Debug, PartialEq, Eq, PartialOrd, Ord)]
pub enum XmlEnumType<'a> {
    Notation(Vec<&'a str>),
    NmToken(Vec<&'a str>),
}

/// What an `XmlEnumType` holds, as plain text.
pub enum XmlEnumTypeView {
    Notation(Seq<Seq<char>>),
    NmToken(Seq<Seq<char>>),
}

impl<'a> DeepView for XmlEnumType<'a> {
    type V = XmlEnumTypeView;

    open spec fn deep_view(&self) -> XmlEnumTypeView {
        match *self {
            XmlEnumType::Notation(x) => XmlEnumTypeView::Notation(x.deep_view()),
            XmlEnumType::NmToken(x) => XmlEnumTypeView::NmToken(x.deep_view()),
        }
    }
}

/// `TokenizedType`.
#[derive(Debug, Clone, Copy, PartialEq, Eq, PartialOrd, Ord)]
pub enum XmlTokenizedType {
    Id,
    IdRef,
    IdRefs,
    Entity,
    Entities,
    NmToken,
    NmTokens,
}

impl DeepView for XmlTokenizedType {
    type V = XmlTokenizedType;

    open spec fn deep_view(&self) -> XmlTokenizedType {
        *self
    }
}

/// `AttType`.
#[derive(Debug, PartialEq, Eq, PartialOrd, Ord)]
pub enum XmlAttType<'a> {
    String,
    Tokenized(XmlTokenizedType),
    Notation(Vec<&'a str>),
    NmToken(Vec<&'a str>),
}

/// What an `XmlAttType` holds, as plain text.
pub enum XmlAttTypeView {
    String,
    Tokenized(XmlTokenizedType),
    Notation(Seq<Seq<char>>),
    NmToken(Seq<Seq<char>>),
}

impl<'a> DeepView for XmlAttType<'a> {
    type V = XmlAttTypeView;

    open spec fn deep_view(&self) -> XmlAttTypeView {
        match *self {
            XmlAttType::String => XmlAttTypeView::String,
            XmlAttType::Tokenized(x) => XmlAttTypeView::Tokenized(x.deep_view()),
            XmlAttType::Notation(x) => XmlAttTypeView::Notation(x.deep_view()),
            XmlAttType::NmToken(x) => XmlAttTypeView::NmToken(x.deep_view()),
        }
    }
}

/// `DefaultDecl`.
#[derive(Debug, PartialEq, Eq, PartialOrd, Ord)]
pub enum XmlDefaultDecl<'a> {
    Required,
    Implied,
    Fixed(Vec<XmlAttValuePart<'a>>),
}

/// What an `XmlDefaultDecl` holds, as plain text.
pub enum XmlDefaultDeclView {
    Required,
    Implied,
    Fixed(Seq<XmlAttValuePartView>),
}

impl<'a> DeepView for XmlDefaultDecl<'a> {
    type V = XmlDefaultDeclView;

    open spec fn deep_view(&self) -> XmlDefaultDeclView {
        match *self {
            XmlDefaultDecl::Required => XmlDefaultDeclView::Required,
            XmlDefaultDecl::Implied => XmlDefaultDeclView::Implied,
            XmlDefaultDecl::Fixed(x) => XmlDefaultDeclView::Fixed(x.deep_view()),
        }
    }
}

/// `AttlistDecl`.
#[derive(Debug, PartialEq, Eq, PartialOrd, Ord)]
pub struct XmlAttListDecl<'a> {
    pub name: &'a str,
    pub att_defs: Vec<XmlAttDef<'a>>,
}

/// What an `XmlAttListDecl` holds, as plain text.
pub struct XmlAttListDeclView {
    pub name: Seq<char>,
    pub att_defs: Seq<XmlAttDefView>,
}

impl<'a> DeepView for XmlAttListDecl<'a> {
    type V = XmlAttListDeclView;

    open spec fn deep_view(&self) -> XmlAttListDeclView {
        XmlAttListDeclView { name: self.name@, att_defs: self.att_defs.deep_view() }
    }
}

/// `AttDef`.
#[derive(Debug, PartialEq, Eq, PartialOrd, Ord)]
pub struct XmlAttDef<'a> {
    pub name: &'a str,
    pub att_type: XmlAttType<'a>,
    pub default_decl: XmlDefaultDecl<'a>,
}

/// What an `XmlAttDef` holds, as plain text.
pub struct XmlAttDefView {
    pub name: Seq<char>,
    pub att_type: XmlAttTypeView,
    pub default_decl: XmlDefaultDeclView,
}

impl<'a> DeepView for XmlAttDef<'a> {
    type V = XmlAttDefView;

    open spec fn deep_view(&self) -> XmlAttDefView {
        XmlAttDefView { name: self.name@, att_type: self.att_type.deep_view(), default_decl: self.default_decl.deep_view() }
    }
}

/// `Mixed`: the names beside `#PCDATA`, where the declaration lists any.
#[derive(Debug, PartialEq, Eq, PartialOrd, Ord)]
pub struct XmlMixed<'a>(pub Option<Vec<XmlDeclName<'a>>>);

impl<'a> DeepView for XmlMixed<'a> {
    type V = Option<Seq<XmlDeclNameView>>;

    open spec fn deep_view(&self) -> Option<Seq<XmlDeclNameView>> {
        self.0.deep_view()
    }
}

/// A name in a declaration, or the parameter entity that stands for it.
#[derive(Debug, Clone, Copy, PartialEq, Eq, PartialOrd, Ord)]
pub enum XmlDeclName<'a> {
    Name(&'a str),
    PEReference(&'a str),
}

/// What an `XmlDeclName` holds, as plain text.
pub enum XmlDeclNameView {
    Name(Seq<char>),
    PEReference(Seq<char>),
}

impl<'a> DeepView for XmlDeclName<'a> {
    type V = XmlDeclNameView;

    open spec fn deep_view(&self) -> XmlDeclNameView {
        match *self {
            XmlDeclName::Name(x) => XmlDeclNameView::Name(x@),
            XmlDeclName::PEReference(x) => XmlDeclNameView::PEReference(x@),
        }
    }
}

/// `children`: a choice or a sequence of content particles, and how often
/// it may occur.
#[derive(Debug, PartialEq, Eq, PartialOrd, Ord)]
pub enum XmlChildren<'a> {
    Choice { cps: Vec<XmlCP<'a>>, repeat: Option<XmlRepeat> },
    Sequence { cps: Vec<XmlCP<'a>>, repeat: Option<XmlRepeat> },
}

/// `cp`: a content particle, a name or a nested choice or sequence.
#[derive(Debug, PartialEq, Eq, PartialOrd, Ord)]
pub enum XmlCP<'a> {
    Name(XmlDeclName<'a>),
    Children(XmlChildren<'a>),
}

/// What an `XmlChildren` holds, as plain text.
pub enum XmlChildrenView {
    Choice { cps: Seq<XmlCPView>, repeat: Option<XmlRepeat> },
    Sequence { cps: Seq<XmlCPView>, repeat: Option<XmlRepeat> },
}

/// What an `XmlCP` holds, as plain text.
pub enum XmlCPView {
    Name(XmlDeclNameView),
    Children(XmlChildrenView),
}

/// The view of a content particle.
pub open spec fn cp_view(cp: XmlCP) -> XmlCPView
    decreases cp,
{
    match cp {
        XmlCP::Name(n) => XmlCPView::Name(n.deep_view()),
        XmlCP::Children(c) => XmlCPView::Children(children_view(c)),
    }
}

/// The view of a choice or sequence.
pub open spec fn children_view(c: XmlChildren) -> XmlChildrenView
    decreases c,
{
    match c {
        XmlChildren::Choice { cps, repeat } => XmlChildrenView::Choice {
            cps: cps_view(cps@),
            repeat,
        },
        XmlChildren::Sequence { cps, repeat } => XmlChildrenView::Sequence {
            cps: cps_view(cps@),
            repeat,
        },
    }
}

/// The views of a list of content particles.
pub open spec fn cps_view(s: Seq<XmlCP>) -> Seq<XmlCPView>
    decreases s,
{
    Seq::new(
        s.len(),
        |i: int|
            if 0 <= i < s.len() {
                cp_view(s[i])
            } else {
                arbitrary()
            },
    )
}

impl<'a> DeepView for XmlChildren<'a> {
    type V = XmlChildrenView;

    open spec fn deep_view(&self) -> XmlChildrenView {
        children_view(*self)
    }
}

impl<'a> DeepView for XmlCP<'a> {
    type V = XmlCPView;

    open spec fn deep_view(&self) -> XmlCPView {
        cp_view(*self)
    }
}

/// The view of a list of content particles is the list of their views.
pub proof fn lemma_cps_view(v: Vec<XmlCP>)
    ensures
        v.deep_view() == cps_view(v@),
{
    assert(v.deep_view() =~= cps_view(v@));
}

/// How often a content particle may occur.
#[derive(Debug, Clone, Copy, PartialEq, Eq, PartialOrd, Ord)]
pub enum XmlRepeat {
    ZeroOrOne,
    ZeroOrMany,
    OneOrMany,
}

impl DeepView for XmlRepeat {
    type V = XmlRepeat;

    open spec fn deep_view(&self) -> XmlRepeat {
        *self
    }
}

/// `contentspec`.
#[derive(Debug, PartialEq, Eq, PartialOrd, Ord)]
pub enum XmlContentSpec<'a> {
    Empty,
    Any,
    Mixed(XmlMixed<'a>),
    Children(XmlChildren<'a>),
    PEReference(&'a str),
}

/// What an `XmlContentSpec` holds, as plain text.
pub enum XmlContentSpecView {
    Empty,
    Any,
    Mixed(Option<Seq<XmlDeclNameView>>),
    Children(XmlChildrenView),
    PEReference(Seq<char>),
}

impl<'a> DeepView for XmlContentSpec<'a> {
    type V = XmlContentSpecView;

    open spec fn deep_view(&self) -> XmlContentSpecView {
        match *self {
            XmlContentSpec::Empty => XmlContentSpecView::Empty,
            XmlContentSpec::Any => XmlContentSpecView::Any,
            XmlContentSpec::Mixed(x) => XmlContentSpecView::Mixed(x.deep_view()),
            XmlContentSpec::Children(x) => XmlContentSpecView::Children(x.deep_view()),
            XmlContentSpec::PEReference(x) => XmlContentSpecView::PEReference(x@),
        }
    }
}

/// `elementdecl`.
#[derive(Debug, PartialEq, Eq, PartialOrd, Ord)]
pub struct XmlElementDecl<'a> {
    pub name: XmlDeclName<'a>,
    pub content: XmlContentSpec<'a>,
}

/// What an `XmlElementDecl` holds, as plain text.
pub struct XmlElementDeclView {
    pub name: XmlDeclNameView,
    pub content: XmlContentSpecView,
}

impl<'a> DeepView for XmlElementDecl<'a> {
    type V = XmlElementDeclView;

    open spec fn deep_view(&self) -> XmlElementDeclView {
        XmlElementDeclView { name: self.name.deep_view(), content: self.content.deep_view() }
    }
}

/// `doctypedecl`.
#[derive(Debug, PartialEq, Eq, PartialOrd, Ord)]
pub struct XmlDocTypeDecl<'a> {
    pub name: &'a str,
    pub external_id: Option<XmlExternalId<'a>>,
    pub int_subset: Option<Vec<XmlMarkupDecl<'a>>>,
}

/// What an `XmlDocTypeDecl` holds, as plain text.
pub struct XmlDocTypeDeclView {
    pub name: Seq<char>,
    pub external_id: Option<XmlExternalIdView>,
    pub int_subset: Option<Seq<XmlMarkupDeclView>>,
}

impl<'a> DeepView for XmlDocTypeDecl<'a> {
    type V = XmlDocTypeDeclView;

    open spec fn deep_view(&self) -> XmlDocTypeDeclView {
        XmlDocTypeDeclView { name: self.name@, external_id: self.external_id.deep_view(), int_subset: self.int_subset.deep_view() }
    }
}

/// `markupdecl`, or what may stand between two of them.
#[derive(Debug, PartialEq, Eq, PartialOrd, Ord)]
pub enum XmlMarkupDecl<'a> {
    ElementDecl(XmlElementDecl<'a>),
    AttListDecl(XmlAttListDecl<'a>),
    EntityDecl(XmlEntityDecl<'a>),
    Notation(XmlNotationDecl<'a>),
    PI(XmlPI<'a>),
    Comment(XmlComment<'a>),
    PEReference(&'a str),
    Space(&'a str),
}

/// What an `XmlMarkupDecl` holds, as plain text.
pub enum XmlMarkupDeclView {
    ElementDecl(XmlElementDeclView),
    AttListDecl(XmlAttListDeclView),
    EntityDecl(XmlEntityDeclView),
    Notation(XmlNotationDeclView),
    PI(XmlPIView),
    Comment(Seq<char>),
    PEReference(Seq<char>),
    Space(Seq<char>),
}

impl<'a> DeepView for XmlMarkupDecl<'a> {
    type V = XmlMarkupDeclView;

    open spec fn deep_view(&self) -> XmlMarkupDeclView {
        match *self {
            XmlMarkupDecl::ElementDecl(x) => XmlMarkupDeclView::ElementDecl(x.deep_view()),
            XmlMarkupDecl::AttListDecl(x) => XmlMarkupDeclView::AttListDecl(x.deep_view()),
            XmlMarkupDecl::EntityDecl(x) => XmlMarkupDeclView::EntityDecl(x.deep_view()),
            XmlMarkupDecl::Notation(x) => XmlMarkupDeclView::Notation(x.deep_view()),
            XmlMarkupDecl::PI(x) => XmlMarkupDeclView::PI(x.deep_view()),
            XmlMarkupDecl::Comment(x) => XmlMarkupDeclView::Comment(x.deep_view()),
            XmlMarkupDecl::PEReference(x) => XmlMarkupDeclView::PEReference(x@),
            XmlMarkupDecl::Space(x) => XmlMarkupDeclView::Space(x@),
        }
    }
}

} // verus!
