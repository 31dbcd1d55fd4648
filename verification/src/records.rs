//! The nodes that a document stores, one type for each kind.

use vstd::prelude::*;
use crate::model::{NodeData, NodeView};
use crate::node::Node;
use crate::object::DOMObject;
use crate::qname::QName;

verus! {

/// The text of `s`, where there is one.
pub open spec fn opt_text(s: Option<&str>) -> Option<Seq<char>> {
    match s {
        Some(t) => Some(t@),
        None => None,
    }
}

/// A node as a document stores it: its handle, its tree edges and what it
/// holds.
pub struct Record<T> {
    pub(crate) object: DOMObject,
    pub(crate) node: Node,
    pub(crate) data: T,
}

impl<T> Record<T> {
    /// The handle of this node.
    pub open(crate) spec fn object_view(&self) -> DOMObject {
        self.object
    }

    /// Returns the handle of this node.
    pub fn object(&self) -> (object: DOMObject)
        ensures
            object == self.object_view(),
    {
        self.object
    }
}

/// What an element holds.
#[derive(Debug, Clone, Copy)]
pub struct ElementData<'a> {
    pub(crate) tag: QName<'a>,
}

/// An element.
pub type Element<'a> = Record<ElementData<'a>>;

impl<'a> View for Record<ElementData<'a>> {
    type V = NodeView;

    open(crate) spec fn view(&self) -> NodeView {
        NodeView {
            parent: self.node.parent,
            children: self.node.children@,
            data: NodeData::Element { tag: self.data.tag@ },
        }
    }
}

impl<'a> Record<ElementData<'a>> {
    /// Returns the element's tag name.
    pub fn tag(&self) -> (tag: &QName<'a>)
        ensures
            tag@ == self@.data->Element_tag,
            self@.data is Element,
    {
        &self.data.tag
    }
}

/// What an attribute of an element holds.
#[derive(Debug, Clone, Copy)]
pub struct AttrData<'a> {
    pub(crate) name: QName<'a>,
    pub(crate) value: &'a str,
}

/// An attribute of an element.
pub type Attr<'a> = Record<AttrData<'a>>;

impl<'a> View for Record<AttrData<'a>> {
    type V = NodeView;

    open(crate) spec fn view(&self) -> NodeView {
        NodeView {
            parent: self.node.parent,
            children: self.node.children@,
            data: NodeData::Attr { name: self.data.name@, value: self.data.value@ },
        }
    }
}

impl<'a> Record<AttrData<'a>> {
    /// Returns the name of the attribute.
    pub fn name(&self) -> (name: &QName<'a>)
        ensures
            name@ == self@.data->Attr_name,
            self@.data is Attr,
    {
        &self.data.name
    }

    /// Returns the value of the attribute.
    pub fn value(&self) -> (value: &'a str)
        ensures
            value@ == self@.data->Attr_value,
            self@.data is Attr,
    {
        self.data.value
    }
}

/// What a namespace declaration holds.
#[derive(Debug, Clone, Copy)]
pub struct NamespaceData<'a> {
    pub(crate) prefix: &'a str,
    pub(crate) href: &'a str,
}

/// A namespace declaration.
pub type Namespace<'a> = Record<NamespaceData<'a>>;

impl<'a> View for Record<NamespaceData<'a>> {
    type V = NodeView;

    open(crate) spec fn view(&self) -> NodeView {
        NodeView {
            parent: self.node.parent,
            children: self.node.children@,
            data: NodeData::Namespace { prefix: self.data.prefix@, href: self.data.href@ },
        }
    }
}

impl<'a> Record<NamespaceData<'a>> {
    /// Returns the prefix of the namespace.
    pub fn prefix(&self) -> (prefix: &'a str)
        ensures
            prefix@ == self@.data->Namespace_prefix,
            self@.data is Namespace,
    {
        self.data.prefix
    }

    /// Returns the href of the namespace.
    pub fn href(&self) -> (href: &'a str)
        ensures
            href@ == self@.data->Namespace_href,
            self@.data is Namespace,
    {
        self.data.href
    }
}

/// What a processing instruction holds.
#[derive(Debug, Clone, Copy)]
pub struct ProcessingInstructionData<'a> {
    pub(crate) target: &'a str,
    pub(crate) data: &'a str,
}

/// A processing instruction.
pub type ProcessingInstruction<'a> = Record<ProcessingInstructionData<'a>>;

impl<'a> View for Record<ProcessingInstructionData<'a>> {
    type V = NodeView;

    open(crate) spec fn view(&self) -> NodeView {
        NodeView {
            parent: self.node.parent,
            children: self.node.children@,
            data: NodeData::ProcessingInstruction { target: self.data.target@, data: self.data.data@ },
        }
    }
}

impl<'a> Record<ProcessingInstructionData<'a>> {
    /// Returns the target.
    pub fn target(&self) -> (target: &'a str)
        ensures
            target@ == self@.data->ProcessingInstruction_target,
            self@.data is ProcessingInstruction,
    {
        self.data.target
    }

    /// Returns the data.
    pub fn data(&self) -> (data: &'a str)
        ensures
            data@ == self@.data->ProcessingInstruction_data,
            self@.data is ProcessingInstruction,
    {
        self.data.data
    }
}

/// What a comment holds.
#[derive(Debug, Clone, Copy)]
pub struct CommentData<'a> {
    pub(crate) data: &'a str,
}

/// A comment.
pub type Comment<'a> = Record<CommentData<'a>>;

impl<'a> View for Record<CommentData<'a>> {
    type V = NodeView;

    open(crate) spec fn view(&self) -> NodeView {
        NodeView {
            parent: self.node.parent,
            children: self.node.children@,
            data: NodeData::Comment { data: self.data.data@ },
        }
    }
}

impl<'a> Record<CommentData<'a>> {
    /// Returns the data.
    pub fn data(&self) -> (data: &'a str)
        ensures
            data@ == self@.data->Comment_data,
            self@.data is Comment,
    {
        self.data.data
    }
}

/// What a CDATA section holds.
#[derive(Debug, Clone, Copy)]
pub struct CDataData<'a> {
    pub(crate) data: &'a str,
}

/// A CDATA section.
pub type CData<'a> = Record<CDataData<'a>>;

impl<'a> View for Record<CDataData<'a>> {
    type V = NodeView;

    open(crate) spec fn view(&self) -> NodeView {
        NodeView {
            parent: self.node.parent,
            children: self.node.children@,
            data: NodeData::CData { data: self.data.data@ },
        }
    }
}

impl<'a> Record<CDataData<'a>> {
    /// Returns the data.
    pub fn data(&self) -> (data: &'a str)
        ensures
            data@ == self@.data->CData_data,
            self@.data is CData,
    {
        self.data.data
    }
}

/// What a run of text holds.
#[derive(Debug, Clone, Copy)]
pub struct TextData<'a> {
    pub(crate) data: &'a str,
}

/// A run of text.
pub type Text<'a> = Record<TextData<'a>>;

impl<'a> View for Record<TextData<'a>> {
    type V = NodeView;

    open(crate) spec fn view(&self) -> NodeView {
        NodeView {
            parent: self.node.parent,
            children: self.node.children@,
            data: NodeData::Text { data: self.data.data@ },
        }
    }
}

impl<'a> Record<TextData<'a>> {
    /// Returns the data.
    pub fn data(&self) -> (data: &'a str)
        ensures
            data@ == self@.data->Text_data,
            self@.data is Text,
    {
        self.data.data
    }
}

/// What a notation holds.
#[derive(Debug, Clone, Copy)]
pub struct NotationData<'a> {
    pub(crate) public_id: &'a str,
    pub(crate) system_id: &'a str,
}

/// A notation.
pub type Notation<'a> = Record<NotationData<'a>>;

impl<'a> View for Record<NotationData<'a>> {
    type V = NodeView;

    open(crate) spec fn view(&self) -> NodeView {
        NodeView {
            parent: self.node.parent,
            children: self.node.children@,
            data: NodeData::Notation { public_id: self.data.public_id@, system_id: self.data.system_id@ },
        }
    }
}

impl<'a> Record<NotationData<'a>> {
    /// Returns the public identifier.
    pub fn public_id(&self) -> (public_id: &'a str)
        ensures
            public_id@ == self@.data->Notation_public_id,
            self@.data is Notation,
    {
        self.data.public_id
    }

    /// Returns the system identifier.
    pub fn system_id(&self) -> (system_id: &'a str)
        ensures
            system_id@ == self@.data->Notation_system_id,
            self@.data is Notation,
    {
        self.data.system_id
    }
}

/// What an entity holds.
#[derive(Debug, Clone, Copy)]
pub struct EntityData<'a> {
    pub(crate) public_id: &'a str,
    pub(crate) system_id: &'a str,
    pub(crate) notation_name: Option<&'a str>,
}

/// An entity.
pub type Entity<'a> = Record<EntityData<'a>>;

impl<'a> View for Record<EntityData<'a>> {
    type V = NodeView;

    open(crate) spec fn view(&self) -> NodeView {
        NodeView {
            parent: self.node.parent,
            children: self.node.children@,
            data: NodeData::Entity { public_id: self.data.public_id@, system_id: self.data.system_id@, notation_name: opt_text(self.data.notation_name) },
        }
    }
}

impl<'a> Record<EntityData<'a>> {
    /// Returns the public identifier.
    pub fn public_id(&self) -> (public_id: &'a str)
        ensures
            public_id@ == self@.data->Entity_public_id,
            self@.data is Entity,
    {
        self.data.public_id
    }

    /// Returns the system identifier.
    pub fn system_id(&self) -> (system_id: &'a str)
        ensures
            system_id@ == self@.data->Entity_system_id,
            self@.data is Entity,
    {
        self.data.system_id
    }

    /// Returns the name of the notation of an unparsed entity; a parsed entity has none.
    pub fn notation_name(&self) -> (notation_name: Option<&'a str>)
        ensures
            opt_text(notation_name) == self@.data->Entity_notation_name,
            self@.data is Entity,
    {
        self.data.notation_name
    }
}

/// What a document type holds.
#[derive(Debug, Clone, Copy)]
pub struct DocumentTypeData<'a> {
    pub(crate) public_id: &'a str,
    pub(crate) system_id: &'a str,
    pub(crate) internal_subset: &'a str,
}

/// A document type.
pub type DocumentType<'a> = Record<DocumentTypeData<'a>>;

impl<'a> View for Record<DocumentTypeData<'a>> {
    type V = NodeView;

    open(crate) spec fn view(&self) -> NodeView {
        NodeView {
            parent: self.node.parent,
            children: self.node.children@,
            data: NodeData::DocumentType { public_id: self.data.public_id@, system_id: self.data.system_id@, internal_subset: self.data.internal_subset@ },
        }
    }
}

impl<'a> Record<DocumentTypeData<'a>> {
    /// Returns the public identifier.
    pub fn public_id(&self) -> (public_id: &'a str)
        ensures
            public_id@ == self@.data->DocumentType_public_id,
            self@.data is DocumentType,
    {
        self.data.public_id
    }

    /// Returns the system identifier.
    pub fn system_id(&self) -> (system_id: &'a str)
        ensures
            system_id@ == self@.data->DocumentType_system_id,
            self@.data is DocumentType,
    {
        self.data.system_id
    }

    /// Returns the internal subset.
    pub fn internal_subset(&self) -> (internal_subset: &'a str)
        ensures
            internal_subset@ == self@.data->DocumentType_internal_subset,
            self@.data is DocumentType,
    {
        self.data.internal_subset
    }
}

} // verus!
