//! Node kinds and the handles that name nodes of a document.

use vstd::prelude::*;
use vstd::string::*;

verus! {

/// The character that writes the digit `d`.
pub open spec fn digit_char(d: nat) -> char {
    if d == 0 {
        '0'
    } else if d == 1 {
        '1'
    } else if d == 2 {
        '2'
    } else if d == 3 {
        '3'
    } else if d == 4 {
        '4'
    } else if d == 5 {
        '5'
    } else if d == 6 {
        '6'
    } else if d == 7 {
        '7'
    } else if d == 8 {
        '8'
    } else {
        '9'
    }
}

/// The number `n` as it is written in base ten.
pub open spec fn decimal(n: nat) -> Seq<char>
    decreases n,
{
    if n < 10 {
        seq![digit_char(n)]
    } else {
        decimal(n / 10).push(digit_char(n % 10))
    }
}

/// Returns the text that writes the digit `d`.
fn digit_text(d: usize) -> (text: &'static str)
    requires
        d < 10,
    ensures
        text@ == seq![digit_char(d as nat)],
{
    proof {
        reveal_strlit("0");
        reveal_strlit("1");
        reveal_strlit("2");
        reveal_strlit("3");
        reveal_strlit("4");
        reveal_strlit("5");
        reveal_strlit("6");
        reveal_strlit("7");
        reveal_strlit("8");
        reveal_strlit("9");
    }
    let text = if d == 0 {
        "0"
    } else if d == 1 {
        "1"
    } else if d == 2 {
        "2"
    } else if d == 3 {
        "3"
    } else if d == 4 {
        "4"
    } else if d == 5 {
        "5"
    } else if d == 6 {
        "6"
    } else if d == 7 {
        "7"
    } else if d == 8 {
        "8"
    } else {
        "9"
    };
    assert(text@ =~= seq![digit_char(d as nat)]);
    text
}

/// Writes `n` in base ten at the end of `text`.
fn push_decimal(text: &mut String, n: usize)
    ensures
        final(text)@ == old(text)@ + decimal(n as nat),
    decreases n,
{
    if n >= 10 {
        push_decimal(text, n / 10);
    }
    text.append(digit_text(n % 10));
    proof {
        if n >= 10 {
            assert(old(text)@ + decimal((n / 10) as nat) + seq![digit_char((n % 10) as nat)]
                =~= old(text)@ + decimal(n as nat));
        }
    }
}

/// The kind of a node. The first twelve are the kinds of the DOM standard;
/// `Namespace` is an addition to it.
#[derive(Debug, Clone, Copy, PartialEq, Eq, PartialOrd, Ord, Hash, Structural)]
pub enum NodeType {
    Element,
    Attribute,
    Text,
    CData,
    EntityReference,
    Entity,
    ProcessingInstruction,
    Comment,
    Document,
    DocumentType,
    DocumentFragment,
    Notation,
    /// Not part of the DOM standard.
    Namespace,
}

impl NodeType {
    /// Whether nodes of this kind can never hold children.
    pub open spec fn spec_is_leaf(&self) -> bool {
        !(*self is Element || *self is Attribute || *self is Entity || *self is Document
            || *self is DocumentFragment)
    }

    /// The number that the DOM standard gives this kind (13 for `Namespace`).
    pub open spec fn spec_code(&self) -> u32 {
        match self {
            NodeType::Element => 1,
            NodeType::Attribute => 2,
            NodeType::Text => 3,
            NodeType::CData => 4,
            NodeType::EntityReference => 5,
            NodeType::Entity => 6,
            NodeType::ProcessingInstruction => 7,
            NodeType::Comment => 8,
            NodeType::Document => 9,
            NodeType::DocumentType => 10,
            NodeType::DocumentFragment => 11,
            NodeType::Notation => 12,
            NodeType::Namespace => 13,
        }
    }

    /// Whether a document keeps a collection of nodes of this kind.
    pub open spec fn spec_is_stored(self) -> bool {
        !(self is EntityReference || self is Document || self is DocumentFragment)
    }

    /// The name of this kind, as written in the printed form of a handle.
    pub open spec fn spec_name(self) -> Seq<char> {
        match self {
            NodeType::Element => "Element"@,
            NodeType::Attribute => "Attribute"@,
            NodeType::Text => "Text"@,
            NodeType::CData => "CData"@,
            NodeType::EntityReference => "EntityReference"@,
            NodeType::Entity => "Entity"@,
            NodeType::ProcessingInstruction => "ProcessingInstruction"@,
            NodeType::Comment => "Comment"@,
            NodeType::Document => "Document"@,
            NodeType::DocumentType => "DocumentType"@,
            NodeType::DocumentFragment => "DocumentFragment"@,
            NodeType::Notation => "Notation"@,
            NodeType::Namespace => "Namespace"@,
        }
    }

    /// Returns true if nodes of this kind cannot have children.
    #[verifier::when_used_as_spec(spec_is_leaf)]
    pub fn is_leaf(&self) -> (leaf: bool)
        ensures
            leaf == self.spec_is_leaf(),
    {
        match self {
            NodeType::Element => false,
            NodeType::Attribute => false,
            NodeType::Text => true,
            NodeType::CData => true,
            NodeType::EntityReference => true,
            NodeType::Entity => false,
            NodeType::ProcessingInstruction => true,
            NodeType::Comment => true,
            NodeType::Document => false,
            NodeType::DocumentType => true,
            NodeType::DocumentFragment => false,
            NodeType::Notation => true,
            NodeType::Namespace => true,
        }
    }

    /// Returns the number of this kind in the DOM standard.
    #[verifier::when_used_as_spec(spec_code)]
    pub fn code(&self) -> (code: u32)
        ensures
            code == self.spec_code(),
            1 <= code <= 13,
    {
        match self {
            NodeType::Element => 1,
            NodeType::Attribute => 2,
            NodeType::Text => 3,
            NodeType::CData => 4,
            NodeType::EntityReference => 5,
            NodeType::Entity => 6,
            NodeType::ProcessingInstruction => 7,
            NodeType::Comment => 8,
            NodeType::Document => 9,
            NodeType::DocumentType => 10,
            NodeType::DocumentFragment => 11,
            NodeType::Notation => 12,
            NodeType::Namespace => 13,
        }
    }

    /// Returns the name of this kind.
    pub fn name(&self) -> (name: &'static str)
        ensures
            name@ == self.spec_name(),
    {
        match self {
            NodeType::Element => "Element",
            NodeType::Attribute => "Attribute",
            NodeType::Text => "Text",
            NodeType::CData => "CData",
            NodeType::EntityReference => "EntityReference",
            NodeType::Entity => "Entity",
            NodeType::ProcessingInstruction => "ProcessingInstruction",
            NodeType::Comment => "Comment",
            NodeType::Document => "Document",
            NodeType::DocumentType => "DocumentType",
            NodeType::DocumentFragment => "DocumentFragment",
            NodeType::Notation => "Notation",
            NodeType::Namespace => "Namespace",
        }
    }
}

/// A handle to a node of one document: the node's kind and its place in the
/// document's collection of that kind. A handle owns nothing and is freely
/// copied; two handles are equal when kind and place are.
#[derive(Debug, Clone, Copy, PartialEq, Eq, PartialOrd, Ord, Hash, Structural)]
pub struct DOMObject {
    /// The place of the node in the collection of its kind.
    pub id: usize,
    /// The kind of the node.
    pub node_type: NodeType,
}

impl DOMObject {
    /// The handle of the document node itself, under which the top-level
    /// nodes hang.
    pub open spec fn document() -> DOMObject {
        DOMObject { id: 0, node_type: NodeType::Document }
    }

    /// Makes the handle of the node at place `id` among the nodes of kind
    /// `node_type`.
    pub fn new(id: usize, node_type: NodeType) -> (object: DOMObject)
        ensures
            object == (DOMObject { id, node_type }),
    {
        DOMObject { id, node_type }
    }

    /// Returns the kind of the node that this handle names.
    pub fn node_type(&self) -> (node_type: NodeType)
        ensures
            node_type == self.node_type,
    {
        self.node_type
    }

    /// Returns the place of the node among the nodes of its kind.
    pub fn id(&self) -> (id: usize)
        ensures
            id == self.id,
    {
        self.id
    }

    /// The printed form of the handle: the name of the kind, and the place
    /// in parentheses.
    pub open spec fn text(&self) -> Seq<char> {
        self.node_type.spec_name() + seq!['('] + decimal(self.id as nat) + seq![')']
    }

    /// Writes the handle out: `Kind(place)`.
    pub fn to_string(&self) -> (text: String)
        ensures
            text@ == self.text(),
    {
        let mut text = String::from_str(self.node_type.name());
        proof {
            reveal_strlit("(");
            reveal_strlit(")");
        }
        text.append("(");
        push_decimal(&mut text, self.id);
        text.append(")");
        assert(text@ =~= self.text());
        text
    }
}

impl Default for DOMObject {
    /// The handle of the document node.
    fn default() -> (object: DOMObject)
        ensures
            object == DOMObject::document(),
    {
        DOMObject { id: 0, node_type: NodeType::Document }
    }
}

} // verus!
