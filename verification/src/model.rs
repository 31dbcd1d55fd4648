//! The mathematical model of a document: what its nodes hold and how they
//! hang together, and what attaching a node and collecting the unreachable
//! ones do to it.

use vstd::prelude::*;
use crate::errors::DOMExceptionCode;
use crate::object::{DOMObject, NodeType};
use crate::qname::QNameView;

verus! {

/// What a node holds besides its place in the tree.
pub enum NodeData {
    Element { tag: QNameView },
    Attr { name: QNameView, value: Seq<char> },
    Namespace { prefix: Seq<char>, href: Seq<char> },
    ProcessingInstruction { target: Seq<char>, data: Seq<char> },
    Comment { data: Seq<char> },
    CData { data: Seq<char> },
    Text { data: Seq<char> },
    Notation { public_id: Seq<char>, system_id: Seq<char> },
    Entity { public_id: Seq<char>, system_id: Seq<char>, notation_name: Option<Seq<char>> },
    DocumentType { public_id: Seq<char>, system_id: Seq<char>, internal_subset: Seq<char> },
}

impl NodeData {
    /// The kind of node that holds this.
    pub open spec fn kind(self) -> NodeType {
        match self {
            NodeData::Element { .. } => NodeType::Element,
            NodeData::Attr { .. } => NodeType::Attribute,
            NodeData::Namespace { .. } => NodeType::Namespace,
            NodeData::ProcessingInstruction { .. } => NodeType::ProcessingInstruction,
            NodeData::Comment { .. } => NodeType::Comment,
            NodeData::CData { .. } => NodeType::CData,
            NodeData::Text { .. } => NodeType::Text,
            NodeData::Notation { .. } => NodeType::Notation,
            NodeData::Entity { .. } => NodeType::Entity,
            NodeData::DocumentType { .. } => NodeType::DocumentType,
        }
    }
}

/// One node of a document.
pub struct NodeView {
    /// The node under which this one hangs, if it hangs anywhere; the
    /// document node is written `DOMObject::document()`.
    pub parent: Option<DOMObject>,
    /// The nodes that hang under this one, in the order in which they were
    /// attached.
    pub children: Seq<DOMObject>,
    /// What the node holds.
    pub data: NodeData,
}

/// A document: the children of the document node, and for each kind the
/// nodes of that kind, each at the place that its handle gives.
pub struct DocumentView {
    pub root: Seq<DOMObject>,
    pub slots: Map<NodeType, Seq<NodeView>>,
}

/// Whether a node of kind `parent` may have a child of kind `child`.
pub open spec fn legal_child(parent: NodeType, child: NodeType) -> bool {
    match parent {
        NodeType::Document => child is Element || child is DocumentType || child
            is ProcessingInstruction || child is Comment,
        NodeType::Element => child is Element || child is Text || child is Comment || child
            is CData || child is ProcessingInstruction || child is EntityReference || child
            is Attribute || child is Namespace || child is DocumentType,
        NodeType::Attribute => child is Text || child is EntityReference,
        _ => false,
    }
}

/// The place of the first `c` in `s`, or the length of `s` if `c` is not in
/// it.
pub open spec fn first_index(s: Seq<DOMObject>, c: DOMObject) -> int
    decreases s.len(),
{
    if s.len() == 0 || s[0] == c {
        0
    } else {
        1 + first_index(s.drop_first(), c)
    }
}

/// `s` without its first `c`.
pub open spec fn without(s: Seq<DOMObject>, c: DOMObject) -> Seq<DOMObject> {
    if first_index(s, c) < s.len() {
        s.remove(first_index(s, c))
    } else {
        s
    }
}

/// The handle of the node at place `i` among the nodes of kind `kind`.
pub open spec fn handle_at(kind: NodeType, i: int) -> DOMObject {
    DOMObject { id: i as usize, node_type: kind }
}

/// Whether no handle stands twice in `s`.
pub open spec fn distinct(s: Seq<DOMObject>) -> bool {
    forall|i: int, j: int| 0 <= i < j < s.len() ==> s[i] != s[j]
}

/// The place of the first handle of `s` that names a node of kind `kind`,
/// or the length of `s` if none does.
pub open spec fn first_of_kind(s: Seq<DOMObject>, kind: NodeType) -> int
    decreases s.len(),
{
    if s.len() == 0 || s[0].node_type == kind {
        0
    } else {
        1 + first_of_kind(s.drop_first(), kind)
    }
}

/// Whether some handle of `s` names a node of kind `kind`.
pub open spec fn has_kind(s: Seq<DOMObject>, kind: NodeType) -> bool {
    exists|i: int| 0 <= i < s.len() && (#[trigger] s[i]).node_type == kind
}

impl DocumentView {
    /// The document without nodes.
    pub open spec fn empty() -> DocumentView {
        DocumentView { root: Seq::empty(), slots: Map::new(|k: NodeType| true, |k: NodeType| Seq::empty()) }
    }

    /// How many nodes of kind `kind` the document holds.
    pub open spec fn count(self, kind: NodeType) -> nat {
        self.slots[kind].len()
    }

    /// Whether `h` names a node of the document.
    pub open spec fn has(self, h: DOMObject) -> bool {
        h.id < self.slots[h.node_type].len()
    }

    /// The node that `h` names.
    pub open spec fn node(self, h: DOMObject) -> NodeView
        recommends
            self.has(h),
    {
        self.slots[h.node_type][h.id as int]
    }

    /// Whether `p` is the document node or a node of the document.
    pub open spec fn holds(self, p: DOMObject) -> bool {
        p == DOMObject::document() || self.has(p)
    }

    /// The children of `p`, where `p` may be the document node.
    pub open spec fn children(self, p: DOMObject) -> Seq<DOMObject> {
        if p == DOMObject::document() {
            self.root
        } else {
            self.node(p).children
        }
    }

    /// The handle that `parent` stands for: the document node for `None`.
    pub open spec fn target(parent: Option<DOMObject>) -> DOMObject {
        match parent {
            Some(p) => p,
            None => DOMObject::document(),
        }
    }

    /// The children of `parent`, or of the document node for `None`.
    pub open spec fn children_of(self, parent: Option<DOMObject>) -> Seq<DOMObject> {
        self.children(Self::target(parent))
    }

    /// The tree is sound: every node has a handle, every child is a node of
    /// the document that names its parent and may hang under it, no node
    /// hangs twice under one parent, every node that names a parent hangs
    /// under it, the document node has at most one element and one document
    /// type among its children, and every node holds what its kind holds.
    pub open spec fn wf(self) -> bool {
        &&& self.slots.dom() =~= Set::full()
        &&& forall|k: NodeType| !k.spec_is_stored() ==> (#[trigger] self.slots[k]).len() == 0
        &&& forall|k: NodeType| (#[trigger] self.slots[k]).len() <= usize::MAX
        &&& forall|p: DOMObject, j: int|
            self.holds(p) && 0 <= j < self.children(p).len() ==> self.linked(
                p,
                #[trigger] self.children(p)[j],
            )
        &&& forall|p: DOMObject| self.holds(p) ==> distinct(#[trigger] self.children(p))
        &&& forall|c: DOMObject| #[trigger]
            self.has(c) && self.node(c).parent is Some ==> self.hangs(c)
        &&& forall|i: int, j: int|
            0 <= i < self.root.len() && 0 <= j < self.root.len() && (#[trigger] self.root[i]).node_type
                == (#[trigger] self.root[j]).node_type && (self.root[i].node_type is Element
                || self.root[i].node_type is DocumentType) ==> i == j
        &&& forall|h: DOMObject| #[trigger] self.has(h) ==> self.node(h).data.kind() == h.node_type
    }

    /// The child `c` of `p` is a node of the document, names `p` as its
    /// parent and is of a kind that may hang under `p`.
    pub open spec fn linked(self, p: DOMObject, c: DOMObject) -> bool {
        &&& self.has(c)
        &&& self.node(c).parent == Some(p)
        &&& legal_child(p.node_type, c.node_type)
    }

    /// The node `c` hangs under the parent that it names.
    pub open spec fn hangs(self, c: DOMObject) -> bool {
        &&& self.holds(self.node(c).parent->0)
        &&& self.children(self.node(c).parent->0).contains(c)
    }

    /// The document with `node` added to the nodes of its kind.
    pub open spec fn with_new(self, node: NodeView) -> DocumentView {
        DocumentView {
            root: self.root,
            slots: self.slots.insert(node.data.kind(), self.slots[node.data.kind()].push(node)),
        }
    }

    /// The handle that the next node of kind `kind` gets.
    pub open spec fn next_handle(self, kind: NodeType) -> DOMObject {
        DOMObject { id: self.slots[kind].len() as usize, node_type: kind }
    }

    /// The document with `node` in the place of the node that `h` names.
    pub open spec fn with_node(self, h: DOMObject, node: NodeView) -> DocumentView {
        DocumentView {
            root: self.root,
            slots: self.slots.insert(h.node_type, self.slots[h.node_type].update(h.id as int, node)),
        }
    }

    /// The document with `children` as the children of `p`.
    pub open spec fn with_children(self, p: DOMObject, children: Seq<DOMObject>) -> DocumentView {
        if p == DOMObject::document() {
            DocumentView { root: children, slots: self.slots }
        } else {
            self.with_node(p, NodeView { children, ..self.node(p) })
        }
    }

    /// The document with `parent` as the parent that `c` names.
    pub open spec fn with_parent(self, c: DOMObject, parent: Option<DOMObject>) -> DocumentView {
        self.with_node(c, NodeView { parent, ..self.node(c) })
    }

    /// The document with `c` taken out from under its parent, if it has one.
    pub open spec fn detached(self, c: DOMObject) -> DocumentView {
        match self.node(c).parent {
            Some(q) => self.with_children(q, without(self.children(q), c)).with_parent(c, None),
            None => self,
        }
    }

    /// The document with `c` moved to the end of the children of `p`.
    pub open spec fn attached(self, p: DOMObject, c: DOMObject) -> DocumentView {
        let d = self.detached(c);
        d.with_children(p, d.children(p).push(c)).with_parent(c, Some(p))
    }

    /// Whether `c` may be attached under `parent` (the document node for
    /// `None`), and the code of the rule that forbids it where it may not.
    pub open spec fn append_check(self, parent: Option<DOMObject>, c: DOMObject) -> Result<
        (),
        DOMExceptionCode,
    > {
        if !self.has(c) {
            Err(DOMExceptionCode::NOT_FOUND_ERR)
        } else {
            match parent {
                None => {
                    if self.node(c).parent is Some || !legal_child(NodeType::Document, c.node_type)
                        || ((c.node_type is Element || c.node_type is DocumentType) && has_kind(
                        self.root,
                        c.node_type,
                    )) {
                        Err(DOMExceptionCode::HIERARCHY_REQUEST_ERR)
                    } else {
                        Ok(())
                    }
                },
                Some(p) => {
                    if !(p.node_type is Element || p.node_type is Attribute) {
                        Err(DOMExceptionCode::HIERARCHY_REQUEST_ERR)
                    } else if !self.has(p) {
                        Err(DOMExceptionCode::NOT_FOUND_ERR)
                    } else if !legal_child(p.node_type, c.node_type) {
                        Err(DOMExceptionCode::HIERARCHY_REQUEST_ERR)
                    } else {
                        Ok(())
                    }
                },
            }
        }
    }

    /// Whether `h` hangs, `depth` parents up, under the document node.
    pub open spec fn reaches_root(self, h: DOMObject, depth: nat) -> bool
        decreases depth,
    {
        self.has(h) && match self.node(h).parent {
            Some(p) => if p == DOMObject::document() {
                depth == 0
            } else {
                depth > 0 && self.reaches_root(p, (depth - 1) as nat)
            },
            None => false,
        }
    }

    /// Whether `h` is live: a node of the document that the document node
    /// reaches through children.
    pub open spec fn live(self, h: DOMObject) -> bool {
        exists|depth: nat| self.reaches_root(h, depth)
    }

    /// How many of the first `n` nodes of kind `kind` are live.
    pub open spec fn rank(self, kind: NodeType, n: int) -> nat
        decreases n,
    {
        if n <= 0 {
            0
        } else if self.live(handle_at(kind, n - 1)) {
            self.rank(kind, n - 1) + 1
        } else {
            self.rank(kind, n - 1)
        }
    }

    /// The handle that a live node has after the nodes that are not live
    /// have left: its place among the live nodes of its kind.
    pub open spec fn moved(self, h: DOMObject) -> DOMObject {
        DOMObject { id: self.rank(h.node_type, h.id as int) as usize, node_type: h.node_type }
    }

    /// The node `n` with every handle in it replaced by the handle that the
    /// node it names has afterwards.
    pub open spec fn moved_node(self, n: NodeView) -> NodeView {
        NodeView {
            parent: match n.parent {
                Some(p) => Some(self.moved(p)),
                None => None,
            },
            children: n.children.map_values(|c: DOMObject| self.moved(c)),
            data: n.data,
        }
    }

    /// The live nodes among the first `n` of kind `kind`, in their order,
    /// with the handles in them renewed.
    pub open spec fn kept(self, kind: NodeType, n: int) -> Seq<NodeView>
        decreases n,
    {
        if n <= 0 {
            Seq::empty()
        } else if self.live(handle_at(kind, n - 1)) {
            self.kept(kind, n - 1).push(self.moved_node(self.slots[kind][n - 1]))
        } else {
            self.kept(kind, n - 1)
        }
    }

    /// The document after a collection: of each kind the live nodes, in
    /// their order, each at its new place, and every handle in the tree
    /// renewed.
    pub open spec fn collected(self) -> DocumentView {
        DocumentView {
            root: self.root.map_values(|c: DOMObject| self.moved(c)),
            slots: Map::new(
                |k: NodeType| true,
                |k: NodeType| self.kept(k, self.slots[k].len() as int),
            ),
        }
    }
}

} // verus!
