//! The node arena: a document owns its nodes, one collection for each kind,
//! and hands out handles to them.

use vstd::prelude::*;
use crate::errors::{DOMExceptionCode, Error};
use crate::model::{legal_child, without, DocumentView, NodeData, NodeView};
use crate::node::{GcState, Node};
use crate::object::{DOMObject, NodeType};
use crate::qname::{is_qname, QName, QNameView};
use crate::records::{
    opt_text, Attr, AttrData, CData, CDataData, Comment, CommentData, DocumentType,
    DocumentTypeData, Element, ElementData, Entity, EntityData, Namespace, NamespaceData,
    Notation, NotationData, ProcessingInstruction, ProcessingInstructionData, Record, Text,
    TextData,
};
use crate::tree_laws::{lemma_attached_wf, lemma_detached_wf, lemma_with_new_wf};

verus! {

/// The tree edges of the nodes of one collection.
pub open(crate) spec fn edges_of<T>(v: Seq<Record<T>>) -> Seq<Node> {
    Seq::new(v.len(), |i: int| v[i].node)
}

/// The handles that the nodes of one collection know as their own.
pub open(crate) spec fn objects_of<T>(v: Seq<Record<T>>) -> Seq<DOMObject> {
    Seq::new(v.len(), |i: int| v[i].object)
}

/// Whether each of the handles `s` of the nodes of kind `kind` is the
/// handle of its place.
pub open(crate) spec fn numbered(s: Seq<DOMObject>, kind: NodeType) -> bool {
    forall|i: int|
        0 <= i < s.len() ==> #[trigger] s[i] == (DOMObject { id: i as usize, node_type: kind })
}

/// Whether no node of `s` bears a mark.
pub open(crate) spec fn unmarked(s: Seq<Node>) -> bool {
    forall|i: int| 0 <= i < s.len() ==> (#[trigger] s[i]).gc_state == GcState::Unmark
}

/// A document: the owner of its nodes. Nodes are made by the `create_`
/// functions, hung into the tree by `append_child`, and leave only in
/// `gc`, which keeps the nodes that the document node reaches.
///
/// A handle is the place of a node in the collection of its kind. `gc`
/// closes the gaps that the nodes that left have made, so the places of
/// the nodes behind a gap change: the handles inside the tree are renewed,
/// and a handle that a caller took before `gc` must not be used after it.
pub struct Document<'a> {
    pub(crate) this_node: Node,
    pub(crate) doc_types: Vec<DocumentType<'a>>,
    pub(crate) els: Vec<Element<'a>>,
    pub(crate) attrs: Vec<Attr<'a>>,
    pub(crate) nss: Vec<Namespace<'a>>,
    pub(crate) pis: Vec<ProcessingInstruction<'a>>,
    pub(crate) cms: Vec<Comment<'a>>,
    pub(crate) texts: Vec<Text<'a>>,
    pub(crate) notations: Vec<Notation<'a>>,
    pub(crate) entities: Vec<Entity<'a>>,
    pub(crate) cdatas: Vec<CData<'a>>,
}

impl<'a> View for Document<'a> {
    type V = DocumentView;

    open(crate) spec fn view(&self) -> DocumentView {
        DocumentView {
            root: self.this_node.children@,
            slots: Map::new(|k: NodeType| true, |k: NodeType| self.views(k)),
        }
    }
}

impl<'a> Document<'a> {
    /// The nodes of kind `kind`, each at its place.
    pub open(crate) spec fn views(&self, kind: NodeType) -> Seq<NodeView> {
        match kind {
            NodeType::Element => Seq::new(self.els@.len(), |i: int| self.els@[i]@),
            NodeType::Attribute => Seq::new(self.attrs@.len(), |i: int| self.attrs@[i]@),
            NodeType::Namespace => Seq::new(self.nss@.len(), |i: int| self.nss@[i]@),
            NodeType::ProcessingInstruction => Seq::new(self.pis@.len(), |i: int| self.pis@[i]@),
            NodeType::Comment => Seq::new(self.cms@.len(), |i: int| self.cms@[i]@),
            NodeType::Text => Seq::new(self.texts@.len(), |i: int| self.texts@[i]@),
            NodeType::Notation => Seq::new(self.notations@.len(), |i: int| self.notations@[i]@),
            NodeType::Entity => Seq::new(self.entities@.len(), |i: int| self.entities@[i]@),
            NodeType::DocumentType => Seq::new(
                self.doc_types@.len(),
                |i: int| self.doc_types@[i]@,
            ),
            NodeType::CData => Seq::new(self.cdatas@.len(), |i: int| self.cdatas@[i]@),
            _ => Seq::empty(),
        }
    }

    /// The tree edges of the nodes of kind `kind`.
    pub open(crate) spec fn edges(&self, kind: NodeType) -> Seq<Node> {
        match kind {
            NodeType::Element => edges_of(self.els@),
            NodeType::Attribute => edges_of(self.attrs@),
            NodeType::Namespace => edges_of(self.nss@),
            NodeType::ProcessingInstruction => edges_of(self.pis@),
            NodeType::Comment => edges_of(self.cms@),
            NodeType::Text => edges_of(self.texts@),
            NodeType::Notation => edges_of(self.notations@),
            NodeType::Entity => edges_of(self.entities@),
            NodeType::DocumentType => edges_of(self.doc_types@),
            NodeType::CData => edges_of(self.cdatas@),
            _ => Seq::empty(),
        }
    }

    /// The handles that the nodes of kind `kind` know as their own.
    pub open(crate) spec fn objects(&self, kind: NodeType) -> Seq<DOMObject> {
        match kind {
            NodeType::Element => objects_of(self.els@),
            NodeType::Attribute => objects_of(self.attrs@),
            NodeType::Namespace => objects_of(self.nss@),
            NodeType::ProcessingInstruction => objects_of(self.pis@),
            NodeType::Comment => objects_of(self.cms@),
            NodeType::Text => objects_of(self.texts@),
            NodeType::Notation => objects_of(self.notations@),
            NodeType::Entity => objects_of(self.entities@),
            NodeType::DocumentType => objects_of(self.doc_types@),
            NodeType::CData => objects_of(self.cdatas@),
            _ => Seq::empty(),
        }
    }

    /// Every node knows its own handle.
    pub open(crate) spec fn all_numbered(&self) -> bool {
        forall|k: NodeType| numbered(#[trigger] self.objects(k), k)
    }

    /// No node bears a mark.
    pub open(crate) spec fn no_marks(&self) -> bool {
        &&& self.this_node.gc_state == GcState::Unmark
        &&& forall|k: NodeType| unmarked(#[trigger] self.edges(k))
    }

    /// The document is sound: its tree is (see `DocumentView::wf`), every
    /// node knows its own handle, and no mark is left from a collection.
    pub open(crate) spec fn wf(&self) -> bool {
        &&& self@.wf()
        &&& self.all_numbered()
        &&& self.no_marks()
        &&& self.this_node.parent is None
    }

    /// A sound document has a sound tree.
    pub proof fn lemma_wf(&self)
        requires
            self.wf(),
        ensures
            self@.wf(),
    {
    }

    /// Makes a document without nodes.
    pub fn new() -> (doc: Document<'a>)
        ensures
            doc.wf(),
            doc@ == DocumentView::empty(),
    {
        let doc = Document {
            this_node: Node::new(),
            doc_types: Vec::new(),
            els: Vec::new(),
            attrs: Vec::new(),
            nss: Vec::new(),
            pis: Vec::new(),
            cms: Vec::new(),
            texts: Vec::new(),
            notations: Vec::new(),
            entities: Vec::new(),
            cdatas: Vec::new(),
        };
        proof {
            assert forall|k: NodeType| #[trigger] doc.views(k) =~= Seq::empty() by {}
            assert(doc@.root =~= Seq::empty());
            assert(doc@.slots =~= DocumentView::empty().slots);
            assert forall|k: NodeType| unmarked(#[trigger] doc.edges(k)) by {}
        }
        doc
    }

    /// The tree of the document is the tree that the edges of its nodes
    /// make.
    pub(crate) proof fn lemma_edges(&self, k: NodeType)
        ensures
            self.edges(k).len() == self.views(k).len(),
            self.objects(k).len() == self.views(k).len(),
            self@.slots[k] == self.views(k),
            forall|i: int|
                0 <= i < self.views(k).len() ==> (#[trigger] self.views(k)[i]).parent
                    == self.edges(k)[i].parent && self.views(k)[i].children
                    == self.edges(k)[i].children@,
    {
    }

    /// The tree edges of the node that `h` names, if it names one.
    pub(crate) fn node_ref(&self, h: &DOMObject) -> (found: Option<&Node>)
        ensures
            found is Some <==> self@.has(*h),
            found matches Some(n) ==> *n == self.edges(h.node_type)[h.id as int] && n.parent
                == self@.node(*h).parent && n.children@ == self@.node(*h).children,
    {
        let id: usize = h.id;
        match h.node_type {
            NodeType::Element => if id < self.els.len() {
                Some(&self.els[id].node)
            } else {
                None
            },
            NodeType::Attribute => if id < self.attrs.len() {
                Some(&self.attrs[id].node)
            } else {
                None
            },
            NodeType::Namespace => if id < self.nss.len() {
                Some(&self.nss[id].node)
            } else {
                None
            },
            NodeType::ProcessingInstruction => if id < self.pis.len() {
                Some(&self.pis[id].node)
            } else {
                None
            },
            NodeType::Comment => if id < self.cms.len() {
                Some(&self.cms[id].node)
            } else {
                None
            },
            NodeType::Text => if id < self.texts.len() {
                Some(&self.texts[id].node)
            } else {
                None
            },
            NodeType::Notation => if id < self.notations.len() {
                Some(&self.notations[id].node)
            } else {
                None
            },
            NodeType::Entity => if id < self.entities.len() {
                Some(&self.entities[id].node)
            } else {
                None
            },
            NodeType::DocumentType => if id < self.doc_types.len() {
                Some(&self.doc_types[id].node)
            } else {
                None
            },
            NodeType::CData => if id < self.cdatas.len() {
                Some(&self.cdatas[id].node)
            } else {
                None
            },
            _ => None,
        }
    }

    /// The tree edges of the node that `h` names, to change them.
    pub(crate) fn node_mut(&mut self, h: DOMObject) -> (n: &mut Node)
        requires
            old(self)@.has(h),
        ensures
            *n == old(self).edges(h.node_type)[h.id as int],
            n.parent == old(self)@.node(h).parent,
            n.children@ == old(self)@.node(h).children,
            final(self).this_node == old(self).this_node,
            forall|k: NodeType| #[trigger] final(self).objects(k) == old(self).objects(k),
            forall|k: NodeType|
                k != h.node_type ==> #[trigger] final(self).edges(k) == old(self).edges(k),
            forall|k: NodeType|
                k != h.node_type ==> #[trigger] final(self).views(k) == old(self).views(k),
            final(self).edges(h.node_type) == old(self).edges(h.node_type).update(
                h.id as int,
                *final(n),
            ),
            final(self).views(h.node_type) == old(self).views(h.node_type).update(
                h.id as int,
                NodeView {
                    parent: final(n).parent,
                    children: final(n).children@,
                    data: old(self)@.node(h).data,
                },
            ),
    {
        let id: usize = h.id;
        match h.node_type {
            NodeType::Element => &mut self.els[id].node,
            NodeType::Attribute => &mut self.attrs[id].node,
            NodeType::Namespace => &mut self.nss[id].node,
            NodeType::ProcessingInstruction => &mut self.pis[id].node,
            NodeType::Comment => &mut self.cms[id].node,
            NodeType::Text => &mut self.texts[id].node,
            NodeType::Notation => &mut self.notations[id].node,
            NodeType::Entity => &mut self.entities[id].node,
            NodeType::DocumentType => &mut self.doc_types[id].node,
            NodeType::CData => &mut self.cdatas[id].node,
            _ => &mut self.this_node,
        }
    }

    /// Whether what `self` knows beside the tree is what `before` knew:
    /// the handles of the nodes and the marks.
    pub open(crate) spec fn same_frame(&self, before: &Document<'a>) -> bool {
        &&& self.this_node.gc_state == before.this_node.gc_state
        &&& self.this_node.parent == before.this_node.parent
        &&& forall|k: NodeType| #[trigger] self.objects(k) == before.objects(k)
        &&& forall|k: NodeType| (#[trigger] self.edges(k)).len() == before.edges(k).len()
        &&& forall|k: NodeType, i: int|
            0 <= i < self.edges(k).len() ==> (#[trigger] self.edges(k)[i]).gc_state
                == before.edges(k)[i].gc_state
    }

    /// Makes `parent` the parent that `c` names.
    pub(crate) fn set_parent(&mut self, c: DOMObject, parent: Option<DOMObject>)
        requires
            old(self)@.has(c),
        ensures
            final(self)@ == old(self)@.with_parent(c, parent),
            final(self).same_frame(old(self)),
    {
        let n = self.node_mut(c);
        n.parent = parent;
        proof {
            assert(self@.slots =~= old(self)@.with_parent(c, parent).slots);
        }
    }

    /// Takes `c` out of the children of `q`.
    pub(crate) fn drop_child(&mut self, q: DOMObject, c: DOMObject)
        requires
            old(self)@.holds(q),
        ensures
            final(self)@ == old(self)@.with_children(q, without(old(self)@.children(q), c)),
            final(self).same_frame(old(self)),
    {
        if q.node_type == NodeType::Document {
            self.this_node.remove_child(&c);
            proof {
                assert(self@.slots =~= old(self)@.slots);
            }
        } else {
            let n = self.node_mut(q);
            n.remove_child(&c);
            proof {
                assert(self@.slots =~= old(self)@.with_children(
                    q,
                    without(old(self)@.children(q), c),
                ).slots);
            }
        }
    }

    /// Puts `c` at the end of the children of `p`.
    pub(crate) fn push_child(&mut self, p: DOMObject, c: DOMObject)
        requires
            old(self)@.holds(p),
        ensures
            final(self)@ == old(self)@.with_children(p, old(self)@.children(p).push(c)),
            final(self).same_frame(old(self)),
    {
        if p.node_type == NodeType::Document {
            self.this_node.append_child(c);
            proof {
                assert(self@.slots =~= old(self)@.slots);
            }
        } else {
            let n = self.node_mut(p);
            n.append_child(c);
            proof {
                assert(self@.slots =~= old(self)@.with_children(
                    p,
                    old(self)@.children(p).push(c),
                ).slots);
            }
        }
    }

    /// A frame that is kept keeps the document sound where its tree is.
    pub(crate) proof fn lemma_frame(&self, before: &Document<'a>)
        requires
            before.wf(),
            self.same_frame(before),
            self@.wf(),
        ensures
            self.wf(),
    {
        assert forall|k: NodeType| unmarked(#[trigger] self.edges(k)) by {
            assert(unmarked(before.edges(k)));
        }
    }

    /// Returns how many elements, attributes and namespaces the document
    /// holds, those that hang nowhere among them.
    pub fn allocated(&self) -> (n: usize)
        requires
            self@.count(NodeType::Element) + self@.count(NodeType::Namespace) + self@.count(
                NodeType::Attribute,
            ) <= usize::MAX,
        ensures
            n == self@.count(NodeType::Element) + self@.count(NodeType::Namespace) + self@.count(
                NodeType::Attribute,
            ),
    {
        self.els.len() + self.nss.len() + self.attrs.len()
    }

    /// Checks that `child` may be attached under `parent`, the document
    /// node for `None`.
    fn append_child_check(&self, parent: Option<&DOMObject>, child: &DOMObject) -> (res: Result<
        (),
        Error<'a>,
    >)
        requires
            self.wf(),
        ensures
            match self@.append_check(deref_handle(parent), *child) {
                Ok(_) => res is Ok,
                Err(code) => res == Err::<(), Error<'a>>(Error::DOMException(code)),
            },
    {
        let node = match self.node_ref(child) {
            Some(node) => node,
            None => {
                return Err(Error::DOMException(DOMExceptionCode::NOT_FOUND_ERR));
            },
        };
        match parent {
            None => {
                if node.parent.is_some() {
                    return Err(Error::DOMException(DOMExceptionCode::HIERARCHY_REQUEST_ERR));
                }
                match child.node_type {
                    NodeType::Element | NodeType::DocumentType => {
                        if self.this_node.first_child_of(&child.node_type).is_some() {
                            return Err(
                                Error::DOMException(DOMExceptionCode::HIERARCHY_REQUEST_ERR),
                            );
                        }
                        Ok(())
                    },
                    NodeType::ProcessingInstruction | NodeType::Comment => Ok(()),
                    _ => Err(Error::DOMException(DOMExceptionCode::HIERARCHY_REQUEST_ERR)),
                }
            },
            Some(p) => {
                match p.node_type {
                    NodeType::Element | NodeType::Attribute => {},
                    _ => {
                        return Err(Error::DOMException(DOMExceptionCode::HIERARCHY_REQUEST_ERR));
                    },
                }
                if self.node_ref(p).is_none() {
                    return Err(Error::DOMException(DOMExceptionCode::NOT_FOUND_ERR));
                }
                if !may_hold(p.node_type, child.node_type) {
                    return Err(Error::DOMException(DOMExceptionCode::HIERARCHY_REQUEST_ERR));
                }
                Ok(())
            },
        }
    }

    /// Attaches `child` under `parent`, or under the document node if
    /// `parent` is `None`, as the last of the children. A child that hangs
    /// elsewhere is taken from there first: a node has one parent.
    ///
    /// Refused with `NOT_FOUND_ERR` where `child`, or `parent`, names no node
    /// of the document, and with `HIERARCHY_REQUEST_ERR` where the parent may
    /// not hold a child of that kind (see `legal_child`), where the document
    /// node is offered a second element or document type, and where it is
    /// offered a node that hangs somewhere already. A refusal changes
    /// nothing.
    pub fn append_child(&mut self, parent: Option<&DOMObject>, child: DOMObject) -> (res: Result<
        (),
        Error<'a>,
    >)
        requires
            old(self).wf(),
        ensures
            final(self).wf(),
            match old(self)@.append_check(deref_handle(parent), child) {
                Ok(_) => res is Ok && final(self)@ == old(self)@.attached(
                    DocumentView::target(deref_handle(parent)),
                    child,
                ),
                Err(code) => res == Err::<(), Error<'a>>(Error::DOMException(code)) && final(self)@
                    == old(self)@,
            },
    {
        match self.append_child_check(parent, &child) {
            Ok(_) => {},
            Err(e) => {
                return Err(e);
            },
        }
        let target = match parent {
            Some(p) => *p,
            None => DOMObject::default(),
        };
        proof {
            lemma_detached_wf(self@, child);
            lemma_attached_wf(self@, deref_handle(parent), child);
        }
        self.detach(child);
        self.push_child(target, child);
        self.set_parent(child, Some(target));
        proof {
            self.lemma_frame(old(self));
        }
        Ok(())
    }

    /// Takes `child` out from under its parent, if it has one.
    fn detach(&mut self, child: DOMObject)
        requires
            old(self).wf(),
            old(self)@.has(child),
        ensures
            final(self)@ == old(self)@.detached(child),
            final(self).same_frame(old(self)),
    {
        let old_parent = match self.node_ref(&child) {
            Some(node) => node.parent,
            None => None,
        };
        match old_parent {
            Some(q) => {
                assert(self@.hangs(child));
                self.drop_child(q, child);
                self.set_parent(child, None);
            },
            None => {},
        }
    }

    /// Returns the children of `parent`, or of the document node if
    /// `parent` is `None`, in the order in which they were attached. A
    /// handle that names no node of the document has no children.
    pub fn children(&self, parent: Option<&DOMObject>) -> (iter: NodeIterator<'_>)
        ensures
            iter.remaining() == match parent {
                None => self@.root,
                Some(p) => if self@.has(*p) {
                    self@.node(*p).children
                } else {
                    Seq::empty()
                },
            },
    {
        match parent {
            Some(p) => match self.node_ref(p) {
                Some(node) => {
                    assert(node.children@.subrange(0, node.children@.len() as int)
                        =~= node.children@);
                    NodeIterator::Iter { children: &node.children, next: 0 }
                },
                None => NodeIterator::Empty,
            },
            None => {
                assert(self.this_node.children@.subrange(0, self.this_node.children@.len() as int)
                    =~= self.this_node.children@);
                NodeIterator::Iter { children: &self.this_node.children, next: 0 }
            },
        }
    }
}

impl<'a> Document<'a> {
    /// A node added to the collection of its kind, with nothing else
    /// changed, gives the document with the new node, and keeps it sound.
    pub(crate) proof fn lemma_created(&self, before: &Document<'a>, node: NodeView)
        requires
            before.wf(),
            node.parent is None,
            node.children.len() == 0,
            node.data.kind().spec_is_stored(),
            self.this_node == before.this_node,
            self.views(node.data.kind()) == before.views(node.data.kind()).push(node),
            self.views(node.data.kind()).len() <= usize::MAX,
            self.edges(node.data.kind()).len() == before.edges(node.data.kind()).len() + 1,
            forall|i: int|
                0 <= i < before.edges(node.data.kind()).len() ==> self.edges(node.data.kind())[i]
                    == before.edges(node.data.kind())[i],
            self.edges(node.data.kind())[before.edges(node.data.kind()).len() as int].gc_state
                == GcState::Unmark,
            self.objects(node.data.kind()) == before.objects(node.data.kind()).push(
                before@.next_handle(node.data.kind()),
            ),
            forall|k: NodeType| k != node.data.kind() ==> #[trigger] self.views(k) == before.views(k),
            forall|k: NodeType| k != node.data.kind() ==> #[trigger] self.edges(k) == before.edges(k),
            forall|k: NodeType|
                k != node.data.kind() ==> #[trigger] self.objects(k) == before.objects(k),
        ensures
            self.wf(),
            self@ == before@.with_new(node),
    {
        let kind = node.data.kind();
        assert(self@.slots =~= before@.with_new(node).slots);
        lemma_with_new_wf(before@, node);
        assert forall|k: NodeType| numbered(#[trigger] self.objects(k), k) by {
            assert(numbered(before.objects(k), k));
            before.lemma_edges(k);
        }
        assert forall|k: NodeType| unmarked(#[trigger] self.edges(k)) by {
            assert(unmarked(before.edges(k)));
        }
    }

    /// Makes an element that hangs nowhere yet, and returns its handle.
    /// Refused where `tag` is no qualified name; the document is then unchanged.
    pub fn create_element(&mut self, tag: &'a str) -> (res: Result<DOMObject, Error<'a>>)
        requires
            old(self).wf(),
        ensures
            final(self).wf(),
            res is Ok <==> is_qname(tag@),
            res matches Ok(h) ==> h == old(self)@.next_handle(NodeType::Element) && final(self)@
                == old(self)@.with_new(
                NodeView { parent: None, children: Seq::empty(), data: NodeData::Element { tag: QNameView::of_text(tag@) } },
            ),
            res matches Err(e) ==> e == Error::QName(tag) && final(self)@ == old(self)@,
    {
        let tag_name = match QName::parse(tag) {
            Ok(name) => name,
            Err(e) => {
                return Err(e);
            },
        };
        let object = DOMObject::new(self.els.len(), NodeType::Element);
        let ghost node = NodeView { parent: None, children: Seq::empty(), data: NodeData::Element { tag: QNameView::of_text(tag@) } };
        self.els.push(Record { object, node: Node::new(), data: ElementData { tag: tag_name } });
        let count: usize = self.els.len();
        proof {
            assert(count <= usize::MAX);
            assert(self.views(NodeType::Element) =~= old(self).views(NodeType::Element).push(node));
            assert(self.objects(NodeType::Element) =~= old(self).objects(NodeType::Element).push(object));
            self.lemma_created(old(self), node);
        }
        Ok(object)
    }

    /// Makes an attribute that hangs nowhere yet, and returns its handle.
    /// Refused where `name` is no qualified name; the document is then unchanged.
    pub fn create_attr(&mut self, name: &'a str, value: &'a str) -> (res: Result<DOMObject, Error<'a>>)
        requires
            old(self).wf(),
        ensures
            final(self).wf(),
            res is Ok <==> is_qname(name@),
            res matches Ok(h) ==> h == old(self)@.next_handle(NodeType::Attribute) && final(self)@
                == old(self)@.with_new(
                NodeView { parent: None, children: Seq::empty(), data: NodeData::Attr { name: QNameView::of_text(name@), value: value@ } },
            ),
            res matches Err(e) ==> e == Error::QName(name) && final(self)@ == old(self)@,
    {
        let name_name = match QName::parse(name) {
            Ok(name) => name,
            Err(e) => {
                return Err(e);
            },
        };
        let object = DOMObject::new(self.attrs.len(), NodeType::Attribute);
        let ghost node = NodeView { parent: None, children: Seq::empty(), data: NodeData::Attr { name: QNameView::of_text(name@), value: value@ } };
        self.attrs.push(Record { object, node: Node::new(), data: AttrData { name: name_name, value } });
        let count: usize = self.attrs.len();
        proof {
            assert(count <= usize::MAX);
            assert(self.views(NodeType::Attribute) =~= old(self).views(NodeType::Attribute).push(node));
            assert(self.objects(NodeType::Attribute) =~= old(self).objects(NodeType::Attribute).push(object));
            self.lemma_created(old(self), node);
        }
        Ok(object)
    }

    /// Makes a namespace that hangs nowhere yet, and returns its handle.
    pub fn create_ns(&mut self, prefix: &'a str, href: &'a str) -> (res: Result<DOMObject, Error<'a>>)
        requires
            old(self).wf(),
        ensures
            final(self).wf(),
            res matches Ok(h) && h == old(self)@.next_handle(NodeType::Namespace),
            final(self)@ == old(self)@.with_new(
                NodeView { parent: None, children: Seq::empty(), data: NodeData::Namespace { prefix: prefix@, href: href@ } },
            ),
    {
        let object = DOMObject::new(self.nss.len(), NodeType::Namespace);
        let ghost node = NodeView { parent: None, children: Seq::empty(), data: NodeData::Namespace { prefix: prefix@, href: href@ } };
        self.nss.push(Record { object, node: Node::new(), data: NamespaceData { prefix, href } });
        let count: usize = self.nss.len();
        proof {
            assert(count <= usize::MAX);
            assert(self.views(NodeType::Namespace) =~= old(self).views(NodeType::Namespace).push(node));
            assert(self.objects(NodeType::Namespace) =~= old(self).objects(NodeType::Namespace).push(object));
            self.lemma_created(old(self), node);
        }
        Ok(object)
    }

    /// Makes a processing instruction that hangs nowhere yet, and returns its handle.
    pub fn create_pi(&mut self, target: &'a str, data: &'a str) -> (res: Result<DOMObject, Error<'a>>)
        requires
            old(self).wf(),
        ensures
            final(self).wf(),
            res matches Ok(h) && h == old(self)@.next_handle(NodeType::ProcessingInstruction),
            final(self)@ == old(self)@.with_new(
                NodeView { parent: None, children: Seq::empty(), data: NodeData::ProcessingInstruction { target: target@, data: data@ } },
            ),
    {
        let object = DOMObject::new(self.pis.len(), NodeType::ProcessingInstruction);
        let ghost node = NodeView { parent: None, children: Seq::empty(), data: NodeData::ProcessingInstruction { target: target@, data: data@ } };
        self.pis.push(Record { object, node: Node::new(), data: ProcessingInstructionData { target, data } });
        let count: usize = self.pis.len();
        proof {
            assert(count <= usize::MAX);
            assert(self.views(NodeType::ProcessingInstruction) =~= old(self).views(NodeType::ProcessingInstruction).push(node));
            assert(self.objects(NodeType::ProcessingInstruction) =~= old(self).objects(NodeType::ProcessingInstruction).push(object));
            self.lemma_created(old(self), node);
        }
        Ok(object)
    }

    /// Makes a notation that hangs nowhere yet, and returns its handle.
    pub fn create_notation(&mut self, public_id: &'a str, system_id: &'a str) -> (res: Result<DOMObject, Error<'a>>)
        requires
            old(self).wf(),
        ensures
            final(self).wf(),
            res matches Ok(h) && h == old(self)@.next_handle(NodeType::Notation),
            final(self)@ == old(self)@.with_new(
                NodeView { parent: None, children: Seq::empty(), data: NodeData::Notation { public_id: public_id@, system_id: system_id@ } },
            ),
    {
        let object = DOMObject::new(self.notations.len(), NodeType::Notation);
        let ghost node = NodeView { parent: None, children: Seq::empty(), data: NodeData::Notation { public_id: public_id@, system_id: system_id@ } };
        self.notations.push(Record { object, node: Node::new(), data: NotationData { public_id, system_id } });
        let count: usize = self.notations.len();
        proof {
            assert(count <= usize::MAX);
            assert(self.views(NodeType::Notation) =~= old(self).views(NodeType::Notation).push(node));
            assert(self.objects(NodeType::Notation) =~= old(self).objects(NodeType::Notation).push(object));
            self.lemma_created(old(self), node);
        }
        Ok(object)
    }

    /// Makes an entity that hangs nowhere yet, and returns its handle.
    pub fn create_entity(&mut self, public_id: &'a str, system_id: &'a str, notation_name: Option<&'a str>) -> (res: Result<DOMObject, Error<'a>>)
        requires
            old(self).wf(),
        ensures
            final(self).wf(),
            res matches Ok(h) && h == old(self)@.next_handle(NodeType::Entity),
            final(self)@ == old(self)@.with_new(
                NodeView { parent: None, children: Seq::empty(), data: NodeData::Entity { public_id: public_id@, system_id: system_id@, notation_name: opt_text(notation_name) } },
            ),
    {
        let object = DOMObject::new(self.entities.len(), NodeType::Entity);
        let ghost node = NodeView { parent: None, children: Seq::empty(), data: NodeData::Entity { public_id: public_id@, system_id: system_id@, notation_name: opt_text(notation_name) } };
        self.entities.push(Record { object, node: Node::new(), data: EntityData { public_id, system_id, notation_name } });
        let count: usize = self.entities.len();
        proof {
            assert(count <= usize::MAX);
            assert(self.views(NodeType::Entity) =~= old(self).views(NodeType::Entity).push(node));
            assert(self.objects(NodeType::Entity) =~= old(self).objects(NodeType::Entity).push(object));
            self.lemma_created(old(self), node);
        }
        Ok(object)
    }

    /// Makes a comment that hangs nowhere yet, and returns its handle.
    pub fn create_comment(&mut self, data: &'a str) -> (res: Result<DOMObject, Error<'a>>)
        requires
            old(self).wf(),
        ensures
            final(self).wf(),
            res matches Ok(h) && h == old(self)@.next_handle(NodeType::Comment),
            final(self)@ == old(self)@.with_new(
                NodeView { parent: None, children: Seq::empty(), data: NodeData::Comment { data: data@ } },
            ),
    {
        let object = DOMObject::new(self.cms.len(), NodeType::Comment);
        let ghost node = NodeView { parent: None, children: Seq::empty(), data: NodeData::Comment { data: data@ } };
        self.cms.push(Record { object, node: Node::new(), data: CommentData { data } });
        let count: usize = self.cms.len();
        proof {
            assert(count <= usize::MAX);
            assert(self.views(NodeType::Comment) =~= old(self).views(NodeType::Comment).push(node));
            assert(self.objects(NodeType::Comment) =~= old(self).objects(NodeType::Comment).push(object));
            self.lemma_created(old(self), node);
        }
        Ok(object)
    }

    /// Makes a CDATA section that hangs nowhere yet, and returns its handle.
    pub fn create_cdata(&mut self, data: &'a str) -> (res: Result<DOMObject, Error<'a>>)
        requires
            old(self).wf(),
        ensures
            final(self).wf(),
            res matches Ok(h) && h == old(self)@.next_handle(NodeType::CData),
            final(self)@ == old(self)@.with_new(
                NodeView { parent: None, children: Seq::empty(), data: NodeData::CData { data: data@ } },
            ),
    {
        let object = DOMObject::new(self.cdatas.len(), NodeType::CData);
        let ghost node = NodeView { parent: None, children: Seq::empty(), data: NodeData::CData { data: data@ } };
        self.cdatas.push(Record { object, node: Node::new(), data: CDataData { data } });
        let count: usize = self.cdatas.len();
        proof {
            assert(count <= usize::MAX);
            assert(self.views(NodeType::CData) =~= old(self).views(NodeType::CData).push(node));
            assert(self.objects(NodeType::CData) =~= old(self).objects(NodeType::CData).push(object));
            self.lemma_created(old(self), node);
        }
        Ok(object)
    }

    /// Makes a text node that hangs nowhere yet, and returns its handle.
    pub fn create_text(&mut self, data: &'a str) -> (res: Result<DOMObject, Error<'a>>)
        requires
            old(self).wf(),
        ensures
            final(self).wf(),
            res matches Ok(h) && h == old(self)@.next_handle(NodeType::Text),
            final(self)@ == old(self)@.with_new(
                NodeView { parent: None, children: Seq::empty(), data: NodeData::Text { data: data@ } },
            ),
    {
        let object = DOMObject::new(self.texts.len(), NodeType::Text);
        let ghost node = NodeView { parent: None, children: Seq::empty(), data: NodeData::Text { data: data@ } };
        self.texts.push(Record { object, node: Node::new(), data: TextData { data } });
        let count: usize = self.texts.len();
        proof {
            assert(count <= usize::MAX);
            assert(self.views(NodeType::Text) =~= old(self).views(NodeType::Text).push(node));
            assert(self.objects(NodeType::Text) =~= old(self).objects(NodeType::Text).push(object));
            self.lemma_created(old(self), node);
        }
        Ok(object)
    }

    /// Makes a document type that hangs nowhere yet, and returns its handle.
    pub fn create_document_type(&mut self, public_id: &'a str, system_id: &'a str, internal_subset: &'a str) -> (res: Result<DOMObject, Error<'a>>)
        requires
            old(self).wf(),
        ensures
            final(self).wf(),
            res matches Ok(h) && h == old(self)@.next_handle(NodeType::DocumentType),
            final(self)@ == old(self)@.with_new(
                NodeView { parent: None, children: Seq::empty(), data: NodeData::DocumentType { public_id: public_id@, system_id: system_id@, internal_subset: internal_subset@ } },
            ),
    {
        let object = DOMObject::new(self.doc_types.len(), NodeType::DocumentType);
        let ghost node = NodeView { parent: None, children: Seq::empty(), data: NodeData::DocumentType { public_id: public_id@, system_id: system_id@, internal_subset: internal_subset@ } };
        self.doc_types.push(Record { object, node: Node::new(), data: DocumentTypeData { public_id, system_id, internal_subset } });
        let count: usize = self.doc_types.len();
        proof {
            assert(count <= usize::MAX);
            assert(self.views(NodeType::DocumentType) =~= old(self).views(NodeType::DocumentType).push(node));
            assert(self.objects(NodeType::DocumentType) =~= old(self).objects(NodeType::DocumentType).push(object));
            self.lemma_created(old(self), node);
        }
        Ok(object)
    }

    /// Returns the element that `object` names, if it names one. The handle
    /// must be that of an element.
    pub fn element(&self, object: &DOMObject) -> (found: Option<&Element<'a>>)
        requires
            object.node_type == NodeType::Element,
        ensures
            found is Some <==> self@.has(*object),
            found matches Some(r) ==> r@ == self@.node(*object) && (self.wf() ==> r.object_view()
                == *object),
    {
        if object.id < self.els.len() {
            proof {
                self.lemma_edges(NodeType::Element);
                if self.wf() {
                    assert(numbered(self.objects(NodeType::Element), NodeType::Element));
                    assert(self.objects(NodeType::Element)[object.id as int] == *object);
                }
            }
            Some(&self.els[object.id])
        } else {
            None
        }
    }

    /// Returns the attribute that `object` names, if it names one. The handle
    /// must be that of an attribute.
    pub fn attr(&self, object: &DOMObject) -> (found: Option<&Attr<'a>>)
        requires
            object.node_type == NodeType::Attribute,
        ensures
            found is Some <==> self@.has(*object),
            found matches Some(r) ==> r@ == self@.node(*object) && (self.wf() ==> r.object_view()
                == *object),
    {
        if object.id < self.attrs.len() {
            proof {
                self.lemma_edges(NodeType::Attribute);
                if self.wf() {
                    assert(numbered(self.objects(NodeType::Attribute), NodeType::Attribute));
                    assert(self.objects(NodeType::Attribute)[object.id as int] == *object);
                }
            }
            Some(&self.attrs[object.id])
        } else {
            None
        }
    }

    /// Returns the namespace that `object` names, if it names one. The handle
    /// must be that of a namespace.
    pub fn ns(&self, object: &DOMObject) -> (found: Option<&Namespace<'a>>)
        requires
            object.node_type == NodeType::Namespace,
        ensures
            found is Some <==> self@.has(*object),
            found matches Some(r) ==> r@ == self@.node(*object) && (self.wf() ==> r.object_view()
                == *object),
    {
        if object.id < self.nss.len() {
            proof {
                self.lemma_edges(NodeType::Namespace);
                if self.wf() {
                    assert(numbered(self.objects(NodeType::Namespace), NodeType::Namespace));
                    assert(self.objects(NodeType::Namespace)[object.id as int] == *object);
                }
            }
            Some(&self.nss[object.id])
        } else {
            None
        }
    }

    /// Returns the processing instruction that `object` names, if it names one. The handle
    /// must be that of a processing instruction.
    pub fn pi(&self, object: &DOMObject) -> (found: Option<&ProcessingInstruction<'a>>)
        requires
            object.node_type == NodeType::ProcessingInstruction,
        ensures
            found is Some <==> self@.has(*object),
            found matches Some(r) ==> r@ == self@.node(*object) && (self.wf() ==> r.object_view()
                == *object),
    {
        if object.id < self.pis.len() {
            proof {
                self.lemma_edges(NodeType::ProcessingInstruction);
                if self.wf() {
                    assert(numbered(self.objects(NodeType::ProcessingInstruction), NodeType::ProcessingInstruction));
                    assert(self.objects(NodeType::ProcessingInstruction)[object.id as int] == *object);
                }
            }
            Some(&self.pis[object.id])
        } else {
            None
        }
    }

    /// Returns the notation that `object` names, if it names one. The handle
    /// must be that of a notation.
    pub fn notation(&self, object: &DOMObject) -> (found: Option<&Notation<'a>>)
        requires
            object.node_type == NodeType::Notation,
        ensures
            found is Some <==> self@.has(*object),
            found matches Some(r) ==> r@ == self@.node(*object) && (self.wf() ==> r.object_view()
                == *object),
    {
        if object.id < self.notations.len() {
            proof {
                self.lemma_edges(NodeType::Notation);
                if self.wf() {
                    assert(numbered(self.objects(NodeType::Notation), NodeType::Notation));
                    assert(self.objects(NodeType::Notation)[object.id as int] == *object);
                }
            }
            Some(&self.notations[object.id])
        } else {
            None
        }
    }

    /// Returns the entity that `object` names, if it names one. The handle
    /// must be that of an entity.
    pub fn entity(&self, object: &DOMObject) -> (found: Option<&Entity<'a>>)
        requires
            object.node_type == NodeType::Entity,
        ensures
            found is Some <==> self@.has(*object),
            found matches Some(r) ==> r@ == self@.node(*object) && (self.wf() ==> r.object_view()
                == *object),
    {
        if object.id < self.entities.len() {
            proof {
                self.lemma_edges(NodeType::Entity);
                if self.wf() {
                    assert(numbered(self.objects(NodeType::Entity), NodeType::Entity));
                    assert(self.objects(NodeType::Entity)[object.id as int] == *object);
                }
            }
            Some(&self.entities[object.id])
        } else {
            None
        }
    }

    /// Returns the comment that `object` names, if it names one. The handle
    /// must be that of a comment.
    pub fn comment(&self, object: &DOMObject) -> (found: Option<&Comment<'a>>)
        requires
            object.node_type == NodeType::Comment,
        ensures
            found is Some <==> self@.has(*object),
            found matches Some(r) ==> r@ == self@.node(*object) && (self.wf() ==> r.object_view()
                == *object),
    {
        if object.id < self.cms.len() {
            proof {
                self.lemma_edges(NodeType::Comment);
                if self.wf() {
                    assert(numbered(self.objects(NodeType::Comment), NodeType::Comment));
                    assert(self.objects(NodeType::Comment)[object.id as int] == *object);
                }
            }
            Some(&self.cms[object.id])
        } else {
            None
        }
    }

    /// Returns the CDATA section that `object` names, if it names one. The handle
    /// must be that of a CDATA section.
    pub fn cdata(&self, object: &DOMObject) -> (found: Option<&CData<'a>>)
        requires
            object.node_type == NodeType::CData,
        ensures
            found is Some <==> self@.has(*object),
            found matches Some(r) ==> r@ == self@.node(*object) && (self.wf() ==> r.object_view()
                == *object),
    {
        if object.id < self.cdatas.len() {
            proof {
                self.lemma_edges(NodeType::CData);
                if self.wf() {
                    assert(numbered(self.objects(NodeType::CData), NodeType::CData));
                    assert(self.objects(NodeType::CData)[object.id as int] == *object);
                }
            }
            Some(&self.cdatas[object.id])
        } else {
            None
        }
    }

    /// Returns the text node that `object` names, if it names one. The handle
    /// must be that of a text node.
    pub fn text(&self, object: &DOMObject) -> (found: Option<&Text<'a>>)
        requires
            object.node_type == NodeType::Text,
        ensures
            found is Some <==> self@.has(*object),
            found matches Some(r) ==> r@ == self@.node(*object) && (self.wf() ==> r.object_view()
                == *object),
    {
        if object.id < self.texts.len() {
            proof {
                self.lemma_edges(NodeType::Text);
                if self.wf() {
                    assert(numbered(self.objects(NodeType::Text), NodeType::Text));
                    assert(self.objects(NodeType::Text)[object.id as int] == *object);
                }
            }
            Some(&self.texts[object.id])
        } else {
            None
        }
    }

    /// Returns the document type that `object` names, if it names one. The handle
    /// must be that of a document type.
    pub fn doc_type(&self, object: &DOMObject) -> (found: Option<&DocumentType<'a>>)
        requires
            object.node_type == NodeType::DocumentType,
        ensures
            found is Some <==> self@.has(*object),
            found matches Some(r) ==> r@ == self@.node(*object) && (self.wf() ==> r.object_view()
                == *object),
    {
        if object.id < self.doc_types.len() {
            proof {
                self.lemma_edges(NodeType::DocumentType);
                if self.wf() {
                    assert(numbered(self.objects(NodeType::DocumentType), NodeType::DocumentType));
                    assert(self.objects(NodeType::DocumentType)[object.id as int] == *object);
                }
            }
            Some(&self.doc_types[object.id])
        } else {
            None
        }
    }

}

impl<'a> Default for Document<'a> {
    /// A document without nodes.
    fn default() -> (doc: Document<'a>)
        ensures
            doc.wf(),
            doc@ == DocumentView::empty(),
    {
        Document::new()
    }
}

/// The handle behind `parent`, if there is one.
pub open spec fn deref_handle(parent: Option<&DOMObject>) -> Option<DOMObject> {
    match parent {
        Some(p) => Some(*p),
        None => None,
    }
}

/// Whether a node of kind `parent` may have a child of kind `child`.
pub fn may_hold(parent: NodeType, child: NodeType) -> (legal: bool)
    ensures
        legal == legal_child(parent, child),
{
    match parent {
        NodeType::Document => match child {
            NodeType::Element
            | NodeType::DocumentType
            | NodeType::ProcessingInstruction
            | NodeType::Comment => true,
            _ => false,
        },
        NodeType::Element => match child {
            NodeType::Element
            | NodeType::Text
            | NodeType::Comment
            | NodeType::CData
            | NodeType::ProcessingInstruction
            | NodeType::EntityReference
            | NodeType::Attribute
            | NodeType::Namespace
            | NodeType::DocumentType => true,
            _ => false,
        },
        NodeType::Attribute => match child {
            NodeType::Text | NodeType::EntityReference => true,
            _ => false,
        },
        _ => false,
    }
}

/// The children of one node, handed out one at a time.
pub enum NodeIterator<'b> {
    /// The children, and the place of the one that comes next.
    Iter { children: &'b Vec<DOMObject>, next: usize },
    /// No children.
    Empty,
}

impl<'b> NodeIterator<'b> {
    /// The children that are still to come.
    pub open spec fn remaining(&self) -> Seq<DOMObject> {
        match *self {
            NodeIterator::Iter { children, next } => if next <= children@.len() {
                children@.subrange(next as int, children@.len() as int)
            } else {
                Seq::empty()
            },
            NodeIterator::Empty => Seq::empty(),
        }
    }

    /// Returns the next child, if one is left.
    pub fn next(&mut self) -> (child: Option<&'b DOMObject>)
        ensures
            old(self).remaining().len() == 0 ==> child is None && final(self).remaining()
                == old(self).remaining(),
            old(self).remaining().len() > 0 ==> child == Some(&old(self).remaining()[0])
                && final(self).remaining() == old(self).remaining().drop_first(),
    {
        match self {
            NodeIterator::Iter { children, next } => {
                if *next < children.len() {
                    let child = &children[*next];
                    *next = *next + 1;
                    Some(child)
                } else {
                    None
                }
            },
            NodeIterator::Empty => None,
        }
    }
}

} // verus!
