//! Tree edges kept by a node itself: the parent and the children, where the
//! order of the children does not matter.

use vstd::prelude::*;
use crate::model::first_index;
use crate::node::lemma_first_index;
use crate::object::DOMObject;

verus! {

/// `s` without its first `c`, the last handle of `s` taking the place of
/// the one that left.
pub open spec fn swap_removed(s: Seq<DOMObject>, c: DOMObject) -> Seq<DOMObject> {
    if first_index(s, c) < s.len() {
        s.update(first_index(s, c), s.last()).drop_last()
    } else {
        s
    }
}

/// `s` with `new` in the place of its first `old`.
pub open spec fn replaced(s: Seq<DOMObject>, old: DOMObject, new: DOMObject) -> Seq<DOMObject> {
    if first_index(s, old) < s.len() {
        s.update(first_index(s, old), new)
    } else {
        s
    }
}

/// What an `XmlNode` holds.
pub struct XmlNodeView {
    pub parent: Option<DOMObject>,
    pub children: Seq<DOMObject>,
}

/// The tree edges of a node that may have children.
#[derive(Debug)]
pub struct XmlNode {
    parent: Option<DOMObject>,
    children: Vec<DOMObject>,
}

impl View for XmlNode {
    type V = XmlNodeView;

    closed spec fn view(&self) -> XmlNodeView {
        XmlNodeView { parent: self.parent, children: self.children@ }
    }
}

impl XmlNode {
    /// A node without parent and without children.
    pub fn new() -> (node: XmlNode)
        ensures
            node@.parent is None,
            node@.children == Seq::<DOMObject>::empty(),
    {
        XmlNode { parent: None, children: Vec::new() }
    }

    /// Returns the parent of this node, if it has one.
    pub fn parent(&self) -> (parent: Option<&DOMObject>)
        ensures
            parent == match self@.parent {
                Some(p) => Some(&p),
                None => None,
            },
    {
        self.parent.as_ref()
    }

    /// Makes `parent` the parent of this node.
    pub fn set_parent(&mut self, parent: DOMObject)
        ensures
            final(self)@ == (XmlNodeView { parent: Some(parent), children: old(self)@.children }),
    {
        self.parent = Some(parent);
    }

    /// Returns the children of this node.
    pub fn children(&self) -> (children: &[DOMObject])
        ensures
            children@ == self@.children,
    {
        self.children.as_slice()
    }

    /// Takes the first `node` out of the children, if it is among them. The
    /// last child moves into its place.
    pub fn remove_child(&mut self, node: &DOMObject)
        ensures
            final(self)@ == (XmlNodeView {
                parent: old(self)@.parent,
                children: swap_removed(old(self)@.children, *node),
            }),
    {
        let mut index: usize = 0;
        while index < self.children.len()
            invariant
                index <= self.children.len(),
                forall|i: int| 0 <= i < index ==> self.children@[i] != *node,
                *self == *old(self),
            decreases self.children.len() - index,
        {
            if self.children[index] == *node {
                proof {
                    lemma_first_index(self.children@, *node);
                }
                self.children.swap_remove(index);
                return ;
            }
            index = index + 1;
        }
        proof {
            lemma_first_index(self.children@, *node);
        }
    }

    /// Puts `node` at the end of the children. If it is among them already
    /// it is taken out first. Returns true.
    pub fn append_child(&mut self, node: DOMObject) -> (done: bool)
        ensures
            done,
            final(self)@ == (XmlNodeView {
                parent: old(self)@.parent,
                children: swap_removed(old(self)@.children, node).push(node),
            }),
    {
        self.remove_child(&node);
        self.children.push(node);
        true
    }

    /// Puts `new_child` in the place of the first `old_child` among the
    /// children, and says whether `old_child` was among them.
    pub fn replace_child(&mut self, old_child: &DOMObject, new_child: DOMObject) -> (found: bool)
        ensures
            found == old(self)@.children.contains(*old_child),
            final(self)@ == (XmlNodeView {
                parent: old(self)@.parent,
                children: replaced(old(self)@.children, *old_child, new_child),
            }),
    {
        let mut index: usize = 0;
        while index < self.children.len()
            invariant
                index <= self.children.len(),
                forall|i: int| 0 <= i < index ==> self.children@[i] != *old_child,
                *self == *old(self),
            decreases self.children.len() - index,
        {
            if self.children[index] == *old_child {
                proof {
                    lemma_first_index(self.children@, *old_child);
                }
                self.children[index] = new_child;
                return true;
            }
            index = index + 1;
        }
        proof {
            lemma_first_index(self.children@, *old_child);
        }
        false
    }

    /// Returns whether this node has any children.
    pub fn has_children(&self) -> (has: bool)
        ensures
            has == (self@.children.len() > 0),
    {
        !self.children.is_empty()
    }
}

impl Default for XmlNode {
    fn default() -> (node: XmlNode)
        ensures
            node@.parent is None,
            node@.children == Seq::<DOMObject>::empty(),
    {
        XmlNode::new()
    }
}

/// The tree edge of a node that has no children: its parent.
#[derive(Debug)]
pub struct XmlLeaf(Option<DOMObject>);

impl View for XmlLeaf {
    type V = Option<DOMObject>;

    closed spec fn view(&self) -> Option<DOMObject> {
        self.0
    }
}

impl XmlLeaf {
    /// A leaf without parent.
    pub fn new() -> (leaf: XmlLeaf)
        ensures
            leaf@ is None,
    {
        XmlLeaf(None)
    }

    /// Returns the parent of this leaf, if it has one.
    pub fn parent(&self) -> (parent: Option<&DOMObject>)
        ensures
            parent == match self@ {
                Some(p) => Some(&p),
                None => None,
            },
    {
        self.0.as_ref()
    }

    /// Makes `parent` the parent of this leaf.
    pub fn set_parent(&mut self, parent: DOMObject)
        ensures
            final(self)@ == Some(parent),
    {
        self.0 = Some(parent);
    }
}

impl Default for XmlLeaf {
    fn default() -> (leaf: XmlLeaf)
        ensures
            leaf@ is None,
    {
        XmlLeaf::new()
    }
}

} // verus!
