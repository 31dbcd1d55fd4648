//! The tree edges of one node: its parent, its children and its mark.

use vstd::prelude::*;
use crate::model::{first_index, first_of_kind, has_kind, without};
use crate::object::{DOMObject, NodeType};

verus! {

/// The mark that a collection leaves on the nodes it has reached.
#[derive(Debug, Clone, Copy, PartialEq, Eq, PartialOrd, Ord, Structural)]
pub enum GcState {
    Unmark,
    Marked,
}

impl Default for GcState {
    fn default() -> (state: GcState)
        ensures
            state == GcState::Unmark,
    {
        GcState::Unmark
    }
}

/// `first_index` finds the first `c`: none stands before it, and one stands
/// at it unless `s` has none.
pub proof fn lemma_first_index(s: Seq<DOMObject>, c: DOMObject)
    ensures
        0 <= first_index(s, c) <= s.len(),
        forall|i: int| 0 <= i < first_index(s, c) ==> s[i] != c,
        first_index(s, c) < s.len() ==> s[first_index(s, c)] == c,
        first_index(s, c) < s.len() <==> s.contains(c),
    decreases s.len(),
{
    if s.len() == 0 || s[0] == c {
        if s.len() > 0 {
            assert(s[0] == c);
        }
    } else {
        let t = s.drop_first();
        lemma_first_index(t, c);
        assert forall|i: int| 0 <= i < first_index(s, c) implies s[i] != c by {
            if i > 0 {
                assert(s[i] == t[i - 1]);
            }
        }
        if first_index(t, c) < t.len() {
            assert(t[first_index(t, c)] == s[first_index(t, c) + 1]);
        }
        if s.contains(c) {
            let i = choose|i: int| 0 <= i < s.len() && s[i] == c;
            assert(t[i - 1] == c);
        }
    }
}

/// `first_of_kind` finds the first handle of the kind: none stands before
/// it, and one stands at it unless `s` has none.
pub proof fn lemma_first_of_kind(s: Seq<DOMObject>, kind: NodeType)
    ensures
        0 <= first_of_kind(s, kind) <= s.len(),
        forall|i: int| 0 <= i < first_of_kind(s, kind) ==> s[i].node_type != kind,
        first_of_kind(s, kind) < s.len() ==> s[first_of_kind(s, kind)].node_type == kind,
        first_of_kind(s, kind) < s.len() <==> has_kind(s, kind),
    decreases s.len(),
{
    if s.len() == 0 || s[0].node_type == kind {
    } else {
        let t = s.drop_first();
        lemma_first_of_kind(t, kind);
        assert forall|i: int| 0 <= i < first_of_kind(s, kind) implies s[i].node_type != kind by {
            if i > 0 {
                assert(s[i] == t[i - 1]);
            }
        }
        if first_of_kind(t, kind) < t.len() {
            assert(t[first_of_kind(t, kind)] == s[first_of_kind(t, kind) + 1]);
        }
        if has_kind(s, kind) {
            let i = choose|i: int| 0 <= i < s.len() && (#[trigger] s[i]).node_type == kind;
            assert(t[i - 1].node_type == kind);
        }
    }
}

/// The tree edges of one node.
pub struct Node {
    pub(crate) gc_state: GcState,
    pub(crate) parent: Option<DOMObject>,
    pub(crate) children: Vec<DOMObject>,
}

impl Node {
    /// Whether a collection has reached this node.
    pub open(crate) spec fn marked(&self) -> bool {
        self.gc_state == GcState::Marked
    }

    /// The parent that this node names.
    pub open(crate) spec fn parent_view(&self) -> Option<DOMObject> {
        self.parent
    }

    /// The children of this node.
    pub open(crate) spec fn children_view(&self) -> Seq<DOMObject> {
        self.children@
    }

    /// A node that hangs nowhere, has no children and no mark.
    pub fn new() -> (node: Node)
        ensures
            !node.marked(),
            node.parent_view() is None,
            node.children_view() == Seq::<DOMObject>::empty(),
    {
        Node { gc_state: GcState::Unmark, parent: None, children: Vec::new() }
    }

    /// Puts `child` at the end of the children.
    pub fn append_child(&mut self, child: DOMObject)
        ensures
            final(self).children_view() == old(self).children_view().push(child),
            final(self).parent_view() == old(self).parent_view(),
            final(self).marked() == old(self).marked(),
    {
        self.children.push(child);
    }

    /// Takes the first `child` out of the children, if it is among them.
    pub fn remove_child(&mut self, child: &DOMObject)
        ensures
            final(self).children_view() == without(old(self).children_view(), *child),
            final(self).parent_view() == old(self).parent_view(),
            final(self).marked() == old(self).marked(),
    {
        let mut index: usize = 0;
        while index < self.children.len()
            invariant
                index <= self.children.len(),
                forall|i: int| 0 <= i < index ==> self.children@[i] != *child,
                *self == *old(self),
            decreases self.children.len() - index,
        {
            if self.children[index] == *child {
                proof {
                    lemma_first_index(self.children@, *child);
                }
                self.children.remove(index);
                return ;
            }
            index = index + 1;
        }
        proof {
            lemma_first_index(self.children@, *child);
        }
    }

    /// The first child of kind `node_type`, if there is one.
    pub fn first_child_of(&self, node_type: &NodeType) -> (found: Option<&DOMObject>)
        ensures
            found is Some <==> has_kind(self.children_view(), *node_type),
            found matches Some(c) ==> *c == self.children_view()[first_of_kind(
                self.children_view(),
                *node_type,
            )] && c.node_type == *node_type,
    {
        let mut index: usize = 0;
        while index < self.children.len()
            invariant
                index <= self.children.len(),
                forall|i: int| 0 <= i < index ==> self.children@[i].node_type != *node_type,
            decreases self.children.len() - index,
        {
            if self.children[index].node_type == *node_type {
                proof {
                    lemma_first_of_kind(self.children@, *node_type);
                }
                return Some(&self.children[index]);
            }
            index = index + 1;
        }
        None
    }

    /// Says whether a collection has reached this node.
    pub fn is_marked(&self) -> (marked: bool)
        ensures
            marked == self.marked(),
    {
        self.gc_state == GcState::Marked
    }

    /// Marks the node as reached.
    pub fn gc_mark(&mut self)
        ensures
            final(self).marked(),
            final(self).children_view() == old(self).children_view(),
            final(self).parent_view() == old(self).parent_view(),
    {
        self.gc_state = GcState::Marked;
    }

    /// Says whether the node was marked, and takes the mark off.
    pub fn check_gc_state(&mut self) -> (was_marked: bool)
        ensures
            was_marked == old(self).marked(),
            !final(self).marked(),
            final(self).children_view() == old(self).children_view(),
            final(self).parent_view() == old(self).parent_view(),
    {
        if self.gc_state == GcState::Marked {
            self.gc_state = GcState::Unmark;
            true
        } else {
            false
        }
    }
}

} // verus!
