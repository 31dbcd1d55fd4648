//! What holds of the model of a document: that making a node and attaching
//! one keep the tree sound.

use vstd::prelude::*;
use crate::errors::DOMExceptionCode;
use crate::model::{distinct, first_index, has_kind, without, DocumentView, NodeView};
use crate::node::lemma_first_index;
use crate::object::{DOMObject, NodeType};

verus! {

/// Taking a handle out of a list in which nothing stands twice leaves a list
/// without it, in which nothing stands twice, and which holds the others in
/// their order.
pub proof fn lemma_without(s: Seq<DOMObject>, c: DOMObject)
    requires
        distinct(s),
    ensures
        distinct(without(s, c)),
        !without(s, c).contains(c),
        forall|d: DOMObject| d != c ==> (without(s, c).contains(d) <==> s.contains(d)),
        forall|j: int|
            0 <= j < without(s, c).len() ==> #[trigger] without(s, c)[j] == s[if j < first_index(
                s,
                c,
            ) {
                j
            } else {
                j + 1
            }],
        without(s, c).len() == if s.contains(c) {
            s.len() - 1
        } else {
            s.len() as int
        },
{
    lemma_first_index(s, c);
    let k = first_index(s, c);
    let w = without(s, c);
    if k < s.len() {
        assert forall|j: int| 0 <= j < w.len() implies #[trigger] w[j] == s[if j < k {
            j
        } else {
            j + 1
        }] by {}
        assert(!w.contains(c)) by {
            if w.contains(c) {
                let j = choose|j: int| 0 <= j < w.len() && w[j] == c;
                let i = if j < k {
                    j
                } else {
                    j + 1
                };
                assert(s[i] == c);
            }
        }
        assert forall|d: DOMObject| d != c implies (w.contains(d) <==> s.contains(d)) by {
            if w.contains(d) {
                let j = choose|j: int| 0 <= j < w.len() && w[j] == d;
                assert(s[if j < k {
                    j
                } else {
                    j + 1
                }] == d);
            }
            if s.contains(d) {
                let i = choose|i: int| 0 <= i < s.len() && s[i] == d;
                assert(w[if i < k {
                    i
                } else {
                    i - 1
                }] == d);
            }
        }
    }
}

/// What `with_node` changes: the one node, and nothing else.
pub proof fn lemma_with_node(m: DocumentView, h: DOMObject, node: NodeView)
    requires
        m.has(h),
        m.slots.dom() =~= Set::full(),
    ensures
        m.with_node(h, node).root == m.root,
        m.with_node(h, node).slots.dom() =~= Set::full(),
        forall|k: NodeType| (#[trigger] m.with_node(h, node).slots[k]).len() == m.slots[k].len(),
        forall|x: DOMObject| #[trigger] m.with_node(h, node).has(x) == m.has(x),
        forall|x: DOMObject|
            m.has(x) ==> #[trigger] m.with_node(h, node).node(x) == if x == h {
                node
            } else {
                m.node(x)
            },
{
    let n = m.with_node(h, node);
    assert forall|x: DOMObject| m.has(x) implies #[trigger] n.node(x) == if x == h {
        node
    } else {
        m.node(x)
    } by {
        if x.node_type == h.node_type {
            if x.id != h.id {
                assert(x != h);
            } else {
                assert(x == h);
            }
        }
    }
}

/// What `with_children` changes: the children of the one holder.
pub proof fn lemma_with_children(m: DocumentView, p: DOMObject, kids: Seq<DOMObject>)
    requires
        m.holds(p),
        m.slots.dom() =~= Set::full(),
        m.slots[NodeType::Document].len() == 0,
    ensures
        m.with_children(p, kids).slots.dom() =~= Set::full(),
        forall|k: NodeType|
            (#[trigger] m.with_children(p, kids).slots[k]).len() == m.slots[k].len(),
        forall|x: DOMObject| #[trigger] m.with_children(p, kids).has(x) == m.has(x),
        forall|x: DOMObject|
            m.has(x) ==> (#[trigger] m.with_children(p, kids).node(x)).parent == m.node(x).parent
                && m.with_children(p, kids).node(x).data == m.node(x).data,
        forall|x: DOMObject|
            m.holds(x) ==> #[trigger] m.with_children(p, kids).children(x) == if x == p {
                kids
            } else {
                m.children(x)
            },
{
    if p != DOMObject::document() {
        lemma_with_node(m, p, NodeView { children: kids, ..m.node(p) });
    }
}

/// What `with_parent` changes: the parent that the one node names.
pub proof fn lemma_with_parent(m: DocumentView, c: DOMObject, parent: Option<DOMObject>)
    requires
        m.has(c),
        m.slots.dom() =~= Set::full(),
        m.slots[NodeType::Document].len() == 0,
    ensures
        m.with_parent(c, parent).slots.dom() =~= Set::full(),
        forall|k: NodeType| (#[trigger] m.with_parent(c, parent).slots[k]).len() == m.slots[k].len(),
        forall|x: DOMObject| #[trigger] m.with_parent(c, parent).has(x) == m.has(x),
        forall|x: DOMObject|
            m.has(x) ==> (#[trigger] m.with_parent(c, parent).node(x)).parent == (if x == c {
                parent
            } else {
                m.node(x).parent
            }) && m.with_parent(c, parent).node(x).data == m.node(x).data,
        forall|x: DOMObject|
            m.holds(x) ==> #[trigger] m.with_parent(c, parent).children(x) == m.children(x),
{
    lemma_with_node(m, c, NodeView { parent, ..m.node(c) });
}

/// In a sound tree a node that names no parent hangs nowhere.
pub proof fn lemma_orphan(m: DocumentView, c: DOMObject)
    requires
        m.wf(),
        m.has(c),
        m.node(c).parent is None,
    ensures
        forall|x: DOMObject| m.holds(x) ==> !(#[trigger] m.children(x)).contains(c),
{
    assert forall|x: DOMObject| m.holds(x) implies !(#[trigger] m.children(x)).contains(c) by {
        if m.children(x).contains(c) {
            let j = choose|j: int| 0 <= j < m.children(x).len() && m.children(x)[j] == c;
            assert(m.linked(x, m.children(x)[j]));
        }
    }
}

/// In a sound tree a node hangs under the parent that it names and nowhere
/// else.
pub proof fn lemma_one_parent(m: DocumentView, c: DOMObject, x: DOMObject)
    requires
        m.wf(),
        m.holds(x),
        m.children(x).contains(c),
    ensures
        m.has(c),
        m.node(c).parent == Some(x),
{
    let j = choose|j: int| 0 <= j < m.children(x).len() && m.children(x)[j] == c;
    assert(m.linked(x, m.children(x)[j]));
}

/// In a sound tree only elements and attributes have children: a leaf has
/// none.
pub proof fn lemma_leaves(m: DocumentView, h: DOMObject)
    requires
        m.wf(),
        m.has(h),
        m.node(h).children.len() > 0,
    ensures
        h.node_type is Element || h.node_type is Attribute,
        !h.node_type.spec_is_leaf(),
{
    assert(m.slots[NodeType::Document].len() == 0);
    assert(m.linked(h, m.children(h)[0]));
}

/// A new node that hangs nowhere and has no children keeps the tree sound.
pub proof fn lemma_with_new_wf(m: DocumentView, node: NodeView)
    requires
        m.wf(),
        node.parent is None,
        node.children.len() == 0,
        node.data.kind().spec_is_stored(),
        m.count(node.data.kind()) < usize::MAX,
    ensures
        m.with_new(node).wf(),
        m.with_new(node).has(m.next_handle(node.data.kind())),
        m.with_new(node).node(m.next_handle(node.data.kind())) == node,
        forall|x: DOMObject| m.has(x) ==> #[trigger] m.with_new(node).has(x),
        forall|x: DOMObject| m.has(x) ==> #[trigger] m.with_new(node).node(x) == m.node(x),
        forall|x: DOMObject|
            #[trigger] m.with_new(node).has(x) ==> m.has(x) || x == m.next_handle(
                node.data.kind(),
            ),
{
    let n = m.with_new(node);
    let kind = node.data.kind();
    let h = m.next_handle(kind);
    assert forall|x: DOMObject| m.has(x) implies #[trigger] n.has(x) && n.node(x) == m.node(x) by {}
    assert forall|x: DOMObject| #[trigger] n.has(x) implies m.has(x) || x == h by {}
    assert(n.root == m.root);
    assert forall|x: DOMObject| m.holds(x) implies n.children(x) == m.children(x) by {}
    assert forall|p: DOMObject, j: int| n.holds(p) && 0 <= j < n.children(p).len() implies n.linked(
        p,
        #[trigger] n.children(p)[j],
    ) by {
        assert(m.holds(p));
        assert(m.linked(p, m.children(p)[j]));
    }
    assert forall|p: DOMObject| n.holds(p) implies distinct(#[trigger] n.children(p)) by {
        if m.holds(p) {
            assert(distinct(m.children(p)));
        }
    }
    assert forall|c: DOMObject| #[trigger] n.has(c) && n.node(c).parent is Some implies n.hangs(
        c,
    ) by {
        assert(m.has(c));
        assert(m.hangs(c));
    }
    assert forall|x: DOMObject| #[trigger] n.has(x) implies n.node(x).data.kind()
        == x.node_type by {
        if m.has(x) {
        }
    }
    assert forall|k: NodeType| !k.spec_is_stored() implies (#[trigger] n.slots[k]).len() == 0 by {
        assert(m.slots[k].len() == 0);
    }
    assert forall|k: NodeType| (#[trigger] n.slots[k]).len() <= usize::MAX by {
        assert(m.slots[k].len() <= usize::MAX);
    }
}

/// Whether the document node may take `c` beside the children `s` that it
/// has: of elements and of document types it takes one each.
pub open spec fn one_of_a_kind(s: Seq<DOMObject>) -> bool {
    forall|i: int, j: int|
        0 <= i < s.len() && 0 <= j < s.len() && (#[trigger] s[i]).node_type == (#[trigger] s[j]).node_type
            && (s[i].node_type is Element || s[i].node_type is DocumentType) ==> i == j
}

/// Taking a node out from under its parent keeps the tree sound, and the
/// node then hangs nowhere.
pub proof fn lemma_detached_wf(m: DocumentView, c: DOMObject)
    requires
        m.wf(),
        m.has(c),
    ensures
        m.detached(c).wf(),
        m.detached(c).node(c).parent is None,
        forall|x: DOMObject| #[trigger] m.detached(c).has(x) == m.has(x),
        forall|k: NodeType| (#[trigger] m.detached(c).slots[k]).len() == m.slots[k].len(),
        forall|x: DOMObject|
            m.has(x) ==> (#[trigger] m.detached(c).node(x)).data == m.node(x).data,
        forall|x: DOMObject|
            m.has(x) && x != c ==> (#[trigger] m.detached(c).node(x)).parent == m.node(x).parent,
        forall|x: DOMObject|
            m.holds(x) ==> #[trigger] m.detached(c).children(x) == if m.node(c).parent == Some(x) {
                without(m.children(x), c)
            } else {
                m.children(x)
            },
{
    assert(m.slots[NodeType::Document].len() == 0);
    match m.node(c).parent {
        None => {},
        Some(q) => {
            assert(m.hangs(c));
            let w = without(m.children(q), c);
            let m1 = m.with_children(q, w);
            let d = m1.with_parent(c, None);
            lemma_with_children(m, q, w);
            lemma_with_parent(m1, c, None);
            assert(distinct(m.children(q)));
            lemma_without(m.children(q), c);
            lemma_first_index(m.children(q), c);
            assert forall|x: DOMObject| m.holds(x) implies #[trigger] d.children(x) == if x == q {
                w
            } else {
                m.children(x)
            } by {
                assert(m1.holds(x));
            }
            assert forall|x: DOMObject| d.holds(x) implies !(#[trigger] d.children(x)).contains(
                c,
            ) by {
                if x != q && m.children(x).contains(c) {
                    lemma_one_parent(m, c, x);
                }
            }
            assert forall|p: DOMObject, j: int|
                d.holds(p) && 0 <= j < d.children(p).len() implies d.linked(
                p,
                #[trigger] d.children(p)[j],
            ) by {
                let kid = d.children(p)[j];
                assert(d.children(p).contains(kid));
                assert(kid != c);
                if p == q {
                    let i = if j < first_index(m.children(q), c) {
                        j
                    } else {
                        j + 1
                    };
                    assert(m.linked(q, m.children(q)[i]));
                } else {
                    assert(m.linked(p, m.children(p)[j]));
                }
            }
            assert forall|p: DOMObject| d.holds(p) implies distinct(#[trigger] d.children(p)) by {
                assert(distinct(m.children(p)));
            }
            assert forall|x: DOMObject| #[trigger] d.has(x) && d.node(x).parent is Some implies d.hangs(
                x,
            ) by {
                assert(x != c);
                assert(m.has(x));
                assert(m.hangs(x));
            }
            assert(one_of_a_kind(d.root)) by {
                if q == DOMObject::document() {
                    let k = first_index(m.root, c);
                    assert forall|i: int, j: int|
                        0 <= i < w.len() && 0 <= j < w.len() && (#[trigger] w[i]).node_type == (
                        #[trigger] w[j]).node_type && (w[i].node_type is Element
                            || w[i].node_type is DocumentType) implies i == j by {
                        let i2 = if i < k {
                            i
                        } else {
                            i + 1
                        };
                        let j2 = if j < k {
                            j
                        } else {
                            j + 1
                        };
                        assert(m.root[i2] == w[i] && m.root[j2] == w[j]);
                    }
                }
            }
            assert forall|x: DOMObject| #[trigger] d.has(x) implies d.node(x).data.kind()
                == x.node_type by {
                assert(m.has(x));
            }
            assert forall|k: NodeType| !k.spec_is_stored() implies (#[trigger] d.slots[k]).len()
                == 0 by {
                assert(m.slots[k].len() == 0);
            }
            assert forall|k: NodeType| (#[trigger] d.slots[k]).len() <= usize::MAX by {
                assert(m.slots[k].len() <= usize::MAX);
            }
        },
    }
}

/// Attaching a node where the rules allow it keeps the tree sound: the
/// node then hangs under its new parent, last among the children, and
/// nowhere else.
pub proof fn lemma_attached_wf(m: DocumentView, parent: Option<DOMObject>, c: DOMObject)
    requires
        m.wf(),
        m.append_check(parent, c) is Ok,
    ensures
        m.attached(DocumentView::target(parent), c).wf(),
        m.attached(DocumentView::target(parent), c).node(c).parent == Some(
            DocumentView::target(parent),
        ),
        m.attached(DocumentView::target(parent), c).children_of(parent) == m.detached(
            c,
        ).children_of(parent).push(c),
        !m.detached(c).children_of(parent).contains(c),
        forall|x: DOMObject|
            #[trigger] m.attached(DocumentView::target(parent), c).has(x) == m.has(x),
        forall|k: NodeType|
            (#[trigger] m.attached(DocumentView::target(parent), c).slots[k]).len()
                == m.slots[k].len(),
        forall|x: DOMObject|
            m.has(x) ==> (#[trigger] m.attached(DocumentView::target(parent), c).node(x)).data
                == m.node(x).data,
{
    let p = DocumentView::target(parent);
    let d = m.detached(c);
    lemma_detached_wf(m, c);
    assert(d.slots[NodeType::Document].len() == 0);
    assert(m.holds(p));
    assert(d.holds(p));
    lemma_orphan(d, c);
    let kids = d.children(p).push(c);
    let m2 = d.with_children(p, kids);
    let a = m2.with_parent(c, Some(p));
    assert(a == m.attached(p, c));
    lemma_with_children(d, p, kids);
    lemma_with_parent(m2, c, Some(p));
    assert forall|x: DOMObject| d.holds(x) implies #[trigger] a.children(x) == if x == p {
        kids
    } else {
        d.children(x)
    } by {
        assert(m2.holds(x));
    }
    assert forall|q: DOMObject, j: int| a.holds(q) && 0 <= j < a.children(q).len() implies a.linked(
        q,
        #[trigger] a.children(q)[j],
    ) by {
        let kid = a.children(q)[j];
        if q == p && j == d.children(p).len() {
            assert(kid == c);
        } else {
            assert(d.holds(q));
            assert(kid == d.children(q)[j]);
            assert(d.linked(q, d.children(q)[j]));
            assert(d.children(q).contains(kid));
            assert(kid != c);
        }
    }
    assert forall|q: DOMObject| a.holds(q) implies distinct(#[trigger] a.children(q)) by {
        assert(d.holds(q));
        assert(distinct(d.children(q)));
        if q == p {
            assert forall|i: int, j: int| 0 <= i < j < kids.len() implies kids[i] != kids[j] by {
                if j == d.children(p).len() {
                    assert(d.children(p).contains(kids[i]));
                }
            }
        }
    }
    assert forall|x: DOMObject| #[trigger] a.has(x) && a.node(x).parent is Some implies a.hangs(
        x,
    ) by {
        if x == c {
            assert(kids[d.children(p).len() as int] == c);
        } else {
            assert(d.has(x));
            assert(d.hangs(x));
            let q = d.node(x).parent->0;
            if q == p {
                let j = choose|j: int| 0 <= j < d.children(p).len() && d.children(p)[j] == x;
                assert(kids[j] == x);
            }
        }
    }
    assert(one_of_a_kind(a.root)) by {
        assert(one_of_a_kind(d.root));
        if p == DOMObject::document() {
            assert(parent is None);
            assert(d == m);
            assert forall|i: int, j: int|
                0 <= i < kids.len() && 0 <= j < kids.len() && (#[trigger] kids[i]).node_type == (
                #[trigger] kids[j]).node_type && (kids[i].node_type is Element
                    || kids[i].node_type is DocumentType) implies i == j by {
                if i == m.root.len() && j < m.root.len() {
                    assert(m.root[j].node_type == c.node_type);
                    assert(has_kind(m.root, c.node_type));
                }
                if j == m.root.len() && i < m.root.len() {
                    assert(m.root[i].node_type == c.node_type);
                    assert(has_kind(m.root, c.node_type));
                }
            }
        }
    }
    assert forall|x: DOMObject| #[trigger] a.has(x) implies a.node(x).data.kind()
        == x.node_type by {
        assert(d.has(x));
    }
    assert forall|k: NodeType| !k.spec_is_stored() implies (#[trigger] a.slots[k]).len() == 0 by {
        assert(d.slots[k].len() == 0);
    }
    assert forall|k: NodeType| (#[trigger] a.slots[k]).len() <= usize::MAX by {
        assert(d.slots[k].len() <= usize::MAX);
    }
}

/// The document node has one element and one document type at most: where
/// a node of one of these kinds has been attached to it, a second node of
/// that kind is refused.
pub proof fn lemma_one_root(m: DocumentView, first: DOMObject, second: DOMObject)
    requires
        m.wf(),
        first.node_type is Element || first.node_type is DocumentType,
        m.append_check(None, first) is Ok,
        second.node_type == first.node_type,
        m.has(second),
    ensures
        m.attached(DOMObject::document(), first).append_check(None, second) == Err::<
            (),
            DOMExceptionCode,
        >(DOMExceptionCode::HIERARCHY_REQUEST_ERR),
{
    let a = m.attached(DOMObject::document(), first);
    lemma_attached_wf(m, None, first);
    assert(a.children_of(None) == a.root);
    assert(a.root[a.root.len() - 1] == first);
    assert(has_kind(a.root, first.node_type));
}

/// A node has one parent: after it has been attached it stands once, as
/// the last, among the children of its new parent, and among the children
/// of no other node.
pub proof fn lemma_adopted(m: DocumentView, parent: Option<DOMObject>, c: DOMObject)
    requires
        m.wf(),
        m.append_check(parent, c) is Ok,
    ensures
        ({
            let p = DocumentView::target(parent);
            let a = m.attached(p, c);
            &&& a.children(p).len() > 0
            &&& a.children(p).last() == c
            &&& forall|i: int| 0 <= i < a.children(p).len() - 1 ==> a.children(p)[i] != c
            &&& forall|x: DOMObject| a.holds(x) && x != p ==> !(#[trigger] a.children(x)).contains(c)
            &&& a.children(p).drop_last() == without(m.children(p), c)
        }),
{
    let p = DocumentView::target(parent);
    let a = m.attached(p, c);
    lemma_attached_wf(m, parent, c);
    lemma_detached_wf(m, c);
    let d = m.detached(c);
    assert(a.children(p) == d.children(p).push(c));
    assert(distinct(a.children(p)));
    assert forall|x: DOMObject| a.holds(x) && x != p implies !(#[trigger] a.children(x)).contains(
        c,
    ) by {
        if a.children(x).contains(c) {
            lemma_one_parent(a, c, x);
        }
    }
    assert(a.children(p).drop_last() =~= d.children(p));
    assert(m.holds(p));
    if m.node(c).parent == Some(p) {
    } else {
        if m.children(p).contains(c) {
            lemma_one_parent(m, c, p);
        }
        lemma_first_index(m.children(p), c);
    }
}

} // verus!
