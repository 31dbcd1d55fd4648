//! What holds of a collection: it keeps the tree sound, keeps every live
//! node with what it holds, and leaves no node that is not live.

use vstd::prelude::*;
use crate::model::{distinct, handle_at, DocumentView};
use crate::object::{DOMObject, NodeType};
use crate::tree_laws::one_of_a_kind;

verus! {

/// The live nodes before a place are counted in order: the count does not
/// fall, and it rises across a live node.
pub proof fn lemma_rank_order(m: DocumentView, kind: NodeType, i: int, n: int)
    requires
        0 <= i <= n,
    ensures
        m.rank(kind, i) <= m.rank(kind, n),
        m.rank(kind, n) <= n,
        i < n && m.live(handle_at(kind, i)) ==> m.rank(kind, i) < m.rank(kind, n),
    decreases n,
{
    if n > 0 {
        if i < n {
            lemma_rank_order(m, kind, i, n - 1);
        } else {
            lemma_rank_order(m, kind, 0, n - 1);
        }
    }
}

/// What a collection keeps of one kind: as many nodes as were live, each
/// live node at its new place, and nothing else.
pub proof fn lemma_kept(m: DocumentView, kind: NodeType, n: int)
    requires
        0 <= n <= usize::MAX,
    ensures
        m.kept(kind, n).len() == m.rank(kind, n),
        forall|i: int|
            0 <= i < n && m.live(handle_at(kind, i)) ==> #[trigger] m.kept(kind, n)[m.rank(kind, i) as int]
                == m.moved_node(m.slots[kind][i]),
        forall|j: int|
            0 <= j < m.rank(kind, n) ==> 0 <= source(m, kind, n, j) < n && m.live(
                handle_at(kind, source(m, kind, n, j)),
            ) && m.rank(kind, #[trigger] source(m, kind, n, j)) == j,
    decreases n,
{
    if n > 0 {
        lemma_kept(m, kind, n - 1);
        assert forall|i: int| 0 <= i < n && m.live(handle_at(kind, i)) implies #[trigger] m.kept(
            kind,
            n,
        )[m.rank(kind, i) as int] == m.moved_node(m.slots[kind][i]) by {
            lemma_rank_order(m, kind, i, n - 1);
        }
        assert forall|j: int| 0 <= j < m.rank(kind, n) implies 0 <= source(m, kind, n, j) < n
            && m.live(handle_at(kind, source(m, kind, n, j))) && m.rank(
            kind,
            #[trigger] source(m, kind, n, j),
        ) == j by {
            if m.live(handle_at(kind, n - 1)) && m.rank(kind, n - 1) == j {
            } else {
                assert(j < m.rank(kind, n - 1));
                assert(source(m, kind, n, j) == source(m, kind, n - 1, j));
            }
        }
    }
}

/// The place, before the collection, of the node that the collection puts
/// at place `j` of kind `kind`, among the first `n` nodes of that kind.
pub open spec fn source(m: DocumentView, kind: NodeType, n: int, j: int) -> int
    decreases n,
{
    if n <= 0 {
        0
    } else if m.live(handle_at(kind, n - 1)) && m.rank(kind, n - 1) == j {
        n - 1
    } else {
        source(m, kind, n - 1, j)
    }
}

/// In a sound tree the children of a live node are live, and so are the
/// children of the document node.
pub proof fn lemma_live_children(m: DocumentView, p: DOMObject, j: int)
    requires
        m.wf(),
        p == DOMObject::document() || m.live(p),
        0 <= j < m.children(p).len(),
    ensures
        m.live(m.children(p)[j]),
{
    let c = m.children(p)[j];
    assert(m.slots[NodeType::Document].len() == 0);
    if p == DOMObject::document() {
        assert(m.linked(p, m.children(p)[j]));
        assert(m.reaches_root(c, 0));
    } else {
        let depth = choose|depth: nat| m.reaches_root(p, depth);
        assert(m.linked(p, m.children(p)[j]));
        assert(m.reaches_root(c, depth + 1));
    }
}

/// A live node is a node of the document, and it hangs under the document
/// node or under a live node.
pub proof fn lemma_live_parent(m: DocumentView, h: DOMObject)
    requires
        m.live(h),
    ensures
        m.has(h),
        m.node(h).parent is Some,
        m.node(h).parent->0 != DOMObject::document() ==> m.live(m.node(h).parent->0),
{
    let depth = choose|depth: nat| m.reaches_root(h, depth);
    let p = m.node(h).parent->0;
    if p != DOMObject::document() {
        assert(m.reaches_root(p, (depth - 1) as nat));
    }
}

/// Where a live node stands after a collection, and what it is then: the
/// node it was, with the handles in it renewed.
pub proof fn lemma_moved(m: DocumentView, h: DOMObject)
    requires
        m.wf(),
        m.live(h),
    ensures
        m.collected().has(m.moved(h)),
        m.collected().node(m.moved(h)) == m.moved_node(m.node(h)),
        m.moved(h).node_type == h.node_type,
        m.moved(h) != DOMObject::document(),
{
    lemma_live_parent(m, h);
    let k = h.node_type;
    let n = m.slots[k].len() as int;
    lemma_kept(m, k, n);
    lemma_rank_order(m, k, h.id as int, n);
    assert(handle_at(k, h.id as int) == h);
    assert(m.slots[NodeType::Document].len() == 0);
}

/// Every node that a collection leaves was a live node.
pub proof fn lemma_moved_onto(m: DocumentView, h: DOMObject) -> (from: DOMObject)
    requires
        m.wf(),
        m.collected().has(h),
    ensures
        m.live(from),
        m.moved(from) == h,
{
    let k = h.node_type;
    let n = m.slots[k].len() as int;
    lemma_kept(m, k, n);
    let i = source(m, k, n, h.id as int);
    handle_at(k, i)
}

/// Two live nodes do not come to stand at one place.
pub proof fn lemma_moved_apart(m: DocumentView, a: DOMObject, b: DOMObject)
    requires
        m.wf(),
        m.live(a),
        m.live(b),
        m.moved(a) == m.moved(b),
    ensures
        a == b,
{
    lemma_live_parent(m, a);
    lemma_live_parent(m, b);
    let k = a.node_type;
    assert(handle_at(k, a.id as int) == a);
    assert(handle_at(k, b.id as int) == b);
    if a.id < b.id {
        lemma_rank_order(m, k, a.id as int, b.id as int);
    } else if b.id < a.id {
        lemma_rank_order(m, k, b.id as int, a.id as int);
    }
}

/// The document node stays where it is.
pub proof fn lemma_moved_document(m: DocumentView)
    requires
        m.wf(),
    ensures
        m.moved(DOMObject::document()) == DOMObject::document(),
{
    assert(m.rank(NodeType::Document, 0) == 0);
}

/// The children after a collection of what was `p` before it: the children
/// that `p` had, each at its new place.
pub proof fn lemma_moved_children(m: DocumentView, p: DOMObject)
    requires
        m.wf(),
        p == DOMObject::document() || m.live(p),
    ensures
        m.collected().holds(m.moved(p)),
        m.collected().children(m.moved(p)) == m.children(p).map_values(
            |c: DOMObject| m.moved(c),
        ),
{
    lemma_moved_document(m);
    if p != DOMObject::document() {
        lemma_moved(m, p);
    }
}

/// A collection keeps the tree sound.
pub proof fn lemma_collected_wf(m: DocumentView)
    requires
        m.wf(),
    ensures
        m.collected().wf(),
{
    let c = m.collected();
    lemma_moved_document(m);
    assert(c.slots.dom() =~= Set::full());
    assert forall|k: NodeType| !k.spec_is_stored() implies (#[trigger] c.slots[k]).len() == 0 by {
        assert(m.slots[k].len() == 0);
    }
    assert forall|k: NodeType| (#[trigger] c.slots[k]).len() <= usize::MAX by {
        assert(m.slots[k].len() <= usize::MAX);
        lemma_kept(m, k, m.slots[k].len() as int);
        lemma_rank_order(m, k, 0, m.slots[k].len() as int);
    }
    assert forall|q: DOMObject, j: int| c.holds(q) && 0 <= j < c.children(q).len() implies c.linked(
        q,
        #[trigger] c.children(q)[j],
    ) by {
        let p = if q == DOMObject::document() {
            q
        } else {
            lemma_moved_onto(m, q)
        };
        lemma_moved_children(m, p);
        let kid = m.children(p)[j];
        lemma_live_children(m, p, j);
        lemma_moved(m, kid);
        assert(m.linked(p, m.children(p)[j]));
    }
    assert forall|q: DOMObject| c.holds(q) implies distinct(#[trigger] c.children(q)) by {
        let p = if q == DOMObject::document() {
            q
        } else {
            lemma_moved_onto(m, q)
        };
        lemma_moved_children(m, p);
        assert(distinct(m.children(p)));
        let s = c.children(q);
        assert forall|i: int, j: int| 0 <= i < j < s.len() implies s[i] != s[j] by {
            lemma_live_children(m, p, i);
            lemma_live_children(m, p, j);
            if s[i] == s[j] {
                lemma_moved_apart(m, m.children(p)[i], m.children(p)[j]);
            }
        }
    }
    assert forall|x: DOMObject| #[trigger] c.has(x) && c.node(x).parent is Some implies c.hangs(
        x,
    ) by {
        let h = lemma_moved_onto(m, x);
        lemma_moved(m, h);
        lemma_live_parent(m, h);
        let p = m.node(h).parent->0;
        assert(m.hangs(h));
        lemma_moved_children(m, p);
        let j = choose|j: int| 0 <= j < m.children(p).len() && m.children(p)[j] == h;
        assert(c.children(m.moved(p))[j] == x);
    }
    assert(one_of_a_kind(c.root)) by {
        assert(one_of_a_kind(m.root));
    }
    assert forall|x: DOMObject| #[trigger] c.has(x) implies c.node(x).data.kind()
        == x.node_type by {
        let h = lemma_moved_onto(m, x);
        lemma_moved(m, h);
        lemma_live_parent(m, h);
    }
}

/// A live node is live after the collection, at its new place and as deep
/// in the tree as it was.
pub proof fn lemma_moved_live(m: DocumentView, h: DOMObject, depth: nat)
    requires
        m.wf(),
        m.reaches_root(h, depth),
    ensures
        m.collected().reaches_root(m.moved(h), depth),
    decreases depth,
{
    assert(m.live(h));
    lemma_moved(m, h);
    lemma_moved_document(m);
    let p = m.node(h).parent->0;
    if p != DOMObject::document() {
        lemma_moved_live(m, p, (depth - 1) as nat);
        assert(m.live(p));
        lemma_moved(m, p);
    }
}

/// After a collection every node of the document is live: nothing is left
/// that the document node does not reach.
pub proof fn lemma_collected_all_live(m: DocumentView)
    requires
        m.wf(),
    ensures
        forall|h: DOMObject| #[trigger] m.collected().has(h) ==> m.collected().live(h),
{
    assert forall|h: DOMObject| #[trigger] m.collected().has(h) implies m.collected().live(h) by {
        let from = lemma_moved_onto(m, h);
        let depth = choose|depth: nat| m.reaches_root(from, depth);
        lemma_moved_live(m, from, depth);
    }
}

/// A collection keeps as many nodes of each kind as were live.
pub proof fn lemma_collected_count(m: DocumentView, kind: NodeType)
    requires
        m.wf(),
    ensures
        m.collected().count(kind) == m.rank(kind, m.count(kind) as int),
        m.collected().count(kind) <= m.count(kind),
{
    lemma_kept(m, kind, m.count(kind) as int);
    lemma_rank_order(m, kind, 0, m.count(kind) as int);
}

/// Where every node is live, each stands at the place that it would have
/// after a collection.
proof fn lemma_rank_all_live(m: DocumentView, kind: NodeType, n: int)
    requires
        m.wf(),
        0 <= n <= m.slots[kind].len(),
        forall|h: DOMObject| #[trigger] m.has(h) ==> m.live(h),
    ensures
        m.rank(kind, n) == n,
        m.kept(kind, n) == m.slots[kind].subrange(0, n),
    decreases n,
{
    if n > 0 {
        lemma_rank_all_live(m, kind, n - 1);
        let h = handle_at(kind, n - 1);
        assert(m.has(h));
        let node = m.slots[kind][n - 1];
        assert(m.node(h) == node);
        lemma_moved_document(m);
        assert(m.moved_node(node).children =~= node.children) by {
            assert forall|j: int| 0 <= j < node.children.len() implies m.moved(
                #[trigger] node.children[j],
            ) == node.children[j] by {
                let c = node.children[j];
                assert(m.linked(h, m.children(h)[j]));
                lemma_rank_all_live_at(m, c);
            }
        }
        assert(m.moved_node(node).parent == node.parent) by {
            if node.parent is Some {
                let p = node.parent->0;
                assert(m.hangs(h));
                if p != DOMObject::document() {
                    lemma_rank_all_live_at(m, p);
                }
            }
        }
        assert(m.kept(kind, n) =~= m.slots[kind].subrange(0, n));
    } else {
        assert(m.kept(kind, n) =~= m.slots[kind].subrange(0, n));
    }
}

/// Where every node is live, a node stays where it is.
proof fn lemma_rank_all_live_at(m: DocumentView, h: DOMObject)
    requires
        m.wf(),
        m.has(h),
        forall|x: DOMObject| #[trigger] m.has(x) ==> m.live(x),
    ensures
        m.moved(h) == h,
{
    lemma_rank_flat(m, h.node_type, h.id as int);
}

/// Where every node is live, as many nodes are live before a place as
/// there are nodes before it.
proof fn lemma_rank_flat(m: DocumentView, kind: NodeType, n: int)
    requires
        m.wf(),
        0 <= n <= m.slots[kind].len(),
        forall|x: DOMObject| #[trigger] m.has(x) ==> m.live(x),
    ensures
        m.rank(kind, n) == n,
    decreases n,
{
    if n > 0 {
        lemma_rank_flat(m, kind, n - 1);
        assert(m.has(handle_at(kind, n - 1)));
    }
}

/// A collection of a document in which every node is live changes
/// nothing; so a second collection, right after a first, changes nothing.
pub proof fn lemma_collected_twice(m: DocumentView)
    requires
        m.wf(),
    ensures
        m.collected().collected() == m.collected(),
{
    let c = m.collected();
    lemma_collected_wf(m);
    lemma_collected_all_live(m);
    lemma_moved_document(c);
    assert forall|k: NodeType| #[trigger] c.collected().slots[k] == c.slots[k] by {
        lemma_rank_all_live(c, k, c.slots[k].len() as int);
        assert(c.slots[k].subrange(0, c.slots[k].len() as int) =~= c.slots[k]);
    }
    assert(c.collected().slots =~= c.slots);
    assert(c.collected().root =~= c.root) by {
        assert forall|j: int| 0 <= j < c.root.len() implies c.moved(#[trigger] c.root[j])
            == c.root[j] by {
            assert(c.linked(DOMObject::document(), c.children(DOMObject::document())[j]));
            lemma_rank_all_live_at(c, c.root[j]);
        }
    }
}

} // verus!
