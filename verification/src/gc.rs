//! Collection: the nodes that the document node reaches are marked, the
//! others leave, and the gaps they made are closed.

use vstd::prelude::*;
use crate::arena::{edges_of, numbered, unmarked, Document};
use crate::gc_laws::{
    lemma_collected_wf, lemma_kept, lemma_live_children, lemma_live_parent, lemma_moved_document,
    source,
};
use crate::model::{handle_at, DocumentView, NodeView};
use crate::node::{GcState, Node};
use crate::object::{DOMObject, NodeType};
use crate::records::{
    Attr, CData, Comment, DocumentType, Element, Entity, Namespace, Notation,
    ProcessingInstruction, Record, Text,
};

verus! {

/// How many of the first `n` nodes of `s` bear a mark.
pub open(crate) spec fn marked_before(s: Seq<Node>, n: int) -> nat
    decreases n,
{
    if n <= 0 {
        0
    } else if s[n - 1].gc_state == GcState::Marked {
        marked_before(s, n - 1) + 1
    } else {
        marked_before(s, n - 1)
    }
}

/// How many of the first `n` nodes of `s` bear no mark.
pub open(crate) spec fn unmarked_before(s: Seq<Node>, n: int) -> nat
    decreases n,
{
    if n <= 0 {
        0
    } else if s[n - 1].gc_state == GcState::Marked {
        unmarked_before(s, n - 1)
    } else {
        unmarked_before(s, n - 1) + 1
    }
}

/// How many nodes of `s` bear no mark.
pub open(crate) spec fn unmarked_in(s: Seq<Node>) -> nat {
    unmarked_before(s, s.len() as int)
}

/// A mark on a node that bore none makes one more marked node.
proof fn lemma_mark_one(s: Seq<Node>, i: int, node: Node, n: int)
    requires
        0 <= i < s.len(),
        0 <= n <= s.len(),
        s[i].gc_state == GcState::Unmark,
        node.gc_state == GcState::Marked,
    ensures
        marked_before(s.update(i, node), n) == if i < n {
            marked_before(s, n) + 1
        } else {
            marked_before(s, n)
        },
        unmarked_before(s.update(i, node), n) == if i < n {
            unmarked_before(s, n) - 1
        } else {
            unmarked_before(s, n) as int
        },
    decreases n,
{
    if n > 0 {
        lemma_mark_one(s, i, node, n - 1);
    }
}

impl<'a> Document<'a> {
    /// Whether the node that `h` names bears a mark.
    pub open(crate) spec fn is_marked(&self, h: DOMObject) -> bool {
        self.edges(h.node_type)[h.id as int].gc_state == GcState::Marked
    }

    /// Whether `c` is marked or waits on the stack to be.
    pub open(crate) spec fn covered(&self, stack: Seq<DOMObject>, c: DOMObject) -> bool {
        self.is_marked(c) || stack.contains(c)
    }

    /// Whether the first `upto` of `kids` are marked or wait on the stack.
    pub open(crate) spec fn kids_covered(
        &self,
        stack: Seq<DOMObject>,
        kids: Seq<DOMObject>,
        upto: int,
    ) -> bool {
        forall|j: int| 0 <= j < upto ==> self.covered(stack, #[trigger] kids[j])
    }

    /// How many nodes of the document bear no mark.
    pub open(crate) spec fn unmarked_total(&self) -> nat {
        unmarked_in(self.edges(NodeType::Element)) + unmarked_in(self.edges(NodeType::Attribute))
            + unmarked_in(self.edges(NodeType::Namespace)) + unmarked_in(
            self.edges(NodeType::ProcessingInstruction),
        ) + unmarked_in(self.edges(NodeType::Comment)) + unmarked_in(self.edges(NodeType::Text))
            + unmarked_in(self.edges(NodeType::Notation)) + unmarked_in(
            self.edges(NodeType::Entity),
        ) + unmarked_in(self.edges(NodeType::DocumentType)) + unmarked_in(
            self.edges(NodeType::CData),
        )
    }

    /// The state of a marking that is under way: the tree is the tree `m`
    /// that the marking began with, every marked node is live, every node
    /// on the stack is live, and the children of the document node and of
    /// every marked node are marked or wait on the stack.
    pub open(crate) spec fn marking(&self, m: DocumentView, stack: Seq<DOMObject>) -> bool {
        &&& self@ == m
        &&& m.wf()
        &&& forall|i: int| 0 <= i < stack.len() ==> m.live(#[trigger] stack[i])
        &&& forall|h: DOMObject| m.has(h) && #[trigger] self.is_marked(h) ==> m.live(h)
        &&& forall|h: DOMObject|
            m.has(h) && #[trigger] self.is_marked(h) ==> self.kids_covered(
                stack,
                m.node(h).children,
                m.node(h).children.len() as int,
            )
        &&& self.kids_covered(stack, m.root, m.root.len() as int)
    }

    /// Where the children of the document node and of every marked node
    /// are marked, every live node is marked.
    proof fn lemma_all_marked(&self, m: DocumentView, h: DOMObject, depth: nat)
        requires
            self.marking(m, Seq::empty()),
            m.reaches_root(h, depth),
        ensures
            self.is_marked(h),
        decreases depth,
    {
        let p = m.node(h).parent->0;
        assert(m.hangs(h));
        let j = choose|j: int| 0 <= j < m.children(p).len() && m.children(p)[j] == h;
        if p == DOMObject::document() {
            assert(self.covered(Seq::empty(), m.root[j]));
        } else {
            self.lemma_all_marked(m, p, (depth - 1) as nat);
            assert(self.covered(Seq::empty(), m.node(p).children[j]));
        }
    }

    /// Marks every node that the document node reaches through children,
    /// and no other.
    pub(crate) fn mark_live(&mut self)
        requires
            old(self).wf(),
        ensures
            final(self)@ == old(self)@,
            final(self).this_node == old(self).this_node,
            forall|k: NodeType| #[trigger] final(self).objects(k) == old(self).objects(k),
            forall|h: DOMObject|
                old(self)@.has(h) ==> (#[trigger] final(self).is_marked(h) <==> old(self)@.live(h)),
    {
        let ghost m = self@;
        let mut stack: Vec<DOMObject> = Vec::new();
        let mut i: usize = 0;
        while i < self.this_node.children.len()
            invariant
                *self == *old(self),
                self.wf(),
                m == self@,
                i <= self.this_node.children.len(),
                stack@ == self.this_node.children@.subrange(0, i as int),
            decreases self.this_node.children.len() - i,
        {
            stack.push(self.this_node.children[i]);
            assert(self.this_node.children@.subrange(0, i + 1) =~= self.this_node.children@.subrange(
                0,
                i as int,
            ).push(self.this_node.children@[i as int]));
            i = i + 1;
        }
        proof {
            assert(stack@ =~= m.root);
            assert forall|j: int| 0 <= j < stack@.len() implies m.live(#[trigger] stack@[j]) by {
                lemma_live_children(m, DOMObject::document(), j);
            }
            assert forall|h: DOMObject| m.has(h) implies !#[trigger] self.is_marked(h) by {
                assert(unmarked(self.edges(h.node_type)));
                self.lemma_edges(h.node_type);
            }
            assert forall|j: int| 0 <= j < m.root.len() implies self.covered(
                stack@,
                #[trigger] m.root[j],
            ) by {
                assert(stack@[j] == m.root[j]);
            }
        }
        while stack.len() > 0
            invariant
                self.marking(m, stack@),
                self.this_node == old(self).this_node,
                forall|k: NodeType| #[trigger] self.objects(k) == old(self).objects(k),
            decreases self.unmarked_total(), stack.len(),
        {
            let ghost before = stack@;
            let ghost prev = *self;
            let top = stack.pop().unwrap();
            assert(before =~= stack@.push(top));
            assert(m.live(before[before.len() - 1]));
            proof {
                lemma_live_parent(m, top);
                self.lemma_edges(top.node_type);
            }
            let already = match self.node_ref(&top) {
                Some(node) => node.is_marked(),
                None => true,
            };
            if already {
                proof {
                    assert forall|c: DOMObject| prev.covered(before, c) implies self.covered(
                        stack@,
                        c,
                    ) by {
                        if before.contains(c) && c != top {
                            let x = choose|x: int| 0 <= x < before.len() && before[x] == c;
                            assert(stack@[x] == c);
                        }
                    }
                    assert forall|h: DOMObject| m.has(h) && #[trigger] self.is_marked(
                        h,
                    ) implies self.kids_covered(
                        stack@,
                        m.node(h).children,
                        m.node(h).children.len() as int,
                    ) by {
                        assert(prev.kids_covered(
                            before,
                            m.node(h).children,
                            m.node(h).children.len() as int,
                        ));
                    }
                    assert(prev.kids_covered(before, m.root, m.root.len() as int));
                }
            } else {
                let node = self.node_mut(top);
                node.gc_mark();
                proof {
                    let k = top.node_type;
                    let id = top.id as int;
                    assert(self.views(k) =~= prev.views(k));
                    assert(self@.slots =~= m.slots);
                    lemma_mark_one(
                        prev.edges(k),
                        id,
                        self.edges(k)[id],
                        prev.edges(k).len() as int,
                    );
                    assert(self.unmarked_total() == prev.unmarked_total() - 1);
                    assert forall|h: DOMObject|
                        m.has(h) && (prev.is_marked(h) || h == top) implies self.is_marked(h) by {
                        prev.lemma_edges(h.node_type);
                    }
                    assert forall|h: DOMObject| m.has(h) && self.is_marked(h) implies prev.is_marked(
                        h,
                    ) || h == top by {
                        if h.node_type == top.node_type && h.id != top.id {
                        }
                    }
                }
                let ghost marked = *self;
                let kids = match self.node_ref(&top) {
                    Some(node) => &node.children,
                    None => &self.this_node.children,
                };
                let mut j: usize = 0;
                while j < kids.len()
                    invariant
                        j <= kids.len(),
                        kids@ == m.node(top).children,
                        m.wf(),
                        m.live(top),
                        *self == marked,
                        forall|x: int| 0 <= x < stack@.len() ==> m.live(#[trigger] stack@[x]),
                        forall|c: DOMObject|
                            m.has(c) && prev.covered(before, c) ==> self.covered(stack@, c),
                        self.kids_covered(stack@, kids@, j as int),
                    decreases kids.len() - j,
                {
                    let ghost s0 = stack@;
                    stack.push(kids[j]);
                    proof {
                        lemma_live_children(m, top, j as int);
                        assert forall|c: DOMObject| s0.contains(c) implies stack@.contains(c) by {
                            let x = choose|x: int| 0 <= x < s0.len() && s0[x] == c;
                            assert(stack@[x] == c);
                        }
                        assert(stack@[s0.len() as int] == kids@[j as int]);
                    }
                    j = j + 1;
                }
                proof {
                    assert forall|h: DOMObject| m.has(h) && #[trigger] self.is_marked(
                        h,
                    ) implies self.kids_covered(
                        stack@,
                        m.node(h).children,
                        m.node(h).children.len() as int,
                    ) by {
                        if h != top {
                            assert(prev.is_marked(h));
                            assert(prev.kids_covered(
                                before,
                                m.node(h).children,
                                m.node(h).children.len() as int,
                            ));
                            assert forall|x: int|
                                0 <= x < m.node(h).children.len() implies self.covered(
                                stack@,
                                #[trigger] m.node(h).children[x],
                            ) by {
                                assert(m.linked(h, m.children(h)[x]));
                            }
                        }
                    }
                    assert(prev.kids_covered(before, m.root, m.root.len() as int));
                    assert forall|x: int| 0 <= x < m.root.len() implies self.covered(
                        stack@,
                        #[trigger] m.root[x],
                    ) by {
                        assert(m.linked(DOMObject::document(), m.children(DOMObject::document())[x]));
                    }
                }
            }
        }
        proof {
            assert(stack@ =~= Seq::empty());
            assert forall|h: DOMObject| m.has(h) implies (#[trigger] self.is_marked(h) <==> m.live(
                h,
            )) by {
                if m.live(h) {
                    let depth = choose|depth: nat| m.reaches_root(h, depth);
                    self.lemma_all_marked(m, h, depth);
                }
            }
        }
    }
}


/// The row of the table for the nodes of kind `kind`: for each node the
/// place that it has after the collection, if it stays.
pub open(crate) spec fn row(table: Seq<Vec<usize>>, kind: NodeType) -> Seq<usize> {
    table[kind.spec_code() - 1]@
}

/// The handle that the table gives for `h`: the document node stays where
/// it is, and a node moves to the place that the table holds for it.
pub open(crate) spec fn moved_by(table: Seq<Vec<usize>>, h: DOMObject) -> DOMObject {
    if h.node_type is Document {
        h
    } else {
        DOMObject { id: row(table, h.node_type)[h.id as int], node_type: h.node_type }
    }
}

/// Whether the table holds a place for `h`.
pub open(crate) spec fn in_table(table: Seq<Vec<usize>>, h: DOMObject) -> bool {
    h.node_type is Document || h.id < row(table, h.node_type).len()
}

/// The parent `parent`, with the handle that the table gives for it.
pub open(crate) spec fn parent_moved_by(table: Seq<Vec<usize>>, parent: Option<DOMObject>) -> Option<
    DOMObject,
> {
    match parent {
        Some(p) => Some(moved_by(table, p)),
        None => None,
    }
}

/// Whether `after` is the marked node `before` as a collection leaves it at
/// place `place` of kind `kind`: without the mark, with what it held, and
/// with the handles in it renewed by the table.
pub open(crate) spec fn swept<T>(
    after: Record<T>,
    before: Record<T>,
    kind: NodeType,
    place: int,
    table: Seq<Vec<usize>>,
) -> bool {
    &&& after.object == handle_at(kind, place)
    &&& after.data == before.data
    &&& after.node.gc_state == GcState::Unmark
    &&& after.node.parent == parent_moved_by(table, before.node.parent)
    &&& after.node.children@ == before.node.children@.map_values(
        |c: DOMObject| moved_by(table, c),
    )
}

/// For each node of `v` the number of marked nodes before it: the place
/// that it has when the nodes without a mark have left.
fn ranks<T>(v: &Vec<Record<T>>) -> (places: Vec<usize>)
    ensures
        places@.len() == v@.len(),
        forall|i: int|
            0 <= i < v@.len() ==> #[trigger] places@[i] == marked_before(edges_of(v@), i),
{
    let mut places: Vec<usize> = Vec::new();
    let mut count: usize = 0;
    let mut i: usize = 0;
    while i < v.len()
        invariant
            i <= v@.len(),
            count <= i,
            count == marked_before(edges_of(v@), i as int),
            places@.len() == i,
            forall|x: int| 0 <= x < i ==> #[trigger] places@[x] == marked_before(edges_of(v@), x),
        decreases v@.len() - i,
    {
        places.push(count);
        if v[i].node.is_marked() {
            count = count + 1;
        }
        i = i + 1;
    }
    places
}

/// The handle that `h` has after the collection.
fn remap(table: &Vec<Vec<usize>>, h: DOMObject) -> (moved: DOMObject)
    requires
        table@.len() == 13,
        in_table(table@, h),
    ensures
        moved == moved_by(table@, h),
{
    if h.node_type == NodeType::Document {
        return h;
    }
    let row: usize = (h.node_type.code() - 1) as usize;
    DOMObject { id: table[row][h.id], node_type: h.node_type }
}

/// The handles `handles`, each as it is after the collection.
fn remap_all(table: &Vec<Vec<usize>>, handles: &Vec<DOMObject>) -> (moved: Vec<DOMObject>)
    requires
        table@.len() == 13,
        forall|j: int| 0 <= j < handles@.len() ==> in_table(table@, #[trigger] handles@[j]),
    ensures
        moved@ == handles@.map_values(|c: DOMObject| moved_by(table@, c)),
{
    let mut moved: Vec<DOMObject> = Vec::new();
    let mut j: usize = 0;
    while j < handles.len()
        invariant
            j <= handles@.len(),
            table@.len() == 13,
            forall|x: int| 0 <= x < handles@.len() ==> in_table(table@, #[trigger] handles@[x]),
            moved@.len() == j,
            forall|x: int| 0 <= x < j ==> #[trigger] moved@[x] == moved_by(table@, handles@[x]),
        decreases handles@.len() - j,
    {
        moved.push(remap(table, handles[j]));
        j = j + 1;
    }
    assert(moved@ =~= handles@.map_values(|c: DOMObject| moved_by(table@, c)));
    moved
}

/// Whether the table holds a place for every handle in the marked nodes of
/// `v`.
pub open(crate) spec fn all_in_table<T>(v: Seq<Record<T>>, table: Seq<Vec<usize>>) -> bool {
    forall|i: int|
        0 <= i < v.len() && (#[trigger] v[i]).node.gc_state == GcState::Marked ==> {
            &&& v[i].node.parent matches Some(p) ==> in_table(table, p)
            &&& forall|j: int|
                0 <= j < v[i].node.children@.len() ==> in_table(
                    table,
                    #[trigger] v[i].node.children@[j],
                )
        }
}

/// Takes the nodes of `v` that bear a mark, in their order, and leaves the
/// others behind. A node that is taken loses the mark as it is asked for
/// it, learns its new handle, and has the handles in it renewed.
fn sweep<T>(v: Vec<Record<T>>, kind: NodeType, table: &Vec<Vec<usize>>) -> (kept: Vec<Record<T>>)
    requires
        table@.len() == 13,
        all_in_table(v@, table@),
    ensures
        kept@.len() == marked_before(edges_of(v@), v@.len() as int),
        forall|i: int|
            0 <= i < v@.len() && (#[trigger] v@[i]).node.gc_state == GcState::Marked ==> swept(
                kept@[marked_before(edges_of(v@), i) as int],
                v@[i],
                kind,
                marked_before(edges_of(v@), i) as int,
                table@,
            ),
{
    let ghost all = v@;
    let mut kept: Vec<Record<T>> = Vec::new();
    for record in it: v
        invariant
            it.seq() == all,
            table@.len() == 13,
            all_in_table(all, table@),
            kept@.len() == marked_before(edges_of(all), it.index() as int),
            kept@.len() <= it.index(),
            forall|x: int|
                0 <= x < it.index() && (#[trigger] all[x]).node.gc_state == GcState::Marked
                    ==> swept(
                    kept@[marked_before(edges_of(all), x) as int],
                    all[x],
                    kind,
                    marked_before(edges_of(all), x) as int,
                    table@,
                ),
    {
        let ghost i = it.index() as int;
        let mut record = record;
        assert(record == all[i]);
        if record.node.check_gc_state() {
            let parent = match record.node.parent {
                Some(p) => Some(remap(table, p)),
                None => None,
            };
            let children = remap_all(table, &record.node.children);
            record.object = DOMObject::new(kept.len(), kind);
            record.node.parent = parent;
            record.node.children = children;
            let ghost before = kept@;
            kept.push(record);
            proof {
                assert forall|x: int|
                    0 <= x < i && (#[trigger] all[x]).node.gc_state == GcState::Marked implies swept(
                    kept@[marked_before(edges_of(all), x) as int],
                    all[x],
                    kind,
                    marked_before(edges_of(all), x) as int,
                    table@,
                ) by {
                    lemma_marked_order(edges_of(all), x, i);
                    assert(kept@[marked_before(edges_of(all), x) as int] == before[marked_before(
                        edges_of(all),
                        x,
                    ) as int]);
                }
            }
        }
    }
    kept
}

/// The marked nodes before a place are counted in order: the count does not
/// fall, and it rises across a marked node.
proof fn lemma_marked_order(s: Seq<Node>, i: int, n: int)
    requires
        0 <= i <= n,
    ensures
        marked_before(s, i) <= marked_before(s, n),
        marked_before(s, n) <= n,
        i < n && s[i].gc_state == GcState::Marked ==> marked_before(s, i) < marked_before(s, n),
    decreases n,
{
    if n > 0 {
        if i < n {
            lemma_marked_order(s, i, n - 1);
        } else {
            lemma_marked_order(s, 0, n - 1);
        }
    }
}


/// What the nodes of one kind are after the sweep: the live nodes that the
/// model of a collection keeps, each knowing its new handle and none
/// bearing a mark.
proof fn lemma_swept_views<T>(
    d: &Document,
    m: DocumentView,
    kind: NodeType,
    table: Seq<Vec<usize>>,
    before: Seq<Record<T>>,
    after: Seq<Record<T>>,
    view_of: spec_fn(Record<T>) -> NodeView,
)
    requires
        d.swept_state(m, table),
        kind.spec_is_stored(),
        edges_of(before) == d.edges(kind),
        d.views(kind) =~= Seq::new(before.len(), |i: int| view_of(before[i])),
        forall|r: Record<T>|
            (#[trigger] view_of(r)).parent == r.node.parent && view_of(r).children
                == r.node.children@,
        forall|r1: Record<T>, r2: Record<T>|
            r1.data == r2.data ==> (#[trigger] view_of(r1)).data == (#[trigger] view_of(r2)).data,
        after.len() == marked_before(edges_of(before), before.len() as int),
        forall|i: int|
            0 <= i < before.len() && (#[trigger] before[i]).node.gc_state == GcState::Marked
                ==> swept(
                after[marked_before(edges_of(before), i) as int],
                before[i],
                kind,
                marked_before(edges_of(before), i) as int,
                table,
            ),
    ensures
        Seq::new(after.len(), |j: int| view_of(after[j])) =~= m.kept(kind, before.len() as int),
        forall|j: int| 0 <= j < after.len() ==> (#[trigger] after[j]).object == handle_at(kind, j),
        forall|j: int|
            0 <= j < after.len() ==> (#[trigger] after[j]).node.gc_state == GcState::Unmark,
{
    let n = before.len() as int;
    d.lemma_edges(kind);
    lemma_kept(m, kind, n);
    d.lemma_ranks(m, table, kind, n);
    let views = Seq::new(after.len(), |j: int| view_of(after[j]));
    assert forall|j: int| 0 <= j < after.len() implies (#[trigger] after[j]).object == handle_at(
        kind,
        j,
    ) && after[j].node.gc_state == GcState::Unmark && views[j] == m.kept(kind, n)[j] by {
        let i = source(m, kind, n, j);
        let h = handle_at(kind, i);
        d.lemma_ranks(m, table, kind, i);
        assert(d.is_marked(h));
        assert(before[i].node == d.edges(kind)[i]);
        assert(swept(after[j], before[i], kind, j, table));
        let old_view = view_of(before[i]);
        assert(old_view == m.slots[kind][i]);
        let new_view = view_of(after[j]);
        assert(m.has(h));
        assert(m.kept(kind, n)[m.rank(kind, i) as int] == m.moved_node(m.slots[kind][i]));
        assert(new_view.children =~= m.moved_node(old_view).children) by {
            assert forall|x: int| 0 <= x < old_view.children.len() implies moved_by(
                table,
                #[trigger] old_view.children[x],
            ) == m.moved(old_view.children[x]) by {
                assert(m.linked(h, m.children(h)[x]));
                d.lemma_moved_by(m, table, old_view.children[x]);
            }
        }
        assert(new_view.parent == m.moved_node(old_view).parent) by {
            if old_view.parent is Some {
                assert(m.hangs(h));
                d.lemma_moved_by(m, table, old_view.parent->0);
            }
        }
    }
    assert(views =~= m.kept(kind, n));
}

impl<'a> Document<'a> {
    /// The state between the marking and the sweep: the tree is the sound
    /// tree `m`, the marked nodes are the live ones, and the table holds
    /// for each node the number of marked nodes of its kind before it.
    pub open(crate) spec fn swept_state(&self, m: DocumentView, table: Seq<Vec<usize>>) -> bool {
        &&& self@ == m
        &&& m.wf()
        &&& forall|h: DOMObject| m.has(h) ==> (#[trigger] self.is_marked(h) <==> m.live(h))
        &&& table.len() == 13
        &&& forall|k: NodeType| (#[trigger] row(table, k)).len() == self.edges(k).len()
        &&& forall|k: NodeType, i: int|
            0 <= i < self.edges(k).len() ==> #[trigger] row(table, k)[i] == marked_before(
                self.edges(k),
                i,
            )
    }

    /// Where the marked nodes are the live ones, the marked nodes before a
    /// place are the live nodes before it.
    proof fn lemma_ranks(&self, m: DocumentView, table: Seq<Vec<usize>>, kind: NodeType, n: int)
        requires
            self.swept_state(m, table),
            0 <= n <= self.edges(kind).len(),
        ensures
            marked_before(self.edges(kind), n) == m.rank(kind, n),
        decreases n,
    {
        if n > 0 {
            self.lemma_ranks(m, table, kind, n - 1);
            self.lemma_edges(kind);
            let h = handle_at(kind, n - 1);
            assert(m.has(h));
            assert(self.is_marked(h) <==> m.live(h));
        }
    }

    /// The table moves a handle of the tree to where the model of a
    /// collection moves it.
    proof fn lemma_moved_by(&self, m: DocumentView, table: Seq<Vec<usize>>, h: DOMObject)
        requires
            self.swept_state(m, table),
            m.holds(h),
        ensures
            in_table(table, h),
            moved_by(table, h) == m.moved(h),
    {
        lemma_moved_document(m);
        self.lemma_edges(h.node_type);
        assert(m.slots[NodeType::Document].len() == 0);
        if h != DOMObject::document() {
            self.lemma_ranks(m, table, h.node_type, h.id as int);
        }
    }

    /// The table holds a place for every handle in the nodes of one kind.
    proof fn lemma_all_in_table<T>(
        &self,
        m: DocumentView,
        table: Seq<Vec<usize>>,
        kind: NodeType,
        v: Seq<Record<T>>,
    )
        requires
            self.swept_state(m, table),
            edges_of(v) == self.edges(kind),
        ensures
            all_in_table(v, table),
    {
        self.lemma_edges(kind);
        assert forall|i: int|
            0 <= i < v.len() && (#[trigger] v[i]).node.gc_state == GcState::Marked implies {
            &&& v[i].node.parent matches Some(p) ==> in_table(table, p)
            &&& forall|j: int|
                0 <= j < v[i].node.children@.len() ==> in_table(
                    table,
                    #[trigger] v[i].node.children@[j],
                )
        } by {
            let h = handle_at(kind, i);
            assert(v[i].node == self.edges(kind)[i]);
            assert(m.has(h));
            assert(m.node(h) == self.views(kind)[i]);
            if v[i].node.parent is Some {
                assert(m.hangs(h));
                self.lemma_moved_by(m, table, v[i].node.parent->0);
            }
            assert forall|j: int| 0 <= j < v[i].node.children@.len() implies in_table(
                table,
                #[trigger] v[i].node.children@[j],
            ) by {
                assert(m.linked(h, m.children(h)[j]));
                self.lemma_moved_by(m, table, m.children(h)[j]);
            }
        }
    }

    /// For each kind the places that its nodes have after the collection.
    fn forward_table(&self) -> (table: Vec<Vec<usize>>)
        ensures
            table@.len() == 13,
            forall|k: NodeType| (#[trigger] row(table@, k)).len() == self.edges(k).len(),
            forall|k: NodeType, i: int|
                0 <= i < self.edges(k).len() ==> #[trigger] row(table@, k)[i] == marked_before(
                    self.edges(k),
                    i,
                ),
    {
        let mut table: Vec<Vec<usize>> = Vec::new();
        table.push(ranks(&self.els));
        table.push(ranks(&self.attrs));
        table.push(ranks(&self.texts));
        table.push(ranks(&self.cdatas));
        table.push(Vec::new());
        table.push(ranks(&self.entities));
        table.push(ranks(&self.pis));
        table.push(ranks(&self.cms));
        table.push(Vec::new());
        table.push(ranks(&self.doc_types));
        table.push(Vec::new());
        table.push(ranks(&self.notations));
        table.push(ranks(&self.nss));
        table
    }

    /// Frees the nodes that the document node does not reach through
    /// children. The nodes that stay keep what they hold and their order
    /// within their kind; they move up into the places that became free,
    /// and every handle in the tree is renewed. A handle that a caller took
    /// before the collection may name another node after it, or none.
    pub fn gc(&mut self)
        requires
            old(self).wf(),
        ensures
            final(self).wf(),
            final(self)@ == old(self)@.collected(),
    {
        let ghost m = self@;
        self.mark_live();
        let table = self.forward_table();
        let ghost d = *self;
        proof {
            d.lemma_all_in_table(m, table@, NodeType::Element, d.els@);
            d.lemma_all_in_table(m, table@, NodeType::Attribute, d.attrs@);
            d.lemma_all_in_table(m, table@, NodeType::Namespace, d.nss@);
            d.lemma_all_in_table(m, table@, NodeType::ProcessingInstruction, d.pis@);
            d.lemma_all_in_table(m, table@, NodeType::Comment, d.cms@);
            d.lemma_all_in_table(m, table@, NodeType::Text, d.texts@);
            d.lemma_all_in_table(m, table@, NodeType::Notation, d.notations@);
            d.lemma_all_in_table(m, table@, NodeType::Entity, d.entities@);
            d.lemma_all_in_table(m, table@, NodeType::DocumentType, d.doc_types@);
            d.lemma_all_in_table(m, table@, NodeType::CData, d.cdatas@);
            assert forall|j: int| 0 <= j < m.root.len() implies in_table(
                table@,
                #[trigger] self.this_node.children@[j],
            ) by {
                assert(m.linked(DOMObject::document(), m.children(DOMObject::document())[j]));
                d.lemma_moved_by(m, table@, m.root[j]);
            }
        }
        let top = remap_all(&table, &self.this_node.children);
        let mut els: Vec<Element<'a>> = Vec::new();
        core::mem::swap(&mut self.els, &mut els);
        self.els = sweep(els, NodeType::Element, &table);
        let mut attrs: Vec<Attr<'a>> = Vec::new();
        core::mem::swap(&mut self.attrs, &mut attrs);
        self.attrs = sweep(attrs, NodeType::Attribute, &table);
        let mut nss: Vec<Namespace<'a>> = Vec::new();
        core::mem::swap(&mut self.nss, &mut nss);
        self.nss = sweep(nss, NodeType::Namespace, &table);
        let mut pis: Vec<ProcessingInstruction<'a>> = Vec::new();
        core::mem::swap(&mut self.pis, &mut pis);
        self.pis = sweep(pis, NodeType::ProcessingInstruction, &table);
        let mut cms: Vec<Comment<'a>> = Vec::new();
        core::mem::swap(&mut self.cms, &mut cms);
        self.cms = sweep(cms, NodeType::Comment, &table);
        let mut texts: Vec<Text<'a>> = Vec::new();
        core::mem::swap(&mut self.texts, &mut texts);
        self.texts = sweep(texts, NodeType::Text, &table);
        let mut notations: Vec<Notation<'a>> = Vec::new();
        core::mem::swap(&mut self.notations, &mut notations);
        self.notations = sweep(notations, NodeType::Notation, &table);
        let mut entities: Vec<Entity<'a>> = Vec::new();
        core::mem::swap(&mut self.entities, &mut entities);
        self.entities = sweep(entities, NodeType::Entity, &table);
        let mut doc_types: Vec<DocumentType<'a>> = Vec::new();
        core::mem::swap(&mut self.doc_types, &mut doc_types);
        self.doc_types = sweep(doc_types, NodeType::DocumentType, &table);
        let mut cdatas: Vec<CData<'a>> = Vec::new();
        core::mem::swap(&mut self.cdatas, &mut cdatas);
        self.cdatas = sweep(cdatas, NodeType::CData, &table);
        self.this_node.children = top;
        proof {
            let t = table@;
            lemma_swept_views(&d, m, NodeType::Element, t, d.els@, self.els@, |r: Element<'a>| r@);
            lemma_swept_views(&d, m, NodeType::Attribute, t, d.attrs@, self.attrs@, |r: Attr<'a>| r@);
            lemma_swept_views(
                &d,
                m,
                NodeType::Namespace,
                t,
                d.nss@,
                self.nss@,
                |r: Namespace<'a>| r@,
            );
            lemma_swept_views(
                &d,
                m,
                NodeType::ProcessingInstruction,
                t,
                d.pis@,
                self.pis@,
                |r: ProcessingInstruction<'a>| r@,
            );
            lemma_swept_views(&d, m, NodeType::Comment, t, d.cms@, self.cms@, |r: Comment<'a>| r@);
            lemma_swept_views(&d, m, NodeType::Text, t, d.texts@, self.texts@, |r: Text<'a>| r@);
            lemma_swept_views(
                &d,
                m,
                NodeType::Notation,
                t,
                d.notations@,
                self.notations@,
                |r: Notation<'a>| r@,
            );
            lemma_swept_views(
                &d,
                m,
                NodeType::Entity,
                t,
                d.entities@,
                self.entities@,
                |r: Entity<'a>| r@,
            );
            lemma_swept_views(
                &d,
                m,
                NodeType::DocumentType,
                t,
                d.doc_types@,
                self.doc_types@,
                |r: DocumentType<'a>| r@,
            );
            lemma_swept_views(&d, m, NodeType::CData, t, d.cdatas@, self.cdatas@, |r: CData<'a>| r@);
            assert forall|k: NodeType| #[trigger] self.views(k) == m.kept(
                k,
                m.slots[k].len() as int,
            ) by {
                d.lemma_edges(k);
                if !k.spec_is_stored() {
                    assert(self.views(k) =~= m.kept(k, 0));
                }
            }
            assert(self@.slots =~= m.collected().slots);
            assert(self@.root =~= m.collected().root) by {
                assert forall|j: int| 0 <= j < m.root.len() implies moved_by(
                    t,
                    #[trigger] m.root[j],
                ) == m.moved(m.root[j]) by {
                    assert(m.linked(DOMObject::document(), m.children(DOMObject::document())[j]));
                    d.lemma_moved_by(m, t, m.root[j]);
                }
            }
            lemma_collected_wf(m);
            assert forall|k: NodeType| numbered(#[trigger] self.objects(k), k) by {}
            assert forall|k: NodeType| unmarked(#[trigger] self.edges(k)) by {}
        }
    }
}

} // verus!
