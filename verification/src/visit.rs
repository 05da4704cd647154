//! The traversal and rewrite engine: pre-order visiting, in-place field
//! editing, and the visit-and-modify rewrite primitive that processors are
//! built on.

use vstd::prelude::*;

use crate::node::{node_view, nodes_view, lemma_nodes_view_index, Node, NodeView};

verus! {

/// Number of nodes in the tree rooted at `n`.
pub open spec fn count(n: NodeView) -> nat
    decreases n, 0nat,
{
    1 + count_seq(n.children)
}

/// Total number of nodes in a forest.
pub open spec fn count_seq(s: Seq<NodeView>) -> nat
    decreases s, 1nat,
{
    if s.len() == 0 {
        0
    } else {
        count(s[0]) + count_seq(s.drop_first())
    }
}

/// Height of the tree rooted at `n` (a single node has height 1).
pub open spec fn height(n: NodeView) -> nat
    decreases n, 0nat,
{
    1 + height_seq(n.children)
}

/// Greatest height of any tree in a forest (0 for an empty forest).
pub open spec fn height_seq(s: Seq<NodeView>) -> nat
    decreases s, 1nat,
{
    if s.len() == 0 {
        0
    } else {
        let h0 = height(s[0]);
        let hr = height_seq(s.drop_first());
        if h0 >= hr {
            h0
        } else {
            hr
        }
    }
}

/// The nodes of the tree rooted at `n` in pre-order: the node itself first,
/// then each child's subtree, children left to right.
pub open spec fn preorder(n: NodeView) -> Seq<NodeView>
    decreases n, 0nat,
{
    seq![n] + preorder_seq(n.children)
}

/// Pre-order of a forest: the subtrees one after the other, left to right.
pub open spec fn preorder_seq(s: Seq<NodeView>) -> Seq<NodeView>
    decreases s, 1nat,
{
    if s.len() == 0 {
        Seq::empty()
    } else {
        preorder(s[0]) + preorder_seq(s.drop_first())
    }
}

/// `count_seq` distributes over concatenation.
pub proof fn lemma_count_seq_concat(a: Seq<NodeView>, b: Seq<NodeView>)
    ensures
        count_seq(a + b) == count_seq(a) + count_seq(b),
    decreases a,
{
    if a.len() == 0 {
        assert(a + b =~= b);
    } else {
        assert((a + b).drop_first() =~= a.drop_first() + b);
        lemma_count_seq_concat(a.drop_first(), b);
    }
}

/// `preorder_seq` distributes over concatenation.
pub proof fn lemma_preorder_seq_concat(a: Seq<NodeView>, b: Seq<NodeView>)
    ensures
        preorder_seq(a + b) == preorder_seq(a) + preorder_seq(b),
    decreases a,
{
    if a.len() == 0 {
        assert(a + b =~= b);
        assert(preorder_seq(a) + preorder_seq(b) =~= preorder_seq(b));
    } else {
        assert((a + b).drop_first() =~= a.drop_first() + b);
        lemma_preorder_seq_concat(a.drop_first(), b);
        assert(preorder_seq(a + b) =~= preorder_seq(a) + preorder_seq(b));
    }
}

/// Taking one more tree into a forest prefix adds its count.
pub proof fn lemma_count_seq_take(s: Seq<NodeView>, i: int)
    requires
        0 <= i < s.len(),
    ensures
        count_seq(s.take(i + 1)) == count_seq(s.take(i)) + count(s[i]),
{
    assert(s.take(i + 1) =~= s.take(i) + seq![s[i]]);
    lemma_count_seq_concat(s.take(i), seq![s[i]]);
    assert(count_seq(seq![s[i]]) == count(s[i]) + count_seq(seq![s[i]].drop_first()));
    assert(seq![s[i]].drop_first() =~= Seq::<NodeView>::empty());
}

/// Taking one more tree into a forest prefix appends its pre-order.
pub proof fn lemma_preorder_seq_take(s: Seq<NodeView>, i: int)
    requires
        0 <= i < s.len(),
    ensures
        preorder_seq(s.take(i + 1)) == preorder_seq(s.take(i)) + preorder(s[i]),
{
    assert(s.take(i + 1) =~= s.take(i) + seq![s[i]]);
    lemma_preorder_seq_concat(s.take(i), seq![s[i]]);
    assert(seq![s[i]].len() == 1 && seq![s[i]][0] == s[i]);
    assert(seq![s[i]].drop_first() =~= Seq::<NodeView>::empty());
    assert(preorder_seq(seq![s[i]]) == preorder(s[i]) + preorder_seq(Seq::<NodeView>::empty()));
    assert(preorder_seq(seq![s[i]]) =~= preorder(s[i]));
}

/// Every child tree is lower than the forest's height bound.
pub proof fn lemma_height_seq_child(s: Seq<NodeView>, i: int)
    requires
        0 <= i < s.len(),
    ensures
        height(s[i]) <= height_seq(s),
    decreases s,
{
    if i > 0 {
        lemma_height_seq_child(s.drop_first(), i - 1);
        assert(s.drop_first()[i - 1] == s[i]);
    }
}

/// A pre-order traversal visits every node exactly once: the sequence of
/// visited nodes has exactly one entry per node of the tree, and the node
/// itself comes first, before all of its descendants.
pub proof fn lemma_preorder_count(n: NodeView)
    ensures
        preorder(n).len() == count(n),
        preorder(n)[0] == n,
    decreases n, 0nat,
{
    lemma_preorder_seq_count(n.children);
}

/// Pre-order of a forest has exactly one entry per node.
pub proof fn lemma_preorder_seq_count(s: Seq<NodeView>)
    ensures
        preorder_seq(s).len() == count_seq(s),
    decreases s, 1nat,
{
    if s.len() > 0 {
        lemma_preorder_count(s[0]);
        lemma_preorder_seq_count(s.drop_first());
    }
}

/// A visitor for read-only pre-order traversal. `seen` abstracts the
/// visitor's state as the sequence of node views handed to it so far;
/// `capacity` bounds how many more nodes it can absorb (a purely ghost
/// budget that lets an implementation justify, say, a counter that must
/// not overflow).
pub trait Visitor: Sized {
    /// The nodes seen so far, in visit order.
    spec fn seen(&self) -> Seq<NodeView>;

    /// How many more nodes may be visited.
    spec fn capacity(&self) -> nat;

    /// An implementation-chosen invariant that `on_node` keeps and the
    /// traversal carries along.
    spec fn inv(&self) -> bool;

    /// Called once per node, parents before children, children left to
    /// right.
    fn on_node(&mut self, n: &Node)
        requires
            old(self).inv(),
            old(self).capacity() > 0,
        ensures
            final(self).inv(),
            final(self).seen() == old(self).seen().push(n@),
            final(self).capacity() >= old(self).capacity() - 1,
    ;
}

/// A visitor that counts the nodes it is handed.
pub struct CountVisitor {
    /// Number of nodes seen.
    pub count: usize,
    /// Ghost record of the nodes seen.
    pub seen: Ghost<Seq<NodeView>>,
}

impl CountVisitor {
    /// Creates a counter at zero.
    pub fn new() -> (r: CountVisitor)
        ensures
            r.count == 0,
            r.seen() == Seq::<NodeView>::empty(),
            r.capacity() == usize::MAX,
            r.inv(),
    {
        CountVisitor { count: 0, seen: Ghost(Seq::empty()) }
    }
}

impl Visitor for CountVisitor {
    open spec fn seen(&self) -> Seq<NodeView> {
        self.seen@
    }

    open spec fn capacity(&self) -> nat {
        (usize::MAX - self.count) as nat
    }

    open spec fn inv(&self) -> bool {
        self.count == self.seen@.len()
    }

    fn on_node(&mut self, n: &Node) {
        self.count = self.count + 1;
        proof {
            self.seen@ = self.seen@.push(n@);
        }
    }
}

impl Node {
    /// Pre-order traversal: hands this node to the visitor, then visits each
    /// child subtree in order. Every node of the tree is handed to the
    /// visitor exactly once, parents before children, children left to
    /// right.
    pub fn visit<V: Visitor>(&self, v: &mut V)
        requires
            old(v).inv(),
            old(v).capacity() >= count(self@),
        ensures
            final(v).inv(),
            final(v).seen() == old(v).seen() + preorder(self@),
            final(v).capacity() >= old(v).capacity() - count(self@),
        decreases height(self@),
    {
        proof {
            lemma_nodes_view_index(self.children@);
        }
        v.on_node(self);
        let ghost children_views = self@.children;
        let n = self.children.len();
        let mut i: usize = 0;
        while i < n
            invariant
                n == self.children.len(),
                children_views == self@.children,
                nodes_view(self.children@) == children_views,
                0 <= i <= n,
                children_views.len() == n,
                forall|j: int|
                    0 <= j < n ==> #[trigger] nodes_view(self.children@)[j] == self.children@[j]@,
                v.inv(),
                v.seen() == old(v).seen() + seq![self@] + preorder_seq(children_views.take(i as int)),
                v.capacity() + 1 + count_seq(children_views.take(i as int)) >= old(v).capacity(),
                old(v).capacity() >= count(self@),
            decreases n - i,
        {
            proof {
                lemma_height_seq_child(children_views, i as int);
                lemma_count_seq_take_bound(children_views, i as int);
                assert(self.children@[i as int]@ == children_views[i as int]);
            }
            self.children[i].visit(v);
            proof {
                lemma_preorder_seq_take(children_views, i as int);
                lemma_count_seq_take(children_views, i as int);
                assert(v.seen() =~= old(v).seen() + seq![self@] + preorder_seq(
                    children_views.take(i as int + 1),
                ));
            }
            i += 1;
        }
        proof {
            assert(children_views.take(n as int) =~= children_views);
            assert(v.seen() =~= old(v).seen() + preorder(self@));
        }
    }

    /// Returns the number of nodes in this tree.
    pub fn nb_nodes(&self) -> (r: usize)
        requires
            count(self@) <= usize::MAX,
        ensures
            r == count(self@),
    {
        let mut v = CountVisitor::new();
        self.visit(&mut v);
        proof {
            lemma_preorder_count(self@);
        }
        v.count
    }
}

/// A visitor for in-place field edits during a pre-order traversal. The
/// edit may change a node's kind, span or attributes but never restructures
/// the tree: the children sequence is left as it is (the rewrite primitive
/// below is the tool for restructuring).
pub trait MutVisitor: Sized {
    /// What the edit does to one node.
    spec fn edit_spec(&self, n: NodeView) -> NodeView;

    /// The edit never changes the children sequence.
    proof fn lemma_edit_keeps_children(&self, n: NodeView)
        ensures
            self.edit_spec(n).children == n.children,
    ;

    /// Performs the edit on one node.
    fn edit(&self, n: &mut Node)
        ensures
            final(n)@ == self.edit_spec(old(n)@),
    ;
}

/// The tree after a mutable pre-order traversal: every node edited, same
/// shape, same order.
pub open spec fn visit_mut_spec<V: MutVisitor>(v: V, n: NodeView) -> NodeView
    decreases n, 0nat,
{
    let e = v.edit_spec(n);
    NodeView { kind: e.kind, span: e.span, attrs: e.attrs, children: visit_mut_children(v, n.children) }
}

/// A forest after a mutable pre-order traversal.
pub open spec fn visit_mut_children<V: MutVisitor>(v: V, s: Seq<NodeView>) -> Seq<NodeView>
    decreases s, 1nat,
{
    if s.len() == 0 {
        Seq::empty()
    } else {
        seq![visit_mut_spec(v, s[0])] + visit_mut_children(v, s.drop_first())
    }
}

/// `visit_mut_children` maps the forest pointwise.
pub proof fn lemma_visit_mut_children_index<V: MutVisitor>(v: V, s: Seq<NodeView>)
    ensures
        visit_mut_children(v, s).len() == s.len(),
        forall|i: int|
            0 <= i < s.len() ==> #[trigger] visit_mut_children(v, s)[i] == visit_mut_spec(v, s[i]),
    decreases s,
{
    if s.len() > 0 {
        lemma_visit_mut_children_index(v, s.drop_first());
        assert forall|i: int|
            0 <= i < s.len() implies #[trigger] visit_mut_children(v, s)[i] == visit_mut_spec(
            v,
            s[i],
        ) by {
            if i > 0 {
                assert(visit_mut_children(v, s)[i] == visit_mut_children(v, s.drop_first())[i - 1]);
                assert(s.drop_first()[i - 1] == s[i]);
            }
        }
    }
}

/// A visitor that drops every span: spans are only meaningful relative to
/// the source text a parser saw, so a processor that relocates nodes uses
/// this to scrub them.
pub struct StripSpans;

impl MutVisitor for StripSpans {
    open spec fn edit_spec(&self, n: NodeView) -> NodeView {
        NodeView { span: None, ..n }
    }

    proof fn lemma_edit_keeps_children(&self, n: NodeView) {
    }

    fn edit(&self, n: &mut Node) {
        n.span = None;
    }
}

impl Node {
    /// Pre-order traversal with in-place edits: edits this node, then each
    /// child subtree in order. The tree keeps its shape; only node fields
    /// change.
    pub fn visit_mut<V: MutVisitor>(&mut self, v: &V)
        ensures
            final(self)@ == visit_mut_spec(*v, old(self)@),
        decreases height(old(self)@),
    {
        let ghost start = old(self)@;
        proof {
            v.lemma_edit_keeps_children(start);
        }
        v.edit(self);
        let ghost edited = v.edit_spec(start);
        proof {
            lemma_nodes_view_index(self.children@);
        }
        let n = self.children.len();
        let ghost child_views = start.children;
        proof {
            assert(nodes_view(self.children@) == child_views);
            assert(child_views.len() == n);
        }
        let mut i: usize = 0;
        while i < n
            invariant
                start == old(self)@,
                n == self.children.len(),
                child_views == start.children,
                child_views.len() == n,
                0 <= i <= n,
                edited == v.edit_spec(start),
                self@.kind == edited.kind,
                self@.span == edited.span,
                self@.attrs == edited.attrs,
                forall|j: int|
                    0 <= j < i ==> #[trigger] self.children@[j]@ == visit_mut_spec(
                        *v,
                        child_views[j],
                    ),
                forall|j: int| i <= j < n ==> #[trigger] self.children@[j]@ == child_views[j],
            decreases n - i,
        {
            proof {
                lemma_height_seq_child(child_views, i as int);
                assert(self.children@[i as int]@ == child_views[i as int]);
                assert(height(child_views[i as int]) < height(start));
            }
            let child = &mut self.children[i];
            child.visit_mut(v);
            proof {
                lemma_nodes_view_index(self.children@);
            }
            i += 1;
        }
        proof {
            lemma_nodes_view_index(self.children@);
            lemma_visit_mut_children_index(*v, child_views);
            assert forall|j: int|
                0 <= j < n implies nodes_view(self.children@)[j] == visit_mut_children(
                *v,
                child_views,
            )[j] by {
                assert(self.children@[j]@ == visit_mut_spec(*v, child_views[j]));
                assert(nodes_view(self.children@)[j] == node_view(self.children@[j]));
            }
            assert(nodes_view(self.children@) =~= visit_mut_children(*v, child_views));
            assert(self@ == visit_mut_spec(*v, start));
        }
    }
}

/// A rewrite step for the visit-and-modify engine: a per-node decision to
/// delete the node (`None`) or to replace it (`Some`). The engine applies
/// it to a node before it descends, so the decision always sees the node's
/// original children, while the children kept afterwards are the
/// independently rewritten ones.
pub trait Rewriter: Sized {
    /// What the rewrite does to one node.
    spec fn rewrite_spec(&self, n: NodeView) -> Option<NodeView>;

    /// A replacement never grows the tree's height; this is what lets every
    /// traversal built on this rewriter terminate.
    proof fn lemma_shrinks(&self, n: NodeView)
        ensures
            (match self.rewrite_spec(n) {
                Option::Some(rep) => height(rep) <= height(n),
                Option::None => true,
            }),
    ;

    /// Performs the rewrite decision for one node.
    fn rewrite(&self, n: &Node) -> (r: Option<Node>)
        ensures
            (match r {
                Option::Some(out) => self.rewrite_spec(n@) == Option::Some(out@),
                Option::None => self.rewrite_spec(n@) == Option::<NodeView>::None,
            }),
    ;
}

/// The visit-and-modify algorithm. Applies the rewriter to the node; if it
/// answers `None` the whole subtree is deleted. Otherwise the engine
/// recurses into the replacement's children (not the original node's),
/// deletes every child whose own rewrite answers `None`, and keeps the
/// surviving rewritten children in their original order.
pub open spec fn vam<R: Rewriter>(r: R, n: NodeView) -> Option<NodeView>
    decreases height(n), 0nat,
{
    match r.rewrite_spec(n) {
        Option::None => Option::None,
        Option::Some(rep) => {
            proof {
                r.lemma_shrinks(n);
            }
            Option::Some(
                NodeView {
                    kind: rep.kind,
                    span: rep.span,
                    attrs: rep.attrs,
                    children: vam_children(r, rep.children),
                },
            )
        },
    }
}

/// Rewrites a forest: each tree independently, keeping the survivors in
/// order.
pub open spec fn vam_children<R: Rewriter>(r: R, s: Seq<NodeView>) -> Seq<NodeView>
    decreases height_seq(s), s.len() + 1nat,
{
    if s.len() == 0 {
        Seq::empty()
    } else {
        proof {
            lemma_height_seq_child(s, 0);
            lemma_height_seq_drop_first(s);
        }
        let head = match vam(r, s[0]) {
            Option::None => Seq::empty(),
            Option::Some(x) => seq![x],
        };
        head + vam_children(r, s.drop_first())
    }
}

/// Dropping the first tree never raises a forest's height bound.
pub proof fn lemma_height_seq_drop_first(s: Seq<NodeView>)
    requires
        s.len() > 0,
    ensures
        height_seq(s.drop_first()) <= height_seq(s),
{
}

/// `vam_children` distributes over concatenation.
pub proof fn lemma_vam_children_concat<R: Rewriter>(r: R, a: Seq<NodeView>, b: Seq<NodeView>)
    ensures
        vam_children(r, a + b) == vam_children(r, a) + vam_children(r, b),
    decreases a.len(),
{
    if a.len() == 0 {
        assert(a + b =~= b);
        assert(vam_children(r, a) + vam_children(r, b) =~= vam_children(r, b));
    } else {
        assert((a + b).drop_first() =~= a.drop_first() + b);
        assert((a + b)[0] == a[0]);
        lemma_vam_children_concat(r, a.drop_first(), b);
        assert(vam_children(r, a + b) =~= vam_children(r, a) + vam_children(r, b));
    }
}

/// Taking one more tree into a forest prefix appends its rewrite, if it
/// survives.
pub proof fn lemma_vam_children_take<R: Rewriter>(r: R, s: Seq<NodeView>, i: int)
    requires
        0 <= i < s.len(),
    ensures
        vam_children(r, s.take(i + 1)) == vam_children(r, s.take(i)) + (match vam(r, s[i]) {
            Option::None => Seq::<NodeView>::empty(),
            Option::Some(x) => seq![x],
        }),
{
    assert(s.take(i + 1) =~= s.take(i) + seq![s[i]]);
    lemma_vam_children_concat(r, s.take(i), seq![s[i]]);
    assert(seq![s[i]].len() == 1 && seq![s[i]][0] == s[i]);
    assert(seq![s[i]].drop_first() =~= Seq::<NodeView>::empty());
    assert(vam_children(r, Seq::<NodeView>::empty()) == Seq::<NodeView>::empty());
    assert(vam_children(r, seq![s[i]]) =~= (match vam(r, s[i]) {
        Option::None => Seq::<NodeView>::empty(),
        Option::Some(x) => seq![x],
    }));
}

impl Node {
    /// The rewrite primitive. Applies the rewriter to this node: if it
    /// answers `None`, the node and its whole subtree are deleted (`None` is
    /// returned, and nothing of the subtree survives anywhere). If it
    /// answers a replacement, the engine recurses into the replacement's
    /// children, drops the deleted ones, and keeps the surviving rewritten
    /// children in their original order.
    pub fn visit_and_modify<R: Rewriter>(&self, r: &R) -> (res: Option<Node>)
        ensures
            (match res {
                Option::Some(out) => vam(*r, self@) == Option::Some(out@),
                Option::None => vam(*r, self@) == Option::<NodeView>::None,
            }),
        decreases height(self@),
    {
        let rep = match r.rewrite(self) {
            Option::None => {
                return Option::None;
            },
            Option::Some(rep) => rep,
        };
        let ghost rep_view = rep@;
        proof {
            r.lemma_shrinks(self@);
        }
        let Node { kind, span, attrs, children } = rep;
        let ghost child_views = rep_view.children;
        proof {
            lemma_nodes_view_index(children@);
            assert(nodes_view(children@) == child_views);
        }
        let n = children.len();
        let mut out_children: Vec<Node> = Vec::new();
        let mut i: usize = 0;
        while i < n
            invariant
                n == children.len(),
                child_views.len() == n,
                child_views == nodes_view(children@),
                height_seq(child_views) < height(self@),
                0 <= i <= n,
                forall|j: int| 0 <= j < n ==> #[trigger] children@[j]@ == child_views[j],
                nodes_view(out_children@) == vam_children(*r, child_views.take(i as int)),
            decreases n - i,
        {
            proof {
                lemma_height_seq_child(child_views, i as int);
            }
            let rewritten = children[i].visit_and_modify(r);
            match rewritten {
                Option::Some(c) => {
                    let ghost prev = out_children@;
                    out_children.push(c);
                    proof {
                        crate::node::lemma_nodes_view_push(prev, c);
                        lemma_vam_children_take(*r, child_views, i as int);
                    }
                },
                Option::None => {
                    proof {
                        lemma_vam_children_take(*r, child_views, i as int);
                        assert(nodes_view(out_children@) =~= vam_children(
                            *r,
                            child_views.take(i as int + 1),
                        ));
                    }
                },
            }
            i += 1;
        }
        proof {
            assert(child_views.take(n as int) =~= child_views);
        }
        let out = Node { kind, span, attrs, children: out_children };
        proof {
            assert(out@.kind == rep_view.kind && out@.span == rep_view.span && out@.attrs
                == rep_view.attrs);
            assert(vam(*r, self@) == Option::Some(out@));
        }
        Option::Some(out)
    }
}

/// If the rewriter deletes a subtree's root, the whole subtree is deleted:
/// nothing of it appears in any output.
pub proof fn lemma_vam_deleted<R: Rewriter>(r: R, n: NodeView)
    requires
        r.rewrite_spec(n) is None,
    ensures
        vam(r, n) is None,
{
}

/// Deletion leaves the siblings untouched: rewriting a forest that contains
/// a deleted tree gives exactly the rewrite of the other trees, in their
/// original order.
pub proof fn lemma_vam_children_deletion<R: Rewriter>(
    r: R,
    s1: Seq<NodeView>,
    d: NodeView,
    s2: Seq<NodeView>,
)
    requires
        vam(r, d) is None,
    ensures
        vam_children(r, s1 + seq![d] + s2) == vam_children(r, s1) + vam_children(r, s2),
{
    lemma_vam_children_concat(r, s1 + seq![d], s2);
    lemma_vam_children_concat(r, s1, seq![d]);
    assert(seq![d].len() == 1 && seq![d][0] == d);
    assert(seq![d].drop_first() =~= Seq::<NodeView>::empty());
    assert(vam_children(r, Seq::<NodeView>::empty()) == Seq::<NodeView>::empty());
    assert(vam_children(r, seq![d]) =~= Seq::<NodeView>::empty());
    assert(vam_children(r, s1 + seq![d] + s2) =~= vam_children(r, s1) + vam_children(r, s2));
}

/// A rewriter that replaces every node by itself leaves any tree exactly as
/// it was.
pub proof fn lemma_vam_identity<R: Rewriter>(r: R, n: NodeView)
    requires
        forall|m: NodeView| #[trigger] r.rewrite_spec(m) == Option::Some(m),
    ensures
        vam(r, n) == Option::Some(n),
    decreases height(n) + 1nat, 0nat,
{
    lemma_vam_identity_children(r, n.children, height(n));
    assert(vam(r, n) == Option::Some(
        NodeView {
            kind: n.kind,
            span: n.span,
            attrs: n.attrs,
            children: vam_children(r, n.children),
        },
    ));
    assert((NodeView {
        kind: n.kind,
        span: n.span,
        attrs: n.attrs,
        children: n.children,
    }) == n);
}

proof fn lemma_vam_identity_children<R: Rewriter>(r: R, s: Seq<NodeView>, bound: nat)
    requires
        forall|m: NodeView| #[trigger] r.rewrite_spec(m) == Option::Some(m),
        height_seq(s) < bound,
    ensures
        vam_children(r, s) == s,
    decreases bound, s.len(),
{
    if s.len() > 0 {
        lemma_height_seq_child(s, 0);
        lemma_height_seq_drop_first(s);
        lemma_vam_identity(r, s[0]);
        lemma_vam_identity_children(r, s.drop_first(), bound);
        assert(vam_children(r, s) =~= s);
    } else {
        assert(vam_children(r, s) =~= s);
    }
}

/// A tree with the same shape and fields as `n`, every variant tag mapped
/// through `g`.
pub open spec fn map_kind(g: spec_fn(crate::node::KindView) -> crate::node::KindView, n: NodeView) -> NodeView
    decreases n, 0nat,
{
    NodeView { kind: g(n.kind), span: n.span, attrs: n.attrs, children: map_kind_seq(g, n.children) }
}

/// `map_kind` over a forest.
pub open spec fn map_kind_seq(
    g: spec_fn(crate::node::KindView) -> crate::node::KindView,
    s: Seq<NodeView>,
) -> Seq<NodeView>
    decreases s, 1nat,
{
    if s.len() == 0 {
        Seq::empty()
    } else {
        seq![map_kind(g, s[0])] + map_kind_seq(g, s.drop_first())
    }
}

/// Replacement independence: a rewriter that only renames variant tags
/// (it replaces each node by the same node with `g` applied to its kind,
/// deleting nothing) produces exactly the tag-renamed tree. Shape, order,
/// spans, attributes and all field values are untouched. In particular,
/// replacing a Document by a Chapter while every other variant maps to
/// itself changes that one node's tag and nothing else.
pub proof fn lemma_vam_map_kind<R: Rewriter>(
    r: R,
    g: spec_fn(crate::node::KindView) -> crate::node::KindView,
    n: NodeView,
)
    requires
        forall|m: NodeView| #[trigger] r.rewrite_spec(m) == Option::Some(
            NodeView { kind: g(m.kind), ..m },
        ),
    ensures
        vam(r, n) == Option::Some(map_kind(g, n)),
    decreases height(n) + 1nat, 0nat,
{
    lemma_vam_map_kind_children(r, g, n.children, height(n));
}

proof fn lemma_vam_map_kind_children<R: Rewriter>(
    r: R,
    g: spec_fn(crate::node::KindView) -> crate::node::KindView,
    s: Seq<NodeView>,
    bound: nat,
)
    requires
        forall|m: NodeView| #[trigger] r.rewrite_spec(m) == Option::Some(
            NodeView { kind: g(m.kind), ..m },
        ),
        height_seq(s) < bound,
    ensures
        vam_children(r, s) == map_kind_seq(g, s),
    decreases bound, s.len(),
{
    if s.len() > 0 {
        lemma_height_seq_child(s, 0);
        lemma_height_seq_drop_first(s);
        lemma_vam_map_kind(r, g, s[0]);
        lemma_vam_map_kind_children(r, g, s.drop_first(), bound);
        assert(vam_children(r, s) =~= map_kind_seq(g, s));
    } else {
        assert(vam_children(r, s) =~= map_kind_seq(g, s));
    }
}

/// `map_kind_seq` maps the forest pointwise.
pub proof fn lemma_map_kind_seq_index(
    g: spec_fn(crate::node::KindView) -> crate::node::KindView,
    s: Seq<NodeView>,
)
    ensures
        map_kind_seq(g, s).len() == s.len(),
        forall|i: int| 0 <= i < s.len() ==> #[trigger] map_kind_seq(g, s)[i] == map_kind(g, s[i]),
    decreases s,
{
    if s.len() > 0 {
        lemma_map_kind_seq_index(g, s.drop_first());
        assert forall|i: int| 0 <= i < s.len() implies #[trigger] map_kind_seq(g, s)[i]
            == map_kind(g, s[i]) by {
            if i > 0 {
                assert(map_kind_seq(g, s)[i] == map_kind_seq(g, s.drop_first())[i - 1]);
                assert(s.drop_first()[i - 1] == s[i]);
            }
        }
    }
}

/// A tag renaming changes nothing but tags: at every node of the tree the
/// span, the attributes, the number of children and their order are kept;
/// only the variant tag passes through `g`.
pub proof fn lemma_map_kind_structure(
    g: spec_fn(crate::node::KindView) -> crate::node::KindView,
    n: NodeView,
)
    ensures
        map_kind(g, n).kind == g(n.kind),
        map_kind(g, n).span == n.span,
        map_kind(g, n).attrs == n.attrs,
        map_kind(g, n).children.len() == n.children.len(),
        forall|i: int|
            0 <= i < n.children.len() ==> #[trigger] map_kind(g, n).children[i] == map_kind(
                g,
                n.children[i],
            ),
{
    lemma_map_kind_seq_index(g, n.children);
}

/// Whether some node of the tree is a Document.
pub open spec fn has_document(n: NodeView) -> bool
    decreases n, 0nat,
{
    n.kind is Document || has_document_seq(n.children)
}

/// Whether some node of the forest is a Document.
pub open spec fn has_document_seq(s: Seq<NodeView>) -> bool
    decreases s, 1nat,
{
    if s.len() == 0 {
        false
    } else {
        has_document(s[0]) || has_document_seq(s.drop_first())
    }
}

/// A tag renaming that touches only Documents leaves any tree without a
/// Document untouched: the descendants of a renamed Document stay
/// structurally identical.
pub proof fn lemma_map_kind_untouched(
    g: spec_fn(crate::node::KindView) -> crate::node::KindView,
    n: NodeView,
)
    requires
        forall|k: crate::node::KindView| !(k is Document) ==> #[trigger] g(k) == k,
        !has_document(n),
    ensures
        map_kind(g, n) == n,
    decreases n, 0nat,
{
    lemma_map_kind_untouched_seq(g, n.children);
    assert((NodeView {
        kind: n.kind,
        span: n.span,
        attrs: n.attrs,
        children: n.children,
    }) == n);
}

proof fn lemma_map_kind_untouched_seq(
    g: spec_fn(crate::node::KindView) -> crate::node::KindView,
    s: Seq<NodeView>,
)
    requires
        forall|k: crate::node::KindView| !(k is Document) ==> #[trigger] g(k) == k,
        !has_document_seq(s),
    ensures
        map_kind_seq(g, s) == s,
    decreases s, 1nat,
{
    if s.len() > 0 {
        lemma_map_kind_untouched(g, s[0]);
        lemma_map_kind_untouched_seq(g, s.drop_first());
        assert(map_kind_seq(g, s) =~= s);
    } else {
        assert(map_kind_seq(g, s) =~= s);
    }
}

/// Prefix counts never exceed the forest's count.
proof fn lemma_count_seq_take_bound(s: Seq<NodeView>, i: int)
    requires
        0 <= i <= s.len(),
    ensures
        count_seq(s.take(i)) + count_seq(s.skip(i)) == count_seq(s),
        count(s[i]) <= count_seq(s.skip(i)) || i == s.len(),
{
    assert(s =~= s.take(i) + s.skip(i));
    lemma_count_seq_concat(s.take(i), s.skip(i));
    if i < s.len() {
        assert(s.skip(i).len() > 0);
        assert(s.skip(i)[0] == s[i]);
        assert(count_seq(s.skip(i)) == count(s[i]) + count_seq(s.skip(i).drop_first()));
    }
}

} // verus!
