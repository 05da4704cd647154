//! Processors: chapter aggregation and document metadata injection, both
//! built on the visit-and-modify rewrite engine.

use vstd::prelude::*;

use crate::attrs::opt_str_view;
use crate::error::Error;
use crate::node::{
    clone_nodes, clone_opt_string, clone_vec_string, lemma_nodes_view_index, nodes_view, KindView,
    Node, NodeKind, NodeView, opt_vec_str_view,
};
use crate::traits::Processor;
use crate::visit::{
    height, height_seq, lemma_vam_children_take, vam, vam_children, Rewriter,
};

verus! {

/// The outcome of reading a frontmatter block for a chapter title:
/// `None` when the text is not well-formed frontmatter, `Some(None)` when it
/// parses but names no title, `Some(Some(t))` when it names title `t`.
/// The outcome depends on the text alone.
pub uninterp spec fn frontmatter_title_of(s: Seq<char>) -> Option<Option<Seq<char>>>;

/// Relies on `serde_yaml::from_str::<Value>` to parse a frontmatter block,
/// and on `Value::get` / `Value::as_str` to read its `title` entry; the
/// outcome is a function of the input text alone.
#[verifier::external_body]
fn parse_frontmatter_title(value: &str) -> (r: Result<Option<String>, Error>)
    ensures
        (match r {
            Ok(t) => frontmatter_title_of(value@) == Option::Some(opt_str_view(t)),
            Err(_) => frontmatter_title_of(value@) == Option::<Option<Seq<char>>>::None,
        }),
{
    match serde_yaml::from_str::<serde_yaml::Value>(value) {
        Ok(parsed) => Ok(
            parsed.get("title").and_then(|t| t.as_str()).map(|s| s.to_string()),
        ),
        Err(e) => Err(Error { message: e.to_string() }),
    }
}

/// The chapter title that a Document's direct children yield: the first
/// Metadata child whose frontmatter parses and names a title. Children with
/// malformed frontmatter, or with none named, are skipped, never fatal.
pub open spec fn chapter_title_spec(s: Seq<NodeView>) -> Option<Seq<char>>
    decreases s,
{
    if s.len() == 0 {
        Option::None
    } else {
        match s[0].kind {
            KindView::Metadata { value } => match frontmatter_title_of(value) {
                Option::Some(Option::Some(t)) => Option::Some(t),
                _ => chapter_title_spec(s.drop_first()),
            },
            _ => chapter_title_spec(s.drop_first()),
        }
    }
}

proof fn lemma_chapter_title_skip(s: Seq<NodeView>, i: int)
    requires
        0 <= i < s.len(),
    ensures
        chapter_title_spec(s.skip(i)) == (match s[i].kind {
            KindView::Metadata { value } => match frontmatter_title_of(value) {
                Option::Some(Option::Some(t)) => Option::Some(t),
                _ => chapter_title_spec(s.skip(i + 1)),
            },
            _ => chapter_title_spec(s.skip(i + 1)),
        }),
{
    assert(s.skip(i).len() == s.len() - i);
    assert(s.skip(i)[0] == s[i]);
    assert(s.skip(i).drop_first() =~= s.skip(i + 1));
}

/// Scans a Document's direct children for a chapter title.
#[verifier::loop_isolation(false)]
fn extract_chapter_title(children: &Vec<Node>) -> (r: Option<String>)
    ensures
        opt_str_view(r) == chapter_title_spec(nodes_view(children@)),
{
    proof {
        lemma_nodes_view_index(children@);
    }
    let ghost views = nodes_view(children@);
    proof {
        assert(views.skip(0) =~= views);
    }
    let mut i: usize = 0;
    while i < children.len()
        invariant
            0 <= i <= children.len(),
            chapter_title_spec(views) == chapter_title_spec(views.skip(i as int)),
        decreases children.len() - i,
    {
        proof {
            lemma_chapter_title_skip(views, i as int);
        }
        match &children[i].kind {
            NodeKind::Metadata { value } => {
                match parse_frontmatter_title(value.as_str()) {
                    Ok(Option::Some(t)) => {
                        return Option::Some(t);
                    },
                    _ => {},
                }
            },
            _ => {},
        }
        i += 1;
    }
    proof {
        assert(views.skip(children.len() as int) =~= Seq::<NodeView>::empty());
    }
    Option::None
}

/// Processor for chapter aggregation: each input tree is one chapter, and
/// the chapters are folded into a single aggregate document. A Document
/// root becomes a Chapter whose title, if any, is recovered from a Metadata
/// child's frontmatter; every Metadata node is removed from the tree; a
/// malformed frontmatter block only costs the title, never the build.
pub struct ChapterAggregProcessor {}

impl ChapterAggregProcessor {
    /// Creates the processor.
    pub fn new() -> (r: ChapterAggregProcessor)
        ensures
            r == (ChapterAggregProcessor {  }),
    {
        ChapterAggregProcessor {  }
    }
}

impl Default for ChapterAggregProcessor {
    /// Creates the processor.
    fn default() -> (r: Self)
        ensures
            r == (ChapterAggregProcessor {  }),
    {
        ChapterAggregProcessor {  }
    }
}

impl Rewriter for ChapterAggregProcessor {
    /// A Document becomes a Chapter keeping span, attributes and children,
    /// with the title recovered from its Metadata children; a Metadata node
    /// is deleted; every other node is kept as it is.
    open spec fn rewrite_spec(&self, n: NodeView) -> Option<NodeView> {
        match n.kind {
            KindView::Document { .. } => Option::Some(
                NodeView {
                    kind: (KindView::Chapter { title: chapter_title_spec(n.children) }),
                    ..n
                },
            ),
            KindView::Metadata { .. } => Option::None,
            _ => Option::Some(n),
        }
    }

    proof fn lemma_shrinks(&self, n: NodeView) {
    }

    fn rewrite(&self, n: &Node) -> (r: Option<Node>) {
        match &n.kind {
            NodeKind::Document { .. } => {
                let title = extract_chapter_title(&n.children);
                let out = Node {
                    kind: NodeKind::Chapter { title },
                    span: n.span,
                    attrs: n.attrs.clone(),
                    children: clone_nodes(&n.children),
                };
                Option::Some(out)
            },
            NodeKind::Metadata { .. } => Option::None,
            _ => Option::Some(n.duplicate()),
        }
    }
}

impl Processor for ChapterAggregProcessor {
    /// Aggregation always succeeds: the output is exactly one synthesized
    /// Document without metadata of its own, whose children are the
    /// rewritten input trees (one Chapter per input Document, in input
    /// order, Metadata nodes gone).
    fn process(&self, nodes: Vec<Node>) -> (r: Result<Vec<Node>, Error>)
        ensures
            (match r {
                Ok(out) => {
                    &&& nodes_view(out@).len() == 1
                    &&& nodes_view(out@)[0].kind == (KindView::Document {
                        title: Option::None,
                        summary: Option::None,
                        authors: Option::None,
                    })
                    &&& nodes_view(out@)[0].span is None
                    &&& nodes_view(out@)[0].attrs == Seq::<(Seq<char>, Option<Seq<char>>)>::empty()
                    &&& nodes_view(out@)[0].children == vam_children(*self, nodes_view(nodes@))
                },
                Err(_) => false,
            }),
    {
        let chapters = rewrite_forest(self, &nodes);
        let doc = Node::new(
            NodeKind::Document { title: None, summary: None, authors: None },
        ).with_children(chapters);
        let mut out: Vec<Node> = Vec::new();
        out.push(doc);
        proof {
            lemma_nodes_view_index(out@);
        }
        Ok(out)
    }
}

/// Rewrites each tree of a forest with the given rewriter, keeping the
/// survivors in order.
#[verifier::loop_isolation(false)]
fn rewrite_forest<R: Rewriter>(r: &R, nodes: &Vec<Node>) -> (out: Vec<Node>)
    ensures
        nodes_view(out@) == vam_children(*r, nodes_view(nodes@)),
{
    proof {
        lemma_nodes_view_index(nodes@);
    }
    let ghost views = nodes_view(nodes@);
    let mut out: Vec<Node> = Vec::new();
    let mut i: usize = 0;
    while i < nodes.len()
        invariant
            0 <= i <= nodes.len(),
            nodes_view(out@) == vam_children(*r, views.take(i as int)),
        decreases nodes.len() - i,
    {
        let rewritten = nodes[i].visit_and_modify(r);
        match rewritten {
            Option::Some(c) => {
                let ghost prev = out@;
                out.push(c);
                proof {
                    crate::node::lemma_nodes_view_push(prev, c);
                    lemma_vam_children_take(*r, views, i as int);
                }
            },
            Option::None => {
                proof {
                    lemma_vam_children_take(*r, views, i as int);
                    assert(nodes_view(out@) =~= vam_children(*r, views.take(i as int + 1)));
                }
            },
        }
        i += 1;
    }
    proof {
        assert(views.take(nodes.len() as int) =~= views);
    }
    out
}

/// Processor that injects document-level metadata: it overwrites the title,
/// summary and author list of every Document node with the caller-supplied
/// values, leaving children untouched.
pub struct DocMetadataProcessor {
    /// Title to inject.
    pub title: Option<String>,
    /// Summary to inject.
    pub summary: Option<String>,
    /// Author list to inject.
    pub authors: Option<Vec<String>>,
}

impl DocMetadataProcessor {
    /// Creates a new processor from the configured metadata.
    pub fn new(title: Option<String>, summary: Option<String>, authors: Option<Vec<String>>) -> (r:
        DocMetadataProcessor)
        ensures
            opt_str_view(r.title) == opt_str_view(title),
            opt_str_view(r.summary) == opt_str_view(summary),
            opt_vec_str_view(r.authors) == opt_vec_str_view(authors),
    {
        DocMetadataProcessor { title, summary, authors }
    }
}

impl Rewriter for DocMetadataProcessor {
    /// A Document gets the configured title, summary and authors; every
    /// other node is kept as it is. Nothing is deleted.
    open spec fn rewrite_spec(&self, n: NodeView) -> Option<NodeView> {
        match n.kind {
            KindView::Document { .. } => Option::Some(
                NodeView {
                    kind: (KindView::Document {
                        title: opt_str_view(self.title),
                        summary: opt_str_view(self.summary),
                        authors: opt_vec_str_view(self.authors),
                    }),
                    ..n
                },
            ),
            _ => Option::Some(n),
        }
    }

    proof fn lemma_shrinks(&self, n: NodeView) {
    }

    fn rewrite(&self, n: &Node) -> (r: Option<Node>) {
        match &n.kind {
            NodeKind::Document { .. } => {
                let authors = match &self.authors {
                    Option::Some(v) => Option::Some(clone_vec_string(v)),
                    Option::None => Option::None,
                };
                let out = Node {
                    kind: NodeKind::Document {
                        title: clone_opt_string(&self.title),
                        summary: clone_opt_string(&self.summary),
                        authors,
                    },
                    span: n.span,
                    attrs: n.attrs.clone(),
                    children: clone_nodes(&n.children),
                };
                Option::Some(out)
            },
            _ => Option::Some(n.duplicate()),
        }
    }
}

impl Processor for DocMetadataProcessor {
    /// Metadata injection always succeeds and keeps one output tree per
    /// input tree, in order: each is the input tree with every Document's
    /// metadata replaced.
    fn process(&self, nodes: Vec<Node>) -> (r: Result<Vec<Node>, Error>)
        ensures
            (match r {
                Ok(out) => nodes_view(out@) == vam_children(*self, nodes_view(nodes@)),
                Err(_) => false,
            }),
    {
        let out = rewrite_forest(self, &nodes);
        Ok(out)
    }
}

/// Chapter aggregation, node level: any Document becomes a Chapter that
/// keeps the Document's span, attributes and (rewritten) children; its
/// title is the first one a Metadata child's frontmatter yields; and no
/// Metadata node survives among the children.
pub proof fn lemma_chapter_aggregation(doc: NodeView)
    requires
        doc.kind is Document,
    ensures
        (match vam(ChapterAggregProcessor {  }, doc) {
            Option::Some(ch) => {
                &&& ch.kind == (KindView::Chapter { title: chapter_title_spec(doc.children) })
                &&& ch.span == doc.span
                &&& ch.attrs == doc.attrs
                &&& ch.children == vam_children(ChapterAggregProcessor {  }, doc.children)
                &&& (forall|i: int|
                    0 <= i < ch.children.len() ==> !(#[trigger] ch.children[i].kind is Metadata))
            },
            Option::None => false,
        }),
{
    let r = ChapterAggregProcessor {  };
    lemma_vam_children_no_metadata(r, doc.children, height_seq(doc.children) + 1);
}

/// No Metadata node survives a chapter-aggregation rewrite of a forest.
proof fn lemma_vam_children_no_metadata(r: ChapterAggregProcessor, s: Seq<NodeView>, bound: nat)
    requires
        height_seq(s) < bound,
    ensures
        forall|i: int|
            0 <= i < vam_children(r, s).len() ==> !(#[trigger] vam_children(r, s)[i].kind
                is Metadata),
    decreases bound, s.len(),
{
    if s.len() > 0 {
        crate::visit::lemma_height_seq_child(s, 0);
        crate::visit::lemma_height_seq_drop_first(s);
        lemma_vam_children_no_metadata(r, s.drop_first(), bound);
        match vam(r, s[0]) {
            Option::Some(x) => {
                assert(!(x.kind is Metadata));
                assert(forall|i: int|
                    0 <= i < vam_children(r, s).len() && i >= 1 ==> vam_children(r, s)[i]
                        == vam_children(r, s.drop_first())[i - 1]);
            },
            Option::None => {
                assert(forall|i: int|
                    0 <= i < vam_children(r, s).len() ==> vam_children(r, s)[i] == vam_children(
                        r,
                        s.drop_first(),
                    )[i]);
            },
        }
    }
}

} // verus!
