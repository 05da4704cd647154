//! PDF: the verified text-layout plan. The PDF page format supports only
//! document structure, headings, paragraphs and text; anything else - a
//! table, a list, an image - fails explicitly rather than being dropped.
//! Turning the plan into PDF bytes is typography, left to the caller.

use vstd::prelude::*;

use crate::error::Error;
use crate::node::{lemma_nodes_view_index, nodes_view, KindView, Node, NodeKind, NodeView};

verus! {

/// The plain text of a subtree: text runs in order, breaks as newlines.
pub open spec fn text_content(n: NodeView) -> Seq<char>
    decreases n, 0nat,
{
    match n.kind {
        KindView::Text { value } => value,
        KindView::InlineCode { value } => value,
        KindView::LineBreak => "\n"@,
        KindView::SoftBreak => "\n"@,
        _ => text_content_seq(n.children),
    }
}

/// The plain text of a forest.
pub open spec fn text_content_seq(s: Seq<NodeView>) -> Seq<char>
    decreases s, 1nat,
{
    if s.len() == 0 {
        Seq::empty()
    } else {
        text_content(s[0]) + text_content_seq(s.drop_first())
    }
}

/// The text blocks a tree lays out to, or the first unsupported variant.
/// Structural containers concatenate their children's blocks (a Document's
/// or Chapter's title becomes a leading block); a heading or paragraph is
/// one block of its text; breaks, comments and metadata lay out to nothing;
/// every other variant is unsupported and an explicit error.
pub open spec fn pdf_blocks(n: NodeView) -> Result<Seq<Seq<char>>, Seq<char>>
    decreases n, 0nat,
{
    match n.kind {
        KindView::Document { title, .. } => match pdf_blocks_seq(n.children) {
            Ok(bs) => Ok(
                (match title {
                    Option::Some(t) => seq![t],
                    Option::None => Seq::<Seq<char>>::empty(),
                }) + bs,
            ),
            Err(m) => Err(m),
        },
        KindView::Chapter { title } => match pdf_blocks_seq(n.children) {
            Ok(bs) => Ok(
                (match title {
                    Option::Some(t) => seq![t],
                    Option::None => Seq::<Seq<char>>::empty(),
                }) + bs,
            ),
            Err(m) => Err(m),
        },
        KindView::Fragment => pdf_blocks_seq(n.children),
        KindView::Section => pdf_blocks_seq(n.children),
        KindView::Heading { .. } => Ok(seq![text_content(n)]),
        KindView::Paragraph => Ok(seq![text_content(n)]),
        KindView::Text { value } => Ok(seq![value]),
        KindView::LineBreak => Ok(Seq::empty()),
        KindView::SoftBreak => Ok(Seq::empty()),
        KindView::ThematicBreak => Ok(Seq::empty()),
        KindView::Comment { .. } => Ok(Seq::empty()),
        KindView::Metadata { .. } => Ok(Seq::empty()),
        _ => Err("unsupported node kind"@),
    }
}

/// The blocks of a forest, failing fast on the first unsupported variant.
pub open spec fn pdf_blocks_seq(s: Seq<NodeView>) -> Result<Seq<Seq<char>>, Seq<char>>
    decreases s, 1nat,
{
    if s.len() == 0 {
        Ok(Seq::empty())
    } else {
        match pdf_blocks(s[0]) {
            Err(m) => Err(m),
            Ok(b) => match pdf_blocks_seq(s.drop_first()) {
                Err(m) => Err(m),
                Ok(rest) => Ok(b + rest),
            },
        }
    }
}

/// Rendering a tree that contains a Table through the PDF layout fails
/// explicitly with a render error; nothing is silently dropped.
pub proof fn lemma_pdf_rejects_table(n: NodeView)
    requires
        n.kind is Table,
    ensures
        pdf_blocks(n) == Err::<Seq<Seq<char>>, Seq<char>>("unsupported node kind"@),
{
}

proof fn lemma_pdf_blocks_seq_concat(a: Seq<NodeView>, b: Seq<NodeView>)
    ensures
        pdf_blocks_seq(a + b) == (match pdf_blocks_seq(a) {
            Err(m) => Err::<Seq<Seq<char>>, Seq<char>>(m),
            Ok(p) => match pdf_blocks_seq(b) {
                Err(m) => Err(m),
                Ok(q) => Ok(p + q),
            },
        }),
    decreases a,
{
    if a.len() == 0 {
        assert(a + b =~= b);
        if pdf_blocks_seq(b) is Ok {
            assert(Seq::<Seq<char>>::empty() + pdf_blocks_seq(b)->Ok_0 =~= pdf_blocks_seq(
                b,
            )->Ok_0);
        }
    } else {
        assert((a + b).drop_first() =~= a.drop_first() + b);
        assert((a + b)[0] == a[0]);
        lemma_pdf_blocks_seq_concat(a.drop_first(), b);
        match pdf_blocks(a[0]) {
            Err(m) => {},
            Ok(p0) => {
                match pdf_blocks_seq(a.drop_first()) {
                    Err(m) => {},
                    Ok(p) => {
                        match pdf_blocks_seq(b) {
                            Err(m) => {},
                            Ok(q) => {
                                assert(p0 + (p + q) =~= (p0 + p) + q);
                            },
                        }
                    },
                }
            },
        }
    }
}

proof fn lemma_text_content_seq_take(s: Seq<NodeView>, i: int)
    requires
        0 <= i < s.len(),
    ensures
        text_content_seq(s.take(i + 1)) == text_content_seq(s.take(i)) + text_content(s[i]),
    decreases i,
{
    if i == 0 {
        assert(s.take(1)[0] == s[0]);
        assert(s.take(1).drop_first() =~= Seq::<NodeView>::empty());
        assert(text_content_seq(Seq::<NodeView>::empty()) == Seq::<char>::empty());
        assert(text_content_seq(s.take(0)) == Seq::<char>::empty());
        assert(text_content_seq(s.take(1)) =~= text_content_seq(s.take(0)) + text_content(s[0]));
    } else {
        assert(s.take(i + 1)[0] == s[0]);
        assert(s.take(i)[0] == s[0]);
        assert(s.take(i + 1).drop_first() =~= s.drop_first().take(i));
        assert(s.take(i).drop_first() =~= s.drop_first().take(i - 1));
        assert(s.drop_first()[i - 1] == s[i]);
        lemma_text_content_seq_take(s.drop_first(), i - 1);
        assert(text_content_seq(s.take(i + 1)) =~= text_content_seq(s.take(i)) + text_content(
            s[i],
        ));
    }
}

/// Appends the plain text of one subtree.
#[verifier::loop_isolation(false)]
fn text_content_into(n: &Node, out: &mut String)
    ensures
        final(out)@ == old(out)@ + text_content(n@),
    decreases *n, 1nat,
{
    match &n.kind {
        NodeKind::Text { value } => {
            out.append(value.as_str());
            proof {
                assert(out@ =~= old(out)@ + text_content(n@));
            }
        },
        NodeKind::InlineCode { value } => {
            out.append(value.as_str());
            proof {
                assert(out@ =~= old(out)@ + text_content(n@));
            }
        },
        NodeKind::LineBreak => {
            out.append("\n");
        },
        NodeKind::SoftBreak => {
            out.append("\n");
        },
        _ => {
            proof {
                lemma_nodes_view_index(n.children@);
            }
            let ghost views = n@.children;
            let ghost start = out@;
            let mut i: usize = 0;
            while i < n.children.len()
                invariant
                    0 <= i <= n.children.len(),
                    views.len() == n.children.len(),
                    out@ == start + text_content_seq(views.take(i as int)),
                decreases n.children.len() - i,
            {
                proof {
                    assert(n.children@[i as int]@ == views[i as int]);
                }
                text_content_into(&n.children[i], out);
                proof {
                    lemma_text_content_seq_take(views, i as int);
                    assert(out@ =~= start + text_content_seq(views.take(i as int + 1)));
                }
                i += 1;
            }
            proof {
                assert(views.take(n.children.len() as int) =~= views);
                assert(out@ =~= old(out)@ + text_content(n@));
            }
        },
    }
}

/// The PDF renderer: computes the text-layout plan. Turning the plan into
/// page bytes needs typography and fonts and is the caller's job.
pub struct PDFRenderer {}

impl PDFRenderer {
    /// Creates a new instance.
    pub fn new() -> (r: PDFRenderer)
        ensures
            r == (PDFRenderer {  }),
    {
        PDFRenderer {  }
    }

    /// Lays a document out as text blocks. Only a Document root can be
    /// rendered; a supported tree under it yields exactly `pdf_blocks`, and
    /// any unsupported variant (a table, a list, an image) is an explicit
    /// error.
    pub fn render_blocks(&self, node: &Node) -> (r: Result<Vec<String>, Error>)
        ensures
            (match r {
                Ok(out) => node@.kind is Document && pdf_blocks(node@) == Ok::<
                    Seq<Seq<char>>,
                    Seq<char>,
                >(out@.map_values(|s: String| s@)),
                Err(e) => (node@.kind is Document && pdf_blocks(node@) == Err::<
                    Seq<Seq<char>>,
                    Seq<char>,
                >(e.message@)) || (!(node@.kind is Document) && e.message@
                    == "Only a document can be rendered"@),
            }),
    {
        match &node.kind {
            NodeKind::Document { .. } => self.node_blocks(node),
            _ => Err(Error::new("Only a document can be rendered")),
        }
    }

    /// Lays one subtree out as text blocks; exactly `pdf_blocks`.
    fn node_blocks(&self, node: &Node) -> (r: Result<Vec<String>, Error>)
        ensures
            (match r {
                Ok(out) => pdf_blocks(node@) == Ok::<Seq<Seq<char>>, Seq<char>>(
                    out@.map_values(|s: String| s@),
                ),
                Err(e) => pdf_blocks(node@) == Err::<Seq<Seq<char>>, Seq<char>>(e.message@),
            }),
        decreases *node, 3nat,
    {
        match &node.kind {
            NodeKind::Document { title, .. } | NodeKind::Chapter { title } => {
                let mut out: Vec<String> = Vec::new();
                match title {
                    Some(t) => out.push(t.clone()),
                    None => {},
                }
                let ghost head = out@.map_values(|s: String| s@);
                proof {
                    match title {
                        Some(t) => {
                            assert(head =~= seq![t@]);
                        },
                        None => {
                            assert(head =~= Seq::<Seq<char>>::empty());
                        },
                    }
                }
                let rest = match self.blocks_of_children(&node.children) {
                    Ok(bs) => bs,
                    Err(e) => {
                        return Err(e);
                    },
                };
                let ghost restv = rest@.map_values(|s: String| s@);
                let out = concat_vecs(out, rest);
                proof {
                    assert(out@.map_values(|s: String| s@) =~= head + restv);
                    assert(pdf_blocks(node@) == Ok::<Seq<Seq<char>>, Seq<char>>(head + restv));
                }
                Ok(out)
            },
            NodeKind::Fragment | NodeKind::Section => self.blocks_of_children(&node.children),
            NodeKind::Heading { .. } | NodeKind::Paragraph => {
                let mut text = String::new();
                text_content_into(node, &mut text);
                let mut out: Vec<String> = Vec::new();
                out.push(text);
                proof {
                    assert(out@.map_values(|s: String| s@) =~= seq![text_content(node@)]);
                }
                Ok(out)
            },
            NodeKind::Text { value } => {
                let mut out: Vec<String> = Vec::new();
                out.push(value.clone());
                proof {
                    assert(out@.map_values(|s: String| s@) =~= seq![node@.kind->Text_value]);
                }
                Ok(out)
            },
            NodeKind::LineBreak | NodeKind::SoftBreak | NodeKind::ThematicBreak
            | NodeKind::Comment { .. } | NodeKind::Metadata { .. } => {
                let out: Vec<String> = Vec::new();
                proof {
                    assert(out@.map_values(|s: String| s@) =~= Seq::<Seq<char>>::empty());
                }
                Ok(out)
            },
            _ => Err(Error::new("unsupported node kind")),
        }
    }

    /// Lays out a forest, failing fast.
    #[verifier::loop_isolation(false)]
    fn blocks_of_children(&self, children: &Vec<Node>) -> (r: Result<Vec<String>, Error>)
        ensures
            (match r {
                Ok(out) => pdf_blocks_seq(nodes_view(children@)) == Ok::<
                    Seq<Seq<char>>,
                    Seq<char>,
                >(out@.map_values(|s: String| s@)),
                Err(e) => pdf_blocks_seq(nodes_view(children@)) == Err::<
                    Seq<Seq<char>>,
                    Seq<char>,
                >(e.message@),
            }),
        decreases *children, 2nat,
    {
        proof {
            lemma_nodes_view_index(children@);
        }
        let ghost views = nodes_view(children@);
        let mut out: Vec<String> = Vec::new();
        proof {
            assert(views.take(0) =~= Seq::<NodeView>::empty());
            assert(pdf_blocks_seq(Seq::<NodeView>::empty()) == Ok::<Seq<Seq<char>>, Seq<char>>(
                Seq::<Seq<char>>::empty(),
            ));
            assert(out@.map_values(|s: String| s@) =~= Seq::<Seq<char>>::empty());
        }
        let mut i: usize = 0;
        while i < children.len()
            invariant
                0 <= i <= children.len(),
                pdf_blocks_seq(views.take(i as int)) == Ok::<Seq<Seq<char>>, Seq<char>>(
                    out@.map_values(|s: String| s@),
                ),
            decreases children.len() - i,
        {
            let blocks = match self.node_blocks(&children[i]) {
                Ok(b) => b,
                Err(e) => {
                    proof {
                        assert(views =~= views.take(i as int) + views.skip(i as int));
                        lemma_pdf_blocks_seq_concat(views.take(i as int), views.skip(i as int));
                        assert(views.skip(i as int)[0] == views[i as int]);
                    }
                    return Err(e);
                },
            };
            let ghost prevv = out@.map_values(|s: String| s@);
            let ghost blocksv = blocks@.map_values(|s: String| s@);
            out = concat_vecs(out, blocks);
            proof {
                assert(views.take(i as int + 1) =~= views.take(i as int) + seq![views[i as int]]);
                lemma_pdf_blocks_seq_concat(views.take(i as int), seq![views[i as int]]);
                assert(seq![views[i as int]].drop_first() =~= Seq::<NodeView>::empty());
                assert(pdf_blocks_seq(Seq::<NodeView>::empty()) == Ok::<Seq<Seq<char>>, Seq<char>>(
                    Seq::<Seq<char>>::empty(),
                ));
                assert(blocksv + Seq::<Seq<char>>::empty() =~= blocksv);
                assert(out@.map_values(|s: String| s@) =~= prevv + blocksv);
            }
            i += 1;
        }
        proof {
            assert(views.take(children.len() as int) =~= views);
        }
        Ok(out)
    }
}

impl Default for PDFRenderer {
    /// Creates a new instance.
    fn default() -> (r: Self)
        ensures
            r == (PDFRenderer {  }),
    {
        PDFRenderer {  }
    }
}

/// Appends the second list to the first.
#[verifier::loop_isolation(false)]
fn concat_vecs(a: Vec<String>, b: Vec<String>) -> (r: Vec<String>)
    ensures
        r@ == a@ + b@,
{
    let mut a = a;
    let mut b = b;
    let ghost av = a@;
    let ghost bv = b@;
    proof {
        assert(av + bv.take(0) =~= av);
    }
    let mut i: usize = 0;
    while i < b.len()
        invariant
            0 <= i <= b.len(),
            b@ == bv,
            a@ == av + bv.take(i as int),
        decreases b.len() - i,
    {
        let ghost prev = a@;
        let s: String = b[i].clone();
        a.push(s);
        proof {
            assert(bv.take(i as int + 1) =~= bv.take(i as int).push(bv[i as int]));
            assert(a@ =~= av + bv.take(i as int + 1));
        }
        i += 1;
    }
    proof {
        assert(bv.take(b.len() as int) =~= bv);
    }
    a
}

} // verus!
