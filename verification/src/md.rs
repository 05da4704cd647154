//! Markdown: parsing through comrak into the document tree, and rendering
//! the tree back to CommonMark text through comrak.
//!
//! comrak works on its own arena-allocated AST. The library mirrors the
//! payloads it reads and writes in [`MdTree`], a tree of plain values;
//! trusted wrappers only move fields between the two shapes, while the
//! mapping between [`MdTree`] and the document tree - the actual logic -
//! is verified.

use vstd::prelude::*;

use crate::attrs::AttrsView;
use crate::error::Error;
use crate::node::{
    lemma_nodes_view_index, lemma_nodes_view_push, nodes_view, KindView, MdTableAlignment, Node,
    NodeKind, NodeView,
};
use crate::span::Span;
use crate::traits::{Parser, Renderer};

verus! {

/// Options for the Markdown parser.
pub struct ParseOptions {}

impl Default for ParseOptions {
    /// The default options.
    fn default() -> (r: Self)
        ensures
            r == (ParseOptions {  }),
    {
        ParseOptions {  }
    }
}

/// Options for the Markdown renderer.
pub struct RenderOptions {}

impl Default for RenderOptions {
    /// The default options.
    fn default() -> (r: Self)
        ensures
            r == (RenderOptions {  }),
    {
        RenderOptions {  }
    }
}

/// A plain mirror of one comrak AST node payload.
pub enum MdKind {
    /// Document root
    Document,
    /// Frontmatter blob, delimiters included
    FrontMatter { text: String },
    /// Block quote
    BlockQuote,
    /// List; `start` is the first ordinal of an ordered list
    List { ordered: bool, start: usize },
    /// List item
    Item { ordered: bool, start: usize },
    /// Description list
    DescriptionList,
    /// Description item
    DescriptionItem,
    /// Description term
    DescriptionTerm,
    /// Description details
    DescriptionDetails,
    /// Code block
    CodeBlock { info: String, literal: String },
    /// HTML block
    HtmlBlock { literal: String },
    /// Paragraph
    Paragraph,
    /// Heading
    Heading { level: u8 },
    /// Thematic break
    ThematicBreak,
    /// Table with column alignments
    Table { alignments: Vec<MdTableAlignment> },
    /// Table row
    TableRow { header: bool },
    /// Table cell
    TableCell,
    /// Text run
    Text { literal: String },
    /// Task list item
    TaskItem { checked: bool },
    /// Soft break
    SoftBreak,
    /// Hard break
    LineBreak,
    /// Inline code span
    Code { literal: String },
    /// Inline HTML
    HtmlInline { literal: String },
    /// Emphasis
    Emph,
    /// Strong emphasis
    Strong,
    /// Strikethrough
    Strikethrough,
    /// Superscript
    Superscript,
    /// Link
    Link { url: String, title: String },
    /// Image
    Image { url: String, title: String },
    /// Footnote reference
    FootnoteReference { name: String },
    /// Footnote definition
    FootnoteDefinition { name: String },
    /// Any comrak construct the library does not model
    Unsupported { name: String },
}

/// A plain mirror of a comrak AST subtree.
pub struct MdTree {
    /// Node payload
    pub kind: MdKind,
    /// Source position
    pub span: Span,
    /// Children, in document order
    pub children: Vec<MdTree>,
}

/// The mathematical model of an [`MdKind`]: the same variants over
/// character sequences.
pub enum MdKindView {
    Document,
    FrontMatter { text: Seq<char> },
    BlockQuote,
    List { ordered: bool, start: usize },
    Item { ordered: bool, start: usize },
    DescriptionList,
    DescriptionItem,
    DescriptionTerm,
    DescriptionDetails,
    CodeBlock { info: Seq<char>, literal: Seq<char> },
    HtmlBlock { literal: Seq<char> },
    Paragraph,
    Heading { level: u8 },
    ThematicBreak,
    Table { alignments: Seq<MdTableAlignment> },
    TableRow { header: bool },
    TableCell,
    Text { literal: Seq<char> },
    TaskItem { checked: bool },
    SoftBreak,
    LineBreak,
    Code { literal: Seq<char> },
    HtmlInline { literal: Seq<char> },
    Emph,
    Strong,
    Strikethrough,
    Superscript,
    Link { url: Seq<char>, title: Seq<char> },
    Image { url: Seq<char>, title: Seq<char> },
    FootnoteReference { name: Seq<char> },
    FootnoteDefinition { name: Seq<char> },
    Unsupported { name: Seq<char> },
}

impl View for MdKind {
    type V = MdKindView;

    open spec fn view(&self) -> MdKindView {
        match self {
            MdKind::Document => MdKindView::Document,
            MdKind::FrontMatter { text } => (MdKindView::FrontMatter { text: text@ }),
            MdKind::BlockQuote => MdKindView::BlockQuote,
            MdKind::List { ordered, start } => (MdKindView::List {
                ordered: *ordered,
                start: *start,
            }),
            MdKind::Item { ordered, start } => (MdKindView::Item {
                ordered: *ordered,
                start: *start,
            }),
            MdKind::DescriptionList => MdKindView::DescriptionList,
            MdKind::DescriptionItem => MdKindView::DescriptionItem,
            MdKind::DescriptionTerm => MdKindView::DescriptionTerm,
            MdKind::DescriptionDetails => MdKindView::DescriptionDetails,
            MdKind::CodeBlock { info, literal } => (MdKindView::CodeBlock {
                info: info@,
                literal: literal@,
            }),
            MdKind::HtmlBlock { literal } => (MdKindView::HtmlBlock { literal: literal@ }),
            MdKind::Paragraph => MdKindView::Paragraph,
            MdKind::Heading { level } => (MdKindView::Heading { level: *level }),
            MdKind::ThematicBreak => MdKindView::ThematicBreak,
            MdKind::Table { alignments } => (MdKindView::Table { alignments: alignments@ }),
            MdKind::TableRow { header } => (MdKindView::TableRow { header: *header }),
            MdKind::TableCell => MdKindView::TableCell,
            MdKind::Text { literal } => (MdKindView::Text { literal: literal@ }),
            MdKind::TaskItem { checked } => (MdKindView::TaskItem { checked: *checked }),
            MdKind::SoftBreak => MdKindView::SoftBreak,
            MdKind::LineBreak => MdKindView::LineBreak,
            MdKind::Code { literal } => (MdKindView::Code { literal: literal@ }),
            MdKind::HtmlInline { literal } => (MdKindView::HtmlInline { literal: literal@ }),
            MdKind::Emph => MdKindView::Emph,
            MdKind::Strong => MdKindView::Strong,
            MdKind::Strikethrough => MdKindView::Strikethrough,
            MdKind::Superscript => MdKindView::Superscript,
            MdKind::Link { url, title } => (MdKindView::Link { url: url@, title: title@ }),
            MdKind::Image { url, title } => (MdKindView::Image { url: url@, title: title@ }),
            MdKind::FootnoteReference { name } => (MdKindView::FootnoteReference { name: name@ }),
            MdKind::FootnoteDefinition { name } => (MdKindView::FootnoteDefinition {
                name: name@,
            }),
            MdKind::Unsupported { name } => (MdKindView::Unsupported { name: name@ }),
        }
    }
}

/// The mathematical model of an [`MdTree`].
#[verifier::ext_equal]
pub struct MdTreeView {
    /// Node payload
    pub kind: MdKindView,
    /// Source position
    pub span: Span,
    /// Children, in document order
    pub children: Seq<MdTreeView>,
}

/// The view of a comrak mirror tree.
pub open spec fn md_tree_view(t: MdTree) -> MdTreeView
    decreases t,
{
    MdTreeView { kind: t.kind@, span: t.span, children: md_forest_view(t.children@) }
}

/// The view of a sequence of comrak mirror trees.
pub open spec fn md_forest_view(s: Seq<MdTree>) -> Seq<MdTreeView>
    decreases s,
{
    if s.len() == 0 {
        Seq::empty()
    } else {
        seq![md_tree_view(s[0])] + md_forest_view(s.drop_first())
    }
}

impl View for MdTree {
    type V = MdTreeView;

    open spec fn view(&self) -> MdTreeView {
        md_tree_view(*self)
    }
}

/// `md_forest_view` maps the sequence pointwise.
pub proof fn lemma_md_forest_view_index(s: Seq<MdTree>)
    ensures
        md_forest_view(s).len() == s.len(),
        forall|i: int| 0 <= i < s.len() ==> #[trigger] md_forest_view(s)[i] == md_tree_view(s[i]),
    decreases s,
{
    if s.len() > 0 {
        lemma_md_forest_view_index(s.drop_first());
        assert forall|i: int| 0 <= i < s.len() implies #[trigger] md_forest_view(s)[i]
            == md_tree_view(s[i]) by {
            if i > 0 {
                assert(md_forest_view(s)[i] == md_forest_view(s.drop_first())[i - 1]);
                assert(s.drop_first()[i - 1] == s[i]);
            }
        }
    }
}

/// `md_forest_view` distributes over pushing one tree.
pub proof fn lemma_md_forest_view_push(s: Seq<MdTree>, t: MdTree)
    ensures
        md_forest_view(s.push(t)) == md_forest_view(s).push(md_tree_view(t)),
{
    lemma_md_forest_view_index(s.push(t));
    lemma_md_forest_view_index(s);
    assert(s.push(t)[s.len() as int] == t);
    assert(md_forest_view(s.push(t)) =~= md_forest_view(s).push(md_tree_view(t)));
}

/// The comrak AST (mirrored into its mathematical model) for a Markdown
/// text: comrak parsing is a function of the text and the library's fixed
/// options alone, and the mirror carries everything the library reads.
pub uninterp spec fn comrak_tree_of(s: Seq<char>) -> MdTreeView;

/// The text a byte buffer decodes to under lossy UTF-8 decoding: a function
/// of the bytes alone.
pub uninterp spec fn lossy_text_of(data: Seq<u8>) -> Seq<char>;

/// What comrak's CommonMark formatter makes of a mirrored AST: the exact
/// output text, or the exact message when comrak rejects the tree's
/// structure; a function of the tree's model and the library's fixed
/// options alone.
pub uninterp spec fn commonmark_of(t: MdTreeView) -> Result<Seq<char>, Seq<char>>;

// ------------------------------------------------------------------
// Parsing: MdTree -> Node, verified.
// ------------------------------------------------------------------
/// The payload of a frontmatter node with its delimiters stripped:
/// trim, strip a leading `---`, strip a trailing `---`, trim again.
/// A missing delimiter is an explicit parse error.
pub open spec fn fm_value_spec(s: Seq<char>) -> Result<Seq<char>, Seq<char>> {
    let tr = crate::strutil::trim_spec(s);
    if !(tr.len() >= 3 && tr[0] == '-' && tr[1] == '-' && tr[2] == '-') {
        Err("invalid front matter prefix"@)
    } else {
        let rest = tr.skip(3);
        if !(rest.len() >= 3 && rest[rest.len() - 3] == '-' && rest[rest.len() - 2] == '-'
            && rest[rest.len() - 1] == '-') {
            Err("invalid front matter suffix"@)
        } else {
            Ok(crate::strutil::trim_spec(rest.take(rest.len() - 3)))
        }
    }
}

/// An empty title string means no title.
pub open spec fn opt_title_spec(s: Seq<char>) -> Option<Seq<char>> {
    if s.len() == 0 {
        Option::None
    } else {
        Option::Some(s)
    }
}

/// The alt text of an image: the concatenated text of its direct text
/// children.
pub open spec fn img_alt_spec(s: Seq<MdTreeView>) -> Seq<char>
    decreases s,
{
    if s.len() == 0 {
        Seq::empty()
    } else {
        (match s[0].kind {
            MdKindView::Text { literal } => literal,
            _ => Seq::<char>::empty(),
        }) + img_alt_spec(s.drop_first())
    }
}

/// The document-tree variant for one comrak payload, for every payload that
/// maps structurally (frontmatter and images take extra work and are
/// handled by `node_of_md` itself).
pub open spec fn kind_of_md(k: MdKindView) -> KindView {
    match k {
        MdKindView::Document => (KindView::Document {
            title: Option::None,
            summary: Option::None,
            authors: Option::None,
        }),
        MdKindView::FrontMatter { .. } => KindView::Fragment,
        MdKindView::BlockQuote => KindView::BlockQuote,
        MdKindView::List { ordered, start } => (KindView::List {
            ordered,
            start: if ordered {
                Option::Some(start)
            } else {
                Option::None
            },
        }),
        MdKindView::Item { .. } => (KindView::ListItem { checked: Option::None }),
        MdKindView::TaskItem { checked } => (KindView::ListItem { checked: Option::Some(checked) }),
        MdKindView::DescriptionList => KindView::DescrList,
        MdKindView::DescriptionItem => KindView::DescrItem,
        MdKindView::DescriptionTerm => KindView::DescrTerm,
        MdKindView::DescriptionDetails => KindView::DescrDetail,
        MdKindView::CodeBlock { info, literal } => (KindView::CodeBlock {
            info: info,
            value: literal,
        }),
        MdKindView::HtmlBlock { literal } => (KindView::Html { value: literal }),
        MdKindView::Paragraph => KindView::Paragraph,
        MdKindView::Heading { level } => (KindView::Heading { level }),
        MdKindView::ThematicBreak => KindView::ThematicBreak,
        MdKindView::Table { alignments } => (KindView::Table { columns: alignments }),
        MdKindView::TableRow { header } => (KindView::TableRow { is_header: header }),
        MdKindView::TableCell => KindView::TableCell,
        MdKindView::Text { literal } => (KindView::Text { value: literal }),
        MdKindView::SoftBreak => KindView::SoftBreak,
        MdKindView::LineBreak => KindView::LineBreak,
        MdKindView::Code { literal } => (KindView::InlineCode { value: literal }),
        MdKindView::HtmlInline { literal } => (KindView::Html { value: literal }),
        MdKindView::Emph => KindView::Italic,
        MdKindView::Strong => KindView::Bold,
        MdKindView::Strikethrough => KindView::StrikeThrough,
        MdKindView::Superscript => KindView::Superscript,
        MdKindView::Link { url, title } => (KindView::Link {
            url: url,
            title: opt_title_spec(title),
        }),
        MdKindView::Image { .. } => KindView::Fragment,
        MdKindView::FootnoteReference { name } => (KindView::FootnoteRef { id: name }),
        MdKindView::FootnoteDefinition { name } => (KindView::FootnoteDef { id: name }),
        MdKindView::Unsupported { name } => (KindView::Other { name: name, void: false }),
    }
}

/// The document tree for one comrak subtree, or the first parse error.
pub open spec fn node_of_md(t: MdTreeView) -> Result<NodeView, Seq<char>>
    decreases t, 0nat,
{
    match t.kind {
        MdKindView::FrontMatter { text } => match fm_value_spec(text) {
            Ok(v) => Ok(
                NodeView {
                    kind: (KindView::Metadata { value: v }),
                    span: Option::Some(t.span),
                    attrs: AttrsView::empty(),
                    children: Seq::empty(),
                },
            ),
            Err(m) => Err(m),
        },
        MdKindView::Image { url, title } => Ok(
            NodeView {
                kind: (KindView::Image {
                    url: url,
                    alt: img_alt_spec(t.children),
                    title: opt_title_spec(title),
                }),
                span: Option::Some(t.span),
                attrs: AttrsView::empty(),
                children: Seq::empty(),
            },
        ),
        _ => match nodes_of_md(t.children) {
            Ok(cs) => Ok(
                NodeView {
                    kind: kind_of_md(t.kind),
                    span: Option::Some(t.span),
                    attrs: AttrsView::empty(),
                    children: cs,
                },
            ),
            Err(m) => Err(m),
        },
    }
}

/// The document trees for a comrak forest, or the first parse error,
/// left to right (fail-fast).
pub open spec fn nodes_of_md(s: Seq<MdTreeView>) -> Result<Seq<NodeView>, Seq<char>>
    decreases s, 1nat,
{
    if s.len() == 0 {
        Ok(Seq::empty())
    } else {
        match node_of_md(s[0]) {
            Err(m) => Err(m),
            Ok(n) => match nodes_of_md(s.drop_first()) {
                Err(m) => Err(m),
                Ok(rest) => Ok(seq![n] + rest),
            },
        }
    }
}

/// `nodes_of_md` splits over concatenation, errors first.
pub proof fn lemma_nodes_of_md_concat(a: Seq<MdTreeView>, b: Seq<MdTreeView>)
    ensures
        nodes_of_md(a + b) == (match nodes_of_md(a) {
            Err(m) => Err::<Seq<NodeView>, Seq<char>>(m),
            Ok(p) => match nodes_of_md(b) {
                Err(m) => Err(m),
                Ok(q) => Ok(p + q),
            },
        }),
    decreases a,
{
    if a.len() == 0 {
        assert(a + b =~= b);
        if nodes_of_md(b) is Ok {
            assert(Seq::<NodeView>::empty() + nodes_of_md(b)->Ok_0 =~= nodes_of_md(b)->Ok_0);
        }
    } else {
        assert((a + b).drop_first() =~= a.drop_first() + b);
        assert((a + b)[0] == a[0]);
        lemma_nodes_of_md_concat(a.drop_first(), b);
        match node_of_md(a[0]) {
            Err(m) => {},
            Ok(n) => {
                match nodes_of_md(a.drop_first()) {
                    Err(m) => {},
                    Ok(p) => {
                        match nodes_of_md(b) {
                            Err(m) => {},
                            Ok(q) => {
                                assert(seq![n] + (p + q) =~= (seq![n] + p) + q);
                            },
                        }
                    },
                }
            },
        }
    }
}

fn err_of(m: &str) -> (r: Error)
    ensures
        r.message@ == m@,
{
    Error::new(m)
}

/// Strips the frontmatter delimiters, or reports which one is missing.
fn fm_value(text: &str) -> (r: Result<String, Error>)
    ensures
        (match r {
            Ok(v) => fm_value_spec(text@) == Ok::<Seq<char>, Seq<char>>(v@),
            Err(e) => fm_value_spec(text@) == Err::<Seq<char>, Seq<char>>(e.message@),
        }),
{
    let tr = crate::strutil::trim_of(text);
    let trs = tr.as_str();
    let n = trs.unicode_len();
    if !(n >= 3 && trs.get_char(0) == '-' && trs.get_char(1) == '-' && trs.get_char(2) == '-') {
        return Err(err_of("invalid front matter prefix"));
    }
    let ghost rest = tr@.skip(3);
    proof {
        assert(rest.len() == n - 3);
        assert(forall|j: int| 0 <= j < rest.len() ==> rest[j] == tr@[j + 3]);
    }
    if !(n >= 6 && trs.get_char(n - 3) == '-' && trs.get_char(n - 2) == '-' && trs.get_char(n - 1)
        == '-') {
        proof {
            if rest.len() >= 3 {
                assert(rest[rest.len() - 3] == tr@[n - 3]);
                assert(rest[rest.len() - 2] == tr@[n - 2]);
                assert(rest[rest.len() - 1] == tr@[n - 1]);
            }
        }
        return Err(err_of("invalid front matter suffix"));
    }
    let inner = trs.substring_char(3, n - 3);
    proof {
        assert(rest[rest.len() - 3] == tr@[n - 3]);
        assert(rest[rest.len() - 2] == tr@[n - 2]);
        assert(rest[rest.len() - 1] == tr@[n - 1]);
        assert(inner@ =~= rest.take(rest.len() - 3));
    }
    Ok(crate::strutil::trim_of(inner))
}

/// Concatenates the text of an image's direct text children into its alt
/// text.
#[verifier::loop_isolation(false)]
fn img_alt(children: &Vec<MdTree>) -> (r: String)
    ensures
        r@ == img_alt_spec(md_forest_view(children@)),
{
    proof {
        lemma_md_forest_view_index(children@);
    }
    let ghost views = md_forest_view(children@);
    let mut acc = String::new();
    let mut i: usize = 0;
    while i < children.len()
        invariant
            0 <= i <= children.len(),
            acc@ == img_alt_spec(views.take(i as int)),
        decreases children.len() - i,
    {
        proof {
            lemma_img_alt_take(views, i as int);
        }
        match &children[i].kind {
            MdKind::Text { literal } => {
                acc.append(literal.as_str());
            },
            _ => {},
        }
        i += 1;
    }
    proof {
        assert(views.take(children.len() as int) =~= views);
    }
    acc
}

proof fn lemma_img_alt_concat(a: Seq<MdTreeView>, b: Seq<MdTreeView>)
    ensures
        img_alt_spec(a + b) == img_alt_spec(a) + img_alt_spec(b),
    decreases a,
{
    if a.len() == 0 {
        assert(a + b =~= b);
        assert(img_alt_spec(a) + img_alt_spec(b) =~= img_alt_spec(b));
    } else {
        assert((a + b).drop_first() =~= a.drop_first() + b);
        lemma_img_alt_concat(a.drop_first(), b);
        assert(img_alt_spec(a + b) =~= img_alt_spec(a) + img_alt_spec(b));
    }
}

proof fn lemma_img_alt_take(s: Seq<MdTreeView>, i: int)
    requires
        0 <= i < s.len(),
    ensures
        img_alt_spec(s.take(i + 1)) == img_alt_spec(s.take(i)) + (match s[i].kind {
            MdKindView::Text { literal } => literal,
            _ => Seq::<char>::empty(),
        }),
{
    assert(s.take(i + 1) =~= s.take(i) + seq![s[i]]);
    lemma_img_alt_concat(s.take(i), seq![s[i]]);
    assert(seq![s[i]].len() == 1 && seq![s[i]][0] == s[i]);
    assert(seq![s[i]].drop_first() =~= Seq::<MdTreeView>::empty());
    assert(img_alt_spec(Seq::<MdTreeView>::empty()) == Seq::<char>::empty());
    assert(img_alt_spec(seq![s[i]]) =~= (match s[i].kind {
        MdKindView::Text { literal } => literal,
        _ => Seq::<char>::empty(),
    }));
}

/// Maps one structurally-mapping comrak payload to its document-tree
/// variant.
fn simple_md_kind(k: &MdKind) -> (r: NodeKind)
    requires
        !(k is FrontMatter),
        !(k is Image),
    ensures
        r@ == kind_of_md(k@),
{
    match k {
        MdKind::Document => NodeKind::Document { title: None, summary: None, authors: None },
        MdKind::BlockQuote => NodeKind::BlockQuote,
        MdKind::List { ordered, start } => NodeKind::List {
            ordered: *ordered,
            start: if *ordered {
                Some(*start)
            } else {
                None
            },
        },
        MdKind::Item { .. } => NodeKind::ListItem { checked: None },
        MdKind::TaskItem { checked } => NodeKind::ListItem { checked: Some(*checked) },
        MdKind::DescriptionList => NodeKind::DescrList,
        MdKind::DescriptionItem => NodeKind::DescrItem,
        MdKind::DescriptionTerm => NodeKind::DescrTerm,
        MdKind::DescriptionDetails => NodeKind::DescrDetail,
        MdKind::CodeBlock { info, literal } => NodeKind::CodeBlock {
            info: info.clone(),
            value: literal.clone(),
        },
        MdKind::HtmlBlock { literal } => NodeKind::Html { value: literal.clone() },
        MdKind::Paragraph => NodeKind::Paragraph,
        MdKind::Heading { level } => NodeKind::Heading { level: *level },
        MdKind::ThematicBreak => NodeKind::ThematicBreak,
        MdKind::Table { alignments } => NodeKind::Table {
            columns: crate::node::clone_vec_align(alignments),
        },
        MdKind::TableRow { header } => NodeKind::TableRow { is_header: *header },
        MdKind::TableCell => NodeKind::TableCell,
        MdKind::Text { literal } => NodeKind::Text { value: literal.clone() },
        MdKind::SoftBreak => NodeKind::SoftBreak,
        MdKind::LineBreak => NodeKind::LineBreak,
        MdKind::Code { literal } => NodeKind::InlineCode { value: literal.clone() },
        MdKind::HtmlInline { literal } => NodeKind::Html { value: literal.clone() },
        MdKind::Emph => NodeKind::Italic,
        MdKind::Strong => NodeKind::Bold,
        MdKind::Strikethrough => NodeKind::StrikeThrough,
        MdKind::Superscript => NodeKind::Superscript,
        MdKind::Link { url, title } => NodeKind::Link {
            url: url.clone(),
            title: if title.as_str().is_empty() {
                None
            } else {
                Some(title.clone())
            },
        },
        MdKind::FootnoteReference { name } => NodeKind::FootnoteRef { id: name.clone() },
        MdKind::FootnoteDefinition { name } => NodeKind::FootnoteDef { id: name.clone() },
        MdKind::Unsupported { name } => NodeKind::Other { name: name.clone(), void: false },
        MdKind::FrontMatter { .. } => {
            proof {
                assert(false);
            }
            NodeKind::Fragment
        },
        MdKind::Image { .. } => {
            proof {
                assert(false);
            }
            NodeKind::Fragment
        },
    }
}

/// Maps one comrak subtree to the document tree; the exact mapping is
/// `node_of_md`, a missing frontmatter delimiter is the only error.
pub fn md_to_node(t: &MdTree) -> (r: Result<Node, Error>)
    ensures
        (match r {
            Ok(n) => node_of_md(t@) == Ok::<NodeView, Seq<char>>(n@),
            Err(e) => node_of_md(t@) == Err::<NodeView, Seq<char>>(e.message@),
        }),
    decreases *t, 0nat,
{
    match &t.kind {
        MdKind::FrontMatter { text } => match fm_value(text.as_str()) {
            Ok(v) => {
                let node = Node::new(NodeKind::Metadata { value: v }).with_span(t.span);
                Ok(node)
            },
            Err(e) => Err(e),
        },
        MdKind::Image { url, title } => {
            let alt = img_alt(&t.children);
            let kind = NodeKind::Image {
                url: url.clone(),
                alt,
                title: if title.as_str().is_empty() {
                    None
                } else {
                    Some(title.clone())
                },
            };
            Ok(Node::new(kind).with_span(t.span))
        },
        _ => {
            let children = match md_children(&t.children) {
                Ok(cs) => cs,
                Err(e) => {
                    return Err(e);
                },
            };
            let node = Node::new(simple_md_kind(&t.kind)).with_span(t.span).with_children(
                children,
            );
            Ok(node)
        },
    }
}

/// Maps a comrak forest, failing fast on the first error.
#[verifier::loop_isolation(false)]
fn md_children(children: &Vec<MdTree>) -> (r: Result<Vec<Node>, Error>)
    ensures
        (match r {
            Ok(out) => nodes_of_md(md_forest_view(children@)) == Ok::<Seq<NodeView>, Seq<char>>(
                nodes_view(out@),
            ),
            Err(e) => nodes_of_md(md_forest_view(children@)) == Err::<Seq<NodeView>, Seq<char>>(
                e.message@,
            ),
        }),
    decreases *children, 1nat,
{
    proof {
        lemma_md_forest_view_index(children@);
    }
    let ghost views = md_forest_view(children@);
    let mut out: Vec<Node> = Vec::new();
    let mut i: usize = 0;
    while i < children.len()
        invariant
            0 <= i <= children.len(),
            nodes_of_md(views.take(i as int)) == Ok::<Seq<NodeView>, Seq<char>>(
                nodes_view(out@),
            ),
        decreases children.len() - i,
    {
        let child = match md_to_node(&children[i]) {
            Ok(c) => c,
            Err(e) => {
                proof {
                    assert(views =~= views.take(i as int) + views.skip(i as int));
                    lemma_nodes_of_md_concat(views.take(i as int), views.skip(i as int));
                    assert(views.skip(i as int)[0] == views[i as int]);
                }
                return Err(e);
            },
        };
        let ghost prev = out@;
        out.push(child);
        proof {
            lemma_nodes_view_push(prev, child);
            assert(views.take(i as int + 1) =~= views.take(i as int) + seq![views[i as int]]);
            lemma_nodes_of_md_concat(views.take(i as int), seq![views[i as int]]);
            assert(seq![views[i as int]].len() == 1 && seq![views[i as int]][0]
                == views[i as int]);
            assert(seq![views[i as int]].drop_first() =~= Seq::<MdTreeView>::empty());
            assert(nodes_of_md(Seq::<MdTreeView>::empty()) == Ok::<Seq<NodeView>, Seq<char>>(
                Seq::<NodeView>::empty(),
            ));
            assert(nodes_of_md(seq![views[i as int]]) == Ok::<Seq<NodeView>, Seq<char>>(
                seq![child@] + Seq::<NodeView>::empty(),
            ));
            assert(nodes_view(prev) + (seq![child@] + Seq::<NodeView>::empty()) =~= nodes_view(
                prev,
            ).push(child@));
        }
        i += 1;
    }
    proof {
        assert(views.take(children.len() as int) =~= views);
    }
    Ok(out)
}

// ------------------------------------------------------------------
// Rendering: Node -> MdTree, verified.
// ------------------------------------------------------------------
/// Whether Markdown can render this tree: every variant has a CommonMark
/// counterpart except the `Other` escape hatch. Children of leaf variants
/// whose rendering carries no children of its own (Metadata, Image) are
/// not consulted: they are never rendered.
pub open spec fn md_renderable(n: NodeView) -> bool
    decreases n, 0nat,
{
    match n.kind {
        KindView::Other { .. } => false,
        KindView::Metadata { .. } => true,
        KindView::Image { .. } => true,
        _ => md_renderable_seq(n.children),
    }
}

/// Whether Markdown can render every tree of a forest.
pub open spec fn md_renderable_seq(s: Seq<NodeView>) -> bool
    decreases s, 1nat,
{
    if s.len() == 0 {
        true
    } else {
        md_renderable(s[0]) && md_renderable_seq(s.drop_first())
    }
}

/// Saturating increment used for ordered-list numbering.
pub open spec fn sat_add_spec(a: usize, b: usize) -> usize {
    if a + b > usize::MAX {
        usize::MAX
    } else {
        (a + b) as usize
    }
}

fn sat_add(a: usize, b: usize) -> (r: usize)
    ensures
        r == sat_add_spec(a, b),
{
    if a <= usize::MAX - b {
        a + b
    } else {
        usize::MAX
    }
}

/// The source position a rendered comrak node carries: the node's own span
/// when a parser recorded one, a zero position for synthesized nodes.
pub open spec fn span_of_view(o: Option<Span>) -> Span {
    match o {
        Option::Some(sp) => sp,
        Option::None => Span { start_line: 0, start_col: 0, end_line: 0, end_col: 0 },
    }
}

/// An absent title renders as the empty title string.
pub open spec fn title_or_empty(o: Option<Seq<char>>) -> Seq<char> {
    match o {
        Option::None => Seq::empty(),
        Option::Some(t) => t,
    }
}

/// An unordered list starts at 1 for comrak's bookkeeping.
pub open spec fn start_or_one(o: Option<usize>) -> usize {
    match o {
        Option::None => 1,
        Option::Some(s) => s,
    }
}

/// The frontmatter blob for a Metadata value: the payload framed by its
/// delimiters.
pub open spec fn fm_wrap(value: Seq<char>) -> Seq<char> {
    "---\n"@ + value + "\n---\n\n"@
}

/// The comrak payload that renders a structurally-mapping document-tree
/// variant (list items, images, metadata and `Other` take extra work and
/// are handled by `md_view_of` itself, so their arms here are never
/// consulted).
pub open spec fn simple_kind_view(k: KindView) -> MdKindView {
    match k {
        KindView::Document { .. } => MdKindView::Document,
        KindView::Fragment => MdKindView::Document,
        KindView::Chapter { .. } => MdKindView::Paragraph,
        KindView::Section => MdKindView::Paragraph,
        KindView::Heading { level } => (MdKindView::Heading { level }),
        KindView::Paragraph => MdKindView::Paragraph,
        KindView::BlockQuote => MdKindView::BlockQuote,
        KindView::Text { value } => (MdKindView::Text { literal: value }),
        KindView::Html { value } => (MdKindView::HtmlBlock { literal: value }),
        KindView::Comment { .. } => (MdKindView::Text { literal: Seq::empty() }),
        KindView::LineBreak => MdKindView::LineBreak,
        KindView::SoftBreak => MdKindView::SoftBreak,
        KindView::ThematicBreak => MdKindView::ThematicBreak,
        KindView::Bold => MdKindView::Strong,
        KindView::Italic => MdKindView::Emph,
        KindView::StrikeThrough => MdKindView::Strikethrough,
        KindView::Superscript => MdKindView::Superscript,
        KindView::InlineCode { value } => (MdKindView::Code { literal: value }),
        KindView::CodeBlock { info, value } => (MdKindView::CodeBlock {
            info: info,
            literal: value,
        }),
        KindView::Link { url, title } => (MdKindView::Link {
            url: url,
            title: title_or_empty(title),
        }),
        KindView::Table { columns } => (MdKindView::Table { alignments: columns }),
        KindView::TableRow { is_header } => (MdKindView::TableRow { header: is_header }),
        KindView::TableCell => MdKindView::TableCell,
        KindView::FootnoteRef { id } => (MdKindView::FootnoteReference { name: id }),
        KindView::FootnoteDef { id } => (MdKindView::FootnoteDefinition { name: id }),
        KindView::DescrList => MdKindView::DescriptionList,
        KindView::DescrItem => MdKindView::DescriptionItem,
        KindView::DescrTerm => MdKindView::DescriptionTerm,
        KindView::DescrDetail => MdKindView::DescriptionDetails,
        _ => arbitrary(),
    }
}

/// The comrak-side rendering of one tree: a function of the tree alone, so
/// structurally equal trees render identically. `ord` and `idx` are the
/// list context handed down by the parent list: what a list item at this
/// position must carry (its list's orderedness and its own ordinal).
/// Meaningful only on renderable trees: an `Other` node is a rendering
/// error, never rendered.
pub open spec fn md_view_of(n: NodeView, ord: bool, idx: usize) -> MdTreeView
    decreases n, 0nat,
{
    let span = span_of_view(n.span);
    match n.kind {
        KindView::Metadata { value } => MdTreeView {
            kind: (MdKindView::FrontMatter { text: fm_wrap(value) }),
            span,
            children: Seq::empty(),
        },
        KindView::Image { url, alt, title } => MdTreeView {
            kind: (MdKindView::Image { url, title: title_or_empty(title) }),
            span,
            children: if alt.len() == 0 {
                Seq::empty()
            } else {
                seq![
                    MdTreeView {
                        kind: (MdKindView::Text { literal: alt }),
                        span,
                        children: Seq::empty(),
                    },
                ]
            },
        },
        KindView::List { ordered, start } => MdTreeView {
            kind: (MdKindView::List { ordered, start: start_or_one(start) }),
            span,
            children: md_views_of(n.children, ordered, start_or_one(start)),
        },
        KindView::ListItem { checked } => MdTreeView {
            kind: (match checked {
                Option::Some(b) => MdKindView::TaskItem { checked: b },
                Option::None => MdKindView::Item { ordered: ord, start: idx },
            }),
            span,
            children: md_views_of(n.children, false, 1),
        },
        _ => MdTreeView {
            kind: simple_kind_view(n.kind),
            span,
            children: md_views_of(n.children, false, 1),
        },
    }
}

/// A forest's rendering: pointwise, with the ordinal advancing by one per
/// position.
pub open spec fn md_views_of(s: Seq<NodeView>, ord: bool, idx: usize) -> Seq<MdTreeView>
    decreases s, 1nat,
{
    if s.len() == 0 {
        Seq::empty()
    } else {
        seq![md_view_of(s[0], ord, idx)] + md_views_of(s.drop_first(), ord, sat_add_spec(idx, 1))
    }
}

/// Extending a rendered forest by one more rendered tree.
proof fn lemma_md_views_of_take(s: Seq<NodeView>, i: int, ord: bool, idx: usize)
    requires
        0 <= i < s.len(),
        s.len() <= usize::MAX,
    ensures
        md_views_of(s.take(i + 1), ord, idx) == md_views_of(s.take(i), ord, idx).push(
            md_view_of(s[i], ord, sat_add_spec(idx, i as usize)),
        ),
    decreases i,
{
    if i == 0 {
        assert(s.take(1)[0] == s[0]);
        assert(s.take(1).drop_first() =~= Seq::<NodeView>::empty());
        assert(md_views_of(Seq::<NodeView>::empty(), ord, sat_add_spec(idx, 1))
            == Seq::<MdTreeView>::empty());
        assert(sat_add_spec(idx, 0) == idx);
        assert(md_views_of(s.take(1), ord, idx) =~= md_views_of(s.take(0), ord, idx).push(
            md_view_of(s[0], ord, idx),
        ));
    } else {
        assert(s.take(i + 1)[0] == s[0]);
        assert(s.take(i)[0] == s[0]);
        assert(s.take(i + 1).drop_first() =~= s.drop_first().take(i));
        assert(s.take(i).drop_first() =~= s.drop_first().take(i - 1));
        assert(s.drop_first()[i - 1] == s[i]);
        lemma_md_views_of_take(s.drop_first(), i - 1, ord, sat_add_spec(idx, 1));
        assert(sat_add_spec(sat_add_spec(idx, 1), (i - 1) as usize) == sat_add_spec(
            idx,
            i as usize,
        ));
        assert(md_views_of(s.take(i + 1), ord, idx) =~= md_views_of(s.take(i), ord, idx).push(
            md_view_of(s[i], ord, sat_add_spec(idx, i as usize)),
        ));
    }
}

proof fn lemma_md_renderable_take(s: Seq<NodeView>, i: int)
    requires
        0 <= i <= s.len(),
        md_renderable_seq(s),
    ensures
        md_renderable_seq(s.skip(i)),
        i < s.len() ==> md_renderable(s[i]),
    decreases i,
{
    if i == 0 {
        assert(s.skip(0) =~= s);
    } else {
        assert(s.drop_first() =~= s.skip(1));
        lemma_md_renderable_take(s.skip(1), i - 1);
        assert(s.skip(1).skip(i - 1) =~= s.skip(i));
    }
}

/// Maps one document tree to its comrak-side rendering, exactly
/// `md_view_of`. `ord` and `idx` are the list context handed down by the
/// parent list, `false` and 1 at the root. Succeeds if and only if the
/// tree is Markdown-renderable; the only failure is an `Other` node,
/// reported explicitly rather than dropped.
pub fn node_to_md(n: &Node, ord: bool, idx: usize) -> (r: Result<MdTree, Error>)
    ensures
        (match r {
            Ok(t) => md_renderable(n@) && t@ == md_view_of(n@, ord, idx),
            Err(e) => !md_renderable(n@) && e.message@ == "unsupported node kind"@,
        }),
    decreases *n, 1nat,
{
    let span = match n.span {
        Some(sp) => sp,
        None => Span::new(0, 0, 0, 0),
    };
    proof {
        assert(span == span_of_view(n@.span));
    }
    match &n.kind {
        NodeKind::Other { .. } => Err(err_of("unsupported node kind")),
        NodeKind::Metadata { value } => {
            let mut text = String::new();
            text.append("---\n");
            text.append(value.as_str());
            text.append("\n---\n\n");
            proof {
                assert(text@ =~= fm_wrap(value@));
            }
            let t = MdTree { kind: MdKind::FrontMatter { text }, span, children: Vec::new() };
            proof {
                assert(t@ =~= md_view_of(n@, ord, idx));
            }
            Ok(t)
        },
        NodeKind::Image { url, alt, title } => {
            let title2 = match title {
                Some(t) => t.clone(),
                None => String::new(),
            };
            let mut children: Vec<MdTree> = Vec::new();
            if !alt.as_str().is_empty() {
                children.push(
                    MdTree {
                        kind: MdKind::Text { literal: alt.clone() },
                        span,
                        children: Vec::new(),
                    },
                );
            }
            let t = MdTree {
                kind: MdKind::Image { url: url.clone(), title: title2 },
                span,
                children,
            };
            proof {
                lemma_md_forest_view_index(t.children@);
                assert(t@.children =~= md_view_of(n@, ord, idx).children);
                assert(t@ =~= md_view_of(n@, ord, idx));
            }
            Ok(t)
        },
        NodeKind::List { ordered, start } => {
            let s1 = match start {
                Some(s) => *s,
                None => 1,
            };
            let children = match md_render_children(&n.children, *ordered, s1) {
                Ok(cs) => cs,
                Err(e) => {
                    return Err(e);
                },
            };
            let t = MdTree {
                kind: MdKind::List { ordered: *ordered, start: s1 },
                span,
                children,
            };
            proof {
                assert(t@ =~= md_view_of(n@, ord, idx));
            }
            Ok(t)
        },
        NodeKind::ListItem { checked } => {
            let kind = match checked {
                Some(b) => MdKind::TaskItem { checked: *b },
                None => MdKind::Item { ordered: ord, start: idx },
            };
            let children = match md_render_children(&n.children, false, 1) {
                Ok(cs) => cs,
                Err(e) => {
                    return Err(e);
                },
            };
            let t = MdTree { kind, span, children };
            proof {
                assert(t@ =~= md_view_of(n@, ord, idx));
            }
            Ok(t)
        },
        _ => {
            let kind = match render_simple_kind(&n.kind) {
                Ok(k) => k,
                Err(e) => {
                    return Err(e);
                },
            };
            let children = match md_render_children(&n.children, false, 1) {
                Ok(cs) => cs,
                Err(e) => {
                    return Err(e);
                },
            };
            let t = MdTree { kind, span, children };
            proof {
                assert(t@ =~= md_view_of(n@, ord, idx));
            }
            Ok(t)
        },
    }
}

/// The comrak payload for a structurally-mapping variant.
fn render_simple_kind(k: &NodeKind) -> (r: Result<MdKind, Error>)
    requires
        !(k is Other),
        !(k is Metadata),
        !(k is Image),
        !(k is List),
        !(k is ListItem),
    ensures
        (match r {
            Ok(mk) => mk@ == simple_kind_view(k@),
            Err(_) => false,
        }),
{
    match k {
        NodeKind::Document { .. } => Ok(MdKind::Document),
        NodeKind::Fragment => Ok(MdKind::Document),
        NodeKind::Chapter { .. } => Ok(MdKind::Paragraph),
        NodeKind::Section => Ok(MdKind::Paragraph),
        NodeKind::Heading { level } => Ok(MdKind::Heading { level: *level }),
        NodeKind::Paragraph => Ok(MdKind::Paragraph),
        NodeKind::BlockQuote => Ok(MdKind::BlockQuote),
        NodeKind::Text { value } => Ok(MdKind::Text { literal: value.clone() }),
        NodeKind::Html { value } => Ok(MdKind::HtmlBlock { literal: value.clone() }),
        NodeKind::Comment { .. } => Ok(MdKind::Text { literal: String::new() }),
        NodeKind::LineBreak => Ok(MdKind::LineBreak),
        NodeKind::SoftBreak => Ok(MdKind::SoftBreak),
        NodeKind::ThematicBreak => Ok(MdKind::ThematicBreak),
        NodeKind::Bold => Ok(MdKind::Strong),
        NodeKind::Italic => Ok(MdKind::Emph),
        NodeKind::StrikeThrough => Ok(MdKind::Strikethrough),
        NodeKind::Superscript => Ok(MdKind::Superscript),
        NodeKind::InlineCode { value } => Ok(MdKind::Code { literal: value.clone() }),
        NodeKind::CodeBlock { info, value } => Ok(
            MdKind::CodeBlock { info: info.clone(), literal: value.clone() },
        ),
        NodeKind::Link { url, title } => Ok(
            MdKind::Link {
                url: url.clone(),
                title: match title {
                    Some(t) => t.clone(),
                    None => String::new(),
                },
            },
        ),
        NodeKind::Table { columns } => Ok(
            MdKind::Table { alignments: crate::node::clone_vec_align(columns) },
        ),
        NodeKind::TableRow { is_header } => Ok(MdKind::TableRow { header: *is_header }),
        NodeKind::TableCell => Ok(MdKind::TableCell),
        NodeKind::FootnoteRef { id } => Ok(MdKind::FootnoteReference { name: id.clone() }),
        NodeKind::FootnoteDef { id } => Ok(MdKind::FootnoteDefinition { name: id.clone() }),
        NodeKind::DescrList => Ok(MdKind::DescriptionList),
        NodeKind::DescrItem => Ok(MdKind::DescriptionItem),
        NodeKind::DescrTerm => Ok(MdKind::DescriptionTerm),
        NodeKind::DescrDetail => Ok(MdKind::DescriptionDetails),
        _ => {
            proof {
                assert(false);
            }
            Err(err_of("unsupported node kind"))
        },
    }
}

/// Renders a forest of children, advancing the list ordinal per position.
#[verifier::loop_isolation(false)]
fn md_render_children(children: &Vec<Node>, ord: bool, idx: usize) -> (r: Result<
    Vec<MdTree>,
    Error,
>)
    ensures
        (match r {
            Ok(ts) => md_renderable_seq(nodes_view(children@)) && md_forest_view(ts@)
                == md_views_of(nodes_view(children@), ord, idx),
            Err(e) => !md_renderable_seq(nodes_view(children@)) && e.message@
                == "unsupported node kind"@,
        }),
    decreases *children, 0nat,
{
    proof {
        lemma_nodes_view_index(children@);
    }
    let ghost views = nodes_view(children@);
    let mut out: Vec<MdTree> = Vec::new();
    let mut i: usize = 0;
    while i < children.len()
        invariant
            0 <= i <= children.len(),
            out@.len() == i,
            md_renderable_seq(views.take(i as int)),
            md_forest_view(out@) == md_views_of(views.take(i as int), ord, idx),
        decreases children.len() - i,
    {
        let cur = sat_add(idx, i);
        let t = match node_to_md(&children[i], ord, cur) {
            Ok(t) => t,
            Err(e) => {
                proof {
                    lemma_md_renderable_seq_err(views, i as int);
                }
                return Err(e);
            },
        };
        let ghost prev = out@;
        out.push(t);
        proof {
            lemma_md_forest_view_push(prev, t);
            lemma_md_views_of_take(views, i as int, ord, idx);
            assert(md_forest_view(out@) == md_views_of(views.take(i as int + 1), ord, idx));
            lemma_md_renderable_seq_snoc(views, i as int);
        }
        i += 1;
    }
    proof {
        assert(views.take(children.len() as int) =~= views);
    }
    Ok(out)
}

/// A renderable prefix plus a renderable next tree make a renderable
/// prefix.
proof fn lemma_md_renderable_seq_snoc(s: Seq<NodeView>, i: int)
    requires
        0 <= i < s.len(),
        md_renderable_seq(s.take(i)),
        md_renderable(s[i]),
    ensures
        md_renderable_seq(s.take(i + 1)),
    decreases i,
{
    if i == 0 {
        assert(s.take(1)[0] == s[0]);
        assert(s.take(1).drop_first() =~= Seq::<NodeView>::empty());
        assert(md_renderable_seq(Seq::<NodeView>::empty()));
        assert(md_renderable_seq(s.take(1)));
    } else {
        assert(s.take(i)[0] == s[0]);
        assert(md_renderable(s[0]));
        assert(s.take(i).drop_first() =~= s.drop_first().take(i - 1));
        assert(s.drop_first()[i - 1] == s[i]);
        lemma_md_renderable_seq_snoc(s.drop_first(), i - 1);
        assert(s.take(i + 1)[0] == s[0]);
        assert(s.take(i + 1).drop_first() =~= s.drop_first().take(i));
        assert(md_renderable_seq(s.take(i + 1)));
    }
}

/// An unrenderable tree anywhere makes the forest unrenderable.
proof fn lemma_md_renderable_seq_err(s: Seq<NodeView>, i: int)
    requires
        0 <= i < s.len(),
        !md_renderable(s[i]),
    ensures
        !md_renderable_seq(s),
    decreases i,
{
    if i > 0 {
        assert(s.drop_first()[i - 1] == s[i]);
        lemma_md_renderable_seq_err(s.drop_first(), i - 1);
    }
}

// ------------------------------------------------------------------
// The parser and renderer types.
// ------------------------------------------------------------------
/// The Markdown parser.
pub struct MdParser {}

impl MdParser {
    /// Creates a new instance.
    pub fn new() -> (r: MdParser)
        ensures
            r == (MdParser {  }),
    {
        MdParser {  }
    }

    /// Parses Markdown text: the result is exactly the mapping of the comrak
    /// tree for this text into the document tree, and the only error is a
    /// malformed frontmatter block. Parsing is referentially transparent:
    /// equal texts give equal results.
    pub fn parse_str(&self, data: &str) -> (r: Result<Node, Error>)
        ensures
            (match r {
                Ok(n) => node_of_md(comrak_tree_of(data@)) == Ok::<NodeView, Seq<char>>(n@),
                Err(e) => node_of_md(comrak_tree_of(data@)) == Err::<NodeView, Seq<char>>(
                    e.message@,
                ),
            }),
    {
        let tree = crate::md_comrak::comrak_parse(data);
        md_to_node(&tree)
    }
}

impl Default for MdParser {
    /// Creates a new instance.
    fn default() -> (r: Self)
        ensures
            r == (MdParser {  }),
    {
        MdParser {  }
    }
}

impl Parser for MdParser {
    /// Parses a Markdown byte buffer: the buffer is decoded lossily (a text
    /// format), and the result is exactly the parse of the decoded text.
    fn parse(&self, data: &[u8]) -> (r: Result<Node, Error>)
        ensures
            (match r {
                Ok(n) => node_of_md(comrak_tree_of(lossy_text_of(data@))) == Ok::<
                    NodeView,
                    Seq<char>,
                >(n@),
                Err(e) => node_of_md(comrak_tree_of(lossy_text_of(data@))) == Err::<
                    NodeView,
                    Seq<char>,
                >(e.message@),
            }),
    {
        let text = crate::md_comrak::bytes_to_string_lossy(data);
        self.parse_str(text.as_str())
    }
}

/// Whether a tree may stand at the root of a CommonMark rendering. comrak's
/// formatter reads the surroundings of a list item or a table part, which
/// only exist under their parent list, row or table; such a node cannot be
/// the root of a rendering of its own.
pub open spec fn md_root_ok(n: NodeView) -> bool {
    !(n.kind is ListItem) && !(n.kind is TableRow) && !(n.kind is TableCell)
}

/// A renderable, root-renderable tree maps to a comrak root that comrak's
/// formatter accepts as a root.
proof fn lemma_md_view_root_kind(n: NodeView, ord: bool, idx: usize)
    requires
        md_renderable(n),
        md_root_ok(n),
    ensures
        !(md_view_of(n, ord, idx).kind is Item),
        !(md_view_of(n, ord, idx).kind is TaskItem),
        !(md_view_of(n, ord, idx).kind is TableCell),
        !(md_view_of(n, ord, idx).kind is TableRow),
{
}

/// The Markdown (CommonMark) renderer.
pub struct MdRenderer {}

impl MdRenderer {
    /// Creates a new instance.
    pub fn new() -> (r: MdRenderer)
        ensures
            r == (MdRenderer {  }),
    {
        MdRenderer {  }
    }

    /// Renders a tree to CommonMark text. A bare list item or table part
    /// cannot stand at the root (see `md_root_ok`) and is an explicit
    /// error; a tree with an `Other` node is never renderable and fails
    /// with exactly the unsupported-kind error; any other tree is mapped
    /// to exactly `md_view_of` it, and the result is exactly comrak's
    /// output for that mapped tree - text on success, comrak's
    /// structural-validation message otherwise. Rendering is a function of
    /// the tree's structure: structurally equal trees give equal results.
    pub fn render_string(&self, node: &Node) -> (r: Result<String, Error>)
        ensures
            !md_root_ok(node@) ==> (r matches Err(e) && e.message@
                == "unsupported root node kind"@),
            md_root_ok(node@) && !md_renderable(node@) ==> (r matches Err(e) && e.message@
                == "unsupported node kind"@),
            md_root_ok(node@) && md_renderable(node@) ==> (match r {
                Ok(s) => commonmark_of(md_view_of(node@, false, 1)) == Ok::<Seq<char>, Seq<char>>(
                    s@,
                ),
                Err(e) => commonmark_of(md_view_of(node@, false, 1)) == Err::<
                    Seq<char>,
                    Seq<char>,
                >(e.message@),
            }),
    {
        match &node.kind {
            NodeKind::ListItem { .. } | NodeKind::TableRow { .. } | NodeKind::TableCell => {
                return Err(err_of("unsupported root node kind"));
            },
            _ => {},
        }
        match node_to_md(node, false, 1) {
            Ok(t) => {
                proof {
                    lemma_md_view_root_kind(node@, false, 1);
                }
                crate::md_comrak::comrak_render(&t)
            },
            Err(e) => Err(e),
        }
    }
}

impl Default for MdRenderer {
    /// Creates a new instance.
    fn default() -> (r: Self)
        ensures
            r == (MdRenderer {  }),
    {
        MdRenderer {  }
    }
}

impl Renderer for MdRenderer {
    /// Markdown is a text format.
    fn is_binary(&self) -> (r: bool)
        ensures
            r == false,
    {
        false
    }

    /// Renders to the UTF-8 bytes of the CommonMark text: the bytes encode
    /// exactly the text that `render_str` yields, so the two are always
    /// consistent.
    fn render(&self, node: &Node) -> (r: Result<Vec<u8>, Error>)
        ensures
            !md_root_ok(node@) ==> (r matches Err(e) && e.message@
                == "unsupported root node kind"@),
            md_root_ok(node@) && !md_renderable(node@) ==> (r matches Err(e) && e.message@
                == "unsupported node kind"@),
            md_root_ok(node@) && md_renderable(node@) ==> (match r {
                Ok(b) => commonmark_of(md_view_of(node@, false, 1)) matches Ok(s) && b@
                    == vstd::utf8::encode_utf8(s),
                Err(e) => commonmark_of(md_view_of(node@, false, 1)) == Err::<
                    Seq<char>,
                    Seq<char>,
                >(e.message@),
            }),
    {
        match self.render_string(node) {
            Ok(s) => Ok(s.as_str().as_bytes_vec()),
            Err(e) => Err(e),
        }
    }

    /// Renders to exactly the CommonMark text of the mapped tree.
    fn render_str(&self, node: &Node) -> (r: Result<String, Error>)
        ensures
            !md_root_ok(node@) ==> (r matches Err(e) && e.message@
                == "unsupported root node kind"@),
            md_root_ok(node@) && !md_renderable(node@) ==> (r matches Err(e) && e.message@
                == "unsupported node kind"@),
            md_root_ok(node@) && md_renderable(node@) ==> (match r {
                Ok(s) => commonmark_of(md_view_of(node@, false, 1)) == Ok::<Seq<char>, Seq<char>>(
                    s@,
                ),
                Err(e) => commonmark_of(md_view_of(node@, false, 1)) == Err::<
                    Seq<char>,
                    Seq<char>,
                >(e.message@),
            }),
    {
        self.render_string(node)
    }
}

} // verus!


