//! The generic document tree: a tagged node kind, optional source span,
//! free-form attributes, and an ordered children sequence.

use vstd::prelude::*;

use crate::attrs::{opt_str_view, Attrs, AttrsView};
use crate::span::Span;

verus! {

/// Alignment of one table column.
#[derive(Debug, Clone, Copy, PartialEq, Eq, Hash, Structural)]
pub enum MdTableAlignment {
    /// No alignment given
    Unaligned,
    /// Left-aligned
    Left,
    /// Centered
    Center,
    /// Right-aligned
    Right,
}

/// The tag of a node together with the fields that only this variant
/// carries. Children, span and attributes live on [`Node`] itself.
#[derive(Debug, PartialEq, Eq)]
pub enum NodeKind {
    /// Root of an aggregated document; the only variant carrying
    /// document-level metadata.
    Document { title: Option<String>, summary: Option<String>, authors: Option<Vec<String>> },
    /// A bare sequence of nodes with no metadata.
    Fragment,
    /// One chapter of an aggregated document.
    Chapter { title: Option<String> },
    /// A section.
    Section,
    /// A heading with its level (1 to 6).
    Heading { level: u8 },
    /// A paragraph.
    Paragraph,
    /// A block quote.
    BlockQuote,
    /// A list; ordered lists may carry a start index.
    List { ordered: bool, start: Option<usize> },
    /// A list item; `checked` is `None` for plain items, `Some(b)` for tasks.
    ListItem { checked: Option<bool> },
    /// A table with its column alignments.
    Table { columns: Vec<MdTableAlignment> },
    /// A table row.
    TableRow { is_header: bool },
    /// A table cell.
    TableCell,
    /// A fenced or indented code block.
    CodeBlock { info: String, value: String },
    /// An inline code span. Leaf.
    InlineCode { value: String },
    /// A link; its children are the link text.
    Link { url: String, title: Option<String> },
    /// An image. Leaf.
    Image { url: String, alt: String, title: Option<String> },
    /// A text run. Leaf.
    Text { value: String },
    /// Raw HTML. Leaf.
    Html { value: String },
    /// A comment. Leaf.
    Comment { value: String },
    /// A hard line break.
    LineBreak,
    /// A soft line break.
    SoftBreak,
    /// A thematic break.
    ThematicBreak,
    /// Bold text.
    Bold,
    /// Italic text.
    Italic,
    /// Struck-through text.
    StrikeThrough,
    /// Superscript text.
    Superscript,
    /// A footnote reference. Leaf.
    FootnoteRef { id: String },
    /// A footnote definition.
    FootnoteDef { id: String },
    /// A description list.
    DescrList,
    /// One item of a description list.
    DescrItem,
    /// The term of a description item.
    DescrTerm,
    /// The details of a description item.
    DescrDetail,
    /// A raw frontmatter payload. Leaf.
    Metadata { value: String },
    /// Escape hatch for constructs with no variant of their own; `void`
    /// marks an element that closes itself and takes no children.
    Other { name: String, void: bool },
}

/// The mathematical model of a [`NodeKind`]: the same variants over
/// character sequences.
pub enum KindView {
    Document { title: Option<Seq<char>>, summary: Option<Seq<char>>, authors: Option<Seq<Seq<char>>> },
    Fragment,
    Chapter { title: Option<Seq<char>> },
    Section,
    Heading { level: u8 },
    Paragraph,
    BlockQuote,
    List { ordered: bool, start: Option<usize> },
    ListItem { checked: Option<bool> },
    Table { columns: Seq<MdTableAlignment> },
    TableRow { is_header: bool },
    TableCell,
    CodeBlock { info: Seq<char>, value: Seq<char> },
    InlineCode { value: Seq<char> },
    Link { url: Seq<char>, title: Option<Seq<char>> },
    Image { url: Seq<char>, alt: Seq<char>, title: Option<Seq<char>> },
    Text { value: Seq<char> },
    Html { value: Seq<char> },
    Comment { value: Seq<char> },
    LineBreak,
    SoftBreak,
    ThematicBreak,
    Bold,
    Italic,
    StrikeThrough,
    Superscript,
    FootnoteRef { id: Seq<char> },
    FootnoteDef { id: Seq<char> },
    DescrList,
    DescrItem,
    DescrTerm,
    DescrDetail,
    Metadata { value: Seq<char> },
    Other { name: Seq<char>, void: bool },
}

/// The view of a sequence of strings.
pub open spec fn seq_str_view(v: Seq<String>) -> Seq<Seq<char>> {
    v.map_values(|s: String| s@)
}

/// The view of an optional list of strings.
pub open spec fn opt_vec_str_view(o: Option<Vec<String>>) -> Option<Seq<Seq<char>>> {
    match o {
        Option::None => Option::None,
        Option::Some(v) => Option::Some(seq_str_view(v@)),
    }
}

impl View for NodeKind {
    type V = KindView;

    open spec fn view(&self) -> KindView {
        match self {
            NodeKind::Document { title, summary, authors } => (KindView::Document {
                title: opt_str_view(*title),
                summary: opt_str_view(*summary),
                authors: opt_vec_str_view(*authors),
            }),
            NodeKind::Fragment => KindView::Fragment,
            NodeKind::Chapter { title } => (KindView::Chapter { title: opt_str_view(*title) }),
            NodeKind::Section => KindView::Section,
            NodeKind::Heading { level } => (KindView::Heading { level: *level }),
            NodeKind::Paragraph => KindView::Paragraph,
            NodeKind::BlockQuote => KindView::BlockQuote,
            NodeKind::List { ordered, start } => (KindView::List {
                ordered: *ordered,
                start: *start,
            }),
            NodeKind::ListItem { checked } => (KindView::ListItem { checked: *checked }),
            NodeKind::Table { columns } => (KindView::Table { columns: columns@ }),
            NodeKind::TableRow { is_header } => (KindView::TableRow { is_header: *is_header }),
            NodeKind::TableCell => KindView::TableCell,
            NodeKind::CodeBlock { info, value } => (KindView::CodeBlock {
                info: info@,
                value: value@,
            }),
            NodeKind::InlineCode { value } => (KindView::InlineCode { value: value@ }),
            NodeKind::Link { url, title } => (KindView::Link {
                url: url@,
                title: opt_str_view(*title),
            }),
            NodeKind::Image { url, alt, title } => (KindView::Image {
                url: url@,
                alt: alt@,
                title: opt_str_view(*title),
            }),
            NodeKind::Text { value } => (KindView::Text { value: value@ }),
            NodeKind::Html { value } => (KindView::Html { value: value@ }),
            NodeKind::Comment { value } => (KindView::Comment { value: value@ }),
            NodeKind::LineBreak => KindView::LineBreak,
            NodeKind::SoftBreak => KindView::SoftBreak,
            NodeKind::ThematicBreak => KindView::ThematicBreak,
            NodeKind::Bold => KindView::Bold,
            NodeKind::Italic => KindView::Italic,
            NodeKind::StrikeThrough => KindView::StrikeThrough,
            NodeKind::Superscript => KindView::Superscript,
            NodeKind::FootnoteRef { id } => (KindView::FootnoteRef { id: id@ }),
            NodeKind::FootnoteDef { id } => (KindView::FootnoteDef { id: id@ }),
            NodeKind::DescrList => KindView::DescrList,
            NodeKind::DescrItem => KindView::DescrItem,
            NodeKind::DescrTerm => KindView::DescrTerm,
            NodeKind::DescrDetail => KindView::DescrDetail,
            NodeKind::Metadata { value } => (KindView::Metadata { value: value@ }),
            NodeKind::Other { name, void } => (KindView::Other { name: name@, void: *void }),
        }
    }
}

impl KindView {
    /// Leaf variants never carry children; all others always carry a
    /// children sequence, possibly empty.
    pub open spec fn is_leaf(self) -> bool {
        match self {
            KindView::Text { .. } => true,
            KindView::Image { .. } => true,
            KindView::LineBreak => true,
            KindView::SoftBreak => true,
            KindView::ThematicBreak => true,
            KindView::Metadata { .. } => true,
            KindView::Comment { .. } => true,
            KindView::FootnoteRef { .. } => true,
            KindView::InlineCode { .. } => true,
            KindView::Html { .. } => true,
            _ => false,
        }
    }
}

impl NodeKind {
    /// Whether this variant is a leaf (can never carry children).
    pub fn is_leaf(&self) -> (r: bool)
        ensures
            r == self@.is_leaf(),
    {
        match self {
            NodeKind::Text { .. } => true,
            NodeKind::Image { .. } => true,
            NodeKind::LineBreak => true,
            NodeKind::SoftBreak => true,
            NodeKind::ThematicBreak => true,
            NodeKind::Metadata { .. } => true,
            NodeKind::Comment { .. } => true,
            NodeKind::FootnoteRef { .. } => true,
            NodeKind::InlineCode { .. } => true,
            NodeKind::Html { .. } => true,
            _ => false,
        }
    }
}

/// Copies an optional string; string clones are exact.
pub(crate) fn clone_opt_string(o: &Option<String>) -> (r: Option<String>)
    ensures
        r == *o,
{
    match o {
        Option::Some(s) => Option::Some(s.clone()),
        Option::None => Option::None,
    }
}

/// Copies a string list, keeping its view.
pub(crate) fn clone_vec_string(v: &Vec<String>) -> (r: Vec<String>)
    ensures
        r@ == v@,
{
    let mut out: Vec<String> = Vec::new();
    let mut i: usize = 0;
    while i < v.len()
        invariant
            0 <= i <= v.len(),
            out@.len() == i,
            forall|j: int| 0 <= j < i ==> out@[j] == v@[j],
        decreases v.len() - i,
    {
        out.push(v[i].clone());
        i += 1;
    }
    proof {
        assert(out@ =~= v@);
    }
    out
}

/// Copies a column alignment list, keeping its view.
pub(crate) fn clone_vec_align(v: &Vec<MdTableAlignment>) -> (r: Vec<MdTableAlignment>)
    ensures
        r@ == v@,
{
    let mut out: Vec<MdTableAlignment> = Vec::new();
    let mut i: usize = 0;
    while i < v.len()
        invariant
            0 <= i <= v.len(),
            out@.len() == i,
            forall|j: int| 0 <= j < i ==> out@[j] == v@[j],
        decreases v.len() - i,
    {
        out.push(v[i]);
        i += 1;
    }
    proof {
        assert(out@ =~= v@);
    }
    out
}

impl Clone for NodeKind {
    /// Deep copy; the copy has the same view.
    fn clone(&self) -> (r: Self)
        ensures
            r@ == self@,
    {
        match self {
            NodeKind::Document { title, summary, authors } => NodeKind::Document {
                title: clone_opt_string(title),
                summary: clone_opt_string(summary),
                authors: match authors {
                    Option::Some(v) => Option::Some(clone_vec_string(v)),
                    Option::None => Option::None,
                },
            },
            NodeKind::Fragment => NodeKind::Fragment,
            NodeKind::Chapter { title } => NodeKind::Chapter { title: clone_opt_string(title) },
            NodeKind::Section => NodeKind::Section,
            NodeKind::Heading { level } => NodeKind::Heading { level: *level },
            NodeKind::Paragraph => NodeKind::Paragraph,
            NodeKind::BlockQuote => NodeKind::BlockQuote,
            NodeKind::List { ordered, start } => NodeKind::List {
                ordered: *ordered,
                start: *start,
            },
            NodeKind::ListItem { checked } => NodeKind::ListItem { checked: *checked },
            NodeKind::Table { columns } => NodeKind::Table { columns: clone_vec_align(columns) },
            NodeKind::TableRow { is_header } => NodeKind::TableRow { is_header: *is_header },
            NodeKind::TableCell => NodeKind::TableCell,
            NodeKind::CodeBlock { info, value } => NodeKind::CodeBlock {
                info: info.clone(),
                value: value.clone(),
            },
            NodeKind::InlineCode { value } => NodeKind::InlineCode { value: value.clone() },
            NodeKind::Link { url, title } => NodeKind::Link {
                url: url.clone(),
                title: clone_opt_string(title),
            },
            NodeKind::Image { url, alt, title } => NodeKind::Image {
                url: url.clone(),
                alt: alt.clone(),
                title: clone_opt_string(title),
            },
            NodeKind::Text { value } => NodeKind::Text { value: value.clone() },
            NodeKind::Html { value } => NodeKind::Html { value: value.clone() },
            NodeKind::Comment { value } => NodeKind::Comment { value: value.clone() },
            NodeKind::LineBreak => NodeKind::LineBreak,
            NodeKind::SoftBreak => NodeKind::SoftBreak,
            NodeKind::ThematicBreak => NodeKind::ThematicBreak,
            NodeKind::Bold => NodeKind::Bold,
            NodeKind::Italic => NodeKind::Italic,
            NodeKind::StrikeThrough => NodeKind::StrikeThrough,
            NodeKind::Superscript => NodeKind::Superscript,
            NodeKind::FootnoteRef { id } => NodeKind::FootnoteRef { id: id.clone() },
            NodeKind::FootnoteDef { id } => NodeKind::FootnoteDef { id: id.clone() },
            NodeKind::DescrList => NodeKind::DescrList,
            NodeKind::DescrItem => NodeKind::DescrItem,
            NodeKind::DescrTerm => NodeKind::DescrTerm,
            NodeKind::DescrDetail => NodeKind::DescrDetail,
            NodeKind::Metadata { value } => NodeKind::Metadata { value: value.clone() },
            NodeKind::Other { name, void } => NodeKind::Other {
                name: name.clone(),
                void: *void,
            },
        }
    }
}

/// One element of the document tree.
#[derive(Debug, PartialEq, Eq)]
pub struct Node {

    /// What the node is, with the variant's own fields.
    pub kind: NodeKind,
    /// Source location, present only on parsed nodes.
    pub span: Option<Span>,
    /// Free-form attributes.
    pub attrs: Attrs,
    /// Ordered children; empty for leaf variants.
    pub children: Vec<Node>,
}

/// The mathematical model of a [`Node`].
pub struct NodeView {
    /// Variant tag and fields.
    pub kind: KindView,
    /// Source location.
    pub span: Option<Span>,
    /// Attribute pairs in insertion order.
    pub attrs: AttrsView,
    /// Children, in document order.
    pub children: Seq<NodeView>,
}

/// The view of a node.
pub open spec fn node_view(n: Node) -> NodeView
    decreases n,
{
    NodeView { kind: n.kind@, span: n.span, attrs: n.attrs@, children: nodes_view(n.children@) }
}

/// The view of a sequence of nodes.
pub open spec fn nodes_view(s: Seq<Node>) -> Seq<NodeView>
    decreases s,
{
    if s.len() == 0 {
        Seq::empty()
    } else {
        seq![node_view(s[0])] + nodes_view(s.drop_first())
    }
}

impl View for Node {
    type V = NodeView;

    open spec fn view(&self) -> NodeView {
        node_view(*self)
    }
}

/// `nodes_view` maps the sequence pointwise.
pub broadcast proof fn lemma_nodes_view_index(s: Seq<Node>)
    ensures
        #[trigger] nodes_view(s).len() == s.len(),
        forall|i: int| 0 <= i < s.len() ==> #[trigger] nodes_view(s)[i] == node_view(s[i]),
    decreases s,
{
    if s.len() > 0 {
        lemma_nodes_view_index(s.drop_first());
        assert forall|i: int| 0 <= i < s.len() implies #[trigger] nodes_view(s)[i] == node_view(
            s[i],
        ) by {
            if i > 0 {
                assert(nodes_view(s)[i] == nodes_view(s.drop_first())[i - 1]);
                assert(s.drop_first()[i - 1] == s[i]);
            }
        }
    }
}

/// `nodes_view` distributes over pushing one node.
pub proof fn lemma_nodes_view_push(s: Seq<Node>, n: Node)
    ensures
        nodes_view(s.push(n)) == nodes_view(s).push(node_view(n)),
{
    lemma_nodes_view_index(s.push(n));
    lemma_nodes_view_index(s);
    assert(s.push(n)[s.len() as int] == n);
    assert forall|i: int| 0 <= i < s.len() implies s.push(n)[i] == s[i] by {}
    assert(nodes_view(s.push(n)) =~= nodes_view(s).push(node_view(n)));
}

impl NodeView {
    /// Well-formedness: leaves have no children, attribute keys are unique,
    /// recursively at every node.
    pub open spec fn wf(self) -> bool
        decreases self,
    {
        &&& (self.kind.is_leaf() ==> self.children.len() == 0)
        &&& crate::attrs::attrs_keys_unique(self.attrs)
        &&& (forall|i: int| 0 <= i < self.children.len() ==> #[trigger] self.children[i].wf())
    }
}

impl Node {
    /// Creates a node of the given kind with no span, no attributes and no
    /// children.
    pub fn new(kind: NodeKind) -> (r: Node)
        ensures
            r@.kind == kind@,
            r@.span is None,
            r@.attrs == AttrsView::empty(),
            r@.children == Seq::<NodeView>::empty(),
    {
        Node { kind, span: None, attrs: Attrs::new(), children: Vec::new() }
    }

    /// Creates a text node.
    pub fn text(value: &str) -> (r: Node)
        ensures
            r@.kind == (KindView::Text { value: value@ }),
            r@.span is None,
            r@.attrs == AttrsView::empty(),
            r@.children == Seq::<NodeView>::empty(),
    {
        Node::new(NodeKind::Text { value: value.to_owned() })
    }

    /// Creates a comment node.
    pub fn comment(value: &str) -> (r: Node)
        ensures
            r@.kind == (KindView::Comment { value: value@ }),
            r@.span is None,
            r@.attrs == AttrsView::empty(),
            r@.children == Seq::<NodeView>::empty(),
    {
        Node::new(NodeKind::Comment { value: value.to_owned() })
    }

    /// Creates an empty root (fragment) node.
    pub fn root() -> (r: Node)
        ensures
            r@.kind == KindView::Fragment,
            r@.span is None,
            r@.attrs == AttrsView::empty(),
            r@.children == Seq::<NodeView>::empty(),
    {
        Node::new(NodeKind::Fragment)
    }

    /// Adds a span, builder style.
    pub fn with_span(self, span: Span) -> (r: Node)
        ensures
            r@ == (NodeView { span: Some(span), ..self@ }),
    {
        let r = Node { span: Some(span), ..self };
        r
    }

    /// Appends one child, builder style.
    pub fn with_child(self, child: Node) -> (r: Node)
        ensures
            r@ == (NodeView { children: self@.children.push(child@), ..self@ }),
    {
        let ghost old_children = self.children@;
        let mut s = self;
        s.children.push(child);
        proof {
            lemma_nodes_view_push(old_children, child);
        }
        s
    }

    /// Replaces the children, builder style.
    pub fn with_children(self, children: Vec<Node>) -> (r: Node)
        ensures
            r@ == (NodeView { children: nodes_view(children@), ..self@ }),
    {
        Node { children, ..self }
    }

    /// Sets one attribute, builder style.
    pub fn with_attr(self, key: String, value: Option<String>) -> (r: Node)
        requires
            crate::attrs::attrs_keys_unique(self@.attrs),
        ensures
            crate::attrs::attrs_keys_unique(r@.attrs),
            r@.kind == self@.kind,
            r@.span == self@.span,
            r@.children == self@.children,
            crate::attrs::attrs_contains(self@.attrs, key@) ==> r@.attrs == self@.attrs.update(
                crate::attrs::attrs_index_of(self@.attrs, key@),
                (key@, opt_str_view(value)),
            ),
            !crate::attrs::attrs_contains(self@.attrs, key@) ==> r@.attrs == self@.attrs.push(
                (key@, opt_str_view(value)),
            ),
    {
        let mut s = self;
        s.attrs.insert(key, value);
        s
    }

    /// Whether this node's variant is a leaf.
    pub fn is_leaf(&self) -> (r: bool)
        ensures
            r == self@.kind.is_leaf(),
    {
        self.kind.is_leaf()
    }

    /// Deep copy; the copy has the same view.
    pub fn duplicate(&self) -> (r: Node)
        ensures
            r@ == self@,
        decreases *self,
    {
        let children = clone_nodes(&self.children);
        Node { kind: self.kind.clone(), span: self.span, attrs: self.attrs.clone(), children }
    }

    /// The children of a structural node, or `None` for a leaf variant.
    /// The answer depends only on the variant tag: a structural node with no
    /// children yields `Some` of an empty sequence, never `None`.
    pub fn children(&self) -> (r: Option<&Vec<Node>>)
        ensures
            match r {
                Option::Some(v) => !self@.kind.is_leaf() && nodes_view(v@) == self@.children,
                Option::None => self@.kind.is_leaf(),
            },
    {
        if self.kind.is_leaf() {
            None
        } else {
            Some(&self.children)
        }
    }
}

/// Deep copy of a node list; the copy's views match pointwise.
pub fn clone_nodes(v: &Vec<Node>) -> (r: Vec<Node>)
    ensures
        nodes_view(r@) == nodes_view(v@),
    decreases *v,
{
    let mut children: Vec<Node> = Vec::new();
    let mut i: usize = 0;
    while i < v.len()
        invariant
            0 <= i <= v.len(),
            children@.len() == i,
            forall|j: int| 0 <= j < i ==> #[trigger] children@[j]@ == v@[j]@,
        decreases v.len() - i,
    {
        children.push(v[i].duplicate());
        i += 1;
    }
    proof {
        lemma_nodes_view_index(children@);
        lemma_nodes_view_index(v@);
        assert forall|j: int|
            0 <= j < children@.len() implies nodes_view(children@)[j] == nodes_view(v@)[j] by {
            assert(children@[j]@ == v@[j]@);
            assert(nodes_view(children@)[j] == node_view(children@[j]));
            assert(nodes_view(v@)[j] == node_view(v@[j]));
        }
        assert(nodes_view(children@) =~= nodes_view(v@));
    }
    children
}

impl Clone for Node {
    /// Deep copy; the copy has the same view.
    fn clone(&self) -> (r: Self)
        ensures
            r@ == self@,
    {
        self.duplicate()
    }
}

} // verus!
