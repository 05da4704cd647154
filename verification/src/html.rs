//! HTML: parsing through html_parser into the document tree, and a pure,
//! fully verified renderer from the document tree to HTML text.

use vstd::prelude::*;

use crate::attrs::{attrs_contains, attrs_index_of, opt_str_view, Attrs, AttrsView};
use crate::error::Error;
use crate::node::{
    lemma_nodes_view_index, lemma_nodes_view_push, nodes_view, KindView, Node, NodeKind, NodeView,
};
use crate::span::Span;
use crate::strutil::{dec_rep, usize_to_string};
use crate::traits::{Parser, Renderer};

verus! {

/// Options for the HTML parser.
pub struct ParseOptions {}

impl Default for ParseOptions {
    /// The default options.
    fn default() -> (r: Self)
        ensures
            r == (ParseOptions {  }),
    {
        ParseOptions {  }
    }
}

/// Options for the HTML renderer.
pub struct RenderOptions {}

impl Default for RenderOptions {
    /// The default options.
    fn default() -> (r: Self)
        ensures
            r == (RenderOptions {  }),
    {
        RenderOptions {  }
    }
}

/// A plain mirror of one node of html_parser's DOM.
pub enum RawHtml {
    /// A text run
    Text { value: String },
    /// A comment
    Comment { value: String },
    /// An element with its tag, attributes and children
    Element {
        name: String,
        id: Option<String>,
        void: bool,
        attrs: Vec<(String, Option<String>)>,
        classes: Vec<String>,
        span: Span,
        children: Vec<RawHtml>,
    },
}

/// What kind of tree html_parser saw.
pub enum RawDomKind {
    /// A full document
    Document,
    /// A fragment
    Fragment,
    /// Empty input
    Empty,
}

/// A plain mirror of html_parser's DOM.
pub struct RawDom {
    /// Document, fragment or empty
    pub kind: RawDomKind,
    /// The root nodes
    pub children: Vec<RawHtml>,
    /// The parse diagnostics; the first one fails the parse
    pub errors: Vec<String>,
}

/// The mathematical model of one mirrored DOM node.
pub enum RawHtmlView {
    /// A text run
    Text { value: Seq<char> },
    /// A comment
    Comment { value: Seq<char> },
    /// An element with its tag, attributes and children
    Element {
        name: Seq<char>,
        id: Option<Seq<char>>,
        void: bool,
        attrs: AttrsView,
        classes: Seq<Seq<char>>,
        span: Span,
        children: Seq<RawHtmlView>,
    },
}

/// The view of one mirrored DOM node.
pub open spec fn raw_html_view(t: RawHtml) -> RawHtmlView
    decreases t,
{
    match t {
        RawHtml::Text { value } => (RawHtmlView::Text { value: value@ }),
        RawHtml::Comment { value } => (RawHtmlView::Comment { value: value@ }),
        RawHtml::Element { name, id, void, attrs, classes, span, children } => (RawHtmlView::Element {
            name: name@,
            id: opt_str_view(id),
            void,
            attrs: crate::dump::pairs_view(attrs@),
            classes: crate::node::seq_str_view(classes@),
            span,
            children: raw_htmls_view(children@),
        }),
    }
}

/// The view of a sequence of mirrored DOM nodes.
pub open spec fn raw_htmls_view(s: Seq<RawHtml>) -> Seq<RawHtmlView>
    decreases s,
{
    if s.len() == 0 {
        Seq::empty()
    } else {
        seq![raw_html_view(s[0])] + raw_htmls_view(s.drop_first())
    }
}

impl View for RawHtml {
    type V = RawHtmlView;

    open spec fn view(&self) -> RawHtmlView {
        raw_html_view(*self)
    }
}

/// The mathematical model of a mirrored DOM.
#[verifier::ext_equal]
pub struct RawDomView {
    /// Document, fragment or empty
    pub kind: RawDomKind,
    /// The root nodes
    pub children: Seq<RawHtmlView>,
    /// The parse diagnostics
    pub errors: Seq<Seq<char>>,
}

impl View for RawDom {
    type V = RawDomView;

    open spec fn view(&self) -> RawDomView {
        RawDomView {
            kind: self.kind,
            children: raw_htmls_view(self.children@),
            errors: crate::node::seq_str_view(self.errors@),
        }
    }
}

/// One DOM node with each element's attributes in the canonical order
/// (sorted by the binding order): insertion order is the one thing the
/// underlying parser's hash maps leave open, so the canonical form is a
/// function of the text.
pub open spec fn canon_html(t: RawHtmlView) -> RawHtmlView
    decreases t,
{
    match t {
        RawHtmlView::Element { name, id, void, attrs, classes, span, children } => (RawHtmlView::Element {
            name,
            id,
            void,
            attrs: crate::dump::canonical_attrs(attrs),
            classes,
            span,
            children: canon_htmls(children),
        }),
        _ => t,
    }
}

/// A DOM forest in canonical form.
pub open spec fn canon_htmls(s: Seq<RawHtmlView>) -> Seq<RawHtmlView>
    decreases s,
{
    if s.len() == 0 {
        Seq::empty()
    } else {
        seq![canon_html(s[0])] + canon_htmls(s.drop_first())
    }
}

/// A DOM in canonical form.
pub open spec fn canon_dom(d: RawDomView) -> RawDomView {
    RawDomView { kind: d.kind, children: canon_htmls(d.children), errors: d.errors }
}

/// Whether the HTML grammar accepts a text (`None`), or the diagnostic it
/// rejects it with (`Some`): a function of the text alone.
pub uninterp spec fn html_parse_outcome(s: Seq<char>) -> Option<Seq<char>>;

/// The DOM the HTML parser produces for a text it accepts, in canonical
/// form (each element's attributes sorted): everything the parser decides -
/// the tree kind, the recorded diagnostics, every node, and each element's
/// set of attribute bindings - is a function of the text alone; only the
/// order its hash maps hand the bindings out in is not, and the canonical
/// form is blind to it.
pub uninterp spec fn html_dom_of(s: Seq<char>) -> RawDomView;

/// The first diagnostic the HTML parser records while accepting a text, if
/// any.
pub open spec fn html_first_diag_of(s: Seq<char>) -> Option<Seq<char>> {
    if html_dom_of(s).errors.len() > 0 {
        Option::Some(html_dom_of(s).errors[0])
    } else {
        Option::None
    }
}

/// The kind of tree the HTML parser sees in a text it accepts (a document,
/// a fragment, or empty input).
pub open spec fn html_dom_kind_of(s: Seq<char>) -> RawDomKind {
    html_dom_of(s).kind
}

/// The exact parse error for a text, if any: the grammar's own diagnostic
/// when it rejects the text; otherwise the first recorded diagnostic
/// (fail-fast), then emptiness; `None` exactly when the parse succeeds.
pub open spec fn html_parse_err(s: Seq<char>) -> Option<Seq<char>> {
    match html_parse_outcome(s) {
        Option::Some(m) => Option::Some(m),
        Option::None => match html_first_diag_of(s) {
            Option::Some(m) => Option::Some(m),
            Option::None => if html_dom_kind_of(s) is Empty {
                Option::Some("Empty HTML string"@)
            } else {
                Option::None
            },
        },
    }
}

// ------------------------------------------------------------------
// Parsing: RawDom -> Node, verified.
// ------------------------------------------------------------------
/// One insertion into an attribute map: overwrite in place or append
/// (exactly what `Attrs::insert` does).
pub open spec fn attrs_insert_spec(m: AttrsView, k: Seq<char>, v: Option<Seq<char>>) -> AttrsView {
    if attrs_contains(m, k) {
        m.update(attrs_index_of(m, k), (k, v))
    } else {
        m.push((k, v))
    }
}

/// The attribute pairs of a parsed element folded into a map, left to
/// right.
pub open spec fn fold_attrs(m: AttrsView, s: Seq<(String, Option<String>)>) -> AttrsView
    decreases s,
{
    if s.len() == 0 {
        m
    } else {
        fold_attrs(attrs_insert_spec(m, s[0].0@, opt_str_view(s[0].1)), s.drop_first())
    }
}

proof fn lemma_fold_attrs_snoc(m: AttrsView, s: Seq<(String, Option<String>)>, x: (String, Option<String>))
    ensures
        fold_attrs(m, s.push(x)) == attrs_insert_spec(fold_attrs(m, s), x.0@, opt_str_view(x.1)),
    decreases s,
{
    if s.len() == 0 {
        assert(s.push(x)[0] == x);
        assert(s.push(x).drop_first() =~= Seq::<(String, Option<String>)>::empty());
        assert(fold_attrs(
            attrs_insert_spec(m, x.0@, opt_str_view(x.1)),
            Seq::<(String, Option<String>)>::empty(),
        ) == attrs_insert_spec(m, x.0@, opt_str_view(x.1)));
        assert(fold_attrs(m, Seq::<(String, Option<String>)>::empty()) == m);
    } else {
        assert(s.push(x)[0] == s[0]);
        assert(s.push(x).drop_first() =~= s.drop_first().push(x));
        lemma_fold_attrs_snoc(
            attrs_insert_spec(m, s[0].0@, opt_str_view(s[0].1)),
            s.drop_first(),
            x,
        );
    }
}

/// The attribute map of a parsed element: the `id`, then the classes joined
/// by blanks under `class` (when any), then the remaining attributes in the
/// order the mirror lists them.
pub open spec fn elem_attrs_spec(
    id: Option<Seq<char>>,
    classes: Seq<Seq<char>>,
    attrs: Seq<(String, Option<String>)>,
) -> AttrsView {
    let m0 = AttrsView::empty();
    let m1 = match id {
        Option::Some(i) => attrs_insert_spec(m0, "id"@, Option::Some(i)),
        Option::None => m0,
    };
    let m2 = if classes.len() > 0 {
        attrs_insert_spec(m1, "class"@, Option::Some(join_blank(classes)))
    } else {
        m1
    };
    fold_attrs(m2, attrs)
}

/// The class list joined by single blanks.
pub open spec fn join_blank(s: Seq<Seq<char>>) -> Seq<char>
    decreases s,
{
    if s.len() == 0 {
        Seq::empty()
    } else if s.len() == 1 {
        s[0]
    } else {
        s[0] + " "@ + join_blank(s.drop_first())
    }
}

/// The document tree for one parsed HTML node: text and comments map to
/// their leaf variants, an element keeps its tag under the `Other` escape
/// hatch with its attributes in the attribute map.
pub open spec fn node_of_html(t: RawHtml) -> NodeView
    decreases t, 0nat,
{
    match t {
        RawHtml::Text { value } => NodeView {
            kind: (KindView::Text { value: value@ }),
            span: Option::None,
            attrs: AttrsView::empty(),
            children: Seq::empty(),
        },
        RawHtml::Comment { value } => NodeView {
            kind: (KindView::Comment { value: value@ }),
            span: Option::None,
            attrs: AttrsView::empty(),
            children: Seq::empty(),
        },
        RawHtml::Element { name, id, void, attrs, classes, span, children } => NodeView {
            kind: (KindView::Other { name: name@, void }),
            span: Option::Some(span),
            attrs: elem_attrs_spec(
                opt_str_view(id),
                crate::node::seq_str_view(classes@),
                attrs@,
            ),
            children: nodes_of_html(children@),
        },
    }
}

/// The document trees for a parsed HTML forest.
pub open spec fn nodes_of_html(s: Seq<RawHtml>) -> Seq<NodeView>
    decreases s, 1nat,
{
    if s.len() == 0 {
        Seq::empty()
    } else {
        seq![node_of_html(s[0])] + nodes_of_html(s.drop_first())
    }
}

proof fn lemma_nodes_of_html_push(s: Seq<RawHtml>, x: RawHtml)
    ensures
        nodes_of_html(s.push(x)) == nodes_of_html(s).push(node_of_html(x)),
    decreases s,
{
    if s.len() == 0 {
        assert(s.push(x)[0] == x);
        assert(s.push(x).drop_first() =~= Seq::<RawHtml>::empty());
        assert(nodes_of_html(Seq::<RawHtml>::empty()) == Seq::<NodeView>::empty());
        assert(nodes_of_html(s.push(x)) =~= nodes_of_html(s).push(node_of_html(x)));
    } else {
        assert(s.push(x)[0] == s[0]);
        assert(s.push(x).drop_first() =~= s.drop_first().push(x));
        lemma_nodes_of_html_push(s.drop_first(), x);
        assert(nodes_of_html(s.push(x)) =~= nodes_of_html(s).push(node_of_html(x)));
    }
}

/// The whole parse outcome for a mirrored DOM: the first diagnostic fails
/// the parse, empty input is rejected, a document or fragment root carries
/// the mapped children.
pub open spec fn node_of_dom(d: RawDom) -> Result<NodeView, Seq<char>> {
    if d.errors@.len() > 0 {
        Err(d.errors@[0]@)
    } else {
        match d.kind {
            RawDomKind::Empty => Err("Empty HTML string"@),
            RawDomKind::Document => Ok(
                NodeView {
                    kind: (KindView::Document {
                        title: Option::None,
                        summary: Option::None,
                        authors: Option::None,
                    }),
                    span: Option::None,
                    attrs: AttrsView::empty(),
                    children: nodes_of_html(d.children@),
                },
            ),
            RawDomKind::Fragment => Ok(
                NodeView {
                    kind: KindView::Fragment,
                    span: Option::None,
                    attrs: AttrsView::empty(),
                    children: nodes_of_html(d.children@),
                },
            ),
        }
    }
}

/// Builds the attribute map of one element.
#[verifier::loop_isolation(false)]
fn build_elem_attrs(
    id: &Option<String>,
    classes: &Vec<String>,
    attrs: &Vec<(String, Option<String>)>,
) -> (r: Attrs)
    ensures
        r@ == elem_attrs_spec(
            opt_str_view(*id),
            crate::node::seq_str_view(classes@),
            attrs@,
        ),
        r.wf(),
{
    let mut out = Attrs::new();
    match id {
        Some(i) => {
            out.insert("id".to_owned(), Some(i.clone()));
        },
        None => {},
    }
    if classes.len() > 0 {
        let joined = join_classes(classes);
        out.insert("class".to_owned(), Some(joined));
    }
    let ghost m2 = out@;
    let mut i: usize = 0;
    while i < attrs.len()
        invariant
            0 <= i <= attrs.len(),
            out.wf(),
            out@ == fold_attrs(m2, attrs@.take(i as int)),
        decreases attrs.len() - i,
    {
        let value = match &attrs[i].1 {
            Some(v) => Some(v.clone()),
            None => None,
        };
        out.insert(attrs[i].0.clone(), value);
        proof {
            assert(attrs@.take(i as int).push(attrs@[i as int]) =~= attrs@.take(i as int + 1));
            lemma_fold_attrs_snoc(m2, attrs@.take(i as int), attrs@[i as int]);
        }
        i += 1;
    }
    proof {
        assert(attrs@.take(attrs.len() as int) =~= attrs@);
    }
    out
}

/// Joins the class names with single blanks.
#[verifier::loop_isolation(false)]
pub(crate) fn join_classes(classes: &Vec<String>) -> (r: String)
    requires
        classes.len() > 0,
    ensures
        r@ == join_blank(crate::node::seq_str_view(classes@)),
{
    let mut out = classes[0].clone();
    let mut i: usize = 1;
    while i < classes.len()
        invariant
            1 <= i <= classes.len(),
            out@ == join_blank(crate::node::seq_str_view(classes@.take(i as int))),
        decreases classes.len() - i,
    {
        out.append(" ");
        out.append(classes[i].as_str());
        proof {
            lemma_join_blank_snoc(crate::node::seq_str_view(classes@.take(i as int + 1)));
            assert(crate::node::seq_str_view(classes@.take(i as int + 1)).drop_last()
                =~= crate::node::seq_str_view(classes@.take(i as int)));
            assert(crate::node::seq_str_view(classes@.take(i as int + 1)).last()
                == classes@[i as int]@);
        }
        i += 1;
    }
    proof {
        assert(classes@.take(classes.len() as int) =~= classes@);
    }
    out
}

/// Joining one more class appends a blank and the class.
proof fn lemma_join_blank_snoc(s: Seq<Seq<char>>)
    requires
        s.len() >= 2,
    ensures
        join_blank(s) == join_blank(s.drop_last()) + " "@ + s.last(),
    decreases s.len(),
{
    if s.len() == 2 {
        assert(s.drop_first()[0] == s[1]);
        assert(s.drop_last()[0] == s[0]);
        assert(join_blank(s.drop_first()) == s[1]);
        assert(join_blank(s.drop_last()) == s[0]);
    } else {
        assert(s.drop_first().len() >= 2);
        lemma_join_blank_snoc(s.drop_first());
        assert(s.drop_first().drop_last() =~= s.drop_last().drop_first());
        assert(s.drop_first().last() == s.last());
        assert(s.drop_last()[0] == s[0]);
        assert(join_blank(s) == s[0] + " "@ + join_blank(s.drop_first()));
        assert(s[0] + " "@ + (join_blank(s.drop_last().drop_first()) + " "@ + s.last()) =~= (s[0]
            + " "@ + join_blank(s.drop_last().drop_first())) + " "@ + s.last());
    }
}

/// Maps one mirrored HTML node into the document tree; total.
pub fn html_to_node(t: &RawHtml) -> (r: Node)
    ensures
        r@ == node_of_html(*t),
    decreases *t, 1nat,
{
    match t {
        RawHtml::Text { value } => Node::text(value.as_str()),
        RawHtml::Comment { value } => Node::comment(value.as_str()),
        RawHtml::Element { name, id, void, attrs, classes, span, children } => {
            let mapped = html_children(children);
            let node_attrs = build_elem_attrs(id, classes, attrs);
            let out = Node {
                kind: NodeKind::Other { name: name.clone(), void: *void },
                span: Some(*span),
                attrs: node_attrs,
                children: mapped,
            };
            out
        },
    }
}

/// Maps a mirrored HTML forest into document trees.
#[verifier::loop_isolation(false)]
fn html_children(children: &Vec<RawHtml>) -> (r: Vec<Node>)
    ensures
        nodes_view(r@) == nodes_of_html(children@),
    decreases *children, 0nat,
{
    let mut out: Vec<Node> = Vec::new();
    let mut i: usize = 0;
    while i < children.len()
        invariant
            0 <= i <= children.len(),
            nodes_view(out@) == nodes_of_html(children@.take(i as int)),
        decreases children.len() - i,
    {
        let child = html_to_node(&children[i]);
        let ghost prev = out@;
        out.push(child);
        proof {
            lemma_nodes_view_push(prev, child);
            assert(children@.take(i as int).push(children@[i as int]) =~= children@.take(
                i as int + 1,
            ));
            lemma_nodes_of_html_push(children@.take(i as int), children@[i as int]);
        }
        i += 1;
    }
    proof {
        assert(children@.take(children.len() as int) =~= children@);
    }
    out
}

/// The HTML parser.
pub struct HTMLParser {}

impl HTMLParser {
    /// Creates a new parser.
    pub fn new() -> (r: HTMLParser)
        ensures
            r == (HTMLParser {  }),
    {
        HTMLParser {  }
    }

    /// Parses HTML text. Success and every error are pinned to the text:
    /// the result is `Ok` exactly when the grammar accepts the text, no
    /// diagnostic is recorded and the input is not empty, and each `Err`
    /// carries exactly `html_parse_err` of the text (the grammar's
    /// diagnostic, the first recorded diagnostic, or the empty-input
    /// error, in that order - fail-fast, never a degraded tree). On
    /// success the result is the exact mapping of a mirrored DOM whose
    /// canonical form is exactly the text's DOM: the tree is pinned up to
    /// the order of each element's attributes, the one thing the
    /// underlying parser leaves open.
    pub fn parse_str(&self, data: &str) -> (r: Result<Node, Error>)
        ensures
            (r is Ok) == (html_parse_err(data@) is None),
            (match r {
                Ok(n) => {
                    &&& (html_dom_kind_of(data@) is Document ==> n@.kind == (KindView::Document {
                        title: Option::None,
                        summary: Option::None,
                        authors: Option::None,
                    }))
                    &&& (html_dom_kind_of(data@) is Fragment ==> n@.kind == KindView::Fragment)
                    &&& n@.span is None
                    &&& n@.attrs == AttrsView::empty()
                    &&& (exists|d: RawDom|
                        {
                            &&& canon_dom(d@) == html_dom_of(data@)
                            &&& #[trigger] node_of_dom(d) == Ok::<NodeView, Seq<char>>(n@)
                        })
                },
                Err(e) => html_parse_err(data@) == Option::Some(e.message@),
            }),
    {
        let dom = match crate::html_io::html_parse(data) {
            Ok(d) => d,
            Err(e) => {
                return Err(e);
            },
        };
        proof {
            assert(html_dom_of(data@).errors == crate::node::seq_str_view(dom.errors@));
            assert(html_dom_of(data@).kind == dom.kind);
        }
        if dom.errors.len() > 0 {
            let e = Error::new(dom.errors[0].as_str());
            proof {
                assert(crate::node::seq_str_view(dom.errors@)[0] == dom.errors@[0]@);
                assert(html_first_diag_of(data@) == Option::Some(e.message@));
            }
            return Err(e);
        }
        proof {
            assert(html_first_diag_of(data@) is None);
        }
        match dom.kind {
            RawDomKind::Empty => {
                let e = Error::new("Empty HTML string");
                proof {
                    assert(html_parse_err(data@) == Option::Some(e.message@));
                }
                Err(e)
            },
            RawDomKind::Document => {
                let children = html_children(&dom.children);
                let node = Node::new(
                    NodeKind::Document { title: None, summary: None, authors: None },
                ).with_children(children);
                proof {
                    assert(node_of_dom(dom) == Ok::<NodeView, Seq<char>>(node@));
                }
                Ok(node)
            },
            RawDomKind::Fragment => {
                let children = html_children(&dom.children);
                let node = Node::new(NodeKind::Fragment).with_children(children);
                proof {
                    assert(node_of_dom(dom) == Ok::<NodeView, Seq<char>>(node@));
                }
                Ok(node)
            },
        }
    }
}

impl Default for HTMLParser {
    /// Creates a new parser.
    fn default() -> (r: Self)
        ensures
            r == (HTMLParser {  }),
    {
        HTMLParser {  }
    }
}

impl Parser for HTMLParser {
    /// Parses an HTML byte buffer: a buffer that is not valid UTF-8 is an
    /// explicit error; a valid one is parsed as its decoded text, with the
    /// text-level outcome pinned as in `parse_str`.
    fn parse(&self, data: &[u8]) -> (r: Result<Node, Error>)
        ensures
            (r is Ok) ==> vstd::utf8::valid_utf8(data@),
            (match r {
                Ok(n) => (exists|text: Seq<char>|
                    {
                        &&& #[trigger] vstd::utf8::encode_utf8(text) == data@
                        &&& html_parse_err(text) is None
                        &&& (html_dom_kind_of(text) is Document ==> n@.kind
                            == (KindView::Document {
                            title: Option::None,
                            summary: Option::None,
                            authors: Option::None,
                        }))
                        &&& (html_dom_kind_of(text) is Fragment ==> n@.kind == KindView::Fragment)
                        &&& (exists|d: RawDom|
                            {
                                &&& canon_dom(d@) == html_dom_of(text)
                                &&& #[trigger] node_of_dom(d) == Ok::<NodeView, Seq<char>>(n@)
                            })
                    }) && n@.span is None && n@.attrs == AttrsView::empty(),
                Err(e) => !vstd::utf8::valid_utf8(data@) || (exists|text: Seq<char>|
                    {
                        &&& #[trigger] vstd::utf8::encode_utf8(text) == data@
                        &&& html_parse_err(text) == Option::Some(e.message@)
                    }),
            }),
    {
        let text = match crate::html_io::bytes_to_string(data) {
            Ok(t) => t,
            Err(e) => {
                return Err(e);
            },
        };
        let r = self.parse_str(text.as_str());
        proof {
            assert(vstd::utf8::encode_utf8(text@) == data@);
        }
        r
    }
}

// ------------------------------------------------------------------
// Rendering: Node -> HTML text, verified and total.
// ------------------------------------------------------------------
/// The HTML attribute text for a map: one ` key` or ` key="value"` per
/// pair, in insertion order. Values are emitted as they stand.
pub open spec fn attrs_html(a: AttrsView) -> Seq<char>
    decreases a,
{
    if a.len() == 0 {
        Seq::empty()
    } else {
        " "@ + a[0].0 + (match a[0].1 {
            Option::Some(v) => "=\""@ + v + "\""@,
            Option::None => Seq::<char>::empty(),
        }) + attrs_html(a.drop_first())
    }
}

pub(crate) proof fn lemma_attrs_html_snoc(a: AttrsView, i: int)
    requires
        0 <= i < a.len(),
    ensures
        attrs_html(a.take(i + 1)) == attrs_html(a.take(i)) + (" "@ + a[i].0 + (match a[i].1 {
            Option::Some(v) => "=\""@ + v + "\""@,
            Option::None => Seq::<char>::empty(),
        })),
    decreases i,
{
    if i == 0 {
        assert(a.take(1)[0] == a[0]);
        assert(a.take(1).drop_first() =~= AttrsView::empty());
        assert(attrs_html(AttrsView::empty()) == Seq::<char>::empty());
        assert(attrs_html(a.take(0)) == Seq::<char>::empty());
        assert(attrs_html(a.take(1)) =~= attrs_html(a.take(0)) + (" "@ + a[0].0 + (match a[0].1 {
            Option::Some(v) => "=\""@ + v + "\""@,
            Option::None => Seq::<char>::empty(),
        })));
    } else {
        assert(a.take(i + 1)[0] == a[0]);
        assert(a.take(i)[0] == a[0]);
        assert(a.take(i + 1).drop_first() =~= a.drop_first().take(i));
        assert(a.take(i).drop_first() =~= a.drop_first().take(i - 1));
        assert(a.drop_first()[i - 1] == a[i]);
        lemma_attrs_html_snoc(a.drop_first(), i - 1);
        assert(attrs_html(a.take(i + 1)) =~= attrs_html(a.take(i)) + (" "@ + a[i].0
            + (match a[i].1 {
            Option::Some(v) => "=\""@ + v + "\""@,
            Option::None => Seq::<char>::empty(),
        })));
    }
}

/// The HTML text for one tree. Every variant has an HTML form, so the
/// renderer is total: headings, lists, tables and inline marks get their
/// tags; Text and Html emit their value as it stands; a Comment becomes an
/// HTML comment; Metadata renders to nothing (it must not appear in
/// output); an `Other` node becomes an element with its tag and attribute
/// map.
pub open spec fn html_of(n: NodeView) -> Seq<char>
    decreases n, 0nat,
{
    let inner = html_of_seq(n.children);
    match n.kind {
        KindView::Document { .. } => "<!DOCTYPE html>\n"@ + inner,
        KindView::Fragment => inner,
        KindView::Chapter { .. } => "<section>"@ + inner + "</section>"@,
        KindView::Section => "<section>"@ + inner + "</section>"@,
        KindView::Heading { level } => "<h"@ + dec_rep(level as nat) + ">"@ + inner + "</h"@
            + dec_rep(level as nat) + ">"@,
        KindView::Paragraph => "<p>"@ + inner + "</p>"@,
        KindView::BlockQuote => "<blockquote>"@ + inner + "</blockquote>"@,
        KindView::List { ordered, start } => {
            if ordered {
                (match start {
                    Option::Some(s) => "<ol start=\""@ + dec_rep(s as nat) + "\">"@,
                    Option::None => "<ol>"@,
                }) + inner + "</ol>"@
            } else {
                "<ul>"@ + inner + "</ul>"@
            }
        },
        KindView::ListItem { .. } => "<li>"@ + inner + "</li>"@,
        KindView::Table { .. } => "<table>"@ + inner + "</table>"@,
        KindView::TableRow { .. } => "<tr>"@ + inner + "</tr>"@,
        KindView::TableCell => "<td>"@ + inner + "</td>"@,
        KindView::CodeBlock { info: _, value } => "<pre><code>"@ + value + "</code></pre>"@,
        KindView::InlineCode { value } => "<code>"@ + value + "</code>"@,
        KindView::Link { url, title } => "<a href=\""@ + url + "\""@ + (match title {
            Option::Some(t) => " title=\""@ + t + "\""@,
            Option::None => Seq::<char>::empty(),
        }) + ">"@ + inner + "</a>"@,
        KindView::Image { url, alt, title } => "<img src=\""@ + url + "\" alt=\""@ + alt + "\""@
            + (match title {
            Option::Some(t) => " title=\""@ + t + "\""@,
            Option::None => Seq::<char>::empty(),
        }) + " />"@,
        KindView::Text { value } => value,
        KindView::Html { value } => value,
        KindView::Comment { value } => "<!--"@ + value + "-->"@,
        KindView::LineBreak => "<br />"@,
        KindView::SoftBreak => "\n"@,
        KindView::ThematicBreak => "<hr />"@,
        KindView::Bold => "<strong>"@ + inner + "</strong>"@,
        KindView::Italic => "<em>"@ + inner + "</em>"@,
        KindView::StrikeThrough => "<del>"@ + inner + "</del>"@,
        KindView::Superscript => "<sup>"@ + inner + "</sup>"@,
        KindView::FootnoteRef { id } => "<sup>["@ + id + "]</sup>"@,
        KindView::FootnoteDef { .. } => "<div>"@ + inner + "</div>"@,
        KindView::DescrList => "<dl>"@ + inner + "</dl>"@,
        KindView::DescrItem => inner,
        KindView::DescrTerm => "<dt>"@ + inner + "</dt>"@,
        KindView::DescrDetail => "<dd>"@ + inner + "</dd>"@,
        KindView::Metadata { .. } => Seq::empty(),
        KindView::Other { name, void } => {
            if void {
                "<"@ + name + attrs_html(n.attrs) + " />"@
            } else {
                "<"@ + name + attrs_html(n.attrs) + ">"@ + inner + "</"@ + name + ">"@
            }
        },
    }
}

/// The HTML text for a forest, in document order.
pub open spec fn html_of_seq(s: Seq<NodeView>) -> Seq<char>
    decreases s, 1nat,
{
    if s.len() == 0 {
        Seq::empty()
    } else {
        html_of(s[0]) + html_of_seq(s.drop_first())
    }
}

proof fn lemma_html_of_seq_take(s: Seq<NodeView>, i: int)
    requires
        0 <= i < s.len(),
    ensures
        html_of_seq(s.take(i + 1)) == html_of_seq(s.take(i)) + html_of(s[i]),
    decreases i,
{
    if i == 0 {
        assert(s.take(1)[0] == s[0]);
        assert(s.take(1).drop_first() =~= Seq::<NodeView>::empty());
        assert(html_of_seq(Seq::<NodeView>::empty()) == Seq::<char>::empty());
        assert(html_of_seq(s.take(0)) == Seq::<char>::empty());
        assert(html_of_seq(s.take(1)) =~= html_of_seq(s.take(0)) + html_of(s[0]));
    } else {
        assert(s.take(i + 1)[0] == s[0]);
        assert(s.take(i)[0] == s[0]);
        assert(s.take(i + 1).drop_first() =~= s.drop_first().take(i));
        assert(s.take(i).drop_first() =~= s.drop_first().take(i - 1));
        assert(s.drop_first()[i - 1] == s[i]);
        lemma_html_of_seq_take(s.drop_first(), i - 1);
        assert(html_of_seq(s.take(i + 1)) =~= html_of_seq(s.take(i)) + html_of(s[i]));
    }
}

/// Appends the children's HTML.
#[verifier::loop_isolation(false)]
fn html_children_into(children: &Vec<Node>, out: &mut String)
    ensures
        final(out)@ == old(out)@ + html_of_seq(nodes_view(children@)),
    decreases *children, 0nat,
{
    proof {
        lemma_nodes_view_index(children@);
    }
    let ghost views = nodes_view(children@);
    let mut i: usize = 0;
    while i < children.len()
        invariant
            0 <= i <= children.len(),
            out@ == old(out)@ + html_of_seq(views.take(i as int)),
        decreases children.len() - i,
    {
        html_node_into(&children[i], out);
        proof {
            lemma_html_of_seq_take(views, i as int);
            assert(out@ =~= old(out)@ + html_of_seq(views.take(i as int + 1)));
        }
        i += 1;
    }
    proof {
        assert(views.take(children.len() as int) =~= views);
    }
}

/// Appends ` key` or ` key="value"` per attribute, in insertion order.
#[verifier::loop_isolation(false)]
pub(crate) fn html_attrs_into(attrs: &Attrs, out: &mut String)
    ensures
        final(out)@ == old(out)@ + attrs_html(attrs@),
{
    let items = attrs.items();
    let mut i: usize = 0;
    while i < items.len()
        invariant
            0 <= i <= items.len(),
            out@ == old(out)@ + attrs_html(attrs@.take(i as int)),
        decreases items.len() - i,
    {
        out.append(" ");
        out.append(items[i].0.as_str());
        match &items[i].1 {
            Some(v) => {
                out.append("=\"");
                out.append(v.as_str());
                out.append("\"");
            },
            None => {},
        }
        proof {
            lemma_attrs_html_snoc(attrs@, i as int);
            assert(attrs@[i as int] == (items@[i as int].0@, opt_str_view(items@[i as int].1)));
            assert(out@ =~= old(out)@ + attrs_html(attrs@.take(i as int + 1)));
        }
        i += 1;
    }
    proof {
        assert(attrs@.take(attrs@.len() as int) =~= attrs@);
    }
}

/// Appends an opening text, the children's HTML, and a closing text.
fn html_wrap_into(open: &str, children: &Vec<Node>, close: &str, out: &mut String)
    ensures
        final(out)@ == old(out)@ + open@ + html_of_seq(nodes_view(children@)) + close@,
    decreases *children, 1nat,
{
    out.append(open);
    html_children_into(children, out);
    out.append(close);
    proof {
        assert(out@ =~= old(out)@ + open@ + html_of_seq(nodes_view(children@)) + close@);
    }
}

/// Appends the element form of an `Other` node: self-closing when void,
/// tagged with its children otherwise.
#[verifier::loop_isolation(false)]
fn html_other_into(n: &Node, out: &mut String)
    requires
        n.kind is Other,
    ensures
        final(out)@ == old(out)@ + html_of(n@),
    decreases *n, 2nat,
{
    match &n.kind {
        NodeKind::Other { name, void } => {
            out.append("<");
            out.append(name.as_str());
            html_attrs_into(&n.attrs, out);
            if *void {
                out.append(" />");
            } else {
                out.append(">");
                html_children_into(&n.children, out);
                out.append("</");
                out.append(name.as_str());
                out.append(">");
            }
            proof {
                assert(out@ =~= old(out)@ + html_of(n@));
            }
        },
        _ => {
            proof {
                assert(false);
            }
        },
    }
}

/// Appends one tree's HTML.
#[verifier::loop_isolation(false)]
#[verifier::rlimit(100)]
#[verifier::spinoff_prover]
pub(crate) fn html_node_into(n: &Node, out: &mut String)
    ensures
        final(out)@ == old(out)@ + html_of(n@),
    decreases *n, 3nat,
{
    match &n.kind {
        NodeKind::Document { .. } => {
            out.append("<!DOCTYPE html>\n");
            html_children_into(&n.children, out);
            proof {
                assert(out@ =~= old(out)@ + html_of(n@));
            }
        },
        NodeKind::Fragment => {
            html_children_into(&n.children, out);
            proof {
                assert(out@ =~= old(out)@ + html_of(n@));
            }
        },
        NodeKind::Chapter { .. } => {
            html_wrap_into("<section>", &n.children, "</section>", out);
            proof {
                assert(out@ =~= old(out)@ + html_of(n@));
            }
        },
        NodeKind::Section => {
            html_wrap_into("<section>", &n.children, "</section>", out);
            proof {
                assert(out@ =~= old(out)@ + html_of(n@));
            }
        },
        NodeKind::Heading { level } => {
            let digits = usize_to_string(*level as usize);
            out.append("<h");
            out.append(digits.as_str());
            out.append(">");
            html_children_into(&n.children, out);
            out.append("</h");
            out.append(digits.as_str());
            out.append(">");
            proof {
                assert(out@ =~= old(out)@ + html_of(n@));
            }
        },
        NodeKind::Paragraph => {
            html_wrap_into("<p>", &n.children, "</p>", out);
            proof {
                assert(out@ =~= old(out)@ + html_of(n@));
            }
        },
        NodeKind::BlockQuote => {
            html_wrap_into("<blockquote>", &n.children, "</blockquote>", out);
            proof {
                assert(out@ =~= old(out)@ + html_of(n@));
            }
        },
        NodeKind::List { ordered, start } => {
            if *ordered {
                match start {
                    Some(st) => {
                        out.append("<ol start=\"");
                        out.append(usize_to_string(*st).as_str());
                        out.append("\">");
                    },
                    None => {
                        out.append("<ol>");
                    },
                }
                html_children_into(&n.children, out);
                out.append("</ol>");
            } else {
                out.append("<ul>");
                html_children_into(&n.children, out);
                out.append("</ul>");
            }
            proof {
                assert(out@ =~= old(out)@ + html_of(n@));
            }
        },
        NodeKind::ListItem { .. } => {
            html_wrap_into("<li>", &n.children, "</li>", out);
            proof {
                assert(out@ =~= old(out)@ + html_of(n@));
            }
        },
        NodeKind::Table { .. } => {
            html_wrap_into("<table>", &n.children, "</table>", out);
            proof {
                assert(out@ =~= old(out)@ + html_of(n@));
            }
        },
        NodeKind::TableRow { .. } => {
            html_wrap_into("<tr>", &n.children, "</tr>", out);
            proof {
                assert(out@ =~= old(out)@ + html_of(n@));
            }
        },
        NodeKind::TableCell => {
            html_wrap_into("<td>", &n.children, "</td>", out);
            proof {
                assert(out@ =~= old(out)@ + html_of(n@));
            }
        },
        NodeKind::CodeBlock { info: _, value } => {
            out.append("<pre><code>");
            out.append(value.as_str());
            out.append("</code></pre>");
            proof {
                assert(out@ =~= old(out)@ + html_of(n@));
            }
        },
        NodeKind::InlineCode { value } => {
            out.append("<code>");
            out.append(value.as_str());
            out.append("</code>");
            proof {
                assert(out@ =~= old(out)@ + html_of(n@));
            }
        },
        NodeKind::Link { url, title } => {
            out.append("<a href=\"");
            out.append(url.as_str());
            out.append("\"");
            match title {
                Some(t) => {
                    out.append(" title=\"");
                    out.append(t.as_str());
                    out.append("\"");
                },
                None => {},
            }
            out.append(">");
            html_children_into(&n.children, out);
            out.append("</a>");
            proof {
                assert(out@ =~= old(out)@ + html_of(n@));
            }
        },
        NodeKind::Image { url, alt, title } => {
            out.append("<img src=\"");
            out.append(url.as_str());
            out.append("\" alt=\"");
            out.append(alt.as_str());
            out.append("\"");
            match title {
                Some(t) => {
                    out.append(" title=\"");
                    out.append(t.as_str());
                    out.append("\"");
                },
                None => {},
            }
            out.append(" />");
            proof {
                assert(out@ =~= old(out)@ + html_of(n@));
            }
        },
        NodeKind::Text { value } => {
            out.append(value.as_str());
            proof {
                assert(out@ =~= old(out)@ + html_of(n@));
            }
        },
        NodeKind::Html { value } => {
            out.append(value.as_str());
            proof {
                assert(out@ =~= old(out)@ + html_of(n@));
            }
        },
        NodeKind::Comment { value } => {
            out.append("<!--");
            out.append(value.as_str());
            out.append("-->");
            proof {
                assert(out@ =~= old(out)@ + html_of(n@));
            }
        },
        NodeKind::LineBreak => {
            out.append("<br />");
            proof {
                assert(out@ =~= old(out)@ + html_of(n@));
            }
        },
        NodeKind::SoftBreak => {
            out.append("\n");
            proof {
                assert(out@ =~= old(out)@ + html_of(n@));
            }
        },
        NodeKind::ThematicBreak => {
            out.append("<hr />");
            proof {
                assert(out@ =~= old(out)@ + html_of(n@));
            }
        },
        NodeKind::Bold => {
            html_wrap_into("<strong>", &n.children, "</strong>", out);
            proof {
                assert(out@ =~= old(out)@ + html_of(n@));
            }
        },
        NodeKind::Italic => {
            html_wrap_into("<em>", &n.children, "</em>", out);
            proof {
                assert(out@ =~= old(out)@ + html_of(n@));
            }
        },
        NodeKind::StrikeThrough => {
            html_wrap_into("<del>", &n.children, "</del>", out);
            proof {
                assert(out@ =~= old(out)@ + html_of(n@));
            }
        },
        NodeKind::Superscript => {
            html_wrap_into("<sup>", &n.children, "</sup>", out);
            proof {
                assert(out@ =~= old(out)@ + html_of(n@));
            }
        },
        NodeKind::FootnoteRef { id } => {
            out.append("<sup>[");
            out.append(id.as_str());
            out.append("]</sup>");
            proof {
                assert(out@ =~= old(out)@ + html_of(n@));
            }
        },
        NodeKind::FootnoteDef { .. } => {
            html_wrap_into("<div>", &n.children, "</div>", out);
            proof {
                assert(out@ =~= old(out)@ + html_of(n@));
            }
        },
        NodeKind::DescrList => {
            html_wrap_into("<dl>", &n.children, "</dl>", out);
            proof {
                assert(out@ =~= old(out)@ + html_of(n@));
            }
        },
        NodeKind::DescrItem => {
            html_children_into(&n.children, out);
            proof {
                assert(out@ =~= old(out)@ + html_of(n@));
            }
        },
        NodeKind::DescrTerm => {
            html_wrap_into("<dt>", &n.children, "</dt>", out);
            proof {
                assert(out@ =~= old(out)@ + html_of(n@));
            }
        },
        NodeKind::DescrDetail => {
            html_wrap_into("<dd>", &n.children, "</dd>", out);
            proof {
                assert(out@ =~= old(out)@ + html_of(n@));
            }
        },
        NodeKind::Metadata { .. } => {
            proof {
                assert(out@ =~= old(out)@ + html_of(n@));
            }
        },
        NodeKind::Other { .. } => html_other_into(n, out),
    }
}

/// The HTML renderer: a pure, total translation of the document tree.
pub struct HTMLRenderer {}

impl HTMLRenderer {
    /// Creates a new renderer.
    pub fn new() -> (r: HTMLRenderer)
        ensures
            r == (HTMLRenderer {  }),
    {
        HTMLRenderer {  }
    }

    /// Renders a tree to its exact HTML text.
    pub fn render_string(&self, node: &Node) -> (r: String)
        ensures
            r@ == html_of(node@),
    {
        let mut out = String::new();
        html_node_into(node, &mut out);
        out
    }
}

impl Default for HTMLRenderer {
    /// Creates a new renderer.
    fn default() -> (r: Self)
        ensures
            r == (HTMLRenderer {  }),
    {
        HTMLRenderer {  }
    }
}

impl Renderer for HTMLRenderer {
    /// HTML is a text format.
    fn is_binary(&self) -> (r: bool)
        ensures
            r == false,
    {
        false
    }

    /// Renders to the UTF-8 bytes of the exact HTML text; never fails.
    fn render(&self, node: &Node) -> (r: Result<Vec<u8>, Error>)
        ensures
            (match r {
                Ok(b) => b@ == vstd::utf8::encode_utf8(html_of(node@)),
                Err(_) => false,
            }),
    {
        let s = self.render_string(node);
        Ok(s.as_str().as_bytes_vec())
    }

    /// Renders to the exact HTML text; never fails.
    fn render_str(&self, node: &Node) -> (r: Result<String, Error>)
        ensures
            (match r {
                Ok(s) => s@ == html_of(node@),
                Err(_) => false,
            }),
    {
        Ok(self.render_string(node))
    }
}

} // verus!
