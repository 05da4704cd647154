//! The comrak boundary: trusted wrappers that move plain values across it.
//! comrak's AST is arena-allocated and self-referential, so the wrappers
//! pass it around behind two opaque reference structs. Each wrapper moves
//! fields between the two shapes, one variant arm at a time.

use vstd::prelude::*;

use crate::error::Error;
use crate::md::{MdKind, MdTree};
use crate::node::MdTableAlignment;
use crate::span::Span;
use comrak::nodes::{
    Ast, AstNode, ListDelimType, ListType, NodeCode, NodeCodeBlock, NodeFootnoteDefinition,
    NodeFootnoteReference, NodeHeading, NodeHtmlBlock, NodeLink, NodeList, NodeTable,
    NodeTaskItem, NodeValue, Sourcepos, TableAlignment,
};

verus! {

#[verifier::external_type_specification]
#[verifier::external_body]
pub struct ExComrakOptions<'c>(comrak::Options<'c>);

#[verifier::external_type_specification]
#[verifier::external_body]
pub struct ExComrakValue(NodeValue);

#[verifier::external_type_specification]
#[verifier::external_body]
pub struct ExComrakList(NodeList);

#[verifier::external_type_specification]
#[verifier::external_body]
pub struct ExComrakCodeBlock(NodeCodeBlock);

#[verifier::external_type_specification]
#[verifier::external_body]
pub struct ExComrakAlignment(TableAlignment);

/// A reference to one node of comrak's arena AST, held opaquely.
#[verifier::external_body]
pub(crate) struct ComrakNodeRef<'a> {
    inner: &'a AstNode<'a>,
}

/// A reference to the arena that a comrak AST is being built in, held
/// opaquely.
#[verifier::external_body]
pub(crate) struct ComrakArenaRef<'a> {
    inner: &'a typed_arena::Arena<AstNode<'a>>,
}

/// Relies on `comrak::Options::default` and the extension flags the
/// library's Markdown dialect uses (tables, the HTML tag filter,
/// strikethrough, task lists, superscript, footnotes, description lists,
/// autolinks, `---` frontmatter).
#[verifier::external_body]
fn comrak_options() -> comrak::Options<'static> {
    let mut o = comrak::Options::default();
    o.extension.tagfilter = true;
    o.extension.strikethrough = true;
    o.extension.table = true;
    o.extension.autolink = true;
    o.extension.tasklist = true;
    o.extension.superscript = true;
    o.extension.footnotes = true;
    o.extension.description_lists = true;
    o.extension.front_matter_delimiter = Some("---".to_string());
    o.extension.header_id_prefix = Some("user-content-".to_string());
    comrak_options_rest(o)
}

/// Relies on comrak's parse and render options: smart punctuation, relaxed
/// task-list matching, full info strings, escaped special characters, dash
/// list markers, source positions kept.
#[verifier::external_body]
fn comrak_options_rest(o: comrak::Options<'static>) -> comrak::Options<'static> {
    let mut o = o;
    o.parse.smart = true;
    o.parse.relaxed_tasklist_matching = true;
    o.render.github_pre_lang = true;
    o.render.full_info_string = true;
    o.render.escape = true;
    o.render.sourcepos = true;
    o.render.list_style = comrak::options::ListStyleType::Dash;
    o
}

/// Relies on comrak's AST accessors (`data`, `children`): moves one node's
/// source position and payload into the plain mirror, children in order.
#[verifier::external_body]
fn md_tree_of<'a>(n: ComrakNodeRef<'a>) -> MdTree {
    let mut children: Vec<MdTree> = Vec::new();
    for c in n.inner.children() {
        children.push(md_tree_of(ComrakNodeRef { inner: c }));
    }
    let sp = n.inner.data().sourcepos;
    let span = Span::new(sp.start.line, sp.start.column, sp.end.line, sp.end.column);
    MdTree { kind: md_kind_of(n), span, children }
}

/// Relies on `comrak::nodes::NodeValue`: one arm per variant, moving
/// fields only (the variants without payload).
#[verifier::external_body]
fn md_kind_of<'a>(n: ComrakNodeRef<'a>) -> MdKind {
    match &n.inner.data().value {
        NodeValue::Document => MdKind::Document,
        NodeValue::BlockQuote => MdKind::BlockQuote,
        NodeValue::Paragraph => MdKind::Paragraph,
        NodeValue::ThematicBreak => MdKind::ThematicBreak,
        NodeValue::SoftBreak => MdKind::SoftBreak,
        NodeValue::LineBreak => MdKind::LineBreak,
        NodeValue::TableCell => MdKind::TableCell,
        NodeValue::Emph => MdKind::Emph,
        NodeValue::Strong => MdKind::Strong,
        _ => md_kind_of_b(n),
    }
}

/// Relies on `comrak::nodes::NodeValue`: one arm per variant, moving
/// fields only (description lists and inline marks).
#[verifier::external_body]
fn md_kind_of_b<'a>(n: ComrakNodeRef<'a>) -> MdKind {
    match &n.inner.data().value {
        NodeValue::DescriptionList => MdKind::DescriptionList,
        NodeValue::DescriptionTerm => MdKind::DescriptionTerm,
        NodeValue::DescriptionDetails => MdKind::DescriptionDetails,
        NodeValue::DescriptionItem(_) => MdKind::DescriptionItem,
        NodeValue::Strikethrough => MdKind::Strikethrough,
        NodeValue::Superscript => MdKind::Superscript,
        NodeValue::TableRow(h) => MdKind::TableRow { header: *h },
        _ => md_kind_of_c(n),
    }
}

/// Relies on `comrak::nodes::NodeValue`: one arm per variant, moving
/// fields only (frontmatter, headings, lists).
#[verifier::external_body]
fn md_kind_of_c<'a>(n: ComrakNodeRef<'a>) -> MdKind {
    match &n.inner.data().value {
        NodeValue::FrontMatter(s) => MdKind::FrontMatter { text: s.clone() },
        NodeValue::Heading(h) => MdKind::Heading { level: h.level },
        NodeValue::List(l) => MdKind::List { ordered: is_ordered(l), start: l.start },
        NodeValue::Item(l) => MdKind::Item { ordered: is_ordered(l), start: l.start },
        NodeValue::TaskItem(t) => MdKind::TaskItem { checked: t.symbol.is_some() },
        _ => md_kind_of_d(n),
    }
}

/// Relies on `comrak::nodes::NodeList`: reads whether a list is ordered.
#[verifier::external_body]
fn is_ordered(l: &NodeList) -> bool {
    l.list_type == ListType::Ordered
}

/// Relies on `comrak::nodes::NodeValue`: one arm per variant, moving
/// fields only (code, raw HTML, text).
#[verifier::external_body]
fn md_kind_of_d<'a>(n: ComrakNodeRef<'a>) -> MdKind {
    match &n.inner.data().value {
        NodeValue::CodeBlock(c) => MdKind::CodeBlock {
            info: c.info.clone(),
            literal: c.literal.clone(),
        },
        NodeValue::HtmlBlock(h) => MdKind::HtmlBlock { literal: h.literal.clone() },
        NodeValue::Text(t) => MdKind::Text { literal: t.to_string() },
        NodeValue::Code(c) => MdKind::Code { literal: c.literal.clone() },
        NodeValue::HtmlInline(h) => MdKind::HtmlInline { literal: h.clone() },
        _ => md_kind_of_e(n),
    }
}

/// Relies on `comrak::nodes::NodeValue`: one arm per variant, moving
/// fields only; anything the library does not model is kept opaque.
#[verifier::external_body]
fn md_kind_of_e<'a>(n: ComrakNodeRef<'a>) -> MdKind {
    match &n.inner.data().value {
        NodeValue::Link(l) => MdKind::Link { url: l.url.clone(), title: l.title.clone() },
        NodeValue::Image(l) => MdKind::Image { url: l.url.clone(), title: l.title.clone() },
        NodeValue::Table(t) => MdKind::Table { alignments: aligns_of(&t.alignments) },
        NodeValue::FootnoteReference(f) => MdKind::FootnoteReference { name: f.name.clone() },
        NodeValue::FootnoteDefinition(f) => MdKind::FootnoteDefinition { name: f.name.clone() },
        _ => MdKind::Unsupported { name: "unsupported".to_string() },
    }
}

/// Relies on `comrak::nodes::TableAlignment`: one arm per variant.
#[verifier::external_body]
fn aligns_of(a: &Vec<TableAlignment>) -> Vec<MdTableAlignment> {
    a.iter().map(|x| match x {
        TableAlignment::None => MdTableAlignment::Unaligned,
        TableAlignment::Left => MdTableAlignment::Left,
        TableAlignment::Center => MdTableAlignment::Center,
        TableAlignment::Right => MdTableAlignment::Right,
    }).collect()
}

/// Relies on `comrak::parse_document`: parses Markdown text into comrak's
/// AST, which is mirrored into plain values. Parsing is deterministic, so
/// the mirror's model is exactly `comrak_tree_of` the input.
#[verifier::external_body]
pub(crate) fn comrak_parse(input: &str) -> (r: MdTree)
    ensures
        r@ == crate::md::comrak_tree_of(input@),
{
    let arena = comrak::Arena::new();
    let root = comrak::parse_document(&arena, input, &comrak_options());
    md_tree_of(ComrakNodeRef { inner: root })
}

/// Relies on `typed_arena::Arena::alloc` and comrak's AST constructors:
/// moves one plain node into a comrak node and appends its children in
/// order.
#[verifier::external_body]
fn comrak_ast_of<'a>(t: &MdTree, arena: &ComrakArenaRef<'a>) -> ComrakNodeRef<'a> {
    let sp: Sourcepos =
        (t.span.start_line, t.span.start_col, t.span.end_line, t.span.end_col).into();
    let ast = Ast::new_with_sourcepos(nv_of(&t.kind), sp);
    let node = arena.inner.alloc(AstNode::from(ast));
    for c in &t.children {
        node.append(comrak_ast_of(c, arena).inner);
    }
    ComrakNodeRef { inner: node }
}

/// Relies on `comrak::nodes::NodeValue`: one arm per variant (the variants
/// without payload).
#[verifier::external_body]
fn nv_of(k: &MdKind) -> NodeValue {
    match k {
        MdKind::Document => NodeValue::Document,
        MdKind::BlockQuote => NodeValue::BlockQuote,
        MdKind::Paragraph => NodeValue::Paragraph,
        MdKind::ThematicBreak => NodeValue::ThematicBreak,
        MdKind::SoftBreak => NodeValue::SoftBreak,
        MdKind::LineBreak => NodeValue::LineBreak,
        MdKind::TableCell => NodeValue::TableCell,
        MdKind::Emph => NodeValue::Emph,
        MdKind::Strong => NodeValue::Strong,
        _ => nv_of_b(k),
    }
}

/// Relies on `comrak::nodes::NodeValue`: one arm per variant (description
/// lists and inline marks).
#[verifier::external_body]
fn nv_of_b(k: &MdKind) -> NodeValue {
    match k {
        MdKind::DescriptionList => NodeValue::DescriptionList,
        MdKind::DescriptionTerm => NodeValue::DescriptionTerm,
        MdKind::DescriptionDetails => NodeValue::DescriptionDetails,
        MdKind::DescriptionItem => NodeValue::DescriptionItem(Default::default()),
        MdKind::Strikethrough => NodeValue::Strikethrough,
        MdKind::Superscript => NodeValue::Superscript,
        MdKind::TableRow { header } => NodeValue::TableRow(*header),
        _ => nv_of_c(k),
    }
}

/// Relies on comrak's node payload constructors: one arm per variant,
/// moving fields only (frontmatter, text, headings).
#[verifier::external_body]
fn nv_of_c(k: &MdKind) -> NodeValue {
    match k {
        MdKind::FrontMatter { text } => NodeValue::FrontMatter(text.clone()),
        MdKind::Text { literal } => NodeValue::Text(literal.clone().into()),
        MdKind::HtmlInline { literal } => NodeValue::HtmlInline(literal.clone()),
        MdKind::Heading { level } => NodeValue::Heading(
            NodeHeading { level: *level, setext: false, closed: false },
        ),
        _ => nv_of_d(k),
    }
}

/// Relies on comrak's node payload constructors: one arm per variant,
/// moving fields only (lists and tasks; a checked task gets the usual `x`
/// symbol).
#[verifier::external_body]
fn nv_of_d(k: &MdKind) -> NodeValue {
    match k {
        MdKind::List { ordered, start } => NodeValue::List(nv_list(*ordered, *start)),
        MdKind::Item { ordered, start } => NodeValue::Item(nv_list(*ordered, *start)),
        MdKind::TaskItem { checked } => NodeValue::TaskItem(NodeTaskItem {
            symbol: if *checked { Some('x') } else { None },
            symbol_sourcepos: (0, 0, 0, 0).into(),
        }),
        _ => nv_of_e(k),
    }
}

/// Relies on `comrak::nodes::NodeList`; the bookkeeping fields that plain
/// values do not carry get comrak's usual defaults.
#[verifier::external_body]
fn nv_list(ordered: bool, start: usize) -> NodeList {
    NodeList {
        list_type: if ordered { ListType::Ordered } else { ListType::Bullet },
        marker_offset: 0,
        padding: 2,
        start,
        delimiter: ListDelimType::Period,
        bullet_char: 45,
        tight: true,
        is_task_list: false,
    }
}

/// Relies on comrak's node payload constructors: one arm per variant,
/// moving fields only (code; code blocks are marked fenced with comrak's
/// usual fence bookkeeping).
#[verifier::external_body]
fn nv_of_e(k: &MdKind) -> NodeValue {
    match k {
        MdKind::Code { literal } => NodeValue::Code(
            NodeCode { num_backticks: 1, literal: literal.clone() },
        ),
        MdKind::CodeBlock { info, literal } => NodeValue::CodeBlock(Box::new(nv_code_block(
            info,
            literal,
        ))),
        _ => nv_of_f(k),
    }
}

/// Relies on `comrak::nodes::NodeCodeBlock`; the fence bookkeeping gets
/// comrak's usual defaults for a closed backtick fence.
#[verifier::external_body]
fn nv_code_block(info: &String, literal: &String) -> NodeCodeBlock {
    NodeCodeBlock {
        fenced: true,
        fence_char: 96,
        fence_length: 3,
        fence_offset: 0,
        info: info.clone(),
        literal: literal.clone(),
        closed: true,
    }
}

/// Relies on comrak's node payload constructors: one arm per variant,
/// moving fields only (raw HTML blocks, links, images).
#[verifier::external_body]
fn nv_of_f(k: &MdKind) -> NodeValue {
    match k {
        MdKind::HtmlBlock { literal } => NodeValue::HtmlBlock(
            NodeHtmlBlock { block_type: 0, literal: literal.clone() },
        ),
        MdKind::Link { url, title } => NodeValue::Link(Box::new(
            NodeLink { url: url.clone(), title: title.clone() },
        )),
        MdKind::Image { url, title } => NodeValue::Image(Box::new(
            NodeLink { url: url.clone(), title: title.clone() },
        )),
        _ => nv_of_g(k),
    }
}

/// Relies on comrak's node payload constructors: one arm per variant,
/// moving fields only (tables and footnotes; the counters comrak maintains
/// itself start at zero). The final arm catches only the opaque escape
/// variant, which never reaches comrak: the verified mapping fails on the
/// corresponding tree first.
#[verifier::external_body]
fn nv_of_g(k: &MdKind) -> NodeValue {
    match k {
        MdKind::Table { alignments } => NodeValue::Table(Box::new(NodeTable {
            alignments: aligns_back(alignments),
            num_columns: 0,
            num_rows: 0,
            num_nonempty_cells: 0,
        })),
        MdKind::FootnoteReference { name } => NodeValue::FootnoteReference(Box::new(
            NodeFootnoteReference { name: name.clone(), texts: Vec::new(), ref_num: 0, ix: 0 },
        )),
        MdKind::FootnoteDefinition { name } => NodeValue::FootnoteDefinition(
            NodeFootnoteDefinition { name: name.clone(), total_references: 0 },
        ),
        _ => NodeValue::Text("".into()),
    }
}

/// Relies on `comrak::nodes::TableAlignment`: one arm per variant.
#[verifier::external_body]
fn aligns_back(a: &Vec<MdTableAlignment>) -> Vec<TableAlignment> {
    a.iter().map(|x| match x {
        MdTableAlignment::Unaligned => TableAlignment::None,
        MdTableAlignment::Left => TableAlignment::Left,
        MdTableAlignment::Center => TableAlignment::Center,
        MdTableAlignment::Right => TableAlignment::Right,
    }).collect()
}

/// Relies on `comrak::format_commonmark` and `validate`: renders the
/// mirrored AST to CommonMark text. `validate` checks every node against
/// its parent but never the root's own kind, and the formatter reads the
/// parent of a list item, task item or table part, so those kinds are
/// excluded from the root by `requires`. Both the validation verdict and
/// the formatted text are deterministic, so the outcome is exactly
/// `commonmark_of` the tree's model.
#[verifier::external_body]
pub(crate) fn comrak_render(t: &MdTree) -> (r: Result<String, Error>)
    requires
        !(t@.kind is Item),
        !(t@.kind is TaskItem),
        !(t@.kind is TableCell),
        !(t@.kind is TableRow),
    ensures
        (match r {
            Ok(s) => crate::md::commonmark_of(t@) == Ok::<Seq<char>, Seq<char>>(s@),
            Err(e) => crate::md::commonmark_of(t@) == Err::<Seq<char>, Seq<char>>(e.message@),
        }),
{
    let arena = typed_arena::Arena::new();
    let root = comrak_ast_of(t, &ComrakArenaRef { inner: &arena });
    if let Err(e) = root.inner.validate() {
        return Err(Error { message: format!("invalid document structure: {:?}", e) });
    }
    let mut out = String::new();
    match comrak::format_commonmark(root.inner, &comrak_options(), &mut out) {
        Ok(()) => Ok(out),
        Err(e) => Err(Error { message: e.to_string() }),
    }
}

/// Relies on `String::from_utf8_lossy`: decodes a byte buffer, replacing
/// invalid sequences; a function of the bytes alone.
#[verifier::external_body]
pub(crate) fn bytes_to_string_lossy(data: &[u8]) -> (r: String)
    ensures
        r@ == crate::md::lossy_text_of(data@),
{
    String::from_utf8_lossy(data).into_owned()
}

} // verus!
