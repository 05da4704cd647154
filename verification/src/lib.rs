//! A documentation generator core: a generic document tree, the traversal
//! and rewrite engine that every processor is built on, parser and renderer
//! contracts, and concrete parsers, processors and renderers for Markdown,
//! HTML, the PDF and EPUB plans, and the structural debug dump.

mod attrs;
mod cfg;
mod doc;
mod dump;
mod epub;
mod error;
mod fmt;
pub mod html;
mod html_io;
mod json;
pub mod md;
mod md_comrak;
mod node;
mod pdf;
mod proc;
mod source;
mod span;
mod strutil;
mod traits;
mod visit;

pub use attrs::{attrs_contains, attrs_index_of, attrs_keys_unique, attrs_value_of, Attrs};
pub use cfg::{BuildConfig, DocConfig, SourceConfig};
pub use doc::{Document, Section};
pub use dump::{
    attr_le, canonical_attrs, dump_tokens, lemma_canonical_attrs_order_blind,
    lemma_dump_round_trip, parse_tokens, tokens_text, DebugRenderer, TokenView,
};
pub use epub::{epub_pages, EPubRenderer};
pub use error::Error;
pub use fmt::{format_of, source_format_of, Format};
pub use node::{node_view, nodes_view, KindView, MdTableAlignment, Node, NodeKind, NodeView};
pub use pdf::{lemma_pdf_rejects_table, pdf_blocks, text_content, PDFRenderer};
pub use proc::{
    chapter_title_spec, frontmatter_title_of, lemma_chapter_aggregation, ChapterAggregProcessor,
    DocMetadataProcessor,
};
pub use source::{SourceData, SourceFile};
pub use span::Span;
pub use traits::{AstParser, AstRenderer, AstTransformer, Parser, Processor, Renderer};
pub use visit::{
    count, height, lemma_preorder_count, lemma_vam_children_deletion, lemma_vam_deleted,
    lemma_vam_identity, lemma_vam_map_kind, lemma_map_kind_structure, lemma_map_kind_untouched,
    map_kind, preorder, vam,
    vam_children, visit_mut_spec, CountVisitor, MutVisitor, Rewriter, StripSpans, Visitor,
};

pub use html::{
    canon_dom, canon_html, html_dom_kind_of, html_dom_of, html_first_diag_of, html_of,
    html_parse_err, html_parse_outcome, node_of_dom, raw_html_view, HTMLParser, HTMLRenderer,
    RawDom, RawDomKind, RawDomView, RawHtml, RawHtmlView,
};
pub use json::{json_of, JsonRenderer};
pub use md::{
    commonmark_of, comrak_tree_of, lossy_text_of, md_renderable, md_root_ok, md_to_node,
    md_tree_view, md_view_of, node_of_md, node_to_md, MdKind, MdKindView, MdParser, MdRenderer,
    MdTree, MdTreeView,
};
pub use strutil::str_le;
