//! The debug, PDF and EPUB renderers, and the format table.

use docz::{
    DebugRenderer, EPubRenderer, Format, Node, NodeKind, PDFRenderer, Span,
};

#[test]
fn debug_dump_of_a_leaf_is_one_line() {
    let node = Node::text("Hello");
    let dump = DebugRenderer::new().render_string(&node);
    assert_eq!(dump, "Text \"Hello\" n=0\n");
}

#[test]
fn debug_dump_shows_span_attrs_and_arity() {
    let node = Node::new(NodeKind::Heading { level: 2 })
        .with_span(Span::new(1, 1, 1, 8))
        .with_attr("id".to_string(), Some("intro".to_string()))
        .with_child(Node::text("Hi"));
    let dump = DebugRenderer::new().render_string(&node);
    assert_eq!(dump, "Heading level=2 @1:1-1:8 id=\"intro\" n=1\nText \"Hi\" n=0\n");
}

#[test]
fn debug_dump_is_blind_to_attribute_insertion_order() {
    // The same bindings inserted in either order dump identically.
    let mut one = docz::Attrs::new();
    one.insert("b".to_string(), Some("2".to_string()));
    one.insert("a".to_string(), Some("1".to_string()));
    let mut two = docz::Attrs::new();
    two.insert("a".to_string(), Some("1".to_string()));
    two.insert("b".to_string(), Some("2".to_string()));
    let n1 = Node { kind: NodeKind::Paragraph, span: None, attrs: one, children: vec![] };
    let n2 = Node { kind: NodeKind::Paragraph, span: None, attrs: two, children: vec![] };
    let d1 = DebugRenderer::new().render_string(&n1);
    let d2 = DebugRenderer::new().render_string(&n2);
    assert_eq!(d1, d2);
    assert_eq!(d1, "Paragraph a=\"1\" b=\"2\" n=0\n");
}

#[test]
fn json_projection_escapes_and_structures() {
    let node = Node::new(NodeKind::Paragraph)
        .with_attr("id".to_string(), Some("a\"b".to_string()))
        .with_child(Node::text("line\nbreak"));
    let json = node.to_json();
    assert_eq!(
        json,
        "{\"kind\":{\"tag\":\"Paragraph\"},\"span\":null,\"attrs\":[[\"id\",\"a\\\"b\"]],\"children\":[{\"kind\":{\"tag\":\"Text\",\"value\":\"line\\nbreak\"},\"span\":null,\"attrs\":[],\"children\":[]}]}"
    );

    let rendered = docz::Renderer::render_str(&docz::JsonRenderer::new(), &node).unwrap();
    assert_eq!(rendered, json);
}

#[test]
fn pdf_layout_requires_a_document_root() {
    let err = PDFRenderer::new().render_blocks(&Node::new(NodeKind::Paragraph)).unwrap_err();
    assert_eq!(err.message, "Only a document can be rendered");
}

#[test]
fn pdf_layout_rejects_a_table() {
    // A renderer without table support answers a render error, never a
    // truncated output.
    let tree = Node::new(NodeKind::Document { title: None, summary: None, authors: None })
        .with_child(
            Node::new(NodeKind::Table { columns: vec![] }).with_child(
                Node::new(NodeKind::TableRow { is_header: false }),
            ),
        );
    let err = PDFRenderer::new().render_blocks(&tree).unwrap_err();
    assert_eq!(err.message, "unsupported node kind");
}

#[test]
fn pdf_layout_collects_text_blocks() {
    let tree = Node::new(NodeKind::Document {
        title: Some("My document".to_string()),
        summary: Some("My summary".to_string()),
        authors: Some(vec!["nick".to_string()]),
    }).with_children(vec![
        Node::new(NodeKind::Paragraph).with_children(vec![
            Node::text("There are many variations"),
        ]),
    ]);
    let blocks = PDFRenderer::new().render_blocks(&tree).unwrap();
    assert_eq!(blocks, vec!["My document".to_string(), "There are many variations".to_string()]);
}

#[test]
fn test_epub() {
    let node = Node::new(NodeKind::Document {
        title: Some("My document".to_string()),
        summary: None,
        authors: None,
    }).with_child(
        Node::new(NodeKind::Chapter { title: None }).with_child(Node::text(" Some text")),
    );

    let renderer = EPubRenderer::new("My title")
        .stylesheet("body { background-color: #eee; }")
        .author("John Doe")
        .cover("cover.png", "image/png", vec![0; 100]);
    assert_eq!(renderer.title, "My title");
    assert_eq!(renderer.stylesheet, "body { background-color: #eee; }");
    assert_eq!(renderer.authors, vec!["John Doe".to_string()]);
    let (name, mime, data) = renderer.cover.clone().unwrap();
    assert_eq!((name.as_str(), mime.as_str(), data.len()), ("cover.png", "image/png", 100));

    let pages = renderer.pages(&node).unwrap();
    assert_eq!(pages.len(), 1);
    assert_eq!(pages[0].0, "chapter_1.xhtml");
    assert_eq!(pages[0].1, "<html><body><section> Some text</section></body></html>");
}

#[test]
fn epub_pages_need_a_document_root() {
    let not_a_doc = Node::new(NodeKind::Paragraph);
    let err = EPubRenderer::new("t").pages(&not_a_doc).unwrap_err();
    assert_eq!(err.message, "Only a document can be rendered");
}

#[test]
fn format_names_round_trip() {
    for f in [Format::Markdown, Format::Html, Format::Pdf, Format::Epub, Format::Debug] {
        assert_eq!(Format::from_str(f.as_str()).unwrap(), f);
    }
    let err = Format::from_str("docx").unwrap_err();
    assert_eq!(err.message, "invalid format");
    assert!(Format::Pdf.is_binary());
    assert!(Format::Epub.is_binary());
    assert!(!Format::Markdown.is_binary());
    assert!(!Format::Html.is_binary());
}

#[test]
fn sections_and_sources_collect_children() {
    let mut doc = docz::Document::new();
    let mut section = docz::Section::new("01-intro.md");
    section.add_section(docz::Section::new("01-intro/01-sub.md"));
    doc.add_section(section);
    assert_eq!(doc.sections.len(), 1);
    assert_eq!(doc.sections[0].children.len(), 1);

    let mut data = docz::SourceData::new();
    let mut file = docz::SourceFile::new("src/a.md");
    file.add_child(docz::SourceFile::new("src/a/b.md"));
    data.add_file(file);
    assert_eq!(data.files.len(), 1);
    assert_eq!(data.files[0].children.len(), 1);
    assert_eq!(data.files[0].path, "src/a.md");
}
