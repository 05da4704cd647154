//! The Markdown and HTML parsers and renderers, end to end against the
//! real grammar libraries.

use docz::{HTMLParser, HTMLRenderer, MdParser, MdRenderer};
use docz::{
    ChapterAggregProcessor, DebugRenderer, DocMetadataProcessor, Format, Node, NodeKind, Processor,
};

static SAMPLE_MD: &str = "---\ntitle: \"Sample\"\n---\n\n# Title\n\nSome *text* with **bold** and `code`.\n\n- one\n- two\n\n```rust\nlet x = 1;\n```\n";

static SAMPLE_HTML: &str = "<div id=\"main\" class=\"wide dark\"><p>Hello <em>there</em></p><!-- note --></div>";

#[test]
fn test_parse_render() {
    let node = MdParser::new().parse_str(SAMPLE_MD).unwrap();
    println!("{node:#?}");

    let file_str = MdRenderer::new().render_string(&node).unwrap();
    println!("{file_str}");
    assert!(file_str.contains("# Title"));
    assert!(file_str.contains("bold"));
}

#[test]
fn tests_test_parse_render() {
    let node = HTMLParser::new().parse_str(SAMPLE_HTML).unwrap();

    let html_str = HTMLRenderer::new().render_string(&node);
    println!("{html_str}");
    assert!(html_str.contains("<p>Hello <em>there</em></p>"));
    assert!(html_str.contains("id=\"main\""));
    assert!(html_str.contains("class=\"wide dark\""));
}

#[test]
fn markdown_parse_maps_the_grammar() {
    let node = MdParser::new().parse_str(SAMPLE_MD).unwrap();
    assert!(matches!(node.kind, NodeKind::Document { .. }));
    // The frontmatter becomes a Metadata leaf with its delimiters stripped.
    match &node.children[0].kind {
        NodeKind::Metadata { value } => assert_eq!(value, "title: \"Sample\""),
        k => panic!("expected metadata first, got {k:?}"),
    }
    // The heading follows.
    match &node.children[1].kind {
        NodeKind::Heading { level } => assert_eq!(*level, 1u8),
        k => panic!("expected a heading, got {k:?}"),
    }
    match &node.children[1].children[0].kind {
        NodeKind::Text { value } => assert_eq!(value, "Title"),
        k => panic!("expected text, got {k:?}"),
    }
}

#[test]
fn markdown_rejects_the_escape_hatch() {
    let other = Node::new(NodeKind::Other { name: "custom".to_string(), void: false });
    let err = MdRenderer::new().render_string(&other).unwrap_err();
    assert_eq!(err.message, "unsupported node kind");
}

#[test]
fn html_parse_rejects_empty_input() {
    let err = HTMLParser::new().parse_str("").unwrap_err();
    assert_eq!(err.message, "Empty HTML string");
}

#[test]
fn html_renderer_translates_semantic_variants() {
    let tree = Node::new(NodeKind::Paragraph).with_children(vec![
        Node::text("see "),
        Node::new(NodeKind::Link { url: "https://example.org".to_string(), title: None })
            .with_children(vec![Node::text("here")]),
    ]);
    let html = HTMLRenderer::new().render_string(&tree);
    assert_eq!(html, "<p>see <a href=\"https://example.org\">here</a></p>");
}

#[test]
fn void_elements_render_self_closing() {
    let node = HTMLParser::new().parse_str("<div><br></div>").unwrap();
    let html = HTMLRenderer::new().render_string(&node);
    assert_eq!(html, "<div><br /></div>");
}

#[test]
fn html_parse_rejects_invalid_utf8_bytes() {
    let err = docz::Parser::parse(&HTMLParser::new(), &[0x3c_u8, 0xff, 0xfe]).unwrap_err();
    assert!(!err.message.is_empty());
}

#[test]
fn end_to_end_two_files_build_one_book() {
    // Two Markdown inputs; after parsing, chapter aggregation and metadata
    // injection, the dump shows one Document titled "My Book" holding two
    // Chapters, each holding one level-1 Heading holding one Text run.
    let parser = MdParser::new();
    let hello = parser.parse_str("# Hello\n").unwrap();
    let world = parser.parse_str("# World\n").unwrap();

    let aggregated = ChapterAggregProcessor::new().process(vec![hello, world]).unwrap();
    let titled = DocMetadataProcessor::new(Some("My Book".to_string()), None, None)
        .process(aggregated)
        .unwrap();
    assert_eq!(titled.len(), 1);
    let root = &titled[0];
    match &root.kind {
        NodeKind::Document { title, .. } => assert_eq!(title.as_deref(), Some("My Book")),
        k => panic!("expected a document, got {k:?}"),
    }
    assert_eq!(root.children.len(), 2);
    let expected_texts = ["Hello", "World"];
    for (chapter, expected) in root.children.iter().zip(expected_texts) {
        assert!(matches!(chapter.kind, NodeKind::Chapter { .. }));
        assert_eq!(chapter.children.len(), 1);
        let heading = &chapter.children[0];
        match &heading.kind {
            NodeKind::Heading { level } => assert_eq!(*level, 1u8),
            k => panic!("expected a heading, got {k:?}"),
        }
        match &heading.children[0].kind {
            NodeKind::Text { value } => assert_eq!(value, expected),
            k => panic!("expected text, got {k:?}"),
        }
    }

    let dump = DebugRenderer::new().render_string(root);
    assert!(dump.starts_with("Document title=\"My Book\""));
    assert!(dump.contains("Text \"Hello\""));
    assert!(dump.contains("Text \"World\""));
}

#[test]
fn markdown_list_round_trips_through_comrak() {
    let node = MdParser::new().parse_str("1. first\n2. second\n").unwrap();
    let rendered = MdRenderer::new().render_string(&node).unwrap();
    assert!(rendered.contains("first"));
    assert!(rendered.contains("second"));
    let reparsed = MdParser::new().parse_str(&rendered).unwrap();
    // The list survives the round trip as an ordered list.
    let list = &reparsed.children[0];
    match &list.kind {
        NodeKind::List { ordered, .. } => assert!(*ordered),
        k => panic!("expected a list, got {k:?}"),
    }
}

#[test]
fn markdown_rejects_a_bare_list_item_root() {
    // comrak's formatter reads a list item's parent list, so a bare item
    // cannot stand at the root of a rendering; the renderer reports it
    // instead of handing it to comrak.
    let item = Node::new(NodeKind::ListItem { checked: None })
        .with_children(vec![Node::new(NodeKind::Paragraph).with_children(vec![Node::text("hi")])]);
    let err = MdRenderer::new().render_string(&item).unwrap_err();
    assert_eq!(err.message, "unsupported root node kind");
    let cell = Node::new(NodeKind::TableCell);
    let err = MdRenderer::new().render_string(&cell).unwrap_err();
    assert_eq!(err.message, "unsupported root node kind");
    let row = Node::new(NodeKind::TableRow { is_header: true })
        .with_children(vec![Node::new(NodeKind::TableCell)]);
    let err = MdRenderer::new().render_string(&row).unwrap_err();
    assert_eq!(err.message, "unsupported root node kind");
}

#[test]
fn markdown_rendering_is_deterministic() {
    let build = || {
        Node::new(NodeKind::Document { title: None, summary: None, authors: None }).with_children(
            vec![Node::new(NodeKind::Heading { level: 2 }).with_children(vec![Node::text("Twice")])],
        )
    };
    let a = MdRenderer::new().render_string(&build()).unwrap();
    let b = MdRenderer::new().render_string(&build()).unwrap();
    assert_eq!(a, b);
    assert!(a.contains("Twice"));
}

#[test]
fn source_format_follows_the_extension() {
    assert_eq!(Format::of_ext("md"), Some(Format::Markdown));
    assert_eq!(Format::of_ext("mdx"), Some(Format::Markdown));
    assert_eq!(Format::of_ext("markdown"), Some(Format::Markdown));
    assert_eq!(Format::of_ext("html"), Some(Format::Html));
    assert_eq!(Format::of_ext("pdf"), None);
    assert_eq!(Format::of_ext(""), None);
}
