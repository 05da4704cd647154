//! The traversal engine and the processors, on concrete trees.

use docz::{
    Attrs, ChapterAggregProcessor, CountVisitor, DocMetadataProcessor, Node, NodeKind, Parser,
    Processor, StripSpans, Span,
};

fn text(value: &str) -> Node {
    Node::text(value)
}

fn paragraph(children: Vec<Node>) -> Node {
    Node::new(NodeKind::Paragraph).with_children(children)
}

fn document(children: Vec<Node>) -> Node {
    Node::new(NodeKind::Document { title: None, summary: None, authors: None }).with_children(
        children,
    )
}

#[test]
fn test_visit() {
    let node = document(vec![paragraph(vec![text("Hello")])]);
    println!("{node:#?}");

    let mut v = CountVisitor::new();
    node.visit(&mut v);
    assert_eq!(v.count, 3);
}

#[test]
fn visit_counts_each_node_once_in_preorder() {
    // One Document holding one Chapter holding one Paragraph holding one
    // Text run: exactly 4 callback invocations, parents first.
    let tree = document(vec![
        Node::new(NodeKind::Chapter { title: None }).with_children(vec![paragraph(vec![text(
            "hi",
        )])]),
    ]);
    assert_eq!(tree.nb_nodes(), 4);

    let dump = docz::DebugRenderer::new().render_string(&tree);
    let lines: Vec<&str> = dump.lines().collect();
    assert_eq!(lines.len(), 4);
    assert!(lines[0].starts_with("Document"));
    assert!(lines[1].starts_with("Chapter"));
    assert!(lines[2].starts_with("Paragraph"));
    assert!(lines[3].starts_with("Text"));
}

#[test]
fn visit_mut_strips_spans_everywhere() {
    let mut tree = document(vec![paragraph(vec![text("x").with_span(Span::new(1, 1, 1, 2))])])
        .with_span(Span::new(1, 1, 3, 1));
    tree.visit_mut(&StripSpans);
    assert_eq!(tree.span, None);
    assert_eq!(tree.children[0].children[0].span, None);
}

#[test]
fn chapter_aggregation_extracts_title_and_drops_metadata() {
    // A Document whose children include a Metadata node encoding the title.
    let doc = document(vec![
        Node::new(NodeKind::Metadata { value: "title: \"Foo\"".to_string() }),
        paragraph(vec![text("body")]),
    ]);
    let out = ChapterAggregProcessor::new().process(vec![doc]).unwrap();
    assert_eq!(out.len(), 1);
    let root = &out[0];
    assert!(matches!(
        root.kind,
        NodeKind::Document { title: None, summary: None, authors: None }
    ));
    assert_eq!(root.children.len(), 1);
    let chapter = &root.children[0];
    match &chapter.kind {
        NodeKind::Chapter { title } => assert_eq!(title.as_deref(), Some("Foo")),
        k => panic!("expected a chapter, got {k:?}"),
    }
    // The Metadata node is gone; the paragraph survived in order.
    assert_eq!(chapter.children.len(), 1);
    assert!(matches!(chapter.children[0].kind, NodeKind::Paragraph));
}

#[test]
fn chapter_aggregation_survives_malformed_frontmatter() {
    // An unparsable Metadata payload still yields a Chapter with no title,
    // and the processor call succeeds.
    let doc = document(vec![
        Node::new(NodeKind::Metadata { value: "title: [unclosed".to_string() }),
        paragraph(vec![text("body")]),
    ]);
    let result = ChapterAggregProcessor::new().process(vec![doc]);
    let out = result.expect("aggregation must not fail on bad frontmatter");
    let chapter = &out[0].children[0];
    match &chapter.kind {
        NodeKind::Chapter { title } => assert_eq!(title, &None),
        k => panic!("expected a chapter, got {k:?}"),
    }
}

#[test]
fn chapter_aggregation_skips_untitled_frontmatter() {
    // Frontmatter that parses but names no title yields no title either.
    let doc = document(vec![Node::new(NodeKind::Metadata {
        value: "author: someone".to_string(),
    })]);
    let out = ChapterAggregProcessor::new().process(vec![doc]).unwrap();
    match &out[0].children[0].kind {
        NodeKind::Chapter { title } => assert_eq!(title, &None),
        k => panic!("expected a chapter, got {k:?}"),
    }
}

#[test]
fn metadata_injection_overwrites_document_fields() {
    let doc = document(vec![paragraph(vec![text("kept")])]);
    let p = DocMetadataProcessor::new(
        Some("My Book".to_string()),
        Some("About".to_string()),
        Some(vec!["Ada".to_string()]),
    );
    let out = p.process(vec![doc]).unwrap();
    assert_eq!(out.len(), 1);
    match &out[0].kind {
        NodeKind::Document { title, summary, authors } => {
            assert_eq!(title.as_deref(), Some("My Book"));
            assert_eq!(summary.as_deref(), Some("About"));
            assert_eq!(authors.as_deref(), Some(&["Ada".to_string()][..]));
        },
        k => panic!("expected a document, got {k:?}"),
    }
    // Children are untouched.
    assert_eq!(out[0].children.len(), 1);
    assert!(matches!(out[0].children[0].kind, NodeKind::Paragraph));
}

#[test]
fn metadata_injection_leaves_other_roots_alone() {
    // A no-op replacement keeps the tree structurally identical.
    let frag = Node::new(NodeKind::Fragment).with_children(vec![paragraph(vec![text("same")])]);
    let expected = Node::new(NodeKind::Fragment).with_children(vec![paragraph(vec![text(
        "same",
    )])]);
    let p = DocMetadataProcessor::new(Some("t".to_string()), None, None);
    let out = p.process(vec![frag]).unwrap();
    assert_eq!(out[0], expected);
}

#[test]
fn attrs_insert_get_and_overwrite() {
    let mut attrs = Attrs::new();
    attrs.insert("id".to_string(), Some("intro".to_string()));
    attrs.insert("draft".to_string(), None);
    assert_eq!(attrs.len(), 2);
    assert_eq!(attrs.get("id"), Some(Some("intro".to_string())));
    assert_eq!(attrs.get("draft"), Some(None));
    assert_eq!(attrs.get("missing"), None);
    attrs.insert("id".to_string(), Some("outro".to_string()));
    assert_eq!(attrs.len(), 2);
    assert_eq!(attrs.get("id"), Some(Some("outro".to_string())));
    assert!(attrs.contains_key("draft"));
}

#[test]
fn rewrite_deletes_whole_subtrees_and_keeps_sibling_order() {
    // The chapter-aggregation rewriter deletes Metadata nodes: the deleted
    // subtree vanishes entirely and the surviving siblings keep their order.
    let tree = Node::new(NodeKind::Fragment).with_children(vec![
        text("a"),
        Node::new(NodeKind::Metadata { value: "gone".to_string() }),
        text("b"),
    ]);
    let rewriter = ChapterAggregProcessor::new();
    let out = tree.visit_and_modify(&rewriter).expect("the root survives");
    assert_eq!(out.children.len(), 2);
    assert_eq!(out.children[0], text("a"));
    assert_eq!(out.children[1], text("b"));

    // Deleting the root deletes everything.
    let metadata_root = Node::new(NodeKind::Metadata { value: "gone".to_string() });
    assert!(metadata_root.visit_and_modify(&rewriter).is_none());
}

#[test]
fn rewrite_renames_one_tag_and_nothing_else() {
    // Replacing a Document by a Chapter while every other variant maps to
    // itself changes only that node's tag: all descendants stay
    // structurally identical, same text, same order.
    let body = vec![
        paragraph(vec![text("one"), text("two")]),
        Node::new(NodeKind::Heading { level: 2 }),
    ];
    let doc = document(body);
    let out = doc.visit_and_modify(&ChapterAggregProcessor::new()).unwrap();
    match &out.kind {
        NodeKind::Chapter { title } => assert_eq!(title, &None),
        k => panic!("expected a chapter, got {k:?}"),
    }
    let expected_children = vec![
        paragraph(vec![text("one"), text("two")]),
        Node::new(NodeKind::Heading { level: 2 }),
    ];
    assert_eq!(out.children, expected_children);
}

#[test]
fn parsers_accept_byte_buffers() {
    let node = Parser::parse(&docz::MdParser::new(), b"# Hi\n").unwrap();
    assert!(matches!(node.kind, NodeKind::Document { .. }));
    let html = Parser::parse(&docz::HTMLParser::new(), b"<p>x</p>").unwrap();
    assert!(matches!(html.kind, NodeKind::Fragment));
}

#[test]
fn children_answer_depends_on_variant() {
    let leaf = text("x");
    assert!(leaf.children().is_none());
    let structural = paragraph(vec![]);
    let kids = structural.children().expect("a paragraph has a children slot");
    assert_eq!(kids.len(), 0);
}
