//! EPUB: the verified book plan - metadata and one XHTML page per chapter.
//! Zipping the container together is packaging, left to the caller.

use vstd::prelude::*;

use crate::error::Error;
use crate::html::html_of;
use crate::node::{lemma_nodes_view_index, Node, NodeKind, NodeView};
use crate::strutil::dec_rep;

verus! {

/// The EPUB renderer: collects book metadata, builder style, and computes
/// the content pages.
pub struct EPubRenderer {
    /// Stylesheet text
    pub stylesheet: String,
    /// Book title
    pub title: String,
    /// Authors
    pub authors: Vec<String>,
    /// Cover image (name, MIME type, content)
    pub cover: Option<(String, String, Vec<u8>)>,
}

impl EPubRenderer {
    /// Creates a new instance for a book title.
    pub fn new(title: &str) -> (r: EPubRenderer)
        ensures
            r.title@ == title@,
            r.stylesheet@ == Seq::<char>::empty(),
            r.authors@ == Seq::<String>::empty(),
            r.cover is None,
    {
        EPubRenderer {
            stylesheet: String::new(),
            title: title.to_owned(),
            authors: Vec::new(),
            cover: None,
        }
    }

    /// Assigns a stylesheet, builder style.
    pub fn stylesheet(self, stylesheet: &str) -> (r: EPubRenderer)
        ensures
            r.stylesheet@ == stylesheet@,
            r.title == self.title,
            r.authors == self.authors,
            r.cover == self.cover,
    {
        EPubRenderer { stylesheet: stylesheet.to_owned(), ..self }
    }

    /// Adds an author, builder style.
    pub fn author(self, author: &str) -> (r: EPubRenderer)
        ensures
            r.authors@.len() == self.authors@.len() + 1,
            r.authors@.last()@ == author@,
            forall|j: int| 0 <= j < self.authors@.len() ==> r.authors@[j] == self.authors@[j],
            r.stylesheet == self.stylesheet,
            r.title == self.title,
            r.cover == self.cover,
    {
        let mut s = self;
        s.authors.push(author.to_owned());
        s
    }

    /// Assigns a cover image, builder style.
    pub fn cover(self, name: &str, mime_type: &str, data: Vec<u8>) -> (r: EPubRenderer)
        ensures
            (match r.cover {
                Option::Some(c) => c.0@ == name@ && c.1@ == mime_type@ && c.2@ == data@,
                Option::None => false,
            }),
            r.stylesheet == self.stylesheet,
            r.title == self.title,
            r.authors == self.authors,
    {
        EPubRenderer { cover: Some((name.to_owned(), mime_type.to_owned(), data)), ..self }
    }
}

/// The file name of the content page at position `i` (0-based): chapters
/// are numbered from one.
pub open spec fn page_name(i: nat) -> Seq<char> {
    "chapter_"@ + dec_rep(i + 1) + ".xhtml"@
}

/// The XHTML page for one tree: its HTML rendering inside a minimal body.
pub open spec fn page_content(n: NodeView) -> Seq<char> {
    "<html><body>"@ + html_of(n) + "</body></html>"@
}

/// One content page per child of the root, in order; only a Document root
/// can be rendered as a book.
pub open spec fn epub_pages(n: NodeView) -> Result<Seq<(Seq<char>, Seq<char>)>, Seq<char>> {
    if n.kind is Document {
        Ok(Seq::new(n.children.len(), |i: int| (page_name(i as nat), page_content(n.children[i]))))
    } else {
        Err("Only a document can be rendered"@)
    }
}

impl EPubRenderer {
    /// Computes the book's content pages: one XHTML page per child of the
    /// Document root, named in order. A non-Document root is an explicit
    /// error.
    #[verifier::loop_isolation(false)]
    pub fn pages(&self, node: &Node) -> (r: Result<Vec<(String, String)>, Error>)
        ensures
            (match r {
                Ok(out) => epub_pages(node@) == Ok::<Seq<(Seq<char>, Seq<char>)>, Seq<char>>(
                    out@.map_values(|p: (String, String)| (p.0@, p.1@)),
                ),
                Err(e) => epub_pages(node@) == Err::<Seq<(Seq<char>, Seq<char>)>, Seq<char>>(
                    e.message@,
                ),
            }),
    {
        match &node.kind {
            NodeKind::Document { .. } => {
                proof {
                    lemma_nodes_view_index(node.children@);
                }
                let ghost views = node@.children;
                let mut out: Vec<(String, String)> = Vec::new();
                let mut i: usize = 0;
                while i < node.children.len()
                    invariant
                        0 <= i <= node.children.len(),
                        out@.len() == i,
                        forall|j: int|
                            0 <= j < i ==> #[trigger] out@[j].0@ == page_name(j as nat)
                                && out@[j].1@ == page_content(views[j]),
                    decreases node.children.len() - i,
                {
                    let mut name = String::new();
                    name.append("chapter_");
                    name.append(crate::strutil::usize_to_string(i + 1).as_str());
                    name.append(".xhtml");
                    let mut content = String::new();
                    content.append("<html><body>");
                    crate::html::html_node_into(&node.children[i], &mut content);
                    content.append("</body></html>");
                    proof {
                        assert(name@ =~= page_name(i as nat));
                        assert(content@ =~= page_content(views[i as int]));
                    }
                    out.push((name, content));
                    i += 1;
                }
                proof {
                    assert(out@.map_values(|p: (String, String)| (p.0@, p.1@)) =~= Seq::new(
                        views.len(),
                        |j: int| (page_name(j as nat), page_content(views[j])),
                    ));
                }
                Ok(out)
            },
            _ => Err(Error::new("Only a document can be rendered")),
        }
    }
}

} // verus!
