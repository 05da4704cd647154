//! The parser, processor and renderer contracts that the pipeline is wired
//! from. Concrete implementations strengthen these signatures with exact
//! contracts of their own.

use vstd::prelude::*;

use crate::error::Error;
use crate::node::Node;

verus! {

/// Converts the raw bytes of one source format into a document tree. A
/// parser must not perform I/O beyond the given buffer; loading the source
/// is its caller's job.
pub trait Parser {
    /// Parses one source buffer into a tree, or fails with a parse error.
    fn parse(&self, data: &[u8]) -> Result<Node, Error>;
}

/// Converts source text into a document tree.
pub trait AstParser {
    /// Parses one source text into a tree, or fails with a parse error.
    fn parse(&self, data: &str) -> Result<Node, Error>;
}

/// A single-tree transformation stage.
pub trait AstTransformer {
    /// Consumes a tree and produces the transformed tree.
    fn transform(&self, node: Node) -> Result<Node, Error>;
}

/// Renders a document tree to text.
pub trait AstRenderer {
    /// Renders the tree, or fails with a render error.
    fn render(&self, node: &Node) -> Result<String, Error>;
}

/// A pipeline stage over the whole list of parsed trees: each stage
/// consumes the previous stage's output and produces a new list. A
/// processor must not assume it is the first or last in the chain.
pub trait Processor {
    /// Transforms a list of trees.
    fn process(&self, nodes: Vec<Node>) -> Result<Vec<Node>, Error>;
}

/// Converts a document tree into output bytes for one target format.
pub trait Renderer {
    /// Whether only the byte form is meaningful (PDF, EPUB), as opposed to
    /// the text formats (HTML, Markdown).
    fn is_binary(&self) -> bool;

    /// Renders the tree to output bytes, or fails with a render error.
    fn render(&self, node: &Node) -> Result<Vec<u8>, Error>;

    /// Renders the tree to text; for text formats the byte output is the
    /// UTF-8 encoding of this text.
    fn render_str(&self, node: &Node) -> Result<String, Error>;
}

} // verus!
