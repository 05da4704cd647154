//! A raw document: the source sections handed to the pipeline, before any
//! parsing.

use vstd::prelude::*;

verus! {

/// One source section: a file's path, its raw content, and its subsections.
#[derive(Debug, PartialEq, Eq)]
pub struct Section {
    /// Source file path
    pub file: String,
    /// Raw content
    pub content: Vec<u8>,
    /// Subsections
    pub children: Vec<Section>,
}

impl Section {
    /// Creates an empty section for a source file.
    pub fn new(src_file: &str) -> (r: Section)
        ensures
            r.file@ == src_file@,
            r.content@ == Seq::<u8>::empty(),
            r.children@ == Seq::<Section>::empty(),
    {
        Section { file: src_file.to_owned(), content: Vec::new(), children: Vec::new() }
    }

    /// Adds a subsection.
    pub fn add_section(&mut self, section: Section)
        ensures
            final(self).children@ == old(self).children@.push(section),
            final(self).file == old(self).file,
            final(self).content == old(self).content,
    {
        self.children.push(section);
    }
}

/// A raw document: its sections in reading order.
#[derive(Debug, PartialEq, Eq)]
pub struct Document {
    /// Sections
    pub sections: Vec<Section>,
}

impl Document {
    /// Creates an empty document.
    pub fn new() -> (r: Document)
        ensures
            r.sections@ == Seq::<Section>::empty(),
    {
        Document { sections: Vec::new() }
    }

    /// Adds a section.
    pub fn add_section(&mut self, section: Section)
        ensures
            final(self).sections@ == old(self).sections@.push(section),
    {
        self.sections.push(section);
    }
}

impl Default for Document {
    /// Creates an empty document.
    fn default() -> (r: Self)
        ensures
            r.sections@ == Seq::<Section>::empty(),
    {
        Document { sections: Vec::new() }
    }
}

} // verus!
