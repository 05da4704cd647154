//! The representation of a loaded source directory: file contents and
//! asset paths as plain values. Reading them off the disk is the caller's
//! job.

use vstd::prelude::*;

verus! {

/// One loaded source file with its nested children (a directory named like
/// the file holds its subsections).
#[derive(Debug, PartialEq, Eq)]
pub struct SourceFile {
    /// Path
    pub path: String,
    /// Raw content
    pub content: Vec<u8>,
    /// Children
    pub children: Vec<SourceFile>,
}

impl SourceFile {
    /// Creates an empty source file entry.
    pub fn new(src_path: &str) -> (r: SourceFile)
        ensures
            r.path@ == src_path@,
            r.content@ == Seq::<u8>::empty(),
            r.children@ == Seq::<SourceFile>::empty(),
    {
        SourceFile { path: src_path.to_owned(), content: Vec::new(), children: Vec::new() }
    }

    /// Adds a child.
    pub fn add_child(&mut self, child: SourceFile)
        ensures
            final(self).children@ == old(self).children@.push(child),
            final(self).path == old(self).path,
            final(self).content == old(self).content,
    {
        self.children.push(child);
    }
}

/// A loaded source directory: the files and the static asset paths.
#[derive(Debug, PartialEq, Eq)]
pub struct SourceData {
    /// Source files
    pub files: Vec<SourceFile>,
    /// Static asset paths
    pub assets: Vec<String>,
}

impl SourceData {
    /// Creates an empty source set.
    pub fn new() -> (r: SourceData)
        ensures
            r.files@ == Seq::<SourceFile>::empty(),
            r.assets@ == Seq::<String>::empty(),
    {
        SourceData { files: Vec::new(), assets: Vec::new() }
    }

    /// Adds a file.
    pub fn add_file(&mut self, file: SourceFile)
        ensures
            final(self).files@ == old(self).files@.push(file),
            final(self).assets == old(self).assets,
    {
        self.files.push(file);
    }
}

impl Default for SourceData {
    /// Creates an empty source set.
    fn default() -> (r: Self)
        ensures
            r.files@ == Seq::<SourceFile>::empty(),
            r.assets@ == Seq::<String>::empty(),
    {
        SourceData { files: Vec::new(), assets: Vec::new() }
    }
}

} // verus!
