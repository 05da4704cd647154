//! The plain configuration values the pipeline consumes. Loading them from
//! a configuration file is the caller's job.

use vstd::prelude::*;

verus! {

/// Document-level metadata from the configuration.
#[derive(Debug, Clone, PartialEq, Eq)]
pub struct DocConfig {
    /// Document title
    pub title: String,
    /// Document description
    pub description: String,
    /// Authors
    pub authors: Vec<String>,
}

impl Default for DocConfig {
    /// The default document metadata.
    fn default() -> (r: Self)
        ensures
            r.title@ == "Doc title"@,
            r.description@ == "Doc description"@,
            r.authors@ == Seq::<String>::empty(),
    {
        DocConfig {
            title: "Doc title".to_owned(),
            description: "Doc description".to_owned(),
            authors: Vec::new(),
        }
    }
}

/// Where the sources live.
#[derive(Debug, Clone, PartialEq, Eq)]
pub struct SourceConfig {
    /// Source files directory
    pub src_dir: String,
    /// Assets directory
    pub assets_dir: String,
}

impl Default for SourceConfig {
    /// The default source layout.
    fn default() -> (r: Self)
        ensures
            r.src_dir@ == "src"@,
            r.assets_dir@ == "_assets"@,
    {
        SourceConfig { src_dir: "src".to_owned(), assets_dir: "_assets".to_owned() }
    }
}

/// Where the build output goes.
#[derive(Debug, Clone, PartialEq, Eq)]
pub struct BuildConfig {
    /// Build directory
    pub build_dir: String,
}

impl Default for BuildConfig {
    /// The default build directory.
    fn default() -> (r: Self)
        ensures
            r.build_dir@ == "build"@,
    {
        BuildConfig { build_dir: "build".to_owned() }
    }
}

} // verus!
