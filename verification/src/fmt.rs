//! Output formats and their names.

use vstd::prelude::*;

use crate::error::Error;

verus! {

/// A source or target file format.
#[derive(Debug, Clone, Copy, PartialEq, Eq, Structural, Hash)]
pub enum Format {
    /// Markdown (CommonMark)
    Markdown,
    /// HTML
    Html,
    /// PDF
    Pdf,
    /// EPUB
    Epub,
    /// The structural debug dump
    Debug,
}

/// The source format a file extension denotes, if any: `md`, `mdx` and
/// `markdown` are Markdown, `html` is HTML, and no other extension names a
/// source format.
pub open spec fn source_format_of(s: Seq<char>) -> Option<Format> {
    if s == "md"@ || s == "mdx"@ || s == "markdown"@ {
        Option::Some(Format::Markdown)
    } else if s == "html"@ {
        Option::Some(Format::Html)
    } else {
        Option::None
    }
}

/// The format a format name denotes, if any.
pub open spec fn format_of(s: Seq<char>) -> Option<Format> {
    if s == "md"@ {
        Option::Some(Format::Markdown)
    } else if s == "html"@ {
        Option::Some(Format::Html)
    } else if s == "pdf"@ {
        Option::Some(Format::Pdf)
    } else if s == "epub"@ {
        Option::Some(Format::Epub)
    } else if s == "debug"@ {
        Option::Some(Format::Debug)
    } else {
        Option::None
    }
}

impl Format {
    /// Whether only the byte form of this format is meaningful, as opposed
    /// to the text formats.
    pub fn is_binary(&self) -> (r: bool)
        ensures
            r == (self is Pdf || self is Epub),
    {
        match self {
            Format::Pdf => true,
            Format::Epub => true,
            _ => false,
        }
    }

    /// The format's file extension.
    pub fn as_str(&self) -> (r: &'static str)
        ensures
            format_of(r@) == Option::Some(*self),
    {
        proof {
            reveal_strlit("md");
            reveal_strlit("html");
            reveal_strlit("pdf");
            reveal_strlit("epub");
            reveal_strlit("debug");
            assert("md"@.len() == 2);
            assert("html"@.len() == 4);
            assert("pdf"@.len() == 3);
            assert("epub"@.len() == 4);
            assert("debug"@.len() == 5);
            assert("html"@[0] == 'h' && "epub"@[0] == 'e');
        }
        match self {
            Format::Markdown => {
                proof {
                    assert(format_of("md"@) == Option::Some(Format::Markdown));
                }
                "md"
            },
            Format::Html => {
                proof {
                    assert(format_of("html"@) == Option::Some(Format::Html));
                }
                "html"
            },
            Format::Pdf => {
                proof {
                    assert(format_of("pdf"@) == Option::Some(Format::Pdf));
                }
                "pdf"
            },
            Format::Epub => {
                proof {
                    assert(format_of("epub"@) == Option::Some(Format::Epub));
                }
                "epub"
            },
            Format::Debug => {
                proof {
                    assert(format_of("debug"@) == Option::Some(Format::Debug));
                }
                "debug"
            },
        }
    }

    /// The source format a file extension denotes; an unknown extension is
    /// no source format.
    pub fn of_ext(ext: &str) -> (r: Option<Format>)
        ensures
            r == source_format_of(ext@),
    {
        proof {
            reveal_strlit("md");
            reveal_strlit("mdx");
            reveal_strlit("markdown");
            reveal_strlit("html");
        }
        let owned = ext.to_owned();
        if owned == "md".to_owned() || owned == "mdx".to_owned() || owned == "markdown".to_owned()
        {
            Some(Format::Markdown)
        } else if owned == "html".to_owned() {
            Some(Format::Html)
        } else {
            None
        }
    }

    /// Parses a format name; an unknown name is an explicit error.
    pub fn from_str(s: &str) -> (r: Result<Format, Error>)
        ensures
            (match r {
                Ok(f) => format_of(s@) == Option::Some(f),
                Err(_) => format_of(s@) is None,
            }),
    {
        proof {
            reveal_strlit("md");
            reveal_strlit("html");
            reveal_strlit("pdf");
            reveal_strlit("epub");
            reveal_strlit("debug");
        }
        let owned = s.to_owned();
        if owned == "md".to_owned() {
            Ok(Format::Markdown)
        } else if owned == "html".to_owned() {
            Ok(Format::Html)
        } else if owned == "pdf".to_owned() {
            Ok(Format::Pdf)
        } else if owned == "epub".to_owned() {
            Ok(Format::Epub)
        } else if owned == "debug".to_owned() {
            Ok(Format::Debug)
        } else {
            proof {
                reveal_strlit("md");
                reveal_strlit("html");
                reveal_strlit("pdf");
                reveal_strlit("epub");
                reveal_strlit("debug");
            }
            Err(Error::new("invalid format"))
        }
    }
}

} // verus!
