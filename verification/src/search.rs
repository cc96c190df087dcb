//! The search-index trigger: a narrow contract around the external
//! indexing executable. The process itself runs outside the library; the
//! decisions — when the indexer may run, and what each outcome means —
//! live here, and an indexing failure never takes the build down with it.

use vstd::prelude::*;
use crate::chars::push_str_chars;
use crate::chars::string_from_chars;
use crate::render::OutputFile;

verus! {

/// Why search indexing could not run or did not finish.
#[derive(Debug)]
pub enum PagefindError {
    Config { message: String },
    MultipleConfigs { files: Vec<String> },
    InvalidConfigFormat { path: String },
    SourcePathNotFound { path: String },
    IndexingFailed { message: String },
    Io { message: String },
}

/// The one-line description of an indexing failure.
pub open spec fn spec_pagefind_message(e: PagefindError) -> Seq<char> {
    match e {
        PagefindError::Config { message } => "Configuration error: "@ + message@,
        PagefindError::MultipleConfigs { files } => "Multiple config files found"@,
        PagefindError::InvalidConfigFormat { path } => "Invalid config file format: "@ + path@,
        PagefindError::SourcePathNotFound { path } => "Source path does not exist: "@ + path@,
        PagefindError::IndexingFailed { message } => "Indexing failed: "@ + message@,
        PagefindError::Io { message } => "I/O error: "@ + message@,
    }
}

impl PagefindError {
    /// The diagnostic line a caller prints.
    pub fn message(&self) -> (r: String)
        ensures
            r@ == spec_pagefind_message(*self),
    {
        let mut out: Vec<char> = Vec::new();
        match self {
            PagefindError::Config { message } => {
                push_str_chars(&mut out, "Configuration error: ");
                push_str_chars(&mut out, message.as_str());
            },
            PagefindError::MultipleConfigs { files } => {
                push_str_chars(&mut out, "Multiple config files found");
            },
            PagefindError::InvalidConfigFormat { path } => {
                push_str_chars(&mut out, "Invalid config file format: ");
                push_str_chars(&mut out, path.as_str());
            },
            PagefindError::SourcePathNotFound { path } => {
                push_str_chars(&mut out, "Source path does not exist: ");
                push_str_chars(&mut out, path.as_str());
            },
            PagefindError::IndexingFailed { message } => {
                push_str_chars(&mut out, "Indexing failed: ");
                push_str_chars(&mut out, message.as_str());
            },
            PagefindError::Io { message } => {
                push_str_chars(&mut out, "I/O error: ");
                push_str_chars(&mut out, message.as_str());
            },
        }
        proof {
            assert(out@ =~= spec_pagefind_message(*self));
        }
        string_from_chars(&out)
    }
}

/// Drives one indexing run over a generated site.
#[derive(Debug)]
pub struct PagefindBuilder {
    pub source_path: String,
}

impl PagefindBuilder {
    /// Accept the site directory to index. The caller reports whether the
    /// directory exists; a missing directory is rejected up front.
    pub fn new(source_path: String, path_exists: bool) -> (r: Result<PagefindBuilder,
        PagefindError,
    >)
        ensures
            r is Ok <==> path_exists,
            r matches Ok(b) ==> b.source_path@ == source_path@,
            r matches Err(e) ==> e matches PagefindError::SourcePathNotFound { path: p } && p@
                == source_path@,
    {
        if path_exists {
            Ok(PagefindBuilder { source_path })
        } else {
            Err(PagefindError::SourcePathNotFound { path: source_path })
        }
    }

    /// The configured site directory.
    pub fn source_path(&self) -> (r: Option<&String>)
        ensures
            r == Some(&self.source_path),
    {
        Some(&self.source_path)
    }

    /// Judge one run of the indexing subprocess: a launch failure and a
    /// non-zero exit are both indexing failures carrying the captured
    /// detail; a clean exit is success.
    pub fn index_outcome(&self, launched: bool, detail: &str) -> (r: Result<(), PagefindError>)
        ensures
            r is Ok <==> launched && detail@.len() == 0,
            !launched ==> (r matches Err(e) && spec_pagefind_message(e) == "Indexing failed: "@
                + "Failed to run pagefind command: "@ + detail@),
            launched && detail@.len() > 0 ==> (r matches Err(e) && spec_pagefind_message(e)
                == "Indexing failed: "@ + "Pagefind command failed: "@ + detail@),
    {
        if !launched {
            let mut m: Vec<char> = Vec::new();
            push_str_chars(&mut m, "Failed to run pagefind command: ");
            push_str_chars(&mut m, detail);
            let message = string_from_chars(&m);
            proof {
                assert(message@ =~= "Failed to run pagefind command: "@ + detail@);
            }
            Err(PagefindError::IndexingFailed { message })
        } else if detail.unicode_len() > 0 {
            let mut m: Vec<char> = Vec::new();
            push_str_chars(&mut m, "Pagefind command failed: ");
            push_str_chars(&mut m, detail);
            let message = string_from_chars(&m);
            proof {
                assert(message@ =~= "Pagefind command failed: "@ + detail@);
            }
            Err(PagefindError::IndexingFailed { message })
        } else {
            Ok(())
        }
    }
}

/// Fold the indexing outcome into a finished build: the generated files
/// stand whatever the indexer did; a failure only yields a line to log.
pub fn finish_with_index_outcome(files: Vec<OutputFile>, index_result: Result<
    (),
    PagefindError,
>) -> (r: (Vec<OutputFile>, Option<String>))
    ensures
        r.0 == files,
        r.1 is Some <==> index_result is Err,
        index_result matches Err(e) ==> r.1 matches Some(m) && m@ == spec_pagefind_message(e),
{
    match index_result {
        Ok(()) => (files, None),
        Err(e) => {
            let m = e.message();
            (files, Some(m))
        },
    }
}

} // verus!
