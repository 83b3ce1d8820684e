//! The options of a run.

use vstd::prelude::*;
use crate::diagnostic::{LogLevel, log_level, shown_level};
use crate::extensions::{ExtensionSet, configured_extensions, include_extensions};
use crate::text::texts;
use crate::order::SortBy;
use crate::tokenizer::Encoding;

verus! {

/// The form in which the result is put out.
#[derive(Clone, Copy, Debug, PartialEq, Eq)]
pub enum OutputFormat {
    /// Aligned lines of text.
    Table,
    /// One JSON array.
    Json,
    /// One JSON object on each line.
    Ndjson,
}

/// The options of a run, as plain values.
#[derive(Clone, Debug)]
pub struct Args {
    /// The paths to scan.
    pub paths: Vec<String>,
    /// The file extensions to count, as they were given.
    pub include_ext: Vec<String>,
    /// The glob patterns to exclude, besides the default ones.
    pub exclude: Vec<String>,
    /// Whether the ignore files of version control are left out of account.
    pub no_respect_gitignore: bool,
    /// Whether the walk follows symbolic links.
    pub follow_symlinks: bool,
    /// The size in bytes above which a file is passed over.
    pub max_bytes: Option<u64>,
    /// The encoding that counts the tokens.
    pub encoding: Encoding,
    /// The form of the output.
    pub format: OutputFormat,
    /// How many of the largest files are shown, where that is limited.
    pub top: Option<usize>,
    /// Whether reports are suppressed.
    pub quiet: bool,
    /// How many steps more than the warnings are reported.
    pub verbosity: u8,
    /// The order of the rows shown.
    pub sort: SortBy,
    /// The number of worker threads, where that is limited.
    pub threads: Option<usize>,
    /// Whether a summary line was asked for in the line-wise JSON form.
    pub with_summary_flag: bool,
    /// Whether the summary line was declined in the line-wise JSON form.
    pub no_summary_flag: bool,
}

/// The paths that a run scans: the given ones, and the current directory
/// where none is given.
pub open spec fn roots_of(paths: Seq<Seq<char>>) -> Seq<Seq<char>> {
    if paths.len() == 0 {
        seq!["."@]
    } else {
        paths
    }
}

impl Args {
    /// The options of a run without any argument.
    pub fn new() -> (args: Args)
        ensures
            args.paths@.len() == 0,
            args.include_ext@.len() == 0,
            args.exclude@.len() == 0,
            !args.no_respect_gitignore,
            !args.follow_symlinks,
            args.max_bytes is None,
            args.encoding == Encoding::Cl100kBase,
            args.format == OutputFormat::Table,
            args.top is None,
            !args.quiet,
            args.verbosity == 0,
            args.sort == SortBy::Path,
            args.threads is None,
            !args.with_summary_flag,
            !args.no_summary_flag,
    {
        Args {
            paths: Vec::new(),
            include_ext: Vec::new(),
            exclude: Vec::new(),
            no_respect_gitignore: false,
            follow_symlinks: false,
            max_bytes: None,
            encoding: Encoding::Cl100kBase,
            format: OutputFormat::Table,
            top: None,
            quiet: false,
            verbosity: 0,
            sort: SortBy::Path,
            threads: None,
            with_summary_flag: false,
            no_summary_flag: false,
        }
    }

    /// The extensions to count: `elm` where none is given, else the given
    /// ones without their leading dot and in lower case.
    pub fn include_extensions(&self) -> (set: ExtensionSet)
        ensures
            set@ == configured_extensions(texts(self.include_ext@)),
    {
        include_extensions(&self.include_ext)
    }

    /// Whether the walk heeds the ignore files of version control.
    pub fn respect_gitignore(&self) -> (heeded: bool)
        ensures
            heeded == !self.no_respect_gitignore,
    {
        !self.no_respect_gitignore
    }

    /// Whether the line-wise JSON form ends with a summary line: it does
    /// unless that was declined, and declining wins over asking.
    pub fn with_summary(&self) -> (shown: bool)
        ensures
            shown == !self.no_summary_flag,
    {
        if self.no_summary_flag {
            return false;
        }
        if self.with_summary_flag {
            return true;
        }
        true
    }

    /// The level up to which reports are shown.
    pub fn log_level(&self) -> (level: LogLevel)
        ensures
            level == shown_level(self.quiet, self.verbosity as nat),
    {
        log_level(self.quiet, self.verbosity)
    }

    /// The paths to scan: the current directory where none is given.
    pub fn roots(&self) -> (roots: Vec<String>)
        ensures
            texts(roots@) == roots_of(texts(self.paths@)),
    {
        if self.paths.len() == 0 {
            let mut roots: Vec<String> = Vec::new();
            roots.push(String::from_str("."));
            assert(texts(roots@) =~= seq!["."@]);
            roots
        } else {
            self.paths.clone()
        }
    }
}

} // verus!
