//! Token statistics for source trees.
//!
//! The crate decides which files of a walk are counted, counts their tokens
//! with a byte-pair encoding, and turns the counts into ordered rows and a
//! summary. Reading directories and files is left to the caller, who hands
//! in what was read as plain values.
//!
//! - [`options`]: the options of a run.
//! - [`filter`], [`extensions`], [`walk`]: which entries of a walk are files
//!   to count.
//! - [`paths`]: the path under which a file is shown.
//! - [`tokenizer`], [`process`]: from a file's content to its statistic or
//!   its failure, and from all outcomes to the statistics of the run.
//! - [`order`], [`summary`], [`report`]: the rows shown, the summary, and
//!   the forms of the output.
//! - [`stat`], [`text`], [`diagnostic`]: the values that the others share.

pub mod diagnostic;
pub mod extensions;
pub mod filter;
pub mod options;
pub mod order;
pub mod paths;
pub mod process;
pub mod report;
pub mod stat;
pub mod summary;
pub mod text;
pub mod tokenizer;
pub mod walk;
