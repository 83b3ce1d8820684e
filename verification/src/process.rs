//! From what was read of one file to its statistic or its failure, and from
//! the outcomes of all files to the statistics of a run.

use vstd::prelude::*;
use crate::diagnostic::{Diagnostic, DiagnosticView, LogLevel, diagnostic_views};
use crate::stat::{FileStat, FileStatView};
use crate::text::{decimal, push_decimal};
use crate::tokenizer::{Encoding, Tokenizer, token_count};

verus! {

/// Why a file has no statistic. Each failure names the file by its display
/// path.
#[derive(Clone, Debug, PartialEq, Eq)]
pub enum ProcessError {
    /// The file's metadata could not be read; `source` is what the system
    /// reported.
    Metadata { path: String, source: String },
    /// The file has more bytes than the limit allows.
    TooLarge { path: String, size: u64, limit: u64 },
    /// The file's content could not be read as UTF-8 text; `source` is what
    /// the system reported.
    Read { path: String, source: String },
    /// The file's content was read, but the encoder gave up on it.
    Encode { path: String },
}

/// The mathematical value of a [`ProcessError`].
pub enum ProcessErrorView {
    Metadata { path: Seq<char>, source: Seq<char> },
    TooLarge { path: Seq<char>, size: nat, limit: nat },
    Read { path: Seq<char>, source: Seq<char> },
    Encode { path: Seq<char> },
}

impl View for ProcessError {
    type V = ProcessErrorView;

    open spec fn view(&self) -> ProcessErrorView {
        match *self {
            ProcessError::Metadata { path, source } => ProcessErrorView::Metadata {
                path: path@,
                source: source@,
            },
            ProcessError::TooLarge { path, size, limit } => ProcessErrorView::TooLarge {
                path: path@,
                size: size as nat,
                limit: limit as nat,
            },
            ProcessError::Read { path, source } => ProcessErrorView::Read {
                path: path@,
                source: source@,
            },
            ProcessError::Encode { path } => ProcessErrorView::Encode { path: path@ },
        }
    }
}

/// The text shown for a failure.
pub open spec fn failure_text(failure: ProcessErrorView) -> Seq<char> {
    match failure {
        ProcessErrorView::Metadata { path, source } => "failed to read metadata for "@ + path,
        ProcessErrorView::TooLarge { path, size, limit } => "skipping "@ + path
            + ": file size "@ + decimal(size) + " exceeds max "@ + decimal(limit),
        ProcessErrorView::Read { path, source } => "skipping "@ + path + ": "@ + source,
        ProcessErrorView::Encode { path } => "skipping "@ + path
            + ": content could not be split into tokens"@,
    }
}

/// The level at which a failure is reported: a file over the limit is
/// passed over on purpose, every other failure is a warning.
pub open spec fn failure_level(failure: ProcessErrorView) -> LogLevel {
    match failure {
        ProcessErrorView::TooLarge { .. } => LogLevel::Info,
        _ => LogLevel::Warn,
    }
}

impl ProcessError {
    /// The text shown for this failure.
    pub fn message(&self) -> (text: String)
        ensures
            text@ == failure_text(self@),
    {
        let mut text = String::new();
        match self {
            ProcessError::Metadata { path, source } => {
                text.append("failed to read metadata for ");
                text.append(path.as_str());
                assert(text@ =~= failure_text(self@));
            },
            ProcessError::TooLarge { path, size, limit } => {
                text.append("skipping ");
                text.append(path.as_str());
                text.append(": file size ");
                push_decimal(&mut text, *size);
                text.append(" exceeds max ");
                push_decimal(&mut text, *limit);
                assert(text@ =~= failure_text(self@));
            },
            ProcessError::Read { path, source } => {
                text.append("skipping ");
                text.append(path.as_str());
                text.append(": ");
                text.append(source.as_str());
                assert(text@ =~= failure_text(self@));
            },
            ProcessError::Encode { path } => {
                text.append("skipping ");
                text.append(path.as_str());
                text.append(": content could not be split into tokens");
                assert(text@ =~= failure_text(self@));
            },
        }
        text
    }

    /// The level at which this failure is reported.
    pub fn level(&self) -> (level: LogLevel)
        ensures
            level == failure_level(self@),
    {
        match self {
            ProcessError::TooLarge { .. } => LogLevel::Info,
            _ => LogLevel::Warn,
        }
    }
}

/// The value of what was read of a file's size.
pub open spec fn size_view(metadata: Result<u64, String>) -> Result<nat, Seq<char>> {
    match metadata {
        Ok(size) => Ok(size as nat),
        Err(source) => Err(source@),
    }
}

/// The value of a byte limit.
pub open spec fn limit_view(max_bytes: Option<u64>) -> Option<nat> {
    match max_bytes {
        Some(limit) => Some(limit as nat),
        None => None,
    }
}

/// The value of the outcome of one file.
pub open spec fn outcome_view(outcome: Result<FileStat, ProcessError>) -> Result<
    FileStatView,
    ProcessErrorView,
> {
    match outcome {
        Ok(stat) => Ok(stat@),
        Err(failure) => Err(failure@),
    }
}

/// The values of a sequence of outcomes, in order.
pub open spec fn outcome_views(outcomes: Seq<Result<FileStat, ProcessError>>) -> Seq<
    Result<FileStatView, ProcessErrorView>,
> {
    outcomes.map_values(|outcome: Result<FileStat, ProcessError>| outcome_view(outcome))
}

/// Why a file is not read, if it is not: its metadata could not be had, or
/// there is a limit and the file has more bytes than that.
pub open spec fn refusal(
    path: Seq<char>,
    metadata: Result<nat, Seq<char>>,
    max_bytes: Option<nat>,
) -> Option<ProcessErrorView> {
    match metadata {
        Err(source) => Some(ProcessErrorView::Metadata { path, source }),
        Ok(size) => match max_bytes {
            Some(limit) => if size > limit {
                Some(ProcessErrorView::TooLarge { path, size, limit })
            } else {
                None
            },
            None => None,
        },
    }
}

/// The outcome of a file, where `counted` is the number of tokens of its
/// content, or nothing where the encoder gave up on it, or what reading the
/// content failed with: a file that is not read fails with the reason for
/// that, a file whose content could not be read or encoded fails with
/// that, and any other file has its statistic.
pub open spec fn file_outcome(
    path: Seq<char>,
    metadata: Result<nat, Seq<char>>,
    counted: Result<Option<nat>, Seq<char>>,
    max_bytes: Option<nat>,
) -> Result<FileStatView, ProcessErrorView> {
    match refusal(path, metadata, max_bytes) {
        Some(failure) => Err(failure),
        None => match counted {
            Ok(Some(tokens)) => Ok(FileStatView { path, tokens }),
            Ok(None) => Err(ProcessErrorView::Encode { path }),
            Err(source) => Err(ProcessErrorView::Read { path, source }),
        },
    }
}

/// What `encoding` counts in the content that was read, or what reading
/// failed with.
pub open spec fn counted_with(encoding: Encoding, contents: Result<String, String>) -> Result<
    Option<nat>,
    Seq<char>,
> {
    match contents {
        Ok(text) => Ok(token_count(encoding, text@)),
        Err(source) => Err(source@),
    }
}

/// The value of what was counted of a file's content.
pub open spec fn counted_view(counted: Result<Option<u64>, String>) -> Result<
    Option<nat>,
    Seq<char>,
> {
    match counted {
        Ok(Some(tokens)) => Ok(Some(tokens as nat)),
        Ok(None) => Ok(None),
        Err(source) => Err(source@),
    }
}

/// The outcome of the file with the display path `path`, of which
/// `metadata` and `contents` were read, under the limit `max_bytes` and
/// with the encoding `encoding`.
pub open spec fn processed(
    encoding: Encoding,
    path: Seq<char>,
    metadata: Result<u64, String>,
    contents: Result<String, String>,
    max_bytes: Option<u64>,
) -> Result<FileStatView, ProcessErrorView> {
    file_outcome(
        path,
        size_view(metadata),
        counted_with(encoding, contents),
        limit_view(max_bytes),
    )
}

/// Decides, before its content is read, whether a file is read at all.
/// `metadata` is the file's size in bytes, or what reading its metadata
/// failed with.
pub fn admit_file(path: &str, metadata: &Result<u64, String>, max_bytes: Option<u64>) -> (admitted:
    Result<(), ProcessError>)
    ensures
        admitted is Ok <==> refusal(path@, size_view(*metadata), limit_view(max_bytes)) is None,
        admitted matches Err(failure) ==> refusal(
            path@,
            size_view(*metadata),
            limit_view(max_bytes),
        ) == Some(failure@),
{
    match metadata {
        Err(source) => Err(
            ProcessError::Metadata { path: String::from_str(path), source: source.clone() },
        ),
        Ok(size) => {
            if let Some(limit) = max_bytes {
                if *size > limit {
                    return Err(
                        ProcessError::TooLarge { path: String::from_str(path), size: *size, limit },
                    );
                }
            }
            Ok(())
        },
    }
}

/// The outcome of a file, given the number of tokens of its content, or
/// nothing where the encoder gave up on it, or what reading the content
/// failed with.
pub fn classify_file(
    path: &str,
    metadata: &Result<u64, String>,
    counted: Result<Option<u64>, String>,
    max_bytes: Option<u64>,
) -> (outcome: Result<FileStat, ProcessError>)
    ensures
        outcome_view(outcome) == file_outcome(
            path@,
            size_view(*metadata),
            counted_view(counted),
            limit_view(max_bytes),
        ),
{
    match admit_file(path, metadata, max_bytes) {
        Err(failure) => Err(failure),
        Ok(_) => match counted {
            Ok(Some(tokens)) => Ok(FileStat { path: String::from_str(path), tokens }),
            Ok(None) => Err(ProcessError::Encode { path: String::from_str(path) }),
            Err(source) => Err(ProcessError::Read { path: String::from_str(path), source }),
        },
    }
}

/// The outcome of one file: the whole of its content is encoded in one
/// call, and only where the file is read at all and its content was read.
pub fn process_file(
    path: &str,
    metadata: &Result<u64, String>,
    contents: &Result<String, String>,
    max_bytes: Option<u64>,
    encoding: &Tokenizer,
) -> (outcome: Result<FileStat, ProcessError>)
    ensures
        outcome_view(outcome) == processed(
            encoding.encoding_spec(),
            path@,
            *metadata,
            *contents,
            max_bytes,
        ),
{
    match admit_file(path, metadata, max_bytes) {
        Err(failure) => Err(failure),
        Ok(_) => {
            let counted: Result<Option<u64>, String> = match contents {
                Ok(text) => Ok(encoding.count(text.as_str())),
                Err(source) => Err(source.clone()),
            };
            classify_file(path, metadata, counted, max_bytes)
        },
    }
}

/// The statistics among `outcomes`, in order.
pub open spec fn kept_stats(outcomes: Seq<Result<FileStatView, ProcessErrorView>>) -> Seq<
    FileStatView,
>
    decreases outcomes.len(),
{
    if outcomes.len() == 0 {
        Seq::empty()
    } else {
        let front = kept_stats(outcomes.drop_last());
        match outcomes.last() {
            Ok(stat) => front.push(stat),
            Err(_) => front,
        }
    }
}

/// The report on a failure.
pub open spec fn failure_report(failure: ProcessErrorView) -> DiagnosticView {
    DiagnosticView { level: failure_level(failure), message: failure_text(failure) }
}

/// The reports on the failures among `outcomes`, in order; none in quiet
/// mode.
pub open spec fn failure_reports(
    outcomes: Seq<Result<FileStatView, ProcessErrorView>>,
    quiet: bool,
) -> Seq<DiagnosticView>
    decreases outcomes.len(),
{
    if outcomes.len() == 0 {
        Seq::empty()
    } else {
        let front = failure_reports(outcomes.drop_last(), quiet);
        match outcomes.last() {
            Err(failure) => if quiet {
                front
            } else {
                front.push(failure_report(failure))
            },
            Ok(_) => front,
        }
    }
}

/// Gathers the outcomes of the files of a run: the statistics are kept, in
/// the order of the outcomes, and every failure is dropped and, unless
/// `quiet` is set, reported. No failure ends the run.
pub fn count_tokens(outcomes: &Vec<Result<FileStat, ProcessError>>, quiet: bool) -> (gathered: (
    Vec<FileStat>,
    Vec<Diagnostic>,
))
    ensures
        crate::stat::stat_views(gathered.0@) == kept_stats(outcome_views(outcomes@)),
        diagnostic_views(gathered.1@) == failure_reports(outcome_views(outcomes@), quiet),
{
    let ghost given = outcome_views(outcomes@);
    let mut stats: Vec<FileStat> = Vec::new();
    let mut reports: Vec<Diagnostic> = Vec::new();
    let mut i: usize = 0;
    proof {
        assert(given.take(0) =~= Seq::<Result<FileStatView, ProcessErrorView>>::empty());
        assert(crate::stat::stat_views(stats@) =~= Seq::<FileStatView>::empty());
        assert(diagnostic_views(reports@) =~= Seq::<DiagnosticView>::empty());
    }
    while i < outcomes.len()
        invariant
            i <= outcomes.len(),
            given == outcome_views(outcomes@),
            crate::stat::stat_views(stats@) == kept_stats(given.take(i as int)),
            diagnostic_views(reports@) == failure_reports(given.take(i as int), quiet),
        decreases outcomes.len() - i,
    {
        proof {
            assert(given.take(i as int + 1).drop_last() =~= given.take(i as int));
            assert(given.take(i as int + 1).last() == outcome_view(outcomes[i as int]));
        }
        let ghost stats_before = crate::stat::stat_views(stats@);
        let ghost reports_before = diagnostic_views(reports@);
        match &outcomes[i] {
            Ok(stat) => {
                stats.push(stat.copied());
                assert(crate::stat::stat_views(stats@) =~= stats_before.push(stat@));
            },
            Err(failure) => {
                if !quiet {
                    reports.push(Diagnostic { level: failure.level(), message: failure.message() });
                    assert(diagnostic_views(reports@) =~= reports_before.push(
                        failure_report(failure@),
                    ));
                }
            },
        }
        i = i + 1;
    }
    assert(given.take(i as int) =~= given);
    (stats, reports)
}

/// Counting is repeatable: two outcomes of the same file, with the same
/// content, limit and encoding, are equal, and so are their token counts.
pub proof fn lemma_counting_is_repeatable(
    encoding: Encoding,
    path: Seq<char>,
    metadata: Result<u64, String>,
    contents: Result<String, String>,
    max_bytes: Option<u64>,
    first: Result<FileStat, ProcessError>,
    second: Result<FileStat, ProcessError>,
)
    requires
        outcome_view(first) == processed(encoding, path, metadata, contents, max_bytes),
        outcome_view(second) == processed(encoding, path, metadata, contents, max_bytes),
    ensures
        outcome_view(first) == outcome_view(second),
        first matches Ok(one) ==> second matches Ok(other) && one.tokens == other.tokens,
{
}

/// A file with more bytes than the limit fails as too large, whatever its
/// content, and an outcome that is a failure adds nothing to the statistics
/// that are kept, wherever among the outcomes it stands.
pub proof fn lemma_oversized_file_is_left_out(
    encoding: Encoding,
    path: Seq<char>,
    size: u64,
    limit: u64,
    contents: Result<String, String>,
    outcomes: Seq<Result<FileStatView, ProcessErrorView>>,
    at: int,
)
    requires
        size > limit,
        0 <= at <= outcomes.len(),
    ensures
        processed(encoding, path, Ok(size), contents, Some(limit)) == Err::<
            FileStatView,
            ProcessErrorView,
        >(ProcessErrorView::TooLarge { path, size: size as nat, limit: limit as nat }),
        kept_stats(
            outcomes.insert(at, processed(encoding, path, Ok(size), contents, Some(limit))),
        ) == kept_stats(outcomes),
{
    let failure = processed(encoding, path, Ok(size), contents, Some(limit));
    lemma_failure_adds_nothing(outcomes, at, failure);
}

/// Putting a failure among the outcomes leaves the kept statistics as they
/// are.
pub proof fn lemma_failure_adds_nothing(
    outcomes: Seq<Result<FileStatView, ProcessErrorView>>,
    at: int,
    failure: Result<FileStatView, ProcessErrorView>,
)
    requires
        0 <= at <= outcomes.len(),
        failure is Err,
    ensures
        kept_stats(outcomes.insert(at, failure)) == kept_stats(outcomes),
    decreases outcomes.len(),
{
    let longer = outcomes.insert(at, failure);
    if at == outcomes.len() {
        assert(longer.drop_last() =~= outcomes);
    } else {
        assert(longer.drop_last() =~= outcomes.drop_last().insert(at, failure));
        assert(longer.last() == outcomes.last());
        lemma_failure_adds_nothing(outcomes.drop_last(), at, failure);
    }
}

} // verus!
