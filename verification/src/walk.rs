//! Which entries of a directory walk are walked into, and which are counted.

use vstd::prelude::*;
use crate::diagnostic::{Diagnostic, DiagnosticView, LogLevel, diagnostic_views};
use crate::extensions::{ExtensionSet, extension_allowed, file_extension, path_extension};
use crate::text::texts;
use crate::filter::PathFilter;

verus! {

/// One entry that a walk came upon.
#[derive(Clone, Debug, PartialEq, Eq)]
pub struct WalkEntry {
    /// The path of the entry, as the walk gives it.
    pub path: String,
    /// How far below the root of the walk the entry lies; the root is at 0.
    pub depth: usize,
    /// Whether the entry is a directory.
    pub is_dir: bool,
    /// Whether the entry is a file.
    pub is_file: bool,
}

/// The mathematical value of a [`WalkEntry`].
pub struct WalkEntryView {
    pub path: Seq<char>,
    pub depth: nat,
    pub is_dir: bool,
    pub is_file: bool,
}

impl View for WalkEntry {
    type V = WalkEntryView;

    open spec fn view(&self) -> WalkEntryView {
        WalkEntryView {
            path: self.path@,
            depth: self.depth as nat,
            is_dir: self.is_dir,
            is_file: self.is_file,
        }
    }
}

/// What a walk hands over at one step: an entry, or the text of an error
/// that cost it a part of the tree.
#[derive(Clone, Debug, PartialEq, Eq)]
pub enum WalkEvent {
    Entry(WalkEntry),
    Error(String),
}

/// The mathematical value of a [`WalkEvent`].
pub enum WalkEventView {
    Entry(WalkEntryView),
    Error(Seq<char>),
}

impl View for WalkEvent {
    type V = WalkEventView;

    open spec fn view(&self) -> WalkEventView {
        match *self {
            WalkEvent::Entry(entry) => WalkEventView::Entry(entry@),
            WalkEvent::Error(text) => WalkEventView::Error(text@),
        }
    }
}

/// The values of a sequence of events, in order.
pub open spec fn event_views(events: Seq<WalkEvent>) -> Seq<WalkEventView> {
    events.map_values(|event: WalkEvent| event@)
}

/// Whether a walk goes on with an entry: always with its root, and below
/// the root with everything but an excluded directory, which is neither
/// reported nor walked into.
pub open spec fn entry_is_kept(depth: nat, excluded: bool, is_dir: bool) -> bool {
    depth == 0 || !(excluded && is_dir)
}

/// Whether an entry is a file to count: it is not excluded, it is a file,
/// and its extension is allowed.
pub open spec fn file_is_counted(
    excluded: bool,
    is_file: bool,
    extension: Option<Seq<char>>,
    allowed: Set<Seq<char>>,
) -> bool {
    !excluded && is_file && extension_allowed(extension, allowed)
}

/// Whether `entry` is a file to count under the filter and the allowed
/// extensions.
pub open spec fn is_candidate_entry(
    entry: WalkEntryView,
    excludes: PathFilter,
    allowed: Set<Seq<char>>,
) -> bool {
    file_is_counted(
        excludes.excludes(entry.path),
        entry.is_file,
        path_extension(entry.path),
        allowed,
    )
}

/// The paths of the files to count among `events`, in the order of the
/// events.
pub open spec fn found_files(
    events: Seq<WalkEventView>,
    excludes: PathFilter,
    allowed: Set<Seq<char>>,
) -> Seq<Seq<char>>
    decreases events.len(),
{
    if events.len() == 0 {
        Seq::empty()
    } else {
        let front = found_files(events.drop_last(), excludes, allowed);
        match events.last() {
            WalkEventView::Entry(entry) => if is_candidate_entry(entry, excludes, allowed) {
                front.push(entry.path)
            } else {
                front
            },
            WalkEventView::Error(_) => front,
        }
    }
}

/// The warning for an error of the walk.
pub open spec fn walk_warning(text: Seq<char>) -> DiagnosticView {
    DiagnosticView { level: LogLevel::Warn, message: "walk error: "@ + text }
}

/// The reports on `events`: a warning for each error of the walk, in order,
/// and none in quiet mode.
pub open spec fn walk_reports(events: Seq<WalkEventView>, quiet: bool) -> Seq<DiagnosticView>
    decreases events.len(),
{
    if events.len() == 0 {
        Seq::empty()
    } else {
        let front = walk_reports(events.drop_last(), quiet);
        match events.last() {
            WalkEventView::Error(text) => if quiet {
                front
            } else {
                front.push(walk_warning(text))
            },
            WalkEventView::Entry(_) => front,
        }
    }
}

/// Whether a walk goes on with an entry at `depth` that is a directory or
/// not and that the filter matches or not.
pub fn keeps(depth: usize, excluded: bool, is_dir: bool) -> (kept: bool)
    ensures
        kept == entry_is_kept(depth as nat, excluded, is_dir),
{
    depth == 0 || !(excluded && is_dir)
}

/// Whether a walk goes on with the entry at `path`: the root is never
/// excluded, and below it only directories that the filter matches are.
pub fn keep_entry(excludes: &PathFilter, depth: usize, path: &str, is_dir: bool) -> (kept: bool)
    ensures
        kept == entry_is_kept(depth as nat, excludes.excludes(path@), is_dir),
{
    if depth == 0 {
        return true;
    }
    keeps(depth, excludes.matches(path), is_dir)
}

/// Whether an entry is a file to count, given whether the filter matches
/// it, whether it is a file, and the extension of its path.
pub fn counts_file(
    excluded: bool,
    is_file: bool,
    extension: Option<&str>,
    include_exts: &ExtensionSet,
) -> (counted: bool)
    ensures
        counted == file_is_counted(
            excluded,
            is_file,
            match extension {
                Some(text) => Some(text@),
                None => None,
            },
            include_exts@,
        ),
{
    if excluded {
        return false;
    }
    if !is_file {
        return false;
    }
    include_exts.allows(extension)
}

/// Whether `entry` is a file to count.
pub fn is_candidate(entry: &WalkEntry, excludes: &PathFilter, include_exts: &ExtensionSet) -> (counted:
    bool)
    ensures
        counted == is_candidate_entry(entry@, *excludes, include_exts@),
{
    let excluded = excludes.matches(entry.path.as_str());
    match file_extension(entry.path.as_str()) {
        Some(extension) => counts_file(
            excluded,
            entry.is_file,
            Some(extension.as_str()),
            include_exts,
        ),
        None => counts_file(excluded, entry.is_file, None, include_exts),
    }
}

/// Goes through what a walk handed over. The paths of the files to count
/// are put behind those that `files` holds already; each error of the walk
/// becomes a warning, unless `quiet` is set, and the walk's other entries
/// are passed over in silence.
pub fn collect_files(
    events: &Vec<WalkEvent>,
    quiet: bool,
    excludes: &PathFilter,
    include_exts: &ExtensionSet,
    files: &mut Vec<String>,
) -> (reports: Vec<Diagnostic>)
    ensures
        texts(final(files)@) == texts(old(files)@) + found_files(
            event_views(events@),
            *excludes,
            include_exts@,
        ),
        diagnostic_views(reports@) == walk_reports(event_views(events@), quiet),
{
    let ghost given = event_views(events@);
    let ghost held = texts(files@);
    let mut reports: Vec<Diagnostic> = Vec::new();
    let mut i: usize = 0;
    proof {
        assert(given.take(0) =~= Seq::<WalkEventView>::empty());
        assert(texts(files@) =~= held + Seq::<Seq<char>>::empty());
        assert(diagnostic_views(reports@) =~= Seq::<DiagnosticView>::empty());
    }
    while i < events.len()
        invariant
            i <= events.len(),
            given == event_views(events@),
            texts(files@) == held + found_files(given.take(i as int), *excludes, include_exts@),
            diagnostic_views(reports@) == walk_reports(given.take(i as int), quiet),
        decreases events.len() - i,
    {
        proof {
            assert(given.take(i as int + 1).drop_last() =~= given.take(i as int));
            assert(given.take(i as int + 1).last() == events[i as int]@);
        }
        let ghost files_before = texts(files@);
        let ghost reports_before = diagnostic_views(reports@);
        match &events[i] {
            WalkEvent::Entry(entry) => {
                if is_candidate(entry, excludes, include_exts) {
                    files.push(entry.path.clone());
                    assert(texts(files@) =~= files_before.push(entry.path@));
                    assert(files_before.push(entry.path@) =~= held + found_files(
                        given.take(i as int),
                        *excludes,
                        include_exts@,
                    ).push(entry.path@));
                }
            },
            WalkEvent::Error(text) => {
                if !quiet {
                    let mut message = String::from_str("walk error: ");
                    message.append(text.as_str());
                    reports.push(Diagnostic { level: LogLevel::Warn, message });
                    assert(diagnostic_views(reports@) =~= reports_before.push(
                        walk_warning(text@),
                    ));
                }
            },
        }
        i = i + 1;
    }
    assert(given.take(i as int) =~= given);
    reports
}

} // verus!
