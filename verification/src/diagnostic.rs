//! What a run reports besides its result.

use vstd::prelude::*;

verus! {

/// How much of what a run reports is shown, and how grave a report is.
#[derive(Clone, Copy, Debug, PartialEq, Eq)]
pub enum LogLevel {
    /// Nothing is shown.
    Off,
    /// Failures that cost a file or a part of the walk.
    Warn,
    /// Files that were passed over on purpose.
    Info,
    /// Everything.
    Debug,
}

/// One report of a run: its level and its text.
#[derive(Clone, Debug, PartialEq, Eq)]
pub struct Diagnostic {
    pub level: LogLevel,
    pub message: String,
}

/// The mathematical value of a [`Diagnostic`].
pub struct DiagnosticView {
    pub level: LogLevel,
    pub message: Seq<char>,
}

impl View for Diagnostic {
    type V = DiagnosticView;

    open spec fn view(&self) -> DiagnosticView {
        DiagnosticView { level: self.level, message: self.message@ }
    }
}

/// The values of a sequence of reports, in order.
pub open spec fn diagnostic_views(reports: Seq<Diagnostic>) -> Seq<DiagnosticView> {
    reports.map_values(|report: Diagnostic| report@)
}

/// The level up to which reports are shown: none in quiet mode, else
/// warnings, and with each step of verbosity one level more.
pub open spec fn shown_level(quiet: bool, verbosity: nat) -> LogLevel {
    if quiet {
        LogLevel::Off
    } else if verbosity == 0 {
        LogLevel::Warn
    } else if verbosity == 1 {
        LogLevel::Info
    } else {
        LogLevel::Debug
    }
}

/// The level up to which reports are shown.
pub fn log_level(quiet: bool, verbosity: u8) -> (level: LogLevel)
    ensures
        level == shown_level(quiet, verbosity as nat),
{
    if quiet {
        LogLevel::Off
    } else if verbosity == 0 {
        LogLevel::Warn
    } else if verbosity == 1 {
        LogLevel::Info
    } else {
        LogLevel::Debug
    }
}

} // verus!
