use crate::diagnostic::{Diagnostic, DiagnosticId, DiagnosticLevel, DiagnosticNote};
use crate::diagnostic_consumer::DiagnosticConsumer;
use crate::source_file::SourceFile;
use crate::source_location::SourceLocation;
use crate::source_range::SourceRange;
use vstd::prelude::*;

verus! {

/// A location apart from its borrow: file (by value), byte index, line and column.
pub struct LocationView {
    pub file: Option<SourceFile>,
    pub index: usize,
    pub line: u32,
    pub column: u32,
}

/// A range apart from its borrow.
pub struct RangeView {
    pub begin: LocationView,
    pub end: LocationView,
}

pub open spec fn location_view(location: SourceLocation) -> LocationView {
    LocationView {
        file: match location.source_file {
            Some(f) => Some(*f),
            None => None,
        },
        index: location.index,
        line: location.line,
        column: location.column,
    }
}

pub open spec fn range_view(range: SourceRange) -> RangeView {
    RangeView { begin: location_view(range.begin), end: location_view(range.end) }
}

/// What a diagnostic says: its problem, severity, range, message and notes.
pub struct Report {
    pub id: DiagnosticId,
    pub level: DiagnosticLevel,
    pub range: RangeView,
    pub message: Seq<char>,
    pub notes: Seq<(RangeView, Seq<char>)>,
}

/// The notes of a diagnostic: range and message of each, in order.
pub open spec fn notes_view(notes: Seq<DiagnosticNote>) -> Seq<(RangeView, Seq<char>)> {
    notes.map_values(|n: DiagnosticNote| (range_view(n.source_range), n.message@))
}

/// What `diagnostic` says.
pub open spec fn report_of(diagnostic: Diagnostic) -> Report {
    Report {
        id: diagnostic.id,
        level: diagnostic.level,
        range: range_view(diagnostic.source_range),
        message: diagnostic.message@,
        notes: notes_view(diagnostic.notes@),
    }
}

/// What a new diagnostic without notes says, with the severity of its problem.
pub open spec fn plain_report(id: DiagnosticId, range: SourceRange, message: Seq<char>) -> Report {
    Report {
        id,
        level: id.level_spec(),
        range: range_view(range),
        message,
        notes: Seq::empty(),
    }
}

/// What a diagnostic engine is, for reasoning: its counters, its policy, and the
/// diagnostics (with their final severity) that reached its consumer, in order.
pub struct EngineState {
    pub warnings: nat,
    pub errors: nat,
    pub error_limit: nat,
    pub error_occurred: bool,
    pub fatal_error_occurred: bool,
    pub ignore_all_warnings: bool,
    pub warnings_as_errors: bool,
    pub forwarded: Seq<Report>,
}

/// The severity that a diagnostic of `level` ends with under the engine's policy.
pub open spec fn adjusted_level(st: EngineState, level: DiagnosticLevel) -> DiagnosticLevel {
    if level == DiagnosticLevel::Warning && st.ignore_all_warnings {
        DiagnosticLevel::Ignored
    } else if level == DiagnosticLevel::Warning && st.warnings_as_errors {
        DiagnosticLevel::Error
    } else {
        level
    }
}

/// One more than `n`, kept within `u64`.
pub open spec fn count_up(n: nat) -> nat {
    if n < u64::MAX {
        n + 1
    } else {
        n
    }
}

/// The engine after it was handed a diagnostic that says `report`.
pub open spec fn after_report(st: EngineState, report: Report) -> EngineState {
    let l = adjusted_level(st, report.level);
    let is_error = l == DiagnosticLevel::Error || l == DiagnosticLevel::FatalError;
    EngineState {
        warnings: if l == DiagnosticLevel::Warning { count_up(st.warnings) } else { st.warnings },
        errors: if is_error { count_up(st.errors) } else { st.errors },
        error_occurred: st.error_occurred || is_error,
        fatal_error_occurred: st.fatal_error_occurred || l == DiagnosticLevel::FatalError,
        forwarded: if l == DiagnosticLevel::Ignored {
            st.forwarded
        } else {
            st.forwarded.push(Report { level: l, ..report })
        },
        ..st
    }
}

/// The engine after it was handed diagnostics that say `reports`, in order.
pub open spec fn after_reports(st: EngineState, reports: Seq<Report>) -> EngineState
    decreases reports.len(),
{
    if reports.len() == 0 {
        st
    } else {
        after_report(after_reports(st, reports.drop_last()), reports.last())
    }
}

/// Counts the diagnostics of a session, applies the warning policy and hands what is not
/// ignored to its consumer.
pub struct DiagnosticEngine<C: DiagnosticConsumer> {
    number_of_warnings: u64,
    number_of_errors: u64,
    error_limit: u64,
    consumer: C,
    error_occurred: bool,
    fatal_error_occurred: bool,
    ignore_all_warnings: bool,
    warnings_as_errors: bool,
    forwarded: Ghost<Seq<Report>>,
}

impl<C: DiagnosticConsumer> View for DiagnosticEngine<C> {
    type V = EngineState;

    closed spec fn view(&self) -> EngineState {
        EngineState {
            warnings: self.number_of_warnings as nat,
            errors: self.number_of_errors as nat,
            error_limit: self.error_limit as nat,
            error_occurred: self.error_occurred,
            fatal_error_occurred: self.fatal_error_occurred,
            ignore_all_warnings: self.ignore_all_warnings,
            warnings_as_errors: self.warnings_as_errors,
            forwarded: self.forwarded@,
        }
    }
}

impl<C: DiagnosticConsumer> DiagnosticEngine<C> {
    /// The consumer that the engine reports to.
    pub closed spec fn consumer_spec(&self) -> C {
        self.consumer
    }

    /// A fresh engine: no counts, no limit, no policy, nothing forwarded.
    pub fn new(consumer: C) -> (r: Self)
        ensures
            r@ == (EngineState {
                warnings: 0,
                errors: 0,
                error_limit: 0,
                error_occurred: false,
                fatal_error_occurred: false,
                ignore_all_warnings: false,
                warnings_as_errors: false,
                forwarded: Seq::empty(),
            }),
            r.consumer_spec() == consumer,
    {
        DiagnosticEngine {
            number_of_warnings: 0,
            number_of_errors: 0,
            error_limit: 0,
            consumer,
            error_occurred: false,
            fatal_error_occurred: false,
            ignore_all_warnings: false,
            warnings_as_errors: false,
            forwarded: Ghost(Seq::empty()),
        }
    }

    /// Applies the policy to `diagnostic`, counts it, and hands it to the consumer unless it
    /// ended up ignored.
    pub fn report(&mut self, diagnostic: &mut Diagnostic)
        ensures
            final(self)@ == after_report(old(self)@, report_of(*old(diagnostic))),
            final(self).consumer_spec() == old(self).consumer_spec(),
            final(diagnostic).level == adjusted_level(old(self)@, old(diagnostic).level),
            final(diagnostic).id == old(diagnostic).id,
            final(diagnostic).source_range == old(diagnostic).source_range,
            final(diagnostic).message == old(diagnostic).message,
            final(diagnostic).notes == old(diagnostic).notes,
    {
        if self.ignore_all_warnings {
            diagnostic.ignore_warning();
        }
        if self.warnings_as_errors {
            diagnostic.upgrade_warning_to_error();
        }
        if diagnostic.is_error_or_fatal() {
            self.error_occurred = true;
            if self.number_of_errors < u64::MAX {
                self.number_of_errors = self.number_of_errors + 1;
            }
        }
        if diagnostic.is_fatal_error() {
            self.fatal_error_occurred = true;
        }
        if diagnostic.is_warning() {
            if self.number_of_warnings < u64::MAX {
                self.number_of_warnings = self.number_of_warnings + 1;
            }
        }
        if !diagnostic.is_ignored() {
            self.consumer.report(diagnostic);
            self.forwarded = Ghost(self.forwarded@.push(report_of(*diagnostic)));
        }
    }

    /// Whether an error or fatal error was reported.
    pub fn error_occurred(&self) -> (r: bool)
        ensures
            r == self@.error_occurred,
    {
        self.error_occurred
    }

    /// Whether a fatal error was reported.
    pub fn fatal_error_occurred(&self) -> (r: bool)
        ensures
            r == self@.fatal_error_occurred,
    {
        self.fatal_error_occurred
    }

    /// Whether a limit is set and the errors have reached it.
    pub fn error_limit_reached(&self) -> (r: bool)
        ensures
            r == (self@.error_limit > 0 && self@.errors >= self@.error_limit),
    {
        self.error_limit > 0 && self.number_of_errors >= self.error_limit
    }

    /// Number of errors and fatal errors counted.
    pub fn error_count(&self) -> (r: u64)
        ensures
            r == self@.errors,
    {
        self.number_of_errors
    }

    /// Number of warnings counted.
    pub fn warning_count(&self) -> (r: u64)
        ensures
            r == self@.warnings,
    {
        self.number_of_warnings
    }

    /// The consumer that the engine reports to.
    pub fn consumer(&self) -> (r: &C)
        ensures
            *r == self.consumer_spec(),
    {
        &self.consumer
    }

    /// Sets the number of errors at which `error_limit_reached` holds; 0 means no limit.
    pub fn set_error_limit(&mut self, limit: u64)
        ensures
            final(self)@ == (EngineState { error_limit: limit as nat, ..old(self)@ }),
            final(self).consumer_spec() == old(self).consumer_spec(),
    {
        self.error_limit = limit;
    }

    /// Whether warnings are to be ignored.
    pub fn set_ignore_all_warnings(&mut self, value: bool)
        ensures
            final(self)@ == (EngineState { ignore_all_warnings: value, ..old(self)@ }),
            final(self).consumer_spec() == old(self).consumer_spec(),
    {
        self.ignore_all_warnings = value;
    }

    /// Whether warnings are to count as errors.
    pub fn set_warnings_as_errors(&mut self, value: bool)
        ensures
            final(self)@ == (EngineState { warnings_as_errors: value, ..old(self)@ }),
            final(self).consumer_spec() == old(self).consumer_spec(),
    {
        self.warnings_as_errors = value;
    }
}


/// The warning policy. With warnings counted as errors (and not ignored), reporting a
/// warning marks the session as failed. With warnings ignored, a reported warning reaches no
/// consumer and leaves the error state and the error count as they were.
pub proof fn lemma_warning_policy(st: EngineState, diagnostic: Diagnostic)
    requires
        diagnostic.level == DiagnosticLevel::Warning,
    ensures
        st.warnings_as_errors && !st.ignore_all_warnings ==> reported(st, diagnostic).error_occurred,
        st.ignore_all_warnings ==> reported(st, diagnostic).forwarded == st.forwarded,
        st.ignore_all_warnings ==> reported(st, diagnostic).error_occurred == st.error_occurred,
        st.ignore_all_warnings ==> reported(st, diagnostic).errors == st.errors,
{
}

/// The engine after `report` of `diagnostic`.
pub open spec fn reported(st: EngineState, diagnostic: Diagnostic) -> EngineState {
    after_report(st, report_of(diagnostic))
}

} // verus!
