use crate::source_range::SourceRange;
use vstd::prelude::*;

verus! {

/// The problems that the front end reports.
#[derive(Debug, PartialEq, Eq, Structural, Hash, Clone, Copy)]
pub enum DiagnosticId {
    NullCharacter,
    UnexpectedCharacter,
    IntegerLiteralTooLarge,
    ExpectedFunctionReturnType,
    ExpectedFunctionName,
    ExpectedLeftParenthesis,
    ExpectedRightParenthesis,
    ExpectedLeftBrace,
    ExpectedRightBrace,
    ExpectedSemicolon,
    ExpectedReturnKeyword,
    ExpectedIntegerLiteral,
    ExpectedVoidInParameterList,
    ExpectedExpression,
}

/// Severity, from least to most severe.
#[derive(Debug, PartialEq, Eq, Structural, Hash, Clone, Copy, PartialOrd, Ord)]
pub enum DiagnosticLevel {
    Ignored,
    Warning,
    Error,
    FatalError,
}

impl DiagnosticId {
    /// The fixed severity of the problem.
    pub open spec fn level_spec(&self) -> DiagnosticLevel {
        match self {
            DiagnosticId::NullCharacter => DiagnosticLevel::Warning,
            _ => DiagnosticLevel::Error,
        }
    }

    /// The fixed severity of the problem.
    #[verifier::when_used_as_spec(level_spec)]
    pub fn level(&self) -> (r: DiagnosticLevel)
        ensures
            r == self.level_spec(),
    {
        match self {
            DiagnosticId::NullCharacter => DiagnosticLevel::Warning,
            _ => DiagnosticLevel::Error,
        }
    }

    /// The name of the flag that controls the problem, or an empty text.
    pub fn flag_name(&self) -> (r: &'static str)
        ensures
            *self == DiagnosticId::NullCharacter ==> r@ == "-Wnull-character"@,
            *self != DiagnosticId::NullCharacter ==> r@ == ""@,
    {
        match self {
            DiagnosticId::NullCharacter => "-Wnull-character",
            _ => "",
        }
    }
}

/// A reported problem: what it is, how severe, where, a message and notes.
#[derive(Debug, Clone, PartialEq, Eq, Hash)]
pub struct Diagnostic<'a> {
    pub id: DiagnosticId,
    pub level: DiagnosticLevel,
    pub source_range: SourceRange<'a>,
    pub message: String,
    pub notes: Vec<DiagnosticNote<'a>>,
}

/// Context attached to a diagnostic.
#[derive(Debug, Clone, PartialEq, Eq, Hash)]
pub struct DiagnosticNote<'a> {
    pub source_range: SourceRange<'a>,
    pub message: String,
}

impl<'a> Diagnostic<'a> {
    /// A diagnostic with the severity of `id` and no notes.
    pub fn new(id: DiagnosticId, source_range: SourceRange<'a>, message: String) -> (r: Self)
        ensures
            r.id == id,
            r.level == id.level_spec(),
            r.source_range == source_range,
            r.message == message,
            r.notes@.len() == 0,
    {
        Diagnostic { id, level: id.level(), source_range, message, notes: Vec::new() }
    }

    /// The diagnostic was suppressed.
    pub fn is_ignored(&self) -> (r: bool)
        ensures
            r == (self.level == DiagnosticLevel::Ignored),
    {
        self.level == DiagnosticLevel::Ignored
    }

    /// The diagnostic is a warning.
    pub fn is_warning(&self) -> (r: bool)
        ensures
            r == (self.level == DiagnosticLevel::Warning),
    {
        self.level == DiagnosticLevel::Warning
    }

    /// The diagnostic is an error.
    pub fn is_error(&self) -> (r: bool)
        ensures
            r == (self.level == DiagnosticLevel::Error),
    {
        self.level == DiagnosticLevel::Error
    }

    /// The diagnostic is a fatal error.
    pub fn is_fatal_error(&self) -> (r: bool)
        ensures
            r == (self.level == DiagnosticLevel::FatalError),
    {
        self.level == DiagnosticLevel::FatalError
    }

    /// The diagnostic fails the session.
    pub fn is_error_or_fatal(&self) -> (r: bool)
        ensures
            r == (self.level == DiagnosticLevel::Error || self.level
                == DiagnosticLevel::FatalError),
    {
        self.is_error() || self.is_fatal_error()
    }

    /// A warning becomes an error; any other level stays.
    pub fn upgrade_warning_to_error(&mut self)
        ensures
            final(self).level == (if old(self).level == DiagnosticLevel::Warning {
                DiagnosticLevel::Error
            } else {
                old(self).level
            }),
            final(self).id == old(self).id,
            final(self).source_range == old(self).source_range,
            final(self).message == old(self).message,
            final(self).notes == old(self).notes,
    {
        if self.level == DiagnosticLevel::Warning {
            self.level = DiagnosticLevel::Error;
        }
    }

    /// A warning becomes ignored; any other level stays.
    pub fn ignore_warning(&mut self)
        ensures
            final(self).level == (if old(self).level == DiagnosticLevel::Warning {
                DiagnosticLevel::Ignored
            } else {
                old(self).level
            }),
            final(self).id == old(self).id,
            final(self).source_range == old(self).source_range,
            final(self).message == old(self).message,
            final(self).notes == old(self).notes,
    {
        if self.level == DiagnosticLevel::Warning {
            self.level = DiagnosticLevel::Ignored;
        }
    }

    /// Appends a note; nothing else changes.
    pub fn add_note(&mut self, note: DiagnosticNote<'a>)
        ensures
            final(self).notes@ == old(self).notes@.push(note),
            final(self).id == old(self).id,
            final(self).level == old(self).level,
            final(self).source_range == old(self).source_range,
            final(self).message == old(self).message,
    {
        self.notes.push(note);
    }

    /// The label that stands before a message of the given level.
    pub fn label(level: DiagnosticLevel) -> (r: &'static str)
        ensures
            level == DiagnosticLevel::Warning ==> r@ == "warning:"@,
            level == DiagnosticLevel::Error ==> r@ == "error:"@,
            level == DiagnosticLevel::FatalError ==> r@ == "fatal error:"@,
            level == DiagnosticLevel::Ignored ==> r@ == ""@,
    {
        match level {
            DiagnosticLevel::Warning => "warning:",
            DiagnosticLevel::Error => "error:",
            DiagnosticLevel::FatalError => "fatal error:",
            DiagnosticLevel::Ignored => "",
        }
    }
}

} // verus!
