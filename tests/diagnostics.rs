use rustcc::diagnostic::{Diagnostic, DiagnosticId, DiagnosticLevel};
use rustcc::diagnostic_builder::DiagnosticBuilder;
use rustcc::diagnostic_consumer::{console_lines, DiagnosticConsumer, IgnoreDiagnosticConsumer};
use rustcc::diagnostic_engine::DiagnosticEngine;
use rustcc::source_file::SourceFile;
use rustcc::source_location::SourceLocation;
use rustcc::source_range::SourceRange;
use std::cell::RefCell;

#[derive(Default)]
struct Levels {
    seen: RefCell<Vec<DiagnosticLevel>>,
}

impl DiagnosticConsumer for Levels {
    fn report(&self, diagnostic: &Diagnostic) {
        self.seen.borrow_mut().push(diagnostic.level);
    }
}

fn warning() -> Diagnostic<'static> {
    Diagnostic::new(DiagnosticId::NullCharacter, SourceRange::invalid(), "null character ignored".to_string())
}

#[test]
fn warning_reported_plainly() {
    let mut engine = DiagnosticEngine::new(Levels::default());
    let mut diagnostic = warning();
    engine.report(&mut diagnostic);
    assert_eq!(engine.warning_count(), 1);
    assert_eq!(engine.error_count(), 0);
    assert!(!engine.error_occurred());
    assert_eq!(*engine.consumer().seen.borrow(), vec![DiagnosticLevel::Warning]);
}

#[test]
fn warnings_as_errors_fails_the_session() {
    let mut engine = DiagnosticEngine::new(Levels::default());
    engine.set_warnings_as_errors(true);
    let mut diagnostic = warning();
    engine.report(&mut diagnostic);
    assert!(engine.error_occurred());
    assert!(!engine.fatal_error_occurred());
    assert_eq!(diagnostic.level, DiagnosticLevel::Error);
    assert_eq!(*engine.consumer().seen.borrow(), vec![DiagnosticLevel::Error]);
}

#[test]
fn ignored_warnings_reach_no_consumer() {
    let mut engine = DiagnosticEngine::new(Levels::default());
    engine.set_ignore_all_warnings(true);
    engine.set_warnings_as_errors(true);
    let mut diagnostic = warning();
    engine.report(&mut diagnostic);
    assert!(!engine.error_occurred());
    assert_eq!(engine.warning_count(), 0);
    assert_eq!(diagnostic.level, DiagnosticLevel::Ignored);
    assert!(engine.consumer().seen.borrow().is_empty());
}

#[test]
fn errors_are_never_adjusted() {
    let mut engine = DiagnosticEngine::new(Levels::default());
    engine.set_ignore_all_warnings(true);
    let mut diagnostic = Diagnostic::new(
        DiagnosticId::ExpectedSemicolon,
        SourceRange::invalid(),
        "expected ';'".to_string(),
    );
    engine.report(&mut diagnostic);
    assert!(engine.error_occurred());
    assert_eq!(*engine.consumer().seen.borrow(), vec![DiagnosticLevel::Error]);
}

#[test]
fn error_limit() {
    let mut engine = DiagnosticEngine::new(IgnoreDiagnosticConsumer);
    assert!(!engine.error_limit_reached());
    engine.set_error_limit(2);
    let mut first = Diagnostic::new(DiagnosticId::UnexpectedCharacter, SourceRange::invalid(), "x".to_string());
    engine.report(&mut first);
    assert!(!engine.error_limit_reached());
    let mut second = Diagnostic::new(DiagnosticId::UnexpectedCharacter, SourceRange::invalid(), "y".to_string());
    engine.report(&mut second);
    assert!(engine.error_limit_reached());
}

#[test]
fn diagnostic_levels_and_flags() {
    assert_eq!(DiagnosticId::NullCharacter.level(), DiagnosticLevel::Warning);
    assert_eq!(DiagnosticId::ExpectedExpression.level(), DiagnosticLevel::Error);
    assert_eq!(DiagnosticId::NullCharacter.flag_name(), "-Wnull-character");
    assert_eq!(DiagnosticId::IntegerLiteralTooLarge.flag_name(), "");
    assert!(DiagnosticLevel::Ignored < DiagnosticLevel::Warning);
    assert!(DiagnosticLevel::Error < DiagnosticLevel::FatalError);
    let mut diagnostic = warning();
    assert!(diagnostic.is_warning() && !diagnostic.is_error_or_fatal());
    diagnostic.upgrade_warning_to_error();
    assert!(diagnostic.is_error() && diagnostic.is_error_or_fatal());
    diagnostic.ignore_warning();
    assert!(diagnostic.is_error());
    assert!(!diagnostic.is_ignored() && !diagnostic.is_fatal_error());
}

#[test]
fn builder_adds_notes_and_reports_once() {
    let file = SourceFile::new("m.c", "ab\ncd");
    let mut engine = DiagnosticEngine::new(Levels::default());
    let at = SourceLocation::new(&file, 3, 2, 1);
    let mut builder = DiagnosticBuilder::new(Diagnostic::new(
        DiagnosticId::UnexpectedCharacter,
        SourceRange::from_location(at),
        "bad".to_string(),
    ));
    builder.add_note(SourceRange::from_location(SourceLocation::new(&file, 0, 1, 1)), "here".to_string());
    assert_eq!(builder.diagnostic.notes.len(), 1);
    let lines = console_lines(&builder.diagnostic);
    assert_eq!(lines.len(), 2);
    assert!(lines[0].to_error_stream);
    assert_eq!(lines[0].location, "m.c:2:1");
    assert_eq!(lines[0].label, "error:");
    assert_eq!(lines[0].message, "bad");
    assert!(!lines[1].to_error_stream);
    assert_eq!(lines[1].location, "m.c:1:1");
    assert_eq!(lines[1].label, "note:");
    assert_eq!(lines[1].message, "here");
    builder.emit(&mut engine);
    assert_eq!(engine.error_count(), 1);
    assert_eq!(*engine.consumer().seen.borrow(), vec![DiagnosticLevel::Error]);
}

#[test]
fn warning_lines_go_to_the_output_stream() {
    let lines = console_lines(&warning());
    assert_eq!(lines.len(), 1);
    assert!(!lines[0].to_error_stream);
    assert_eq!(lines[0].label, "warning:");
    assert_eq!(lines[0].location, "<invalid>");
    assert_eq!(Diagnostic::label(DiagnosticLevel::FatalError), "fatal error:");
}
