use crate::diagnostic::{Diagnostic, DiagnosticLevel};
use vstd::prelude::*;

verus! {

/// Receives the diagnostics that the engine lets through; never an ignored one.
pub trait DiagnosticConsumer {
    fn report(&self, diagnostic: &Diagnostic)
        requires
            diagnostic.level != DiagnosticLevel::Ignored,
    ;
}

/// A consumer that drops every diagnostic.
#[derive(Default, Debug)]
pub struct IgnoreDiagnosticConsumer;

impl DiagnosticConsumer for IgnoreDiagnosticConsumer {
    fn report(&self, _diagnostic: &Diagnostic) {
    }
}


/// One line that a console consumer writes: `location: label message`, to the error stream
/// or to the output stream.
pub struct ConsoleLine {
    pub to_error_stream: bool,
    pub location: String,
    pub label: String,
    pub message: String,
}

/// The label before a message of `level`.
pub open spec fn level_label(level: DiagnosticLevel) -> Seq<char> {
    match level {
        DiagnosticLevel::Warning => "warning:"@,
        DiagnosticLevel::Error => "error:"@,
        DiagnosticLevel::FatalError => "fatal error:"@,
        DiagnosticLevel::Ignored => ""@,
    }
}

/// The lines that a console shows for `diagnostic`: first the diagnostic at the beginning
/// of its range, to the error stream unless it is a warning; then each note, to the output
/// stream.
pub fn console_lines(diagnostic: &Diagnostic) -> (r: Vec<ConsoleLine>)
    requires
        diagnostic.level != DiagnosticLevel::Ignored,
        diagnostic.message@.len() > 0,
    ensures
        r@.len() == diagnostic.notes@.len() + 1,
        r@[0].to_error_stream == (diagnostic.level != DiagnosticLevel::Warning),
        r@[0].location@ == diagnostic.source_range.begin.text_spec(),
        r@[0].label@ == level_label(diagnostic.level),
        r@[0].message@ == diagnostic.message@,
        forall|i: int|
            0 <= i < diagnostic.notes@.len() ==> {
                &&& !(#[trigger] r@[i + 1]).to_error_stream
                &&& r@[i + 1].location@ == diagnostic.notes@[i].source_range.begin.text_spec()
                &&& r@[i + 1].label@ == "note:"@
                &&& r@[i + 1].message@ == diagnostic.notes@[i].message@
            },
{
    let label = Diagnostic::label(diagnostic.level);
    let mut lines: Vec<ConsoleLine> = Vec::new();
    lines.push(
        ConsoleLine {
            to_error_stream: !diagnostic.is_warning(),
            location: diagnostic.source_range.begin.to_string(),
            label: label.to_owned(),
            message: diagnostic.message.clone(),
        },
    );
    let mut i: usize = 0;
    while i < diagnostic.notes.len()
        invariant
            0 <= i <= diagnostic.notes@.len(),
            lines@.len() == i + 1,
            lines@[0].to_error_stream == (diagnostic.level != DiagnosticLevel::Warning),
            lines@[0].location@ == diagnostic.source_range.begin.text_spec(),
            lines@[0].label@ == level_label(diagnostic.level),
            lines@[0].message@ == diagnostic.message@,
            forall|j: int|
                0 <= j < i ==> {
                    &&& !(#[trigger] lines@[j + 1]).to_error_stream
                    &&& lines@[j + 1].location@ == diagnostic.notes@[j].source_range.begin.text_spec()
                    &&& lines@[j + 1].label@ == "note:"@
                    &&& lines@[j + 1].message@ == diagnostic.notes@[j].message@
                },
        decreases diagnostic.notes@.len() - i,
    {
        let note = &diagnostic.notes[i];
        lines.push(
            ConsoleLine {
                to_error_stream: false,
                location: note.source_range.begin.to_string(),
                label: "note:".to_owned(),
                message: note.message.clone(),
            },
        );
        i = i + 1;
    }
    lines
}

} // verus!
