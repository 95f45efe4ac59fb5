use crate::diagnostic::{Diagnostic, DiagnosticNote};
use crate::diagnostic_consumer::DiagnosticConsumer;
use crate::diagnostic_engine::{after_report, report_of, DiagnosticEngine};
use crate::source_range::SourceRange;
use vstd::prelude::*;

verus! {

/// A diagnostic being put together; `emit` reports it, once, and consumes the builder.
pub struct DiagnosticBuilder<'a> {
    pub diagnostic: Diagnostic<'a>,
}

impl<'a> DiagnosticBuilder<'a> {
    /// Starts putting `diagnostic` together.
    pub fn new(diagnostic: Diagnostic<'a>) -> (r: Self)
        ensures
            r.diagnostic == diagnostic,
    {
        DiagnosticBuilder { diagnostic }
    }

    /// Appends a note to the pending diagnostic.
    pub fn add_note(&mut self, source_range: SourceRange<'a>, message: String)
        ensures
            final(self).diagnostic.notes@ == old(self).diagnostic.notes@.push(
                DiagnosticNote { source_range, message },
            ),
            final(self).diagnostic.id == old(self).diagnostic.id,
            final(self).diagnostic.level == old(self).diagnostic.level,
            final(self).diagnostic.source_range == old(self).diagnostic.source_range,
            final(self).diagnostic.message == old(self).diagnostic.message,
    {
        self.diagnostic.add_note(DiagnosticNote { message, source_range });
    }

    /// Reports the diagnostic to `engine`.
    pub fn emit<C: DiagnosticConsumer>(self, engine: &mut DiagnosticEngine<C>)
        ensures
            final(engine)@ == after_report(old(engine)@, report_of(self.diagnostic)),
            final(engine).consumer_spec() == old(engine).consumer_spec(),
    {
        let mut diagnostic = self.diagnostic;
        engine.report(&mut diagnostic);
    }
}

} // verus!
