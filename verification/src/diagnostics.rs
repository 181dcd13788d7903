//! Diagnostics attached to parsing and lowering: severities, messages,
//! and labelled source locations. Rendering them is the host's business.

use vstd::prelude::*;

use crate::syntax::Span;

verus! {

/// A value together with the non-fatal diagnostics its computation
/// produced.
#[derive(Debug)]
pub struct WithDiagnostics<T> {
    pub value: T,
    pub diagnostics: Diagnostics,
}

impl<T> WithDiagnostics<T> {
    /// Wraps a value with no diagnostics at all.
    pub fn with_empty_diagnostics(value: T) -> (r: WithDiagnostics<T>)
        ensures
            r.value == value,
            r.diagnostics.0@ == Seq::<Diagnostic>::empty(),
    {
        let r = WithDiagnostics { value, diagnostics: Diagnostics(Vec::new()) };
        proof {
            assert(r.diagnostics.0@ =~= Seq::<Diagnostic>::empty());
        }
        r
    }
}

/// Either a value with non-fatal diagnostics, or the fatal diagnostics
/// alone.
pub type DiagnosticsResult<T> = Result<WithDiagnostics<T>, Diagnostics>;

/// A list of diagnostics.
#[derive(Debug)]
pub struct Diagnostics(pub Vec<Diagnostic>);

/// One diagnostic: a severity, a message, and labelled source locations.
#[derive(Debug)]
pub struct Diagnostic {
    pub severity: DiagnosticSeverity,
    pub message: String,
    pub labels: Vec<Label>,
}

/// A labelled source location of a diagnostic.
#[derive(Debug)]
pub struct Label {
    pub location: Span,
    pub message: Option<String>,
}

impl Diagnostic {
    /// A diagnostic with no labels yet.
    pub fn new(severity: DiagnosticSeverity, message: String) -> (d: Diagnostic)
        ensures
            d.severity == severity,
            d.message@ == message@,
            d.labels@ == Seq::<Label>::empty(),
    {
        let d = Diagnostic { severity, message, labels: Vec::new() };
        proof {
            assert(d.labels@ =~= Seq::<Label>::empty());
        }
        d
    }

    /// The diagnostic with one more label.
    pub fn with_label(self, label: Label) -> (d: Diagnostic)
        ensures
            d.severity == self.severity,
            d.message@ == self.message@,
            d.labels@ == self.labels@.push(label),
    {
        let mut labels = self.labels;
        labels.push(label);
        Diagnostic { severity: self.severity, message: self.message, labels }
    }
}

impl Label {
    /// A label with a bare location.
    pub fn new(location: Span) -> (l: Label)
        ensures
            l.location == location,
            l.message is None,
    {
        Label { location, message: None }
    }

    /// The label with an explanatory message.
    pub fn with_message(self, message: String) -> (l: Label)
        ensures
            l.location == self.location,
            l.message == Some(message),
    {
        Label { location: self.location, message: Some(message) }
    }
}

/// How severe a diagnostic is.
#[derive(Debug, Clone, Copy, PartialEq, Eq, Structural)]
pub enum DiagnosticSeverity {
    Warning,
    Error,
}

} // verus!
