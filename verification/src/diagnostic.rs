//! Diagnostics: immutable records of noteworthy outcomes, and the rules that
//! turn what a test body or a cleanup action raised into one of them.

use vstd::prelude::*;

verus! {

/// What a diagnostic reports.
#[derive(Debug, PartialEq, Eq, Structural, Clone, Copy)]
pub enum DiagnosticKind {
    /// A failure found before execution could begin; the body never runs.
    CollectionError,
    /// The body failed an assertion.
    AssertionFailure,
    /// The body raised an unexpected condition.
    RuntimeError,
    /// The body asked to be skipped.
    Skip,
    /// A cleanup action failed.
    FinalizerError,
}

/// The terminal state of one test unit, as it is counted.
#[derive(Debug, PartialEq, Eq, Structural, Clone, Copy)]
pub enum Outcome {
    Passed,
    Failed,
    Errored,
    Skipped,
}

/// Whom a diagnostic or a notification concerns.
#[derive(Debug, PartialEq, Eq, Structural, Clone, Copy)]
pub enum Subject {
    /// The test unit with this identity.
    Unit(u64),
    /// The module itself (its module-scoped cleanup).
    Module,
}

/// How a raised condition presents itself to the runner.
#[derive(Debug, PartialEq, Eq, Structural, Clone, Copy)]
pub enum RaisedClass {
    /// An assertion-style failure.
    Assertion,
    /// A skip directive.
    SkipDirective,
    /// Anything else.
    Other,
}

/// A condition raised by a test body or a cleanup action.
#[derive(Debug)]
pub struct Raised {
    pub class: RaisedClass,
    pub message: String,
    pub source: Option<String>,
}

impl Clone for Raised {
    fn clone(&self) -> (res: Self)
        ensures
            res == *self,
    {
        let source = match &self.source {
            Some(s) => Some(s.clone()),
            None => None,
        };
        Raised { class: self.class, message: self.message.clone(), source }
    }
}

/// One noteworthy outcome.
#[derive(Debug)]
pub struct Diagnostic {
    pub kind: DiagnosticKind,
    pub message: String,
    pub source: Option<String>,
    pub subject: Subject,
}

impl Clone for Diagnostic {
    fn clone(&self) -> (res: Self)
        ensures
            res == *self,
    {
        let source = match &self.source {
            Some(s) => Some(s.clone()),
            None => None,
        };
        Diagnostic { kind: self.kind, message: self.message.clone(), source, subject: self.subject }
    }
}

/// The kind of diagnostic that a condition raised by a test body becomes.
pub open spec fn kind_of_class(class: RaisedClass) -> DiagnosticKind {
    match class {
        RaisedClass::Assertion => DiagnosticKind::AssertionFailure,
        RaisedClass::SkipDirective => DiagnosticKind::Skip,
        RaisedClass::Other => DiagnosticKind::RuntimeError,
    }
}

/// How a unit whose outcome diagnostic has this kind is counted.
pub open spec fn outcome_of_kind(kind: DiagnosticKind) -> Outcome {
    match kind {
        DiagnosticKind::AssertionFailure => Outcome::Failed,
        DiagnosticKind::Skip => Outcome::Skipped,
        DiagnosticKind::CollectionError => Outcome::Errored,
        DiagnosticKind::RuntimeError => Outcome::Errored,
        DiagnosticKind::FinalizerError => Outcome::Errored,
    }
}

/// How a unit with this outcome diagnostic (or none) is counted.
pub open spec fn outcome_of(diagnostic: Option<Diagnostic>) -> Outcome {
    match diagnostic {
        None => Outcome::Passed,
        Some(d) => outcome_of_kind(d.kind),
    }
}

/// The diagnostic that a body's result becomes: none when nothing was raised.
pub open spec fn body_diagnostic(unit: u64, raised: Option<Raised>) -> Option<Diagnostic> {
    match raised {
        None => None,
        Some(r) => Some(
            Diagnostic {
                kind: kind_of_class(r.class),
                message: r.message,
                source: r.source,
                subject: Subject::Unit(unit),
            },
        ),
    }
}

/// The diagnostic that a failed cleanup action becomes.
pub open spec fn finalizer_diagnostic(subject: Subject, raised: Raised) -> Diagnostic {
    Diagnostic {
        kind: DiagnosticKind::FinalizerError,
        message: raised.message,
        source: raised.source,
        subject,
    }
}

impl DiagnosticKind {
    /// The outcome under which a unit with a diagnostic of this kind is counted.
    pub fn outcome(self) -> (res: Outcome)
        ensures
            res == outcome_of_kind(self),
    {
        match self {
            DiagnosticKind::AssertionFailure => Outcome::Failed,
            DiagnosticKind::Skip => Outcome::Skipped,
            DiagnosticKind::CollectionError => Outcome::Errored,
            DiagnosticKind::RuntimeError => Outcome::Errored,
            DiagnosticKind::FinalizerError => Outcome::Errored,
        }
    }
}

impl Diagnostic {
    /// A diagnostic from its parts.
    pub fn new(kind: DiagnosticKind, message: String, source: Option<String>, subject: Subject) -> (res:
        Self)
        ensures
            res == (Diagnostic { kind, message, source, subject }),
    {
        Diagnostic { kind, message, source, subject }
    }

    /// Turns what the body of `unit` raised into the unit's outcome diagnostic.
    pub fn classify(unit: u64, raised: Option<Raised>) -> (res: Option<Diagnostic>)
        ensures
            res == body_diagnostic(unit, raised),
    {
        match raised {
            None => None,
            Some(r) => {
                let kind = match r.class {
                    RaisedClass::Assertion => DiagnosticKind::AssertionFailure,
                    RaisedClass::SkipDirective => DiagnosticKind::Skip,
                    RaisedClass::Other => DiagnosticKind::RuntimeError,
                };
                Some(
                    Diagnostic {
                        kind,
                        message: r.message,
                        source: r.source,
                        subject: Subject::Unit(unit),
                    },
                )
            },
        }
    }

    /// Turns the failure of a cleanup action into a diagnostic for `subject`.
    pub fn from_finalizer(subject: Subject, raised: Raised) -> (res: Diagnostic)
        ensures
            res == finalizer_diagnostic(subject, raised),
    {
        Diagnostic {
            kind: DiagnosticKind::FinalizerError,
            message: raised.message,
            source: raised.source,
            subject,
        }
    }
}

} // verus!
