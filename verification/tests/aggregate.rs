use karva_core::diagnostic::{
    Diagnostic, DiagnosticKind, Outcome, Raised, RaisedClass, Subject,
};
use karva_core::result::TestRunResult;

fn diagnostic(kind: DiagnosticKind, message: &str, unit: u64) -> Diagnostic {
    Diagnostic::new(kind, message.to_string(), None, Subject::Unit(unit))
}

fn aggregate_a() -> TestRunResult {
    let mut a = TestRunResult::new();
    a.record(Outcome::Passed);
    a.record(Outcome::Passed);
    a.record(Outcome::Failed);
    a.add_diagnostic(diagnostic(DiagnosticKind::AssertionFailure, "a failed", 3));
    a
}

fn aggregate_b() -> TestRunResult {
    let mut b = TestRunResult::new();
    b.record(Outcome::Skipped);
    b.add_diagnostic(diagnostic(DiagnosticKind::Skip, "b skipped", 4));
    b
}

fn messages(result: &TestRunResult) -> Vec<String> {
    result.diagnostics().iter().map(|d| d.message.clone()).collect()
}

#[test]
fn merge_sums_counts_and_keeps_completion_order() {
    let merged = aggregate_a().merge(aggregate_b());
    assert_eq!(merged.passed(), 2);
    assert_eq!(merged.failed(), 1);
    assert_eq!(merged.skipped(), 1);
    assert_eq!(merged.errored(), 0);
    assert_eq!(merged.total(), 4);
    assert_eq!(messages(&merged), vec!["a failed".to_string(), "b skipped".to_string()]);
}

#[test]
fn merge_counts_do_not_depend_on_direction() {
    let forward = aggregate_a().merge(aggregate_b());
    let backward = aggregate_b().merge(aggregate_a());
    assert_eq!(forward.passed(), backward.passed());
    assert_eq!(forward.failed(), backward.failed());
    assert_eq!(forward.skipped(), backward.skipped());
    assert_eq!(forward.errored(), backward.errored());
    assert_eq!(backward.total(), 4);
    assert_eq!(messages(&backward), vec!["b skipped".to_string(), "a failed".to_string()]);
}

#[test]
fn merge_is_associative_on_values() {
    let mut c = TestRunResult::new();
    c.record(Outcome::Errored);
    c.add_diagnostic(diagnostic(DiagnosticKind::RuntimeError, "c broke", 5));
    let mut c2 = TestRunResult::new();
    c2.update(&c);
    let left = aggregate_a().merge(aggregate_b()).merge(c);
    let right = aggregate_a().merge(aggregate_b().merge(c2));
    assert_eq!(left.total(), 5);
    assert_eq!(right.total(), 5);
    assert_eq!(left.errored(), right.errored());
    assert_eq!(messages(&left), messages(&right));
    assert_eq!(
        messages(&left),
        vec!["a failed".to_string(), "b skipped".to_string(), "c broke".to_string()]
    );
}

#[test]
fn update_folds_later_result_in_place() {
    let mut a = aggregate_a();
    let b = aggregate_b();
    a.update(&b);
    assert_eq!(a.total(), 4);
    assert_eq!(a.skipped(), 1);
    assert_eq!(messages(&a), vec!["a failed".to_string(), "b skipped".to_string()]);
    assert_eq!(b.total(), 1);
}

#[test]
fn checked_merge_gives_the_merged_aggregate_when_counts_fit() {
    let merged = aggregate_a().checked_merge(aggregate_b()).unwrap();
    assert_eq!(merged.total(), 4);
    assert_eq!(messages(&merged), vec!["a failed".to_string(), "b skipped".to_string()]);
}

#[test]
fn new_and_default_aggregates_are_empty() {
    let fresh = TestRunResult::new();
    assert_eq!(fresh.total(), 0);
    assert!(fresh.diagnostics().is_empty());
    let default = TestRunResult::default();
    assert_eq!(default.total(), 0);
    assert_eq!(default.passed(), 0);
}

#[test]
fn add_diagnostics_appends_in_order() {
    let mut a = aggregate_a();
    a.add_diagnostics(vec![
        diagnostic(DiagnosticKind::FinalizerError, "x", 1),
        diagnostic(DiagnosticKind::FinalizerError, "y", 1),
    ]);
    assert_eq!(a.total(), 3);
    assert_eq!(
        messages(&a),
        vec!["a failed".to_string(), "x".to_string(), "y".to_string()]
    );
}

#[test]
fn classify_maps_each_class_to_its_kind() {
    assert!(Diagnostic::classify(1, None).is_none());
    let cases = [
        (RaisedClass::Assertion, DiagnosticKind::AssertionFailure, Outcome::Failed),
        (RaisedClass::SkipDirective, DiagnosticKind::Skip, Outcome::Skipped),
        (RaisedClass::Other, DiagnosticKind::RuntimeError, Outcome::Errored),
    ];
    for (class, kind, outcome) in cases {
        let raised = Raised {
            class,
            message: "why".to_string(),
            source: Some("test_x.py:3".to_string()),
        };
        let d = Diagnostic::classify(8, Some(raised)).unwrap();
        assert_eq!(d.kind, kind);
        assert_eq!(d.message, "why");
        assert_eq!(d.source, Some("test_x.py:3".to_string()));
        assert_eq!(d.subject, Subject::Unit(8));
        assert_eq!(d.kind.outcome(), outcome);
    }
    assert_eq!(DiagnosticKind::CollectionError.outcome(), Outcome::Errored);
    assert_eq!(DiagnosticKind::FinalizerError.outcome(), Outcome::Errored);
}

#[test]
fn from_finalizer_keeps_message_and_source_whatever_the_class() {
    let raised = Raised {
        class: RaisedClass::Assertion,
        message: "left open".to_string(),
        source: Some("conftest.py:7".to_string()),
    };
    let d = Diagnostic::from_finalizer(Subject::Module, raised.clone());
    assert_eq!(d.kind, DiagnosticKind::FinalizerError);
    assert_eq!(d.message, "left open");
    assert_eq!(d.source, Some("conftest.py:7".to_string()));
    assert_eq!(d.subject, Subject::Module);
    let copy = d.clone();
    assert_eq!(copy.message, d.message);
    assert_eq!(raised.class, RaisedClass::Assertion);
}
