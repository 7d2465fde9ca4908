use karva_core::context::{Call, ExecutionContext, ScriptedContext};
use karva_core::diagnostic::{
    Diagnostic, DiagnosticKind, Outcome, Raised, RaisedClass, Subject,
};
use karva_core::finalizers::Finalizers;
use karva_core::module::CollectedModule;
use karva_core::reporter::{Announcer, CollectingReporter, Notification};
use karva_core::test_case::TestCase;

fn same(a: &Diagnostic, b: &Diagnostic) -> bool {
    a.kind == b.kind && a.message == b.message && a.source == b.source && a.subject == b.subject
}

fn raised(class: RaisedClass, message: &str) -> Raised {
    Raised { class, message: message.to_string(), source: None }
}

fn collection_error(unit: u64) -> Diagnostic {
    Diagnostic::new(
        DiagnosticKind::CollectionError,
        "fixture could not be built".to_string(),
        Some("tests/test_a.py:12".to_string()),
        Subject::Unit(unit),
    )
}

fn registry(actions: &[u64]) -> Finalizers {
    let mut registry = Finalizers::new();
    for action in actions {
        registry.register(*action);
    }
    registry
}

#[test]
fn empty_module_runs_only_its_cleanup_report() {
    let module = CollectedModule::new();
    let mut context = ScriptedContext::new();
    let mut reporter = Announcer::new(CollectingReporter::new());
    let result = module.run_with_reporter(&mut context, &mut reporter);
    assert_eq!(module.total_test_cases(), 0);
    assert_eq!(result.total(), 0);
    assert!(result.diagnostics().is_empty());
    assert!(context.calls().is_empty());
    assert_eq!(reporter.sink().len(), 1);
    assert_eq!(
        reporter.sink().get(0),
        Some(Notification { subject: Subject::Module, outcome: Outcome::Passed })
    );
}

#[test]
fn three_units_one_prediagnosed_one_module_finalizer() {
    let d = collection_error(2);
    let mut module = CollectedModule::new();
    module.add_test_cases(vec![
        (TestCase::new(1, 101), None),
        (TestCase::new(2, 102), Some(d.clone())),
        (TestCase::new(3, 103), None),
    ]);
    module.add_finalizers(registry(&[900]));
    let mut context = ScriptedContext::new();
    let mut reporter = Announcer::new(CollectingReporter::new());
    let result = module.run_with_reporter(&mut context, &mut reporter);

    assert_eq!(result.total(), 3);
    assert_eq!(result.passed(), 2);
    assert_eq!(result.errored(), 1);
    assert_eq!(result.failed(), 0);
    assert_eq!(result.skipped(), 0);
    assert_eq!(result.diagnostics().len(), 1);
    assert!(same(&result.diagnostics()[0], &d));
    assert_eq!(context.count(Call::Finalizer(900)), 1);
    assert_eq!(context.count(Call::Body(102)), 0);
    assert_eq!(
        context.calls(),
        vec![Call::Body(101), Call::Body(103), Call::Finalizer(900)]
    );
    assert_eq!(reporter.sink().len(), 4);
    assert_eq!(
        reporter.sink().get(1),
        Some(Notification { subject: Subject::Unit(2), outcome: Outcome::Errored })
    );
    assert_eq!(
        reporter.sink().get(3),
        Some(Notification { subject: Subject::Module, outcome: Outcome::Passed })
    );
}

#[test]
fn failing_module_finalizer_is_isolated() {
    let mut module = CollectedModule::new();
    module.add_test_cases(vec![(TestCase::new(1, 101), None)]);
    module.add_finalizers(registry(&[900, 901, 902]));
    let mut context = ScriptedContext::new();
    context.raise_on(Call::Finalizer(901), raised(RaisedClass::Other, "socket already closed"));
    let mut reporter = Announcer::new(CollectingReporter::new());
    let result = module.run_with_reporter(&mut context, &mut reporter);

    assert_eq!(result.total(), 1);
    assert_eq!(result.passed(), 1);
    assert_eq!(result.diagnostics().len(), 1);
    let expected = Diagnostic::new(
        DiagnosticKind::FinalizerError,
        "socket already closed".to_string(),
        None,
        Subject::Module,
    );
    assert!(same(&result.diagnostics()[0], &expected));
    assert_eq!(
        context.calls(),
        vec![
            Call::Body(101),
            Call::Finalizer(902),
            Call::Finalizer(901),
            Call::Finalizer(900)
        ]
    );
    assert_eq!(
        reporter.sink().get(1),
        Some(Notification { subject: Subject::Module, outcome: Outcome::Errored })
    );
}

#[test]
fn total_equals_sum_of_counts_and_unit_count() {
    let mut module = CollectedModule::new();
    module.add_test_cases(vec![
        (TestCase::new(1, 1), None),
        (TestCase::new(2, 2), None),
        (TestCase::new(3, 3), None),
        (TestCase::new(4, 4), None),
        (TestCase::new(5, 5), Some(collection_error(5))),
    ]);
    let mut context = ScriptedContext::new();
    context.raise_on(Call::Body(2), raised(RaisedClass::Assertion, "1 != 2"));
    context.raise_on(Call::Body(3), raised(RaisedClass::SkipDirective, "not on this platform"));
    context.raise_on(Call::Body(4), raised(RaisedClass::Other, "KeyError: 'x'"));
    let mut reporter = Announcer::new(CollectingReporter::new());
    let before = module.total_test_cases();
    let result = module.run_with_reporter(&mut context, &mut reporter);

    assert_eq!(result.total(), before);
    assert_eq!(
        result.total(),
        result.passed() + result.failed() + result.errored() + result.skipped()
    );
    assert_eq!(result.passed(), 1);
    assert_eq!(result.failed(), 1);
    assert_eq!(result.skipped(), 1);
    assert_eq!(result.errored(), 2);
    let kinds: Vec<DiagnosticKind> = result.diagnostics().iter().map(|d| d.kind).collect();
    assert_eq!(
        kinds,
        vec![
            DiagnosticKind::AssertionFailure,
            DiagnosticKind::Skip,
            DiagnosticKind::RuntimeError,
            DiagnosticKind::CollectionError
        ]
    );
    assert_eq!(result.diagnostics()[0].message, "1 != 2");
    assert_eq!(result.diagnostics()[0].subject, Subject::Unit(2));
    assert_eq!(module.total_test_cases(), before);
}

#[test]
fn finalizers_run_once_when_all_pass() {
    let mut first = TestCase::new(1, 11);
    first.add_finalizer(21);
    first.add_finalizer(22);
    let mut second = TestCase::new(2, 12);
    second.add_finalizer(23);
    let mut module = CollectedModule::new();
    module.add_test_cases(vec![(first, None), (second, None)]);
    module.add_finalizers(registry(&[31]));
    let mut context = ScriptedContext::new();
    let mut reporter = Announcer::new(CollectingReporter::new());
    let result = module.run_with_reporter(&mut context, &mut reporter);
    assert!(result.diagnostics().is_empty());
    for action in [21, 22, 23, 31] {
        assert_eq!(context.count(Call::Finalizer(action)), 1);
    }
    assert_eq!(
        context.calls(),
        vec![
            Call::Body(11),
            Call::Finalizer(22),
            Call::Finalizer(21),
            Call::Body(12),
            Call::Finalizer(23),
            Call::Finalizer(31)
        ]
    );
}

#[test]
fn finalizers_run_once_when_some_fail() {
    let mut first = TestCase::new(1, 11);
    first.add_finalizer(21);
    first.add_finalizer(22);
    let mut second = TestCase::new(2, 12);
    second.add_finalizer(23);
    let mut module = CollectedModule::new();
    module.add_test_cases(vec![(first, None), (second, None)]);
    module.add_finalizers(registry(&[31]));
    let mut context = ScriptedContext::new();
    context.raise_on(Call::Body(11), raised(RaisedClass::Assertion, "expected 3"));
    context.raise_on(Call::Finalizer(22), raised(RaisedClass::Other, "cleanup broke"));
    let mut reporter = Announcer::new(CollectingReporter::new());
    let result = module.run_with_reporter(&mut context, &mut reporter);
    for action in [21, 22, 23, 31] {
        assert_eq!(context.count(Call::Finalizer(action)), 1);
    }
    assert_eq!(result.total(), 2);
    assert_eq!(result.failed(), 1);
    assert_eq!(result.passed(), 1);
    let kinds: Vec<DiagnosticKind> = result.diagnostics().iter().map(|d| d.kind).collect();
    assert_eq!(kinds, vec![DiagnosticKind::AssertionFailure, DiagnosticKind::FinalizerError]);
    assert_eq!(result.diagnostics()[1].subject, Subject::Unit(1));
    assert_eq!(result.diagnostics()[1].message, "cleanup broke");
}

#[test]
fn prediagnosed_unit_skips_body_but_runs_its_finalizers() {
    let d = collection_error(1);
    let mut unit = TestCase::new(1, 11);
    unit.add_finalizer(21);
    unit.add_finalizer(22);
    let mut context = ScriptedContext::new();
    context.raise_on(Call::Finalizer(21), raised(RaisedClass::Other, "temp dir busy"));
    let mut reporter = Announcer::new(CollectingReporter::new());
    let result = unit.run(&mut context, Some(d.clone()), &mut reporter);

    assert_eq!(context.count(Call::Body(11)), 0);
    assert_eq!(context.calls(), vec![Call::Finalizer(22), Call::Finalizer(21)]);
    assert_eq!(result.total(), 1);
    assert_eq!(result.errored(), 1);
    assert_eq!(result.diagnostics().len(), 2);
    assert!(same(&result.diagnostics()[0], &d));
    assert_eq!(result.diagnostics()[1].kind, DiagnosticKind::FinalizerError);
    assert_eq!(result.diagnostics()[1].message, "temp dir busy");
    assert_eq!(
        reporter.sink().get(0),
        Some(Notification { subject: Subject::Unit(1), outcome: Outcome::Errored })
    );
    assert_eq!(reporter.sink().get(1), None);
}

#[test]
fn module_finalizers_run_after_every_unit() {
    let mut first = TestCase::new(1, 11);
    first.add_finalizer(21);
    let mut second = TestCase::new(2, 12);
    second.add_finalizer(22);
    let mut module = CollectedModule::new();
    module.add_finalizers(registry(&[31, 32]));
    module.add_test_cases(vec![(first, None)]);
    module.add_test_cases(vec![(second, Some(collection_error(2)))]);
    let mut context = ScriptedContext::new();
    let mut reporter = Announcer::new(CollectingReporter::new());
    module.run_with_reporter(&mut context, &mut reporter);
    let calls = context.calls();
    assert_eq!(
        calls,
        vec![
            Call::Body(11),
            Call::Finalizer(21),
            Call::Finalizer(22),
            Call::Finalizer(32),
            Call::Finalizer(31)
        ]
    );
}

#[test]
fn add_finalizers_twice_equals_once_with_concatenation() {
    let mut twice = CollectedModule::new();
    twice.add_finalizers(registry(&[1, 2]));
    twice.add_finalizers(registry(&[3, 4, 5]));
    let mut once = CollectedModule::new();
    once.add_finalizers(registry(&[1, 2, 3, 4, 5]));
    assert_eq!(twice.finalizers().len(), 5);
    assert_eq!(once.finalizers().len(), 5);

    let mut context_twice = ScriptedContext::new();
    let mut context_once = ScriptedContext::new();
    let mut reporter = Announcer::new(CollectingReporter::new());
    twice.run_with_reporter(&mut context_twice, &mut reporter);
    once.run_with_reporter(&mut context_once, &mut reporter);
    assert_eq!(context_twice.calls(), context_once.calls());
    assert_eq!(
        context_once.calls(),
        vec![
            Call::Finalizer(5),
            Call::Finalizer(4),
            Call::Finalizer(3),
            Call::Finalizer(2),
            Call::Finalizer(1)
        ]
    );
}

#[test]
fn registry_runs_last_registered_first_and_collects_failures() {
    let mut own = registry(&[1, 2]);
    own.update(registry(&[3]));
    let mut context = ScriptedContext::new();
    context.raise_on(Call::Finalizer(3), raised(RaisedClass::Assertion, "first"));
    context.raise_on(Call::Finalizer(1), raised(RaisedClass::Other, "second"));
    let diagnostics = own.run(&mut context, Subject::Unit(9));
    assert_eq!(
        context.calls(),
        vec![Call::Finalizer(3), Call::Finalizer(2), Call::Finalizer(1)]
    );
    assert_eq!(diagnostics.len(), 2);
    assert_eq!(diagnostics[0].kind, DiagnosticKind::FinalizerError);
    assert_eq!(diagnostics[0].message, "first");
    assert_eq!(diagnostics[0].subject, Subject::Unit(9));
    assert_eq!(diagnostics[1].kind, DiagnosticKind::FinalizerError);
    assert_eq!(diagnostics[1].message, "second");
}

#[test]
fn scripted_context_answers_with_first_matching_rule() {
    let mut context = ScriptedContext::new();
    context.raise_on(Call::Body(1), raised(RaisedClass::Assertion, "one"));
    context.raise_on(Call::Body(1), raised(RaisedClass::Other, "two"));
    let first = context.invoke_body(1).unwrap();
    assert_eq!(first.class, RaisedClass::Assertion);
    assert_eq!(first.message, "one");
    assert!(context.invoke_body(2).is_none());
    assert!(context.invoke_finalizer(1).is_none());
    assert_eq!(context.count(Call::Body(1)), 1);
    assert_eq!(
        context.calls(),
        vec![Call::Body(1), Call::Body(2), Call::Finalizer(1)]
    );
}
