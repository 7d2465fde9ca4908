//! The test unit: one executable test with its own cleanup actions.

use vstd::prelude::*;
use crate::context::{
    calls_of, extends, fresh, lemma_calls_of_concat, lemma_extends_chain, Call, Event,
    ExecutionContext,
};
use crate::diagnostic::{body_diagnostic, outcome_of, Diagnostic, Outcome, Subject};
use crate::finalizers::{finalizer_calls, finalizer_diagnostics, Finalizers};
use crate::reporter::{Announcer, Notification, Reporter};
use crate::result::{ResultView, TestRunResult};

verus! {

/// The mathematical content of a test unit.
pub struct TestCaseView {
    /// The unit's identity, unique within its module.
    pub id: u64,
    /// The reference by which an execution context finds the body.
    pub body: u64,
    /// The unit's own cleanup actions, in registration order.
    pub finalizers: Seq<u64>,
}

/// The calls that running a unit makes: its body, unless a diagnostic exists
/// already, and then its own cleanup actions, the last registered first.
pub open spec fn unit_calls(unit: TestCaseView, preexisting: Option<Diagnostic>) -> Seq<Call> {
    if preexisting.is_some() {
        finalizer_calls(unit.finalizers)
    } else {
        seq![Call::Body(unit.body)] + finalizer_calls(unit.finalizers)
    }
}

/// The unit's outcome diagnostic: the one that existed already, unchanged,
/// or else what its body's result is classified as.
pub open spec fn unit_diagnostic(
    unit: TestCaseView,
    preexisting: Option<Diagnostic>,
    events: Seq<Event>,
) -> Option<Diagnostic> {
    match preexisting {
        Some(d) => Some(d),
        None => body_diagnostic(unit.id, events[0].raised),
    }
}

/// The part of a unit's events that belongs to its cleanup actions.
pub open spec fn unit_cleanup(preexisting: Option<Diagnostic>, events: Seq<Event>) -> Seq<Event> {
    if preexisting.is_some() {
        events
    } else {
        events.subrange(1, events.len() as int)
    }
}

/// A diagnostic as a list: empty for none.
pub open spec fn listed(diagnostic: Option<Diagnostic>) -> Seq<Diagnostic> {
    match diagnostic {
        Some(d) => seq![d],
        None => Seq::empty(),
    }
}

/// The result of one unit, given the events of its run: the unit counted
/// once under its outcome, its outcome diagnostic if there is one, then the
/// diagnostics of its cleanup actions.
pub open spec fn unit_result(
    unit: TestCaseView,
    preexisting: Option<Diagnostic>,
    events: Seq<Event>,
) -> ResultView {
    let diagnostic = unit_diagnostic(unit, preexisting, events);
    ResultView::empty().record(outcome_of(diagnostic)).with_diagnostics(
        listed(diagnostic),
    ).with_diagnostics(
        finalizer_diagnostics(Subject::Unit(unit.id), unit_cleanup(preexisting, events)),
    )
}

/// What the reporter is told of one unit, given the events of its run.
pub open spec fn unit_notification(
    unit: TestCaseView,
    preexisting: Option<Diagnostic>,
    events: Seq<Event>,
) -> Notification {
    Notification {
        subject: Subject::Unit(unit.id),
        outcome: outcome_of(unit_diagnostic(unit, preexisting, events)),
    }
}

/// One executable test.
#[derive(Debug)]
pub struct TestCase {
    id: u64,
    body: u64,
    finalizers: Finalizers,
}

impl View for TestCase {
    type V = TestCaseView;

    closed spec fn view(&self) -> TestCaseView {
        TestCaseView { id: self.id, body: self.body, finalizers: self.finalizers@ }
    }
}

impl TestCase {
    /// A unit with no cleanup actions yet.
    pub fn new(id: u64, body: u64) -> (res: Self)
        ensures
            res@ == (TestCaseView { id, body, finalizers: Seq::empty() }),
    {
        TestCase { id, body, finalizers: Finalizers::new() }
    }

    /// The unit's identity.
    pub fn id(&self) -> (res: u64)
        ensures
            res == self@.id,
    {
        self.id
    }

    /// The reference to the unit's body.
    pub fn body(&self) -> (res: u64)
        ensures
            res == self@.body,
    {
        self.body
    }

    /// The unit's own cleanup actions.
    pub fn finalizers(&self) -> (res: &Finalizers)
        ensures
            res@ == self@.finalizers,
    {
        &self.finalizers
    }

    /// Registers one cleanup action of the unit's own, after those already
    /// registered.
    pub fn add_finalizer(&mut self, action: u64)
        ensures
            final(self)@ == (TestCaseView {
                finalizers: old(self)@.finalizers.push(action),
                ..old(self)@
            }),
    {
        self.finalizers.register(action);
    }

    /// Brings the unit to its terminal state. With a diagnostic that exists
    /// already the body is not invoked and that diagnostic is the outcome;
    /// otherwise the body is invoked once and its result classified. Either
    /// way the unit's own cleanup actions run next, and then the reporter is
    /// told the outcome.
    pub fn run<C: ExecutionContext, R: Reporter>(
        &self,
        context: &mut C,
        preexisting: Option<Diagnostic>,
        reporter: &mut Announcer<R>,
    ) -> (res: TestRunResult)
        ensures
            extends(old(context).history(), final(context).history()),
            calls_of(fresh(old(context).history(), final(context).history())) == unit_calls(
                self@,
                preexisting,
            ),
            res@ == unit_result(
                self@,
                preexisting,
                fresh(old(context).history(), final(context).history()),
            ),
            res@.total() == 1,
            final(reporter).notified() == old(reporter).notified().push(
                unit_notification(
                    self@,
                    preexisting,
                    fresh(old(context).history(), final(context).history()),
                ),
            ),
            final(reporter).moments() == old(reporter).moments().push(
                final(context).history().len(),
            ),
    {
        let ghost before = context.history();
        assert(before.subrange(0, before.len() as int) =~= before);
        let diagnostic = match preexisting {
            Some(d) => Some(d),
            None => {
                let raised = context.invoke_body(self.body);
                Diagnostic::classify(self.id, raised)
            },
        };
        let ghost middle = context.history();
        let outcome = match &diagnostic {
            Some(d) => d.kind.outcome(),
            None => Outcome::Passed,
        };
        let mut res = TestRunResult::new();
        res.record(outcome);
        match diagnostic {
            Some(d) => {
                res.add_diagnostic(d);
            },
            None => {},
        }
        let cleanup = self.finalizers.run(context, Subject::Unit(self.id));
        res.add_diagnostics(cleanup);
        reporter.report(Notification { subject: Subject::Unit(self.id), outcome }, context);
        proof {
            let after = context.history();
            let events = fresh(before, after);
            assert(middle.subrange(0, before.len() as int) =~= before);
            lemma_extends_chain(before, middle, after);
            lemma_calls_of_concat(fresh(before, middle), fresh(middle, after));
            if preexisting.is_some() {
                assert(fresh(before, middle) =~= Seq::<Event>::empty());
                assert(events =~= fresh(middle, after));
                assert(calls_of(events) =~= unit_calls(self@, preexisting));
            } else {
                assert(fresh(before, middle) =~= seq![middle.last()]);
                assert(calls_of(fresh(before, middle)) =~= seq![Call::Body(self.body)]);
                assert(unit_cleanup(preexisting, events) =~= fresh(middle, after));
                assert(events[0] == middle.last());
            }
            assert(res@.diagnostics =~= unit_result(self@, preexisting, events).diagnostics);
        }
        res
    }
}

} // verus!
