//! The module container: the test units of one module in execution order,
//! the module-scoped cleanup actions, and the run that brings them all to
//! their terminal states.

use vstd::prelude::*;
use crate::context::{
    calls_of, extends, fresh, lemma_calls_of_concat, lemma_extends_chain, Call, Event,
    ExecutionContext,
};
use crate::diagnostic::{Diagnostic, Outcome, Subject};
use crate::finalizers::{finalizer_calls, finalizer_diagnostics, Finalizers};
use crate::reporter::{Announcer, Notification, Reporter};
use crate::result::{ResultView, TestRunResult};
use crate::test_case::{unit_calls, unit_notification, unit_result, TestCase, TestCaseView};

verus! {

/// The mathematical content of a module.
pub struct ModuleView {
    /// The units with the diagnostics that exist already, in execution order.
    pub units: Seq<(TestCaseView, Option<Diagnostic>)>,
    /// The module-scoped cleanup actions, in registration order.
    pub finalizers: Seq<u64>,
}

/// The mathematical content of a list of units.
pub open spec fn units_view(units: Seq<(TestCase, Option<Diagnostic>)>) -> Seq<
    (TestCaseView, Option<Diagnostic>),
> {
    Seq::new(units.len(), |i: int| (units[i].0@, units[i].1))
}

/// The calls that running these units makes: those of each unit, in order.
pub open spec fn units_calls(units: Seq<(TestCaseView, Option<Diagnostic>)>) -> Seq<Call>
    decreases units.len(),
{
    if units.len() == 0 {
        Seq::empty()
    } else {
        units_calls(units.drop_last()) + unit_calls(units.last().0, units.last().1)
    }
}

/// Where, among the events of these units, those of the last unit begin.
pub open spec fn last_unit_start(
    units: Seq<(TestCaseView, Option<Diagnostic>)>,
    events: Seq<Event>,
) -> int
    recommends
        units.len() > 0,
{
    events.len() - unit_calls(units.last().0, units.last().1).len()
}

/// The aggregate of these units, given the events of their runs: the results
/// of the units merged in execution order.
pub open spec fn units_result(
    units: Seq<(TestCaseView, Option<Diagnostic>)>,
    events: Seq<Event>,
) -> ResultView
    decreases units.len(),
{
    if units.len() == 0 {
        ResultView::empty()
    } else {
        let start = last_unit_start(units, events);
        units_result(units.drop_last(), events.subrange(0, start)).merge(
            unit_result(
                units.last().0,
                units.last().1,
                events.subrange(start, events.len() as int),
            ),
        )
    }
}

/// What the reporter is told of these units, given the events of their
/// runs: one notification for each unit, in execution order.
pub open spec fn units_notifications(
    units: Seq<(TestCaseView, Option<Diagnostic>)>,
    events: Seq<Event>,
) -> Seq<Notification>
    decreases units.len(),
{
    if units.len() == 0 {
        Seq::empty()
    } else {
        let start = last_unit_start(units, events);
        units_notifications(units.drop_last(), events.subrange(0, start)).push(
            unit_notification(
                units.last().0,
                units.last().1,
                events.subrange(start, events.len() as int),
            ),
        )
    }
}

/// The calls that running a module makes: those of its units, then the
/// module-scoped cleanup actions, the last registered first.
pub open spec fn module_calls(module: ModuleView) -> Seq<Call> {
    units_calls(module.units) + finalizer_calls(module.finalizers)
}

/// The events of a module's run that belong to its units.
pub open spec fn module_unit_events(module: ModuleView, events: Seq<Event>) -> Seq<Event> {
    events.subrange(0, units_calls(module.units).len() as int)
}

/// The events of a module's run that belong to its module-scoped cleanup.
pub open spec fn module_cleanup_events(module: ModuleView, events: Seq<Event>) -> Seq<Event> {
    events.subrange(units_calls(module.units).len() as int, events.len() as int)
}

/// The aggregate of a module, given the events of its run: the aggregate of
/// its units, then the diagnostics of the module-scoped cleanup.
pub open spec fn module_result(module: ModuleView, events: Seq<Event>) -> ResultView {
    units_result(module.units, module_unit_events(module, events)).with_diagnostics(
        finalizer_diagnostics(Subject::Module, module_cleanup_events(module, events)),
    )
}

/// How a batch of cleanup calls is reported: as passed when none raised.
pub open spec fn cleanup_outcome(events: Seq<Event>) -> Outcome {
    if finalizer_diagnostics(Subject::Module, events).len() == 0 {
        Outcome::Passed
    } else {
        Outcome::Errored
    }
}

/// What the reporter is told during a module's run: one notification for
/// each unit, then one for the batch of module-scoped cleanup actions.
pub open spec fn module_notifications(module: ModuleView, events: Seq<Event>) -> Seq<
    Notification,
> {
    units_notifications(module.units, module_unit_events(module, events)).push(
        Notification {
            subject: Subject::Module,
            outcome: cleanup_outcome(module_cleanup_events(module, events)),
        },
    )
}

/// When each of these units is reported, counted in completed invocations
/// of a context that had completed `base` of them before the first unit:
/// right after the last call of the unit.
pub open spec fn units_moments(units: Seq<(TestCaseView, Option<Diagnostic>)>, base: nat) -> Seq<
    nat,
>
    decreases units.len(),
{
    if units.len() == 0 {
        Seq::empty()
    } else {
        units_moments(units.drop_last(), base).push(base + units_calls(units).len())
    }
}

/// When each notification of a module's run is handed over: each unit's
/// right after its last call, the batch's after the last call of all.
pub open spec fn module_moments(module: ModuleView, base: nat) -> Seq<nat> {
    units_moments(module.units, base).push(base + module_calls(module).len())
}

/// The aggregate of any units counts each of them once.
pub proof fn lemma_units_result_total(
    units: Seq<(TestCaseView, Option<Diagnostic>)>,
    events: Seq<Event>,
)
    ensures
        units_result(units, events).total() == units.len(),
    decreases units.len(),
{
    if units.len() > 0 {
        let start = last_unit_start(units, events);
        lemma_units_result_total(units.drop_last(), events.subrange(0, start));
    }
}

/// One more unit: what the run of the first `done + 1` units makes of the
/// events of the first `done` followed by those of the next.
proof fn lemma_next_unit(
    units: Seq<(TestCaseView, Option<Diagnostic>)>,
    done: int,
    earlier: Seq<Event>,
    latest: Seq<Event>,
)
    requires
        0 <= done < units.len(),
        calls_of(earlier) == units_calls(units.take(done)),
        calls_of(latest) == unit_calls(units[done].0, units[done].1),
    ensures
        calls_of(earlier + latest) == units_calls(units.take(done + 1)),
        units_result(units.take(done + 1), earlier + latest) == units_result(
            units.take(done),
            earlier,
        ).merge(unit_result(units[done].0, units[done].1, latest)),
        units_notifications(units.take(done + 1), earlier + latest) == units_notifications(
            units.take(done),
            earlier,
        ).push(unit_notification(units[done].0, units[done].1, latest)),
        forall|base: nat| #[trigger]
            units_moments(units.take(done + 1), base) == units_moments(
                units.take(done),
                base,
            ).push(base + earlier.len() + latest.len()),
{
    let next = units.take(done + 1);
    let all = earlier + latest;
    assert(next.drop_last() =~= units.take(done));
    assert(next.last() == units[done]);
    lemma_calls_of_concat(earlier, latest);
    assert(calls_of(latest).len() == latest.len());
    assert(last_unit_start(next, all) == earlier.len());
    assert(all.subrange(0, earlier.len() as int) =~= earlier);
    assert(all.subrange(earlier.len() as int, all.len() as int) =~= latest);
}

/// One module: its test units and its module-scoped cleanup actions.
#[derive(Debug)]
pub struct CollectedModule {
    test_cases: Vec<(TestCase, Option<Diagnostic>)>,
    finalizers: Finalizers,
}

impl View for CollectedModule {
    type V = ModuleView;

    closed spec fn view(&self) -> ModuleView {
        ModuleView { units: units_view(self.test_cases@), finalizers: self.finalizers@ }
    }
}

impl Default for CollectedModule {
    fn default() -> (res: Self)
        ensures
            res@ == (ModuleView { units: Seq::empty(), finalizers: Seq::empty() }),
    {
        CollectedModule::new()
    }
}

impl CollectedModule {
    /// A module with no units and no cleanup actions.
    pub fn new() -> (res: Self)
        ensures
            res@ == (ModuleView { units: Seq::empty(), finalizers: Seq::empty() }),
    {
        let res = CollectedModule { test_cases: Vec::new(), finalizers: Finalizers::new() };
        assert(res@.units =~= Seq::empty());
        res
    }

    /// The number of registered units.
    #[must_use]
    pub fn total_test_cases(&self) -> (res: usize)
        ensures
            res == self@.units.len(),
    {
        self.test_cases.len()
    }

    /// Appends units, each with the diagnostic that exists for it already,
    /// if any. The order of insertion is the order of execution.
    pub fn add_test_cases(&mut self, test_cases: Vec<(TestCase, Option<Diagnostic>)>)
        ensures
            final(self)@ == (ModuleView {
                units: old(self)@.units + units_view(test_cases@),
                ..old(self)@
            }),
    {
        let ghost added = test_cases@;
        let mut test_cases = test_cases;
        self.test_cases.append(&mut test_cases);
        assert(self@.units =~= old(self)@.units + units_view(added));
    }

    /// The module-scoped cleanup actions.
    #[must_use]
    pub fn finalizers(&self) -> (res: &Finalizers)
        ensures
            res@ == self@.finalizers,
    {
        &self.finalizers
    }

    /// Merges a registry into the module's own: its registrations come after
    /// those already here, in their own order.
    pub fn add_finalizers(&mut self, finalizers: Finalizers)
        ensures
            final(self)@ == (ModuleView {
                finalizers: old(self)@.finalizers + finalizers@,
                ..old(self)@
            }),
    {
        self.finalizers.update(finalizers);
    }

    /// Executes the module. Each unit in insertion order is brought to its
    /// terminal state (body or existing diagnostic, own cleanup, report) and
    /// folded into the aggregate; after the last unit the module-scoped
    /// cleanup actions run, their diagnostics are appended, and the reporter
    /// is told of the batch.
    pub fn run_with_reporter<C: ExecutionContext, R: Reporter>(
        &self,
        context: &mut C,
        reporter: &mut Announcer<R>,
    ) -> (res: TestRunResult)
        ensures
            extends(old(context).history(), final(context).history()),
            calls_of(fresh(old(context).history(), final(context).history())) == module_calls(
                self@,
            ),
            res@ == module_result(
                self@,
                fresh(old(context).history(), final(context).history()),
            ),
            res@.total() == self@.units.len(),
            res.wf(),
            final(reporter).notified() == old(reporter).notified() + module_notifications(
                self@,
                fresh(old(context).history(), final(context).history()),
            ),
            final(reporter).moments() == old(reporter).moments() + module_moments(
                self@,
                old(context).history().len(),
            ),
    {
        let ghost before = context.history();
        let ghost told = reporter.notified();
        let ghost stamped = reporter.moments();
        let ghost units = self@.units;
        let mut aggregate = TestRunResult::new();
        let mut i: usize = 0;
        proof {
            assert(before.subrange(0, before.len() as int) =~= before);
            assert(fresh(before, before) =~= Seq::<Event>::empty());
            assert(calls_of(fresh(before, before)) =~= units_calls(units.take(0)));
            assert(told =~= told + units_notifications(units.take(0), fresh(before, before)));
            assert(stamped =~= stamped + units_moments(units.take(0), before.len()));
        }
        while i < self.test_cases.len()
            invariant
                reporter.moments() == stamped + units_moments(units.take(i as int), before.len()),
                i <= self.test_cases.len(),
                units == self@.units,
                units.len() == self.test_cases@.len(),
                extends(before, context.history()),
                calls_of(fresh(before, context.history())) == units_calls(units.take(i as int)),
                aggregate@ == units_result(
                    units.take(i as int),
                    fresh(before, context.history()),
                ),
                aggregate@.total() == i,
                reporter.notified() == told + units_notifications(
                    units.take(i as int),
                    fresh(before, context.history()),
                ),
            decreases self.test_cases.len() - i,
        {
            let ghost current = context.history();
            let ghost heard = reporter.notified();
            let entry = &self.test_cases[i];
            let preexisting = match &entry.1 {
                Some(d) => Some(d.clone()),
                None => None,
            };
            let result = entry.0.run(context, preexisting, reporter);
            aggregate.update(&result);
            proof {
                let earlier = fresh(before, current);
                let latest = fresh(current, context.history());
                assert(units[i as int] == (entry.0@, entry.1));
                assert(preexisting == entry.1);
                lemma_extends_chain(before, current, context.history());
                lemma_next_unit(units, i as int, earlier, latest);
                assert(reporter.notified() =~= told + units_notifications(
                    units.take(i + 1),
                    earlier + latest,
                ));
                assert(calls_of(earlier).len() == earlier.len());
                assert(reporter.moments() =~= stamped + units_moments(
                    units.take(i + 1),
                    before.len(),
                ));
            }
            i = i + 1;
        }
        let ghost middle = context.history();
        let cleanup = self.finalizers.run(context, Subject::Module);
        let outcome = if cleanup.len() == 0 {
            Outcome::Passed
        } else {
            Outcome::Errored
        };
        aggregate.add_diagnostics(cleanup);
        reporter.report(Notification { subject: Subject::Module, outcome }, context);
        proof {
            let after = context.history();
            let events = fresh(before, after);
            let earlier = fresh(before, middle);
            let latest = fresh(middle, after);
            assert(units.take(i as int) =~= units);
            lemma_extends_chain(before, middle, after);
            lemma_calls_of_concat(earlier, latest);
            assert(calls_of(earlier).len() == earlier.len());
            assert(module_unit_events(self@, events) =~= earlier);
            assert(module_cleanup_events(self@, events) =~= latest);
            assert(reporter.notified() =~= told + module_notifications(self@, events));
            assert(calls_of(events).len() == events.len());
            assert(reporter.moments() =~= stamped + module_moments(self@, before.len()));
        }
        aggregate
    }
}

} // verus!
