//! What holds of every run, stated over the models that the contracts use.

use vstd::prelude::*;
use crate::context::{Call, Event};
use crate::diagnostic::{Diagnostic, Subject};
use crate::finalizers::{finalizer_calls, finalizer_diagnostics};
use crate::module::{
    lemma_units_result_total, module_calls, module_cleanup_events, module_moments,
    module_result, module_unit_events, units_calls, units_moments, ModuleView,
};
use crate::result::ResultView;
use crate::test_case::{unit_calls, unit_cleanup, unit_result, TestCaseView};

verus! {

/// The aggregate of a module's run considers exactly as many units as the
/// module holds, each under one of the four outcomes, whatever happened
/// during the run.
pub proof fn law_total_is_unit_count(module: ModuleView, events: Seq<Event>)
    ensures
        module_result(module, events).total() == module.units.len(),
        module_result(module, events).total() == module_result(module, events).passed
            + module_result(module, events).failed + module_result(module, events).errored
            + module_result(module, events).skipped,
{
    lemma_units_result_total(module.units, module_unit_events(module, events));
}

/// Running a registry calls every registration exactly once: the schedule
/// is as long as the registry, and the registration at position `i` is
/// called at position `len - 1 - i`, so the last registered runs first.
pub proof fn law_registry_runs_each_once(actions: Seq<u64>)
    ensures
        finalizer_calls(actions).len() == actions.len(),
        forall|i: int|
            0 <= i < actions.len() ==> #[trigger] finalizer_calls(actions)[actions.len() - 1 - i]
                == Call::Finalizer(actions[i]),
{
}

/// A failing cleanup action skips no other: the schedule of a registry does
/// not depend on what any call raised, and a batch of events yields one
/// diagnostic for each call that raised, no more.
pub proof fn law_cleanup_failures_isolated(subject: Subject, events: Seq<Event>)
    ensures
        finalizer_diagnostics(subject, events).len() == events.filter(
            |e: Event| e.raised.is_some(),
        ).len(),
    decreases events.len(),
{
    reveal(Seq::filter);
    if events.len() > 0 {
        law_cleanup_failures_isolated(subject, events.drop_last());
    }
}

/// A unit's own cleanup actions are all called, each once and in reverse
/// order of registration, at the end of the unit's calls, whether its body
/// ran or a diagnostic existed already.
pub proof fn law_unit_cleanup_always_runs(unit: TestCaseView, preexisting: Option<Diagnostic>)
    ensures
        unit_calls(unit, preexisting).len() >= unit.finalizers.len(),
        unit_calls(unit, preexisting).subrange(
            unit_calls(unit, preexisting).len() - unit.finalizers.len(),
            unit_calls(unit, preexisting).len() as int,
        ) == finalizer_calls(unit.finalizers),
{
    let calls = unit_calls(unit, preexisting);
    assert(calls.subrange(calls.len() - unit.finalizers.len(), calls.len() as int)
        =~= finalizer_calls(unit.finalizers));
}

/// A unit with a diagnostic that exists already never has its body invoked,
/// and contributes exactly that diagnostic followed by the diagnostics of
/// its own cleanup actions.
pub proof fn law_prediagnosed_unit(unit: TestCaseView, diagnostic: Diagnostic, events: Seq<Event>)
    ensures
        forall|i: int|
            0 <= i < unit_calls(unit, Some(diagnostic)).len() ==> !(#[trigger] unit_calls(
                unit,
                Some(diagnostic),
            )[i] is Body),
        unit_result(unit, Some(diagnostic), events).diagnostics == seq![diagnostic]
            + finalizer_diagnostics(Subject::Unit(unit.id), events),
        unit_result(unit, Some(diagnostic), events).total() == 1,
{
    assert(unit_cleanup(Some(diagnostic), events) == events);
    assert(unit_result(unit, Some(diagnostic), events).diagnostics =~= seq![diagnostic]
        + finalizer_diagnostics(Subject::Unit(unit.id), events));
}

/// The calls of the first `count` units open the calls of all the units.
pub proof fn lemma_units_calls_prefix(
    units: Seq<(TestCaseView, Option<Diagnostic>)>,
    count: int,
)
    requires
        0 <= count <= units.len(),
    ensures
        units_calls(units.take(count)).len() <= units_calls(units).len(),
        units_calls(units).subrange(0, units_calls(units.take(count)).len() as int)
            == units_calls(units.take(count)),
    decreases units.len(),
{
    let all = units_calls(units);
    if count == units.len() {
        assert(units.take(count) =~= units);
        assert(all.subrange(0, all.len() as int) =~= all);
    } else {
        let shorter = units.drop_last();
        lemma_units_calls_prefix(shorter, count);
        assert(shorter.take(count) =~= units.take(count));
        let part = units_calls(units.take(count));
        assert(all.subrange(0, part.len() as int) =~= units_calls(shorter).subrange(
            0,
            part.len() as int,
        ));
    }
}

/// Units run one after the other and the module-scoped cleanup comes last:
/// in the calls of a module, those of the unit at `index` stand together,
/// right after those of the units before it, and all of them stand before
/// the calls of the module-scoped cleanup actions, which end the run.
pub proof fn law_module_cleanup_runs_last(module: ModuleView, index: int)
    requires
        0 <= index < module.units.len(),
    ensures
        ({
            let start = units_calls(module.units.take(index)).len() as int;
            let end = units_calls(module.units.take(index + 1)).len() as int;
            let cleanup = units_calls(module.units).len() as int;
            &&& start <= end <= cleanup <= module_calls(module).len()
            &&& module_calls(module).subrange(start, end) == unit_calls(
                module.units[index].0,
                module.units[index].1,
            )
            &&& module_calls(module).subrange(cleanup, module_calls(module).len() as int)
                == finalizer_calls(module.finalizers)
        }),
{
    let units = module.units;
    let all = module_calls(module);
    let before = units_calls(units.take(index));
    let through = units_calls(units.take(index + 1));
    let own = unit_calls(units[index].0, units[index].1);
    assert(units.take(index + 1).drop_last() =~= units.take(index));
    assert(units.take(index + 1).last() == units[index]);
    assert(through == before + own);
    lemma_units_calls_prefix(units, index + 1);
    let cleanup = units_calls(units).len() as int;
    assert(all.subrange(before.len() as int, through.len() as int) =~= units_calls(
        units,
    ).subrange(0, through.len() as int).subrange(before.len() as int, through.len() as int));
    assert(through.subrange(before.len() as int, through.len() as int) =~= own);
    assert(all.subrange(cleanup, all.len() as int) =~= finalizer_calls(module.finalizers));
}

/// There is one moment of reporting for each unit.
pub proof fn lemma_units_moments_len(units: Seq<(TestCaseView, Option<Diagnostic>)>, base: nat)
    ensures
        units_moments(units, base).len() == units.len(),
    decreases units.len(),
{
    if units.len() > 0 {
        lemma_units_moments_len(units.drop_last(), base);
    }
}

/// Every unit is reported right after its last call.
pub proof fn lemma_units_moments(
    units: Seq<(TestCaseView, Option<Diagnostic>)>,
    base: nat,
    index: int,
)
    requires
        0 <= index < units.len(),
    ensures
        units_moments(units, base).len() == units.len(),
        units_moments(units, base)[index] == base + units_calls(units.take(index + 1)).len(),
    decreases units.len(),
{
    let shorter = units.drop_last();
    lemma_units_moments_len(units, base);
    lemma_units_moments_len(shorter, base);
    if index == units.len() - 1 {
        assert(units.take(index + 1) =~= units);
    } else {
        lemma_units_moments(shorter, base, index);
        assert(shorter.take(index + 1) =~= units.take(index + 1));
    }
}

/// Outcomes are streamed, and a unit is reported only once it is finalized:
/// during a module's run the reporter hears of the unit at `index` when the
/// unit's body and its own cleanup actions have completed and before any
/// later call is made; it hears of the module-scoped cleanup last, when
/// every call of the run has completed.
pub proof fn law_reported_when_finalized(module: ModuleView, base: nat, index: int)
    requires
        0 <= index < module.units.len(),
    ensures
        module_moments(module, base).len() == module.units.len() + 1,
        module_moments(module, base)[index] == base + units_calls(
            module.units.take(index + 1),
        ).len(),
        module_moments(module, base).last() == base + module_calls(module).len(),
{
    lemma_units_moments(module.units, base, index);
}

/// Merging two registries into a module one after the other leaves the same
/// registry, and so the same order of execution, as merging the first
/// followed by the second in one step.
pub proof fn law_add_finalizers_twice(own: Seq<u64>, first: Seq<u64>, second: Seq<u64>)
    ensures
        (own + first) + second == own + (first + second),
        finalizer_calls((own + first) + second) == finalizer_calls(own + (first + second)),
{
    assert((own + first) + second =~= own + (first + second));
}

/// Merging aggregates is associative.
pub proof fn law_merge_associative(a: ResultView, b: ResultView, c: ResultView)
    ensures
        a.merge(b).merge(c) == a.merge(b.merge(c)),
{
    assert(a.merge(b).merge(c).diagnostics =~= a.merge(b.merge(c)).diagnostics);
}

/// The counts of a merged aggregate do not depend on the direction of the
/// merge; only the order of the diagnostics does.
pub proof fn law_merge_counts_commute(a: ResultView, b: ResultView)
    ensures
        a.merge(b).passed == b.merge(a).passed,
        a.merge(b).failed == b.merge(a).failed,
        a.merge(b).errored == b.merge(a).errored,
        a.merge(b).skipped == b.merge(a).skipped,
        a.merge(b).total() == a.total() + b.total(),
        a.merge(b).diagnostics.len() == b.merge(a).diagnostics.len(),
{
}

/// Merging with the aggregate of no work changes nothing.
pub proof fn law_merge_empty(a: ResultView)
    ensures
        a.merge(ResultView::empty()) == a,
        ResultView::empty().merge(a) == a,
{
    assert(a.merge(ResultView::empty()).diagnostics =~= a.diagnostics);
    assert(ResultView::empty().merge(a).diagnostics =~= a.diagnostics);
}

/// The diagnostics of a module's run are those of its units followed by
/// those of its module-scoped cleanup, one for each cleanup call that
/// raised.
pub proof fn law_module_diagnostics_end_with_cleanup(module: ModuleView, events: Seq<Event>)
    ensures
        module_result(module, events).diagnostics.len() >= finalizer_diagnostics(
            Subject::Module,
            module_cleanup_events(module, events),
        ).len(),
        module_result(module, events).diagnostics.subrange(
            module_result(module, events).diagnostics.len() - finalizer_diagnostics(
                Subject::Module,
                module_cleanup_events(module, events),
            ).len(),
            module_result(module, events).diagnostics.len() as int,
        ) == finalizer_diagnostics(Subject::Module, module_cleanup_events(module, events)),
{
    let all = module_result(module, events).diagnostics;
    let last = finalizer_diagnostics(Subject::Module, module_cleanup_events(module, events));
    assert(all.subrange(all.len() - last.len(), all.len() as int) =~= last);
}

} // verus!
