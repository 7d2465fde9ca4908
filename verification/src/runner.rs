//! The runner: modules run one after the other, their aggregates merged in
//! the order of completion into the aggregate of the session.

use vstd::prelude::*;
use crate::context::{
    calls_of, extends, fresh, lemma_calls_of_concat, lemma_extends_chain, Call, Event,
    ExecutionContext,
};
use crate::module::{
    module_calls, module_moments, module_notifications, module_result, CollectedModule,
    ModuleView,
};
use crate::reporter::{Announcer, Notification, Reporter};
use crate::result::{ResultView, TestRunResult};

verus! {

/// The mathematical content of a list of modules.
pub open spec fn modules_view(modules: Seq<CollectedModule>) -> Seq<ModuleView> {
    Seq::new(modules.len(), |i: int| modules[i]@)
}

/// The number of test units in these modules.
pub open spec fn session_units(modules: Seq<ModuleView>) -> nat
    decreases modules.len(),
{
    if modules.len() == 0 {
        0
    } else {
        session_units(modules.drop_last()) + modules.last().units.len()
    }
}

/// The calls that running these modules makes: those of each, in order.
pub open spec fn session_calls(modules: Seq<ModuleView>) -> Seq<Call>
    decreases modules.len(),
{
    if modules.len() == 0 {
        Seq::empty()
    } else {
        session_calls(modules.drop_last()) + module_calls(modules.last())
    }
}

/// Where, among the events of these modules, those of the last one begin.
pub open spec fn last_module_start(modules: Seq<ModuleView>, events: Seq<Event>) -> int
    recommends
        modules.len() > 0,
{
    events.len() - module_calls(modules.last()).len()
}

/// The aggregate of a session, given the events of its run: the aggregates
/// of the modules merged in the order in which they ran.
pub open spec fn session_result(modules: Seq<ModuleView>, events: Seq<Event>) -> ResultView
    decreases modules.len(),
{
    if modules.len() == 0 {
        ResultView::empty()
    } else {
        let start = last_module_start(modules, events);
        session_result(modules.drop_last(), events.subrange(0, start)).merge(
            module_result(modules.last(), events.subrange(start, events.len() as int)),
        )
    }
}

/// What the reporter is told during a session, given the events of its run.
pub open spec fn session_notifications(modules: Seq<ModuleView>, events: Seq<Event>) -> Seq<
    Notification,
>
    decreases modules.len(),
{
    if modules.len() == 0 {
        Seq::empty()
    } else {
        let start = last_module_start(modules, events);
        session_notifications(modules.drop_last(), events.subrange(0, start))
            + module_notifications(modules.last(), events.subrange(start, events.len() as int))
    }
}

/// When each notification of a session is handed over, counted in completed
/// invocations of a context that had completed `base` of them before the
/// first module.
pub open spec fn session_moments(modules: Seq<ModuleView>, base: nat) -> Seq<nat>
    decreases modules.len(),
{
    if modules.len() == 0 {
        Seq::empty()
    } else {
        session_moments(modules.drop_last(), base) + module_moments(
            modules.last(),
            base + session_calls(modules.drop_last()).len(),
        )
    }
}

/// The first modules of a session hold no more units than all of them.
pub proof fn lemma_session_units_prefix(modules: Seq<ModuleView>, count: int)
    requires
        0 <= count <= modules.len(),
    ensures
        session_units(modules.take(count)) <= session_units(modules),
    decreases modules.len(),
{
    if count == modules.len() {
        assert(modules.take(count) =~= modules);
    } else {
        lemma_session_units_prefix(modules.drop_last(), count);
        assert(modules.drop_last().take(count) =~= modules.take(count));
    }
}

/// One more module: what the session of the first `done + 1` modules makes
/// of the events of the first `done` followed by those of the next.
proof fn lemma_next_module(
    modules: Seq<ModuleView>,
    done: int,
    earlier: Seq<Event>,
    latest: Seq<Event>,
)
    requires
        0 <= done < modules.len(),
        calls_of(earlier) == session_calls(modules.take(done)),
        calls_of(latest) == module_calls(modules[done]),
    ensures
        calls_of(earlier + latest) == session_calls(modules.take(done + 1)),
        session_units(modules.take(done + 1)) == session_units(modules.take(done))
            + modules[done].units.len(),
        session_result(modules.take(done + 1), earlier + latest) == session_result(
            modules.take(done),
            earlier,
        ).merge(module_result(modules[done], latest)),
        session_notifications(modules.take(done + 1), earlier + latest)
            == session_notifications(modules.take(done), earlier) + module_notifications(
            modules[done],
            latest,
        ),
        forall|base: nat| #[trigger]
            session_moments(modules.take(done + 1), base) == session_moments(
                modules.take(done),
                base,
            ) + module_moments(modules[done], base + earlier.len()),
{
    let next = modules.take(done + 1);
    let all = earlier + latest;
    assert(next.drop_last() =~= modules.take(done));
    assert(next.last() == modules[done]);
    lemma_calls_of_concat(earlier, latest);
    assert(calls_of(latest).len() == latest.len());
    assert(last_module_start(next, all) == earlier.len());
    assert(all.subrange(0, earlier.len() as int) =~= earlier);
    assert(all.subrange(earlier.len() as int, all.len() as int) =~= latest);
}

/// Composes module runs into a session.
pub struct TestRunner {}

impl TestRunner {
    /// The number of test units in `modules`, or `None` where it does not
    /// fit the machine's word.
    pub fn count_units(modules: &Vec<CollectedModule>) -> (res: Option<usize>)
        ensures
            session_units(modules_view(modules@)) <= usize::MAX ==> res == Some(
                session_units(modules_view(modules@)) as usize,
            ),
            session_units(modules_view(modules@)) > usize::MAX ==> res.is_none(),
    {
        let ghost views = modules_view(modules@);
        let mut count: usize = 0;
        let mut i: usize = 0;
        while i < modules.len()
            invariant
                i <= modules.len(),
                views == modules_view(modules@),
                count == session_units(views.take(i as int)),
            decreases modules.len() - i,
        {
            let units = modules[i].total_test_cases();
            proof {
                assert(views.take(i + 1).drop_last() =~= views.take(i as int));
                assert(views.take(i + 1).last() == modules@[i as int]@);
                lemma_session_units_prefix(views, i + 1);
            }
            if units > usize::MAX - count {
                return None;
            }
            count = count + units;
            i = i + 1;
        }
        assert(views.take(i as int) =~= views);
        Some(count)
    }

    /// Runs the modules in order and merges their aggregates in the order
    /// of completion. Nothing else happens between two modules.
    pub fn run<C: ExecutionContext, R: Reporter>(
        modules: &Vec<CollectedModule>,
        context: &mut C,
        reporter: &mut Announcer<R>,
    ) -> (res: TestRunResult)
        requires
            session_units(modules_view(modules@)) <= usize::MAX,
        ensures
            extends(old(context).history(), final(context).history()),
            calls_of(fresh(old(context).history(), final(context).history())) == session_calls(
                modules_view(modules@),
            ),
            res@ == session_result(
                modules_view(modules@),
                fresh(old(context).history(), final(context).history()),
            ),
            res@.total() == session_units(modules_view(modules@)),
            res.wf(),
            final(reporter).notified() == old(reporter).notified() + session_notifications(
                modules_view(modules@),
                fresh(old(context).history(), final(context).history()),
            ),
            final(reporter).moments() == old(reporter).moments() + session_moments(
                modules_view(modules@),
                old(context).history().len(),
            ),
    {
        let ghost before = context.history();
        let ghost told = reporter.notified();
        let ghost stamped = reporter.moments();
        let ghost views = modules_view(modules@);
        let mut aggregate = TestRunResult::new();
        let mut i: usize = 0;
        proof {
            assert(before.subrange(0, before.len() as int) =~= before);
            assert(fresh(before, before) =~= Seq::<Event>::empty());
            assert(calls_of(fresh(before, before)) =~= session_calls(views.take(0)));
            assert(told =~= told + session_notifications(views.take(0), fresh(before, before)));
            assert(stamped =~= stamped + session_moments(views.take(0), before.len()));
        }
        while i < modules.len()
            invariant
                reporter.moments() == stamped + session_moments(
                    views.take(i as int),
                    before.len(),
                ),
                i <= modules.len(),
                views == modules_view(modules@),
                session_units(views) <= usize::MAX,
                extends(before, context.history()),
                calls_of(fresh(before, context.history())) == session_calls(
                    views.take(i as int),
                ),
                aggregate@ == session_result(
                    views.take(i as int),
                    fresh(before, context.history()),
                ),
                aggregate@.total() == session_units(views.take(i as int)),
                reporter.notified() == told + session_notifications(
                    views.take(i as int),
                    fresh(before, context.history()),
                ),
            decreases modules.len() - i,
        {
            let ghost current = context.history();
            let result = modules[i].run_with_reporter(context, reporter);
            proof {
                let earlier = fresh(before, current);
                let latest = fresh(current, context.history());
                assert(views[i as int] == modules@[i as int]@);
                lemma_extends_chain(before, current, context.history());
                lemma_next_module(views, i as int, earlier, latest);
                lemma_session_units_prefix(views, i + 1);
                assert(reporter.notified() =~= told + session_notifications(
                    views.take(i + 1),
                    earlier + latest,
                ));
                assert(calls_of(earlier).len() == earlier.len());
                assert(current.len() == before.len() + earlier.len());
                assert(reporter.moments() =~= stamped + session_moments(
                    views.take(i + 1),
                    before.len(),
                ));
            }
            aggregate.update(&result);
            i = i + 1;
        }
        assert(views.take(i as int) =~= views);
        aggregate
    }

    /// Runs the modules as `run` does, unless their units are too many to
    /// count in the machine's word: then nothing is run and `None` comes
    /// back.
    pub fn run_checked<C: ExecutionContext, R: Reporter>(
        modules: &Vec<CollectedModule>,
        context: &mut C,
        reporter: &mut Announcer<R>,
    ) -> (res: Option<TestRunResult>)
        ensures
            extends(old(context).history(), final(context).history()),
            res.is_some() <==> session_units(modules_view(modules@)) <= usize::MAX,
            res.is_none() ==> final(context).history() == old(context).history(),
            res.is_none() ==> final(reporter).notified() == old(reporter).notified(),
            res.is_none() ==> final(reporter).moments() == old(reporter).moments(),
            res.is_some() ==> final(reporter).moments() == old(reporter).moments()
                + session_moments(modules_view(modules@), old(context).history().len()),
            res.is_some() ==> calls_of(fresh(old(context).history(), final(context).history()))
                == session_calls(modules_view(modules@)),
            res.is_some() ==> res.unwrap()@ == session_result(
                modules_view(modules@),
                fresh(old(context).history(), final(context).history()),
            ),
            res.is_some() ==> res.unwrap()@.total() == session_units(modules_view(modules@)),
            res.is_some() ==> final(reporter).notified() == old(reporter).notified()
                + session_notifications(
                modules_view(modules@),
                fresh(old(context).history(), final(context).history()),
            ),
    {
        match TestRunner::count_units(modules) {
            Some(_) => Some(TestRunner::run(modules, context, reporter)),
            None => {
                assert(context.history().subrange(0, context.history().len() as int)
                    =~= context.history());
                None
            },
        }
    }
}

} // verus!
