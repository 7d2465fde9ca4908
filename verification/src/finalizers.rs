//! The finalizer registry: cleanup actions in registration order, run last
//! registered first, each failure caught and turned into one diagnostic.

use vstd::prelude::*;
use crate::context::{calls_of, extends, fresh, lemma_extends_push, Call, Event, ExecutionContext};
use crate::diagnostic::{finalizer_diagnostic, Diagnostic, Subject};

verus! {

/// The calls that running a registry makes: one per registration, the last
/// registered first.
pub open spec fn finalizer_calls(actions: Seq<u64>) -> Seq<Call> {
    Seq::new(actions.len(), |i: int| Call::Finalizer(actions[actions.len() - 1 - i]))
}

/// The diagnostics of a batch of cleanup calls: one for each call that
/// raised, in the order of the calls.
pub open spec fn finalizer_diagnostics(subject: Subject, events: Seq<Event>) -> Seq<Diagnostic>
    decreases events.len(),
{
    if events.len() == 0 {
        Seq::empty()
    } else {
        let earlier = finalizer_diagnostics(subject, events.drop_last());
        match events.last().raised {
            Some(r) => earlier.push(finalizer_diagnostic(subject, r)),
            None => earlier,
        }
    }
}

/// An ordered collection of references to cleanup actions.
#[derive(Debug)]
pub struct Finalizers {
    actions: Vec<u64>,
}

impl View for Finalizers {
    type V = Seq<u64>;

    closed spec fn view(&self) -> Seq<u64> {
        self.actions@
    }
}

impl Default for Finalizers {
    fn default() -> (res: Self)
        ensures
            res@ == Seq::<u64>::empty(),
    {
        Finalizers::new()
    }
}

impl Finalizers {
    /// A registry with nothing registered.
    pub fn new() -> (res: Self)
        ensures
            res@ == Seq::<u64>::empty(),
    {
        Finalizers { actions: Vec::new() }
    }

    /// The number of registrations.
    pub fn len(&self) -> (res: usize)
        ensures
            res == self@.len(),
    {
        self.actions.len()
    }

    /// Registers one more cleanup action, after those already registered.
    pub fn register(&mut self, action: u64)
        ensures
            final(self)@ == old(self)@.push(action),
    {
        self.actions.push(action);
    }

    /// Absorbs the registrations of `other`, after those already here and in
    /// their own order.
    pub fn update(&mut self, other: Finalizers)
        ensures
            final(self)@ == old(self)@ + other@,
    {
        let mut other = other;
        self.actions.append(&mut other.actions);
    }

    /// Runs every registered action once through `context`, the last
    /// registered first. A failing action does not stop the others; each
    /// failure becomes one `FinalizerError` diagnostic concerning `subject`.
    pub fn run<C: ExecutionContext>(&self, context: &mut C, subject: Subject) -> (res: Vec<
        Diagnostic,
    >)
        ensures
            extends(old(context).history(), final(context).history()),
            calls_of(fresh(old(context).history(), final(context).history())) == finalizer_calls(
                self@,
            ),
            res@ == finalizer_diagnostics(
                subject,
                fresh(old(context).history(), final(context).history()),
            ),
    {
        let ghost before = context.history();
        let n: usize = self.actions.len();
        let mut res: Vec<Diagnostic> = Vec::new();
        let mut left: usize = n;
        assert(fresh(before, before) =~= Seq::<Event>::empty());
        assert(before.subrange(0, before.len() as int) =~= before);
        while left > 0
            invariant
                left <= n,
                n == self.actions@.len(),
                extends(before, context.history()),
                fresh(before, context.history()).len() == n - left,
                forall|j: int|
                    0 <= j < n - left ==> (#[trigger] fresh(before, context.history())[j]).call
                        == Call::Finalizer(self.actions@[n - 1 - j]),
                res@ == finalizer_diagnostics(subject, fresh(before, context.history())),
            decreases left,
        {
            left = left - 1;
            let ghost current = context.history();
            let raised = context.invoke_finalizer(self.actions[left]);
            proof {
                let event = Event { call: Call::Finalizer(self.actions@[left as int]), raised };
                lemma_extends_push(before, current, event);
                assert(fresh(before, context.history()).drop_last() =~= fresh(before, current));
            }
            match raised {
                Some(r) => {
                    res.push(Diagnostic::from_finalizer(subject, r));
                },
                None => {},
            }
        }
        assert(calls_of(fresh(before, context.history())) =~= finalizer_calls(self@));
        res
    }
}

} // verus!
