//! The execution context: the borrowed capability through which test bodies
//! and cleanup actions are invoked, and the record it keeps of every call.

use vstd::prelude::*;
use crate::diagnostic::Raised;

verus! {

/// One invocation that the runner asks of an execution context.
#[derive(Debug, PartialEq, Eq, Structural, Clone, Copy)]
pub enum Call {
    /// Invoke the test body behind this reference.
    Body(u64),
    /// Invoke the cleanup action behind this reference.
    Finalizer(u64),
}

/// One completed invocation: what was called and what it raised, if anything.
#[derive(Debug)]
pub struct Event {
    pub call: Call,
    pub raised: Option<Raised>,
}

/// `after` continues `before`: it starts with the same events.
pub open spec fn extends(before: Seq<Event>, after: Seq<Event>) -> bool {
    &&& before.len() <= after.len()
    &&& after.subrange(0, before.len() as int) == before
}

/// The events of `after` that follow those of `before`.
pub open spec fn fresh(before: Seq<Event>, after: Seq<Event>) -> Seq<Event> {
    after.subrange(before.len() as int, after.len() as int)
}

/// The calls of a sequence of events, in order.
pub open spec fn calls_of(events: Seq<Event>) -> Seq<Call> {
    Seq::new(events.len(), |i: int| events[i].call)
}

/// Appending one event continues a history, and adds that event to what is
/// fresh.
pub proof fn lemma_extends_push(before: Seq<Event>, current: Seq<Event>, event: Event)
    requires
        extends(before, current),
    ensures
        extends(before, current.push(event)),
        fresh(before, current.push(event)) == fresh(before, current).push(event),
{
    assert(current.push(event).subrange(0, before.len() as int) =~= current.subrange(
        0,
        before.len() as int,
    ));
    assert(fresh(before, current.push(event)) =~= fresh(before, current).push(event));
}

/// Continuation is transitive, and what is fresh adds up.
pub proof fn lemma_extends_chain(before: Seq<Event>, middle: Seq<Event>, after: Seq<Event>)
    requires
        extends(before, middle),
        extends(middle, after),
    ensures
        extends(before, after),
        fresh(before, after) == fresh(before, middle) + fresh(middle, after),
{
    assert(after.subrange(0, before.len() as int) =~= after.subrange(
        0,
        middle.len() as int,
    ).subrange(0, before.len() as int));
    assert(fresh(before, after) =~= fresh(before, middle) + fresh(middle, after));
}

/// The calls of two batches of events are the calls of the first, then
/// those of the second.
pub proof fn lemma_calls_of_concat(first: Seq<Event>, second: Seq<Event>)
    ensures
        calls_of(first + second) == calls_of(first) + calls_of(second),
{
    assert(calls_of(first + second) =~= calls_of(first) + calls_of(second));
}

/// A live runtime able to invoke test bodies and cleanup actions. Every
/// invocation returns synchronously, reports what was raised instead of
/// propagating it, and is appended to the context's history.
pub trait ExecutionContext {
    /// Every invocation made through this context so far, oldest first.
    spec fn history(&self) -> Seq<Event>;

    /// Invokes a test body once.
    fn invoke_body(&mut self, body: u64) -> (raised: Option<Raised>)
        ensures
            final(self).history() == old(self).history().push(
                Event { call: Call::Body(body), raised },
            ),
    ;

    /// Invokes a cleanup action once.
    fn invoke_finalizer(&mut self, action: u64) -> (raised: Option<Raised>)
        ensures
            final(self).history() == old(self).history().push(
                Event { call: Call::Finalizer(action), raised },
            ),
    ;
}

/// A runtime that can be asked to call a test body or a cleanup action and
/// hands back what was raised instead of propagating it. Which conditions it
/// hands back is its own affair.
pub trait Runtime {
    /// Calls the test body behind this reference once.
    fn call_body(&mut self, body: u64) -> Option<Raised>;

    /// Calls the cleanup action behind this reference once.
    fn call_finalizer(&mut self, action: u64) -> Option<Raised>;
}

/// An execution context over any runtime: it passes each invocation on,
/// hands back what the runtime answered, and keeps account of both.
pub struct Recorded<T: Runtime> {
    runtime: T,
    log: Ghost<Seq<Event>>,
}

impl<T: Runtime> Recorded<T> {
    /// The runtime itself.
    pub closed spec fn inner(&self) -> T {
        self.runtime
    }

    /// Takes a runtime for a run; nothing was invoked through it yet.
    pub fn new(runtime: T) -> (res: Self)
        ensures
            res.history() == Seq::<Event>::empty(),
            res.inner() == runtime,
    {
        Recorded { runtime, log: Ghost(Seq::empty()) }
    }

    /// The runtime, to look at.
    pub fn runtime(&self) -> (res: &T)
        ensures
            *res == self.inner(),
    {
        &self.runtime
    }

    /// Gives the runtime back when the run is over.
    pub fn into_runtime(self) -> (res: T)
        ensures
            res == self.inner(),
    {
        self.runtime
    }
}

impl<T: Runtime> ExecutionContext for Recorded<T> {
    closed spec fn history(&self) -> Seq<Event> {
        self.log@
    }

    fn invoke_body(&mut self, body: u64) -> (raised: Option<Raised>) {
        let raised = self.runtime.call_body(body);
        proof {
            self.log@ = self.log@.push(Event { call: Call::Body(body), raised });
        }
        raised
    }

    fn invoke_finalizer(&mut self, action: u64) -> (raised: Option<Raised>) {
        let raised = self.runtime.call_finalizer(action);
        proof {
            self.log@ = self.log@.push(Event { call: Call::Finalizer(action), raised });
        }
        raised
    }
}

/// What a scripted context answers to `call`: the condition of the first
/// rule for that call, or nothing when no rule names it.
pub open spec fn scripted_answer(rules: Seq<(Call, Raised)>, call: Call) -> Option<Raised>
    decreases rules.len(),
{
    if rules.len() == 0 {
        None
    } else if rules[0].0 == call {
        Some(rules[0].1)
    } else {
        scripted_answer(rules.subrange(1, rules.len() as int), call)
    }
}

/// An execution context that runs nothing: it answers each call from a fixed
/// table and keeps the calls it received, for dry runs and for observing the
/// order in which a module is executed.
pub struct ScriptedContext {
    rules: Vec<(Call, Raised)>,
    log: Vec<Event>,
}

impl ScriptedContext {
    /// The table of answers.
    pub closed spec fn rules(&self) -> Seq<(Call, Raised)> {
        self.rules@
    }

    /// A context in which every call succeeds.
    pub fn new() -> (res: Self)
        ensures
            res.rules() == Seq::<(Call, Raised)>::empty(),
            res.history() == Seq::<Event>::empty(),
    {
        ScriptedContext { rules: Vec::new(), log: Vec::new() }
    }

    /// Makes `call` raise `raised`, unless an earlier rule already names it.
    pub fn raise_on(&mut self, call: Call, raised: Raised)
        ensures
            final(self).rules() == old(self).rules().push((call, raised)),
            final(self).history() == old(self).history(),
    {
        self.rules.push((call, raised));
    }

    /// The calls received so far, oldest first.
    pub fn calls(&self) -> (res: Vec<Call>)
        ensures
            res@ == calls_of(self.history()),
    {
        let mut res: Vec<Call> = Vec::new();
        let mut i: usize = 0;
        while i < self.log.len()
            invariant
                i <= self.log.len(),
                res@ == calls_of(self.log@.subrange(0, i as int)),
            decreases self.log.len() - i,
        {
            res.push(self.log[i].call);
            i = i + 1;
            assert(res@ =~= calls_of(self.log@.subrange(0, i as int)));
        }
        assert(self.log@.subrange(0, i as int) =~= self.log@);
        res
    }

    /// How often `call` was received so far.
    pub fn count(&self, call: Call) -> (res: usize)
        ensures
            res == calls_of(self.history()).filter(|c: Call| c == call).len(),
    {
        let mut res: usize = 0;
        let mut i: usize = 0;
        let ghost all = calls_of(self.log@);
        let ghost same = |c: Call| c == call;
        while i < self.log.len()
            invariant
                i <= self.log.len(),
                all == calls_of(self.log@),
                same == (|c: Call| c == call),
                res == all.subrange(0, i as int).filter(same).len(),
                res <= i,
            decreases self.log.len() - i,
        {
            proof {
                let next = all.subrange(0, i + 1);
                assert(next.drop_last() =~= all.subrange(0, i as int));
                reveal(Seq::filter);
            }
            if self.log[i].call == call {
                res = res + 1;
            }
            i = i + 1;
        }
        proof {
            assert(all.subrange(0, i as int) =~= all);
            assert(all.subrange(0, 0).filter(same).len() == 0) by {
                reveal(Seq::filter);
            }
        }
        res
    }

    fn answer(&self, call: Call) -> (res: Option<Raised>)
        ensures
            res == scripted_answer(self.rules(), call),
    {
        let mut i: usize = 0;
        assert(self.rules@.subrange(0, self.rules@.len() as int) =~= self.rules@);
        while i < self.rules.len()
            invariant
                i <= self.rules.len(),
                scripted_answer(self.rules@, call) == scripted_answer(
                    self.rules@.subrange(i as int, self.rules@.len() as int),
                    call,
                ),
            decreases self.rules.len() - i,
        {
            let ghost rest = self.rules@.subrange(i as int, self.rules@.len() as int);
            assert(rest[0] == self.rules@[i as int]);
            assert(rest.subrange(1, rest.len() as int) =~= self.rules@.subrange(
                i + 1,
                self.rules@.len() as int,
            ));
            if self.rules[i].0 == call {
                return Some(self.rules[i].1.clone());
            }
            i = i + 1;
        }
        None
    }

    fn record(&mut self, call: Call) -> (raised: Option<Raised>)
        ensures
            final(self).rules() == old(self).rules(),
            raised == scripted_answer(old(self).rules(), call),
            final(self).history() == old(self).history().push(Event { call, raised }),
    {
        let raised = self.answer(call);
        let kept = match &raised {
            Some(r) => Some(r.clone()),
            None => None,
        };
        self.log.push(Event { call, raised: kept });
        raised
    }
}

impl ExecutionContext for ScriptedContext {
    closed spec fn history(&self) -> Seq<Event> {
        self.log@
    }

    fn invoke_body(&mut self, body: u64) -> (raised: Option<Raised>)
        ensures
            final(self).rules() == old(self).rules(),
            raised == scripted_answer(old(self).rules(), Call::Body(body)),
    {
        self.record(Call::Body(body))
    }

    fn invoke_finalizer(&mut self, action: u64) -> (raised: Option<Raised>)
        ensures
            final(self).rules() == old(self).rules(),
            raised == scripted_answer(old(self).rules(), Call::Finalizer(action)),
    {
        self.record(Call::Finalizer(action))
    }
}

} // verus!
