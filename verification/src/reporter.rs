//! The reporter: a sink that is told of each outcome as soon as it is known.

use vstd::prelude::*;
use crate::context::ExecutionContext;
use crate::diagnostic::{Outcome, Subject};

verus! {

/// What a reporter is told: who finished, and how.
#[derive(Debug, PartialEq, Eq, Structural, Clone, Copy)]
pub struct Notification {
    pub subject: Subject,
    pub outcome: Outcome,
}

/// A sink for live progress. It is told once per completed test unit and
/// once per batch of module-scoped cleanup actions, as soon as each outcome
/// is known. What it does with a notification is its own affair.
pub trait Reporter {
    /// Takes one notification.
    fn report(&mut self, notification: Notification);
}

/// A reporter for the duration of a run, together with the account of what
/// was handed to it, and when.
pub struct Announcer<R: Reporter> {
    sink: R,
    sent: Ghost<Seq<Notification>>,
    at: Ghost<Seq<nat>>,
}

impl<R: Reporter> Announcer<R> {
    /// Everything handed to the reporter so far, oldest first.
    pub closed spec fn notified(&self) -> Seq<Notification> {
        self.sent@
    }

    /// For each notification handed over, how many invocations the execution
    /// context of the run had completed at that moment.
    pub closed spec fn moments(&self) -> Seq<nat> {
        self.at@
    }

    /// The reporter itself.
    pub closed spec fn inner(&self) -> R {
        self.sink
    }

    /// Takes a reporter for a run; nothing was handed to it yet.
    pub fn new(sink: R) -> (res: Self)
        ensures
            res.notified() == Seq::<Notification>::empty(),
            res.moments() == Seq::<nat>::empty(),
            res.inner() == sink,
    {
        Announcer { sink, sent: Ghost(Seq::empty()), at: Ghost(Seq::empty()) }
    }

    /// Hands one notification to the reporter, now: after everything that
    /// `context` has completed so far.
    pub fn report<C: ExecutionContext>(&mut self, notification: Notification, context: &C)
        ensures
            final(self).notified() == old(self).notified().push(notification),
            final(self).moments() == old(self).moments().push(context.history().len()),
    {
        self.sink.report(notification);
        proof {
            self.sent@ = self.sent@.push(notification);
            self.at@ = self.at@.push(context.history().len());
        }
    }

    /// The reporter, to look at.
    pub fn sink(&self) -> (res: &R)
        ensures
            *res == self.inner(),
    {
        &self.sink
    }

    /// Gives the reporter back when the run is over.
    pub fn into_sink(self) -> (res: R)
        ensures
            res == self.inner(),
    {
        self.sink
    }
}

/// A reporter that keeps what it was told.
pub struct CollectingReporter {
    received: Vec<Notification>,
}

impl CollectingReporter {
    /// What this reporter was told so far, oldest first.
    pub closed spec fn notified(&self) -> Seq<Notification> {
        self.received@
    }

    /// A reporter that was told nothing yet.
    pub fn new() -> (res: Self)
        ensures
            res.notified() == Seq::<Notification>::empty(),
    {
        CollectingReporter { received: Vec::new() }
    }

    /// How many notifications were received.
    pub fn len(&self) -> (res: usize)
        ensures
            res == self.notified().len(),
    {
        self.received.len()
    }

    /// The notification received at position `index`, oldest first.
    pub fn get(&self, index: usize) -> (res: Option<Notification>)
        ensures
            index < self.notified().len() ==> res == Some(self.notified()[index as int]),
            index >= self.notified().len() ==> res.is_none(),
    {
        if index < self.received.len() {
            Some(self.received[index])
        } else {
            None
        }
    }
}

impl Reporter for CollectingReporter {
    fn report(&mut self, notification: Notification)
        ensures
            final(self).notified() == old(self).notified().push(notification),
    {
        self.received.push(notification);
    }
}

} // verus!
