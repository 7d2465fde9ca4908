//! The result aggregate: counts by outcome and the diagnostics of a run, in
//! the order in which the underlying work completed.

use vstd::prelude::*;
use crate::diagnostic::{Diagnostic, Outcome};

verus! {

/// The mathematical content of an aggregate.
pub struct ResultView {
    pub passed: nat,
    pub failed: nat,
    pub errored: nat,
    pub skipped: nat,
    pub diagnostics: Seq<Diagnostic>,
}

impl ResultView {
    /// The aggregate of no work at all.
    pub open spec fn empty() -> ResultView {
        ResultView { passed: 0, failed: 0, errored: 0, skipped: 0, diagnostics: Seq::empty() }
    }

    /// The number of test units considered.
    pub open spec fn total(self) -> nat {
        self.passed + self.failed + self.errored + self.skipped
    }

    /// This aggregate with one more unit counted under `outcome`.
    pub open spec fn record(self, outcome: Outcome) -> ResultView {
        match outcome {
            Outcome::Passed => ResultView { passed: self.passed + 1, ..self },
            Outcome::Failed => ResultView { failed: self.failed + 1, ..self },
            Outcome::Errored => ResultView { errored: self.errored + 1, ..self },
            Outcome::Skipped => ResultView { skipped: self.skipped + 1, ..self },
        }
    }

    /// This aggregate with `more` appended to its diagnostics.
    pub open spec fn with_diagnostics(self, more: Seq<Diagnostic>) -> ResultView {
        ResultView { diagnostics: self.diagnostics + more, ..self }
    }

    /// This aggregate followed by `later`: counts add per outcome, and the
    /// diagnostics of `later` come after those of `self`.
    pub open spec fn merge(self, later: ResultView) -> ResultView {
        ResultView {
            passed: self.passed + later.passed,
            failed: self.failed + later.failed,
            errored: self.errored + later.errored,
            skipped: self.skipped + later.skipped,
            diagnostics: self.diagnostics + later.diagnostics,
        }
    }
}

/// Counts by outcome plus an ordered list of diagnostics.
#[derive(Debug)]
pub struct TestRunResult {
    passed: usize,
    failed: usize,
    errored: usize,
    skipped: usize,
    diagnostics: Vec<Diagnostic>,
}

impl View for TestRunResult {
    type V = ResultView;

    closed spec fn view(&self) -> ResultView {
        ResultView {
            passed: self.passed as nat,
            failed: self.failed as nat,
            errored: self.errored as nat,
            skipped: self.skipped as nat,
            diagnostics: self.diagnostics@,
        }
    }
}

impl Default for TestRunResult {
    fn default() -> (res: Self)
        ensures
            res@ == ResultView::empty(),
            res.wf(),
    {
        TestRunResult::new()
    }
}

impl TestRunResult {
    /// The number of units considered fits the machine's word.
    pub open spec fn wf(&self) -> bool {
        self@.total() <= usize::MAX
    }

    /// The aggregate of no work at all.
    pub fn new() -> (res: Self)
        ensures
            res@ == ResultView::empty(),
            res.wf(),
    {
        TestRunResult { passed: 0, failed: 0, errored: 0, skipped: 0, diagnostics: Vec::new() }
    }

    /// The number of test units considered, whatever their outcome.
    pub fn total(&self) -> (res: usize)
        requires
            self.wf(),
        ensures
            res == self@.total(),
            res == self@.passed + self@.failed + self@.errored + self@.skipped,
    {
        self.passed + self.failed + self.errored + self.skipped
    }

    /// The number of units that passed.
    pub fn passed(&self) -> (res: usize)
        ensures
            res == self@.passed,
    {
        self.passed
    }

    /// The number of units that failed an assertion.
    pub fn failed(&self) -> (res: usize)
        ensures
            res == self@.failed,
    {
        self.failed
    }

    /// The number of units that ended in an error.
    pub fn errored(&self) -> (res: usize)
        ensures
            res == self@.errored,
    {
        self.errored
    }

    /// The number of units that were skipped.
    pub fn skipped(&self) -> (res: usize)
        ensures
            res == self@.skipped,
    {
        self.skipped
    }

    /// The diagnostics, in completion order.
    pub fn diagnostics(&self) -> (res: &Vec<Diagnostic>)
        ensures
            res@ == self@.diagnostics,
    {
        &self.diagnostics
    }

    /// Counts one more unit under `outcome`.
    pub fn record(&mut self, outcome: Outcome)
        requires
            old(self)@.total() < usize::MAX,
        ensures
            final(self)@ == old(self)@.record(outcome),
            final(self).wf(),
    {
        match outcome {
            Outcome::Passed => { self.passed = self.passed + 1; },
            Outcome::Failed => { self.failed = self.failed + 1; },
            Outcome::Errored => { self.errored = self.errored + 1; },
            Outcome::Skipped => { self.skipped = self.skipped + 1; },
        }
    }

    /// Appends one diagnostic.
    pub fn add_diagnostic(&mut self, diagnostic: Diagnostic)
        ensures
            final(self)@ == old(self)@.with_diagnostics(seq![diagnostic]),
    {
        self.diagnostics.push(diagnostic);
        assert(self.diagnostics@ =~= old(self).diagnostics@ + seq![diagnostic]);
    }

    /// Appends diagnostics, keeping their order.
    pub fn add_diagnostics(&mut self, diagnostics: Vec<Diagnostic>)
        ensures
            final(self)@ == old(self)@.with_diagnostics(diagnostics@),
    {
        let mut diagnostics = diagnostics;
        self.diagnostics.append(&mut diagnostics);
    }

    /// Folds the result of work that completed later into this one.
    pub fn update(&mut self, later: &TestRunResult)
        requires
            old(self)@.total() + later@.total() <= usize::MAX,
        ensures
            final(self)@ == old(self)@.merge(later@),
            final(self).wf(),
    {
        self.passed = self.passed + later.passed;
        self.failed = self.failed + later.failed;
        self.errored = self.errored + later.errored;
        self.skipped = self.skipped + later.skipped;
        let mut i: usize = 0;
        while i < later.diagnostics.len()
            invariant
                i <= later.diagnostics.len(),
                self.passed == old(self).passed + later.passed,
                self.failed == old(self).failed + later.failed,
                self.errored == old(self).errored + later.errored,
                self.skipped == old(self).skipped + later.skipped,
                self.diagnostics@ == old(self).diagnostics@ + later.diagnostics@.subrange(
                    0,
                    i as int,
                ),
            decreases later.diagnostics.len() - i,
        {
            self.diagnostics.push(later.diagnostics[i].clone());
            i = i + 1;
            assert(later.diagnostics@.subrange(0, i as int) =~= later.diagnostics@.subrange(
                0,
                i - 1,
            ).push(later.diagnostics@[i - 1]));
            assert(self.diagnostics@ =~= old(self).diagnostics@ + later.diagnostics@.subrange(
                0,
                i as int,
            ));
        }
        assert(later.diagnostics@.subrange(0, i as int) =~= later.diagnostics@);
    }

    /// The aggregate of `self` followed by `later`.
    pub fn merge(self, later: TestRunResult) -> (res: TestRunResult)
        requires
            self@.total() + later@.total() <= usize::MAX,
        ensures
            res@ == self@.merge(later@),
            res.wf(),
    {
        let mut res = self;
        let mut later = later;
        res.passed = res.passed + later.passed;
        res.failed = res.failed + later.failed;
        res.errored = res.errored + later.errored;
        res.skipped = res.skipped + later.skipped;
        res.diagnostics.append(&mut later.diagnostics);
        res
    }

    /// Like `merge`, but says so where the counts would not fit the machine's
    /// word: then nothing is merged and `None` comes back.
    pub fn checked_merge(self, later: TestRunResult) -> (res: Option<TestRunResult>)
        requires
            self.wf(),
            later.wf(),
        ensures
            self@.total() + later@.total() <= usize::MAX ==> res.is_some() && res.unwrap()@
                == self@.merge(later@) && res.unwrap().wf(),
            self@.total() + later@.total() > usize::MAX ==> res.is_none(),
    {
        if self.total() <= usize::MAX - later.total() {
            Some(self.merge(later))
        } else {
            None
        }
    }
}

} // verus!
