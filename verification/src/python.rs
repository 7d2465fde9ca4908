//! The Python side of a run: test bodies and cleanup actions are Python
//! callables found by reference, and what they raise is classified by its
//! exception type.

use vstd::prelude::*;
use crate::diagnostic::{Raised, RaisedClass};
use pyo3::{Py, PyAny};

verus! {

/// pyo3's owned reference to a Python object; opaque here.
#[verifier::external_type_specification]
#[verifier::external_body]
#[verifier::reject_recursive_types(T)]
pub struct ExPy<T>(pyo3::Py<T>);

/// pyo3's type of any Python object; opaque here.
#[verifier::external_type_specification]
#[verifier::external_body]
pub struct ExPyAny(pyo3::PyAny);

/// The class of a raised exception, from what it is an instance of: a skip
/// directive wins over an assertion failure, and both over anything else.
pub open spec fn class_of(is_skip: bool, is_assertion: bool) -> RaisedClass {
    if is_skip {
        RaisedClass::SkipDirective
    } else if is_assertion {
        RaisedClass::Assertion
    } else {
        RaisedClass::Other
    }
}

/// The class of a raised exception, from what it is an instance of.
pub fn classify_exception(is_skip: bool, is_assertion: bool) -> (res: RaisedClass)
    ensures
        res == class_of(is_skip, is_assertion),
{
    if is_skip {
        RaisedClass::SkipDirective
    } else if is_assertion {
        RaisedClass::Assertion
    } else {
        RaisedClass::Other
    }
}

/// The condition that a raised exception becomes: its class from what it is
/// an instance of, its message the text of the exception value.
pub fn describe_exception(is_skip: bool, is_assertion: bool, text: String) -> (res: Raised)
    ensures
        res == (Raised { class: class_of(is_skip, is_assertion), message: text, source: None }),
{
    Raised { class: classify_exception(is_skip, is_assertion), message: text, source: None }
}

/// How the call of a callable ended, as the interpreter's side of a run
/// found it.
#[derive(Debug)]
pub enum CallOutcome {
    /// No callable stands behind the reference.
    UnknownReference,
    /// The callable returned.
    Returned,
    /// The callable raised an exception: whether it is an instance of the
    /// class that serves as skip directive, whether it is an instance of
    /// `AssertionError`, and the text of its value.
    Raised { is_skip: bool, is_assertion: bool, text: String },
    /// The call did not come back in an orderly way.
    Panicked,
}

/// A condition of the class for anything else, with this message and
/// without a source.
pub open spec fn is_breakdown(raised: Option<Raised>, message: Seq<char>) -> bool {
    &&& raised.is_some()
    &&& raised.unwrap().class == RaisedClass::Other
    &&& raised.unwrap().message@ == message
    &&& raised.unwrap().source.is_none()
}

/// What the end of a call means for the run: nothing where the callable
/// returned, the exception classified where it raised one, and a breakdown
/// where there was no callable or the call did not come back in order.
pub open spec fn raised_by(outcome: CallOutcome, raised: Option<Raised>) -> bool {
    match outcome {
        CallOutcome::Returned => raised.is_none(),
        CallOutcome::Raised { is_skip, is_assertion, text } => raised == Some(
            Raised { class: class_of(is_skip, is_assertion), message: text, source: None },
        ),
        CallOutcome::UnknownReference => is_breakdown(raised, "unknown reference"@),
        CallOutcome::Panicked => is_breakdown(raised, "panic in called code"@),
    }
}

/// Turns the end of a call into what the runner is told was raised.
pub fn raised_by_call(outcome: CallOutcome) -> (res: Option<Raised>)
    ensures
        raised_by(outcome, res),
{
    match outcome {
        CallOutcome::Returned => None,
        CallOutcome::Raised { is_skip, is_assertion, text } => Some(
            describe_exception(is_skip, is_assertion, text),
        ),
        CallOutcome::UnknownReference => Some(
            Raised {
                class: RaisedClass::Other,
                message: "unknown reference".to_owned(),
                source: None,
            },
        ),
        CallOutcome::Panicked => Some(
            Raised {
                class: RaisedClass::Other,
                message: "panic in called code".to_owned(),
                source: None,
            },
        ),
    }
}

/// The callables of a run: test bodies and cleanup actions, each found by
/// the reference that registering it returned.
pub struct Callables {
    bodies: Vec<Py<PyAny>>,
    finalizers: Vec<Py<PyAny>>,
}

impl Callables {
    /// The registered test bodies, in the order of their references.
    pub closed spec fn bodies(&self) -> Seq<Py<PyAny>> {
        self.bodies@
    }

    /// The registered cleanup actions, in the order of their references.
    pub closed spec fn finalizers(&self) -> Seq<Py<PyAny>> {
        self.finalizers@
    }

    /// Nothing registered.
    pub fn new() -> (res: Self)
        ensures
            res.bodies() == Seq::<Py<PyAny>>::empty(),
            res.finalizers() == Seq::<Py<PyAny>>::empty(),
    {
        Callables { bodies: Vec::new(), finalizers: Vec::new() }
    }

    /// Registers a test body and returns the reference to find it by.
    pub fn add_body(&mut self, callable: Py<PyAny>) -> (res: u64)
        ensures
            res == old(self).bodies().len(),
            final(self).bodies() == old(self).bodies().push(callable),
            final(self).finalizers() == old(self).finalizers(),
    {
        let res = self.bodies.len() as u64;
        self.bodies.push(callable);
        res
    }

    /// Registers a cleanup action and returns the reference to find it by.
    pub fn add_finalizer(&mut self, callable: Py<PyAny>) -> (res: u64)
        ensures
            res == old(self).finalizers().len(),
            final(self).finalizers() == old(self).finalizers().push(callable),
            final(self).bodies() == old(self).bodies(),
    {
        let res = self.finalizers.len() as u64;
        self.finalizers.push(callable);
        res
    }

    /// The test body behind `body`, if one was registered under it.
    pub fn body_at(&self, body: u64) -> (res: Option<&Py<PyAny>>)
        ensures
            body < self.bodies().len() ==> res == Some(&self.bodies()[body as int]),
            body >= self.bodies().len() ==> res.is_none(),
    {
        if body < self.bodies.len() as u64 {
            Some(&self.bodies[body as usize])
        } else {
            None
        }
    }

    /// The cleanup action behind `action`, if one was registered under it.
    pub fn finalizer_at(&self, action: u64) -> (res: Option<&Py<PyAny>>)
        ensures
            action < self.finalizers().len() ==> res == Some(&self.finalizers()[action as int]),
            action >= self.finalizers().len() ==> res.is_none(),
    {
        if action < self.finalizers.len() as u64 {
            Some(&self.finalizers[action as usize])
        } else {
            None
        }
    }
}

} // verus!
