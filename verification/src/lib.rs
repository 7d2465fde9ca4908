//! The runtime core of a test runner: it executes the test units of a module
//! in order, runs the cleanup actions that fixtures registered, turns every
//! failure into a diagnostic, and folds the outcomes into an aggregate.

pub mod context;
pub mod diagnostic;
pub mod finalizers;
pub mod reporter;
pub mod result;
pub mod runner;
pub mod test_case;
pub mod module;
pub mod python;
pub mod laws;
