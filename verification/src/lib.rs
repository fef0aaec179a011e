//! A fluent expectation engine for test code: wrap a value, chain expectations
//! onto it, and evaluate them all in one pass into a single verdict.
use std::fmt::Debug;
use vstd::prelude::*;

pub mod aspect;
pub mod expectation_list;
pub mod expectations;
pub mod laws;
pub mod projection;
pub mod root;
pub mod text;

pub use aspect::{AggregatedAspectExpectation, AspectExpectations};
pub use expectation_list::{BoxedExpectation, ExpectationList};
pub use projection::{ExpectProjection, ProjectedExpectations};
pub use root::{Evaluation, RootExpectations};

verus! {

/// The outcome of a check: a pass, or a failure with its report.
#[derive(Debug)]
pub enum CheckResult {
    Pass,
    Fail(String),
}

impl Clone for CheckResult {
    fn clone(&self) -> (copy: Self)
        ensures
            copy@ == self@,
    {
        match self {
            CheckResult::Pass => CheckResult::Pass,
            CheckResult::Fail(message) => CheckResult::Fail(message.clone()),
        }
    }
}

/// What a `CheckResult` says, with the report as a sequence of characters.
pub enum Verdict {
    Pass,
    Fail(Seq<char>),
}

impl View for CheckResult {
    type V = Verdict;

    open spec fn view(&self) -> Verdict {
        match self {
            CheckResult::Pass => Verdict::Pass,
            CheckResult::Fail(message) => Verdict::Fail(message@),
        }
    }
}

/// An expectation on a value.
pub trait Expectation<T: Debug> {
    /// Whether a check of `value` may end in `verdict`. An expectation that
    /// says nothing of itself admits every verdict.
    open spec fn admits(&self, value: &T, verdict: Verdict) -> bool {
        true
    }

    /// Checks the expectation: `Pass`, or `Fail` with a descriptive report.
    fn check(&self, value: &T) -> (result: CheckResult)
        ensures
            self.admits(value, result@),
    ;
}

/// Fluent building of expectations: each call adds one and hands the builder
/// back.
pub trait ExpectationBuilder<'e, T: Debug>: Sized {
    /// What the builder holds besides its expectations.
    type Subject;

    /// The expectations gathered so far, in the order they were added.
    spec fn expectations(&self) -> Seq<BoxedExpectation<'e, T>>;

    /// What the builder holds besides its expectations.
    spec fn subject(&self) -> Self::Subject;

    /// Adds `expectation` behind those already gathered. Nothing is checked
    /// yet.
    fn to_pass<E: Expectation<T> + 'e>(self, expectation: E) -> (builder: Self)
        ensures
            builder.subject() == self.subject(),
            expectation_list::extends(builder.expectations(), self.expectations(), expectation),
    ;
}

/// Wraps `value` in a builder that holds no expectation yet.
pub fn expect<'e, T: Debug>(value: T) -> (root: RootExpectations<'e, T>)
    ensures
        root.subject() == value,
        root.expectations().len() == 0,
{
    RootExpectations::new(value)
}

} // verus!
