//! The builder that owns the value under test.
use crate::expectation_list::{admits_all, BoxedExpectation, ExpectationList};
use crate::aspect::AspectExpectations;
use crate::{CheckResult, Expectation, ExpectationBuilder};
use std::fmt::Debug;
use vstd::prelude::*;

verus! {

/// A value under test and the expectations on it.
#[verifier::reject_recursive_types(T)]
pub struct RootExpectations<'e, T: Debug> {
    value: T,
    expectations: ExpectationList<'e, T>,
}

impl<'e, T: Debug> RootExpectations<'e, T> {
    /// A builder that owns `value` and holds no expectation yet.
    pub fn new(value: T) -> (root: Self)
        ensures
            root.subject() == value,
            root.expectations().len() == 0,
    {
        RootExpectations { expectations: ExpectationList::new(), value }
    }

    /// A builder under this one for expectations on what `transform` derives
    /// from the value.
    pub fn aspect<U: Debug + 'e, F: FnOnce(&T) -> U>(self, transform: F) -> (child:
        AspectExpectations<'e, Self, T, U>)
        requires
            call_requires(transform, (&self.subject(),)),
        ensures
            child.parent_builder() == self,
            call_ensures(transform, (&self.subject(),), child.value()),
            child.expectations().len() == 0,
    {
        let value = transform(&self.value);
        AspectExpectations::new(self, value)
    }

    /// Runs all the expectations against the value, once, and consumes the
    /// builder. A `Fail` carries the one report of everything that failed.
    pub fn check(self) -> (result: CheckResult)
        ensures
            admits_all(self.expectations(), &self.subject(), result@),
    {
        self.expectations.check(&self.value)
    }
}

impl<'e, T: Debug> ExpectationBuilder<'e, T> for RootExpectations<'e, T> {
    type Subject = T;

    closed spec fn expectations(&self) -> Seq<BoxedExpectation<'e, T>> {
        self.expectations@
    }

    closed spec fn subject(&self) -> T {
        self.value
    }

    fn to_pass<E: Expectation<T> + 'e>(self, expectation: E) -> (builder: Self) {
        let mut builder = self;
        builder.expectations.push(expectation);
        builder
    }
}

/// The life of a builder: open while expectations are gathered, evaluated
/// once they have been checked. Nothing is checked a second time.
#[verifier::reject_recursive_types(T)]
pub struct Evaluation<'e, T: Debug> {
    pending: Option<RootExpectations<'e, T>>,
}

impl<'e, T: Debug> Evaluation<'e, T> {
    /// The builder that has not been checked yet, if it has not.
    pub closed spec fn pending(&self) -> Option<RootExpectations<'e, T>> {
        self.pending
    }

    /// Whether the expectations have not been checked yet.
    pub open spec fn is_open(&self) -> bool {
        self.pending() is Some
    }

    /// An open evaluation of `expectations`.
    pub fn new(expectations: RootExpectations<'e, T>) -> (evaluation: Self)
        ensures
            evaluation.pending() == Some(expectations),
    {
        Evaluation { pending: Some(expectations) }
    }

    /// Adds to the builder what `config` adds, while it is open; an evaluated
    /// one stays as it is.
    pub fn configure<F: FnOnce(RootExpectations<'e, T>) -> RootExpectations<'e, T>>(
        &mut self,
        config: F,
    )
        requires
            old(self).pending() matches Some(expectations) ==> call_requires(
                config,
                (expectations,),
            ),
        ensures
            match old(self).pending() {
                Some(expectations) => final(self).pending() matches Some(configured)
                    && call_ensures(config, (expectations,), configured),
                None => final(self).pending() is None,
            },
    {
        match self.pending.take() {
            Some(expectations) => {
                self.pending = Some(config(expectations));
            },
            None => {},
        }
    }

    /// Checks the expectations if they have not been checked yet, and gives
    /// the result; gives nothing, and checks nothing, where they have been.
    /// The evaluation is closed after it.
    pub fn run(&mut self) -> (outcome: Option<CheckResult>)
        ensures
            !final(self).is_open(),
            match old(self).pending() {
                Some(expectations) => outcome matches Some(result) && admits_all(
                    expectations.expectations(),
                    &expectations.subject(),
                    result@,
                ),
                None => outcome is None,
            },
    {
        match self.pending.take() {
            Some(expectations) => Some(expectations.check()),
            None => None,
        }
    }
}

} // verus!
