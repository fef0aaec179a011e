//! An expectation made of a predicate and a function that words its failure.
use crate::{CheckResult, Expectation, Verdict};
use std::fmt::Debug;
use std::marker::PhantomData;
use vstd::prelude::*;

verus! {

/// Whether `verdict` is what `predicate` and `error_message` lead to for
/// `value` and `expected`: a pass where the predicate may hold, else a failure
/// with a report that `error_message` may give.
pub open spec fn predicate_admits<T, U, P: Fn(&T, &U) -> bool, M: Fn(&T, &U) -> String>(
    expected: &U,
    predicate: P,
    error_message: M,
    value: &T,
    verdict: Verdict,
) -> bool {
    match verdict {
        Verdict::Pass => call_ensures(predicate, (value, expected), true),
        Verdict::Fail(report) => {
            &&& call_ensures(predicate, (value, expected), false)
            &&& exists|message: String| #[trigger]
                call_ensures(error_message, (value, expected), message) && message@ == report
        },
    }
}

/// A generic predicate-based expectation that can be used for any type.
#[verifier::reject_recursive_types(T)]
#[verifier::reject_recursive_types(U)]
#[verifier::reject_recursive_types(P)]
#[verifier::reject_recursive_types(M)]
pub struct PredicateExpectation<T, U, P, M> where
    U: Debug,
    T: Debug,
    P: Fn(&T, &U) -> bool,
    M: Fn(&T, &U) -> String,
 {
    expected_value: U,
    predicate: P,
    error_message: M,
    phantom_data: PhantomData<T>,
}

impl<T, U, P, M> PredicateExpectation<T, U, P, M> where
    U: Debug,
    T: Debug,
    P: Fn(&T, &U) -> bool,
    M: Fn(&T, &U) -> String,
 {
    #[verifier::type_invariant]
    spec fn callable(&self) -> bool {
        &&& forall|value: &T| #[trigger]
            call_requires(self.predicate, (value, &self.expected_value))
        &&& forall|value: &T| #[trigger]
            call_requires(self.error_message, (value, &self.expected_value))
    }

    /// The value that the predicate compares with.
    pub closed spec fn expected_value(&self) -> U {
        self.expected_value
    }

    /// The predicate.
    pub closed spec fn predicate(&self) -> P {
        self.predicate
    }

    /// The function that words a failure.
    pub closed spec fn error_message(&self) -> M {
        self.error_message
    }

    /// An expectation that passes where `predicate` holds of the checked value
    /// and `expected_value`, and else fails with what `error_message` gives for
    /// the two.
    pub fn new(expected_value: U, predicate: P, error_message: M) -> (expectation: Self)
        requires
            forall|value: &T| #[trigger] call_requires(predicate, (value, &expected_value)),
            forall|value: &T| #[trigger] call_requires(error_message, (value, &expected_value)),
        ensures
            expectation.expected_value() == expected_value,
            expectation.predicate() == predicate,
            expectation.error_message() == error_message,
    {
        Self { expected_value, predicate, error_message, phantom_data: PhantomData }
    }
}

impl<T, U, P, M> Expectation<T> for PredicateExpectation<T, U, P, M> where
    T: Debug,
    U: Debug,
    P: Fn(&T, &U) -> bool,
    M: Fn(&T, &U) -> String,
 {
    open spec fn admits(&self, value: &T, verdict: Verdict) -> bool {
        predicate_admits(
            &self.expected_value(),
            self.predicate(),
            self.error_message(),
            value,
            verdict,
        )
    }

    fn check(&self, value: &T) -> (result: CheckResult) {
        proof {
            use_type_invariant(self);
        }
        if (self.predicate)(value, &self.expected_value) {
            CheckResult::Pass
        } else {
            let message = (self.error_message)(value, &self.expected_value);
            CheckResult::Fail(message)
        }
    }
}

/// What a `PredicateExpectation` admits is what its predicate and its wording
/// of a failure lead to.
pub proof fn lemma_predicate_expectation_admits<T, U, P, M>(
    expectation: PredicateExpectation<T, U, P, M>,
    value: &T,
    verdict: Verdict,
) where T: Debug, U: Debug, P: Fn(&T, &U) -> bool, M: Fn(&T, &U) -> String
    ensures
        expectation.admits(value, verdict) == predicate_admits(
            &expectation.expected_value(),
            expectation.predicate(),
            expectation.error_message(),
            value,
            verdict,
        ),
{
}

/// The verdict where a condition decides: a pass if it `holds`, else a failure
/// with `report`.
pub open spec fn decided(holds: bool, report: Seq<char>) -> Verdict {
    if holds {
        Verdict::Pass
    } else {
        Verdict::Fail(report)
    }
}

/// A predicate that computes `holds`, with a wording of failures that computes
/// `report`, makes an expectation that admits one verdict for each value: the
/// one that `holds` decides.
pub proof fn lemma_decided<T, U, P, M>(
    expectation: PredicateExpectation<T, U, P, M>,
    holds: spec_fn(&T, &U) -> bool,
    report: spec_fn(&T, &U) -> Seq<char>,
) where T: Debug, U: Debug, P: Fn(&T, &U) -> bool, M: Fn(&T, &U) -> String
    requires
        forall|a: &T, b: &U, decision: bool| #[trigger]
            call_ensures(expectation.predicate(), (a, b), decision) ==> decision == holds(a, b),
        forall|a: &T, b: &U, message: String| #[trigger]
            call_ensures(expectation.error_message(), (a, b), message) ==> message@ == report(
                a,
                b,
            ),
    ensures
        forall|actual: &T, verdict: Verdict| #[trigger]
            expectation.admits(actual, verdict) ==> verdict == decided(
                holds(actual, &expectation.expected_value()),
                report(actual, &expectation.expected_value()),
            ),
{
}

} // verus!
