//! Expectations on optional values.
use crate::expectation_list::{adds, admits_all, BoxedExpectation, ExpectationList};
use crate::text::{is_rendered, rendered};
use crate::{CheckResult, Expectation, ExpectationBuilder, Verdict};
use std::fmt::Debug;
use std::marker::PhantomData;
use vstd::prelude::*;

verus! {

/// The report for a `None` where a `Some` was expected.
pub open spec fn none_report() -> Seq<char> {
    "Expectation failed (expected Some)\n  actual: None"@
}

/// The verdict of `to_be_some` for `value`.
pub open spec fn some_verdict<T>(value: &Option<T>) -> Verdict {
    match value {
        Some(_) => Verdict::Pass,
        None => Verdict::Fail(none_report()),
    }
}

/// Whether `verdict` is in order for `to_be_none` on `value`: a pass for
/// `None`, else a failure that reports the value found.
pub open spec fn none_admits<T>(value: &Option<T>, verdict: Verdict) -> bool {
    match verdict {
        Verdict::Pass => value is None,
        Verdict::Fail(report) => value is Some && is_rendered(
            "Expectation failed (expected None)\n  actual: Some("@,
            ")"@,
            report,
        ),
    }
}

/// Whether `verdict` is in order for `to_be_some_matching` on `value`: the
/// fixed failure for `None`; for `Some`, a pass where `predicate` may hold of
/// what it wraps, else a failure that reports the value found.
pub open spec fn some_matching_admits<T, F: Fn(&T) -> bool>(
    predicate: F,
    value: &Option<T>,
    verdict: Verdict,
) -> bool {
    match value {
        None => verdict == Verdict::Fail(none_report()),
        Some(some_value) => match verdict {
            Verdict::Pass => call_ensures(predicate, (some_value,), true),
            Verdict::Fail(report) => call_ensures(predicate, (some_value,), false) && is_rendered(
                "Expectation failed (expected Some value to match predicate)\n  actual: Some("@,
                ")"@,
                report,
            ),
        },
    }
}

/// Whether `verdict` is in order for `to_be_some_and` on `value`: the fixed
/// failure for `None`; for `Some`, what checking `expectations` against what it
/// wraps may end in.
pub open spec fn some_and_admits<'e, T: Debug>(
    expectations: Seq<BoxedExpectation<'e, T>>,
    value: &Option<T>,
    verdict: Verdict,
) -> bool {
    match value {
        None => verdict == Verdict::Fail(none_report()),
        Some(some_value) => admits_all(expectations, some_value, verdict),
    }
}

/// The failure for a `None` where a `Some` was expected.
pub fn none_failure() -> (result: CheckResult)
    ensures
        result@ == Verdict::Fail(none_report()),
{
    CheckResult::Fail(String::from_str("Expectation failed (expected Some)\n  actual: None"))
}

/// Extension trait for `Option` expectations.
pub trait OptionExpectations<'e, T>: ExpectationBuilder<'e, Option<T>> where T: Debug + 'e {
    /// Expect the `Option` to be `Some`.
    fn to_be_some(self) -> (builder: Self)
        ensures
            builder.subject() == self.subject(),
            adds(
                builder.expectations(),
                self.expectations(),
                |actual: &Option<T>, verdict: Verdict| verdict == some_verdict(actual),
            ),
    ;

    /// Expect the `Option` to be `None`.
    fn to_be_none(self) -> (builder: Self)
        ensures
            builder.subject() == self.subject(),
            adds(
                builder.expectations(),
                self.expectations(),
                |actual: &Option<T>, verdict: Verdict| none_admits(actual, verdict),
            ),
    ;

    /// Expect the `Option` to be `Some` and what it wraps to match a
    /// predicate.
    fn to_be_some_matching<F>(self, predicate: F) -> (builder: Self) where
        F: Fn(&T) -> bool + 'static,

        requires
            forall|some_value: &T| call_requires(predicate, (some_value,)),
        ensures
            builder.subject() == self.subject(),
            adds(
                builder.expectations(),
                self.expectations(),
                |actual: &Option<T>, verdict: Verdict|
                    some_matching_admits(predicate, actual, verdict),
            ),
    ;
}

/// Expectations on what an `Option` wraps.
pub trait ProjectedOptionExpectations<'e, T, TB>: ExpectationBuilder<'e, Option<T>> where
    T: Debug + 'e,
    TB: ExpectationBuilder<'e, T>,
 {
    /// Expect the `Option` to be `Some`, and what it wraps to meet the
    /// expectations that `config` gathers on a fresh builder.
    fn to_be_some_and<C: FnOnce(TB) -> TB>(self, config: C) -> (builder: Self)
        requires
            forall|fresh: TB|
                fresh.expectations().len() == 0 ==> #[trigger] call_requires(config, (fresh,)),
        ensures
            builder.subject() == self.subject(),
            exists|fresh: TB, configured: TB|
                {
                    &&& fresh.expectations().len() == 0
                    &&& #[trigger] call_ensures(config, (fresh,), configured)
                    &&& adds(
                        builder.expectations(),
                        self.expectations(),
                        |actual: &Option<T>, verdict: Verdict|
                            some_and_admits(configured.expectations(), actual, verdict),
                    )
                },
    ;
}

impl<'e, T, B> OptionExpectations<'e, T> for B where
    T: Debug + 'e,
    B: ExpectationBuilder<'e, Option<T>>,
 {
    fn to_be_some(self) -> (builder: Self) {
        self.to_pass(IsSomeExpectation)
    }

    fn to_be_none(self) -> (builder: Self) {
        self.to_pass(IsNoneExpectation)
    }

    fn to_be_some_matching<F>(self, predicate: F) -> (builder: Self) where
        F: Fn(&T) -> bool + 'static,
     {
        self.to_pass(IsSomeMatchingExpectation::new(predicate))
    }
}

impl<'e, T, B> ProjectedOptionExpectations<'e, T, ExpectationList<'e, T>> for B where
    T: Debug + 'e,
    B: ExpectationBuilder<'e, Option<T>>,
 {
    fn to_be_some_and<C: FnOnce(ExpectationList<'e, T>) -> ExpectationList<'e, T>>(
        self,
        config: C,
    ) -> (builder: Self) {
        let fresh = ExpectationList::new();
        let expectations = config(fresh);
        let builder = self.to_pass(OptionSomeProjectionExpectation { expectations });
        assert(call_ensures(config, (fresh,), expectations));
        builder
    }
}

/// Expectation for `to_be_some_and`.
#[verifier::reject_recursive_types(T)]
pub struct OptionSomeProjectionExpectation<'e, T> {
    pub expectations: ExpectationList<'e, T>,
}

impl<'e, T: Debug + 'e> Expectation<Option<T>> for OptionSomeProjectionExpectation<'e, T> {
    open spec fn admits(&self, value: &Option<T>, verdict: Verdict) -> bool {
        some_and_admits(self.expectations@, value, verdict)
    }

    fn check(&self, value: &Option<T>) -> (result: CheckResult) {
        match value {
            Some(some_value) => self.expectations.check(some_value),
            None => none_failure(),
        }
    }
}

/// Expectation for `to_be_some`.
pub struct IsSomeExpectation;

impl<T: Debug> Expectation<Option<T>> for IsSomeExpectation {
    open spec fn admits(&self, value: &Option<T>, verdict: Verdict) -> bool {
        verdict == some_verdict(value)
    }

    fn check(&self, value: &Option<T>) -> (result: CheckResult) {
        match value {
            Some(_) => CheckResult::Pass,
            None => none_failure(),
        }
    }
}

/// Expectation for `to_be_none`.
pub struct IsNoneExpectation;

impl<T: Debug> Expectation<Option<T>> for IsNoneExpectation {
    open spec fn admits(&self, value: &Option<T>, verdict: Verdict) -> bool {
        none_admits(value, verdict)
    }

    fn check(&self, value: &Option<T>) -> (result: CheckResult) {
        match value {
            None => CheckResult::Pass,
            Some(v) => CheckResult::Fail(
                rendered("Expectation failed (expected None)\n  actual: Some(", v, ")"),
            ),
        }
    }
}

/// Expectation for `to_be_some_matching`.
#[verifier::reject_recursive_types(T)]
#[verifier::reject_recursive_types(F)]
pub struct IsSomeMatchingExpectation<T, F> where F: Fn(&T) -> bool {
    predicate: F,
    phantom_data: PhantomData<T>,
}

impl<T, F> IsSomeMatchingExpectation<T, F> where F: Fn(&T) -> bool {
    #[verifier::type_invariant]
    spec fn callable(&self) -> bool {
        forall|some_value: &T| call_requires(self.predicate, (some_value,))
    }

    /// The predicate.
    pub closed spec fn predicate(&self) -> F {
        self.predicate
    }

    /// An expectation that a `Some` wraps what `predicate` holds of.
    pub fn new(predicate: F) -> (expectation: Self)
        requires
            forall|some_value: &T| call_requires(predicate, (some_value,)),
        ensures
            expectation.predicate() == predicate,
    {
        Self { predicate, phantom_data: PhantomData }
    }
}

impl<T: Debug, F: Fn(&T) -> bool> Expectation<Option<T>> for IsSomeMatchingExpectation<T, F> {
    open spec fn admits(&self, value: &Option<T>, verdict: Verdict) -> bool {
        some_matching_admits(self.predicate(), value, verdict)
    }

    fn check(&self, value: &Option<T>) -> (result: CheckResult) {
        proof {
            use_type_invariant(self);
        }
        match value {
            Some(v) => {
                if (self.predicate)(v) {
                    CheckResult::Pass
                } else {
                    CheckResult::Fail(
                        rendered(
                            "Expectation failed (expected Some value to match predicate)\n  actual: Some(",
                            v,
                            ")",
                        ),
                    )
                }
            },
            None => none_failure(),
        }
    }
}

} // verus!
