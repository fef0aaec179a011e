//! Expectations on results.
use crate::expectation_list::{adds, admits_all, BoxedExpectation, ExpectationList};
use crate::text::{is_rendered, rendered};
use crate::{CheckResult, Expectation, ExpectationBuilder, Verdict};
use std::fmt::Debug;
use std::marker::PhantomData;
use vstd::prelude::*;

verus! {

/// Whether `verdict` is in order for `to_be_ok` on `value`: a pass for `Ok`,
/// else a failure that reports the value found.
pub open spec fn ok_admits<T, E>(value: &Result<T, E>, verdict: Verdict) -> bool {
    match verdict {
        Verdict::Pass => value is Ok,
        Verdict::Fail(report) => value is Err && is_rendered(
            "Expectation failed (expected Ok)\n  actual: "@,
            ""@,
            report,
        ),
    }
}

/// Whether `verdict` is in order for `to_be_err` on `value`: a pass for `Err`,
/// else a failure that reports the value found.
pub open spec fn err_admits<T, E>(value: &Result<T, E>, verdict: Verdict) -> bool {
    match verdict {
        Verdict::Pass => value is Err,
        Verdict::Fail(report) => value is Ok && is_rendered(
            "Expectation failed (expected Err)\n  actual: "@,
            ""@,
            report,
        ),
    }
}

/// Whether `report` tells of an `Err` where an `Ok` was expected.
pub open spec fn is_unexpected_err_report(report: Seq<char>) -> bool {
    is_rendered("Expectation failed (expected Ok)\n  actual: Err("@, ")"@, report)
}

/// Whether `report` tells of an `Ok` where an `Err` was expected.
pub open spec fn is_unexpected_ok_report(report: Seq<char>) -> bool {
    is_rendered("Expectation failed (expected Err)\n  actual: Ok("@, ")"@, report)
}

/// Whether `verdict` is in order for `to_be_ok_matching` on `value`: for
/// `Err`, a failure that reports it; for `Ok`, a pass where `predicate` may
/// hold of what it wraps, else a failure that reports the value found.
pub open spec fn ok_matching_admits<T, E, F: Fn(&T) -> bool>(
    predicate: F,
    value: &Result<T, E>,
    verdict: Verdict,
) -> bool {
    match value {
        Err(_) => verdict matches Verdict::Fail(report) && is_unexpected_err_report(report),
        Ok(ok_value) => match verdict {
            Verdict::Pass => call_ensures(predicate, (ok_value,), true),
            Verdict::Fail(report) => call_ensures(predicate, (ok_value,), false) && is_rendered(
                "Expectation failed (expected Ok value to match predicate)\n  actual: Ok("@,
                ")"@,
                report,
            ),
        },
    }
}

/// Whether `verdict` is in order for `to_be_err_matching` on `value`: for
/// `Ok`, a failure that reports it; for `Err`, a pass where `predicate` may
/// hold of what it wraps, else a failure that reports the value found.
pub open spec fn err_matching_admits<T, E, F: Fn(&E) -> bool>(
    predicate: F,
    value: &Result<T, E>,
    verdict: Verdict,
) -> bool {
    match value {
        Ok(_) => verdict matches Verdict::Fail(report) && is_unexpected_ok_report(report),
        Err(err_value) => match verdict {
            Verdict::Pass => call_ensures(predicate, (err_value,), true),
            Verdict::Fail(report) => call_ensures(predicate, (err_value,), false) && is_rendered(
                "Expectation failed (expected Err value to match predicate)\n  actual: Err("@,
                ")"@,
                report,
            ),
        },
    }
}

/// Whether `verdict` is in order for `to_be_ok_and` on `value`: for `Err`, a
/// failure that reports it; for `Ok`, what checking `expectations` against what
/// it wraps may end in.
pub open spec fn ok_and_admits<'e, T: Debug, E>(
    expectations: Seq<BoxedExpectation<'e, T>>,
    value: &Result<T, E>,
    verdict: Verdict,
) -> bool {
    match value {
        Err(_) => verdict matches Verdict::Fail(report) && is_unexpected_err_report(report),
        Ok(ok_value) => admits_all(expectations, ok_value, verdict),
    }
}

/// Whether `verdict` is in order for `to_be_err_and` on `value`: for `Ok`, a
/// failure that reports it; for `Err`, what checking `expectations` against
/// what it wraps may end in.
pub open spec fn err_and_admits<'e, T, E: Debug>(
    expectations: Seq<BoxedExpectation<'e, E>>,
    value: &Result<T, E>,
    verdict: Verdict,
) -> bool {
    match value {
        Ok(_) => verdict matches Verdict::Fail(report) && is_unexpected_ok_report(report),
        Err(err_value) => admits_all(expectations, err_value, verdict),
    }
}

/// The failure for an `Err` where an `Ok` was expected.
pub fn unexpected_err<E: Debug>(error: &E) -> (result: CheckResult)
    ensures
        result@ matches Verdict::Fail(report) && is_unexpected_err_report(report),
{
    CheckResult::Fail(rendered("Expectation failed (expected Ok)\n  actual: Err(", error, ")"))
}

/// The failure for an `Ok` where an `Err` was expected.
pub fn unexpected_ok<T: Debug>(value: &T) -> (result: CheckResult)
    ensures
        result@ matches Verdict::Fail(report) && is_unexpected_ok_report(report),
{
    CheckResult::Fail(rendered("Expectation failed (expected Err)\n  actual: Ok(", value, ")"))
}

/// Extension trait for `Result` expectations.
pub trait ResultExpectations<'e, T, E>: ExpectationBuilder<'e, Result<T, E>> where
    T: Debug + 'e,
    E: Debug + 'e,
 {
    /// Expect the `Result` to be `Ok`.
    fn to_be_ok(self) -> (builder: Self)
        ensures
            builder.subject() == self.subject(),
            adds(
                builder.expectations(),
                self.expectations(),
                |actual: &Result<T, E>, verdict: Verdict| ok_admits(actual, verdict),
            ),
    ;

    /// Expect the `Result` to be `Err`.
    fn to_be_err(self) -> (builder: Self)
        ensures
            builder.subject() == self.subject(),
            adds(
                builder.expectations(),
                self.expectations(),
                |actual: &Result<T, E>, verdict: Verdict| err_admits(actual, verdict),
            ),
    ;

    /// Expect the `Result` to be `Ok` and what it wraps to match a predicate.
    fn to_be_ok_matching<F>(self, predicate: F) -> (builder: Self) where
        F: Fn(&T) -> bool + 'static,

        requires
            forall|ok_value: &T| call_requires(predicate, (ok_value,)),
        ensures
            builder.subject() == self.subject(),
            adds(
                builder.expectations(),
                self.expectations(),
                |actual: &Result<T, E>, verdict: Verdict|
                    ok_matching_admits(predicate, actual, verdict),
            ),
    ;

    /// Expect the `Result` to be `Err` and what it wraps to match a predicate.
    fn to_be_err_matching<F>(self, predicate: F) -> (builder: Self) where
        F: Fn(&E) -> bool + 'static,

        requires
            forall|err_value: &E| call_requires(predicate, (err_value,)),
        ensures
            builder.subject() == self.subject(),
            adds(
                builder.expectations(),
                self.expectations(),
                |actual: &Result<T, E>, verdict: Verdict|
                    err_matching_admits(predicate, actual, verdict),
            ),
    ;
}

/// Expectations on what a `Result` wraps.
pub trait ProjectedResultExpectations<'e, T, E, TB, EB>: ExpectationBuilder<
    'e,
    Result<T, E>,
> where T: Debug + 'e, E: Debug + 'e, TB: ExpectationBuilder<'e, T>, EB: ExpectationBuilder<'e, E> {
    /// Expect the `Result` to be `Ok`, and what it wraps to meet the
    /// expectations that `config` gathers on a fresh builder.
    fn to_be_ok_and<C: FnOnce(TB) -> TB>(self, config: C) -> (builder: Self)
        requires
            forall|fresh: TB|
                fresh.expectations().len() == 0 ==> #[trigger] call_requires(config, (fresh,)),
        ensures
            builder.subject() == self.subject(),
            exists|fresh: TB, configured: TB|
                {
                    &&& fresh.expectations().len() == 0
                    &&& #[trigger] call_ensures(config, (fresh,), configured)
                    &&& adds(
                        builder.expectations(),
                        self.expectations(),
                        |actual: &Result<T, E>, verdict: Verdict|
                            ok_and_admits(configured.expectations(), actual, verdict),
                    )
                },
    ;

    /// Expect the `Result` to be `Err`, and what it wraps to meet the
    /// expectations that `config` gathers on a fresh builder.
    fn to_be_err_and<C: FnOnce(EB) -> EB>(self, config: C) -> (builder: Self)
        requires
            forall|fresh: EB|
                fresh.expectations().len() == 0 ==> #[trigger] call_requires(config, (fresh,)),
        ensures
            builder.subject() == self.subject(),
            exists|fresh: EB, configured: EB|
                {
                    &&& fresh.expectations().len() == 0
                    &&& #[trigger] call_ensures(config, (fresh,), configured)
                    &&& adds(
                        builder.expectations(),
                        self.expectations(),
                        |actual: &Result<T, E>, verdict: Verdict|
                            err_and_admits(configured.expectations(), actual, verdict),
                    )
                },
    ;
}

impl<'e, T, E, B> ResultExpectations<'e, T, E> for B where
    T: Debug + 'e,
    E: Debug + 'e,
    B: ExpectationBuilder<'e, Result<T, E>>,
 {
    fn to_be_ok(self) -> (builder: Self) {
        self.to_pass(IsOkExpectation)
    }

    fn to_be_err(self) -> (builder: Self) {
        self.to_pass(IsErrExpectation)
    }

    fn to_be_ok_matching<F>(self, predicate: F) -> (builder: Self) where
        F: Fn(&T) -> bool + 'static,
     {
        self.to_pass(IsOkMatchingExpectation::new(predicate))
    }

    fn to_be_err_matching<F>(self, predicate: F) -> (builder: Self) where
        F: Fn(&E) -> bool + 'static,
     {
        self.to_pass(IsErrMatchingExpectation::new(predicate))
    }
}

impl<'e, T, E, B> ProjectedResultExpectations<
    'e,
    T,
    E,
    ExpectationList<'e, T>,
    ExpectationList<'e, E>,
> for B where T: Debug + 'e, E: Debug + 'e, B: ExpectationBuilder<'e, Result<T, E>> {
    fn to_be_ok_and<C: FnOnce(ExpectationList<'e, T>) -> ExpectationList<'e, T>>(
        self,
        config: C,
    ) -> (builder: Self) {
        let fresh = ExpectationList::new();
        let expectations = config(fresh);
        let builder = self.to_pass(ResultOkProjectionExpectation { expectations });
        assert(call_ensures(config, (fresh,), expectations));
        builder
    }

    fn to_be_err_and<C: FnOnce(ExpectationList<'e, E>) -> ExpectationList<'e, E>>(
        self,
        config: C,
    ) -> (builder: Self) {
        let fresh = ExpectationList::new();
        let expectations = config(fresh);
        let builder = self.to_pass(ResultErrProjectionExpectation { expectations });
        assert(call_ensures(config, (fresh,), expectations));
        builder
    }
}

/// Expectation for `to_be_ok`.
pub struct IsOkExpectation;

impl<T: Debug, E: Debug> Expectation<Result<T, E>> for IsOkExpectation {
    open spec fn admits(&self, value: &Result<T, E>, verdict: Verdict) -> bool {
        ok_admits(value, verdict)
    }

    fn check(&self, value: &Result<T, E>) -> (result: CheckResult) {
        if value.is_ok() {
            CheckResult::Pass
        } else {
            CheckResult::Fail(rendered("Expectation failed (expected Ok)\n  actual: ", value, ""))
        }
    }
}

/// Expectation for `to_be_err`.
pub struct IsErrExpectation;

impl<T: Debug, E: Debug> Expectation<Result<T, E>> for IsErrExpectation {
    open spec fn admits(&self, value: &Result<T, E>, verdict: Verdict) -> bool {
        err_admits(value, verdict)
    }

    fn check(&self, value: &Result<T, E>) -> (result: CheckResult) {
        if value.is_err() {
            CheckResult::Pass
        } else {
            CheckResult::Fail(rendered("Expectation failed (expected Err)\n  actual: ", value, ""))
        }
    }
}

/// Expectation for `to_be_ok_and`.
#[verifier::reject_recursive_types(T)]
pub struct ResultOkProjectionExpectation<'e, T> {
    pub expectations: ExpectationList<'e, T>,
}

impl<'e, T: Debug + 'e, E: Debug> Expectation<Result<T, E>> for ResultOkProjectionExpectation<
    'e,
    T,
> {
    open spec fn admits(&self, value: &Result<T, E>, verdict: Verdict) -> bool {
        ok_and_admits(self.expectations@, value, verdict)
    }

    fn check(&self, value: &Result<T, E>) -> (result: CheckResult) {
        match value {
            Ok(ok_value) => self.expectations.check(ok_value),
            Err(e) => unexpected_err(e),
        }
    }
}

/// Expectation for `to_be_err_and`.
#[verifier::reject_recursive_types(E)]
pub struct ResultErrProjectionExpectation<'e, E> {
    pub expectations: ExpectationList<'e, E>,
}

impl<'e, T: Debug, E: Debug + 'e> Expectation<Result<T, E>> for ResultErrProjectionExpectation<
    'e,
    E,
> {
    open spec fn admits(&self, value: &Result<T, E>, verdict: Verdict) -> bool {
        err_and_admits(self.expectations@, value, verdict)
    }

    fn check(&self, value: &Result<T, E>) -> (result: CheckResult) {
        match value {
            Ok(value) => unexpected_ok(value),
            Err(err) => self.expectations.check(err),
        }
    }
}

/// Expectation for `to_be_ok_matching`.
#[verifier::reject_recursive_types(T)]
#[verifier::reject_recursive_types(F)]
pub struct IsOkMatchingExpectation<T, F> where F: Fn(&T) -> bool {
    predicate: F,
    phantom_data: PhantomData<T>,
}

impl<T, F> IsOkMatchingExpectation<T, F> where F: Fn(&T) -> bool {
    #[verifier::type_invariant]
    spec fn callable(&self) -> bool {
        forall|ok_value: &T| call_requires(self.predicate, (ok_value,))
    }

    /// The predicate.
    pub closed spec fn predicate(&self) -> F {
        self.predicate
    }

    /// An expectation that an `Ok` wraps what `predicate` holds of.
    pub fn new(predicate: F) -> (expectation: Self)
        requires
            forall|ok_value: &T| call_requires(predicate, (ok_value,)),
        ensures
            expectation.predicate() == predicate,
    {
        Self { predicate, phantom_data: PhantomData }
    }
}

impl<T: Debug, E: Debug, F: Fn(&T) -> bool> Expectation<Result<T, E>> for IsOkMatchingExpectation<
    T,
    F,
> {
    open spec fn admits(&self, value: &Result<T, E>, verdict: Verdict) -> bool {
        ok_matching_admits(self.predicate(), value, verdict)
    }

    fn check(&self, value: &Result<T, E>) -> (result: CheckResult) {
        proof {
            use_type_invariant(self);
        }
        match value {
            Ok(v) => {
                if (self.predicate)(v) {
                    CheckResult::Pass
                } else {
                    CheckResult::Fail(
                        rendered(
                            "Expectation failed (expected Ok value to match predicate)\n  actual: Ok(",
                            v,
                            ")",
                        ),
                    )
                }
            },
            Err(e) => unexpected_err(e),
        }
    }
}

/// Expectation for `to_be_err_matching`.
#[verifier::reject_recursive_types(E)]
#[verifier::reject_recursive_types(F)]
pub struct IsErrMatchingExpectation<E, F> where F: Fn(&E) -> bool {
    predicate: F,
    phantom_data: PhantomData<E>,
}

impl<E, F> IsErrMatchingExpectation<E, F> where F: Fn(&E) -> bool {
    #[verifier::type_invariant]
    spec fn callable(&self) -> bool {
        forall|err_value: &E| call_requires(self.predicate, (err_value,))
    }

    /// The predicate.
    pub closed spec fn predicate(&self) -> F {
        self.predicate
    }

    /// An expectation that an `Err` wraps what `predicate` holds of.
    pub fn new(predicate: F) -> (expectation: Self)
        requires
            forall|err_value: &E| call_requires(predicate, (err_value,)),
        ensures
            expectation.predicate() == predicate,
    {
        Self { predicate, phantom_data: PhantomData }
    }
}

impl<T: Debug, E: Debug, F: Fn(&E) -> bool> Expectation<Result<T, E>> for IsErrMatchingExpectation<
    E,
    F,
> {
    open spec fn admits(&self, value: &Result<T, E>, verdict: Verdict) -> bool {
        err_matching_admits(self.predicate(), value, verdict)
    }

    fn check(&self, value: &Result<T, E>) -> (result: CheckResult) {
        proof {
            use_type_invariant(self);
        }
        match value {
            Err(e) => {
                if (self.predicate)(e) {
                    CheckResult::Pass
                } else {
                    CheckResult::Fail(
                        rendered(
                            "Expectation failed (expected Err value to match predicate)\n  actual: Err(",
                            e,
                            ")",
                        ),
                    )
                }
            },
            Ok(v) => unexpected_ok(v),
        }
    }
}

} // verus!
