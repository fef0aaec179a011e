//! Expectations on equality.
use crate::expectation_list::adds;
use crate::text::{debug_text, framed};
use crate::{CheckResult, Expectation, ExpectationBuilder, Verdict};
use std::fmt::Debug;
use vstd::prelude::*;
use vstd::std_specs::cmp::PartialEqSpec;

verus! {

/// The report of a failed equality, around the renderings of the two values.
pub open spec fn unequal_report(expected: Seq<char>, actual: Seq<char>) -> Seq<char> {
    "Expectation failed (expected == actual)\nexpected: `"@ + expected + "`\n  actual: `"@
        + actual + "`"@
}

/// Whether `verdict` is in order for a check that `value` equals `expected`:
/// where equality on `T` is specified, a pass only if the two are equal and a
/// failure only if they are not; a failure's report has the fixed layout.
pub open spec fn equal_admits<T: PartialEq<U>, U>(expected: &U, value: &T, verdict: Verdict)
    -> bool {
    match verdict {
        Verdict::Pass => T::obeys_eq_spec() ==> value.eq_spec(expected),
        Verdict::Fail(report) => {
            &&& T::obeys_eq_spec() ==> !value.eq_spec(expected)
            &&& exists|e: Seq<char>, a: Seq<char>| report == #[trigger] unequal_report(e, a)
        },
    }
}

/// Whether `==` between a `T` and a `U` is specified.
pub open spec fn equality_specified<T: PartialEq<U>, U>() -> bool {
    T::obeys_eq_spec()
}

/// `a == b` as specified for `T` and `U`.
pub open spec fn equals<T: PartialEq<U>, U>(a: &T, b: &U) -> bool {
    a.eq_spec(b)
}

/// `a.eq(b)`.
pub fn is_equal<T: PartialEq<U>, U>(a: &T, b: &U) -> (same: bool)
    ensures
        equality_specified::<T, U>() ==> same == equals(a, b),
{
    a.eq(b)
}

/// Extension trait for equality expectations.
pub trait EqualityExpectations<'e, T, U>: ExpectationBuilder<'e, T> where
    T: PartialEq<U> + Debug + 'e,
    U: Debug + 'e,
 {
    /// Expect the value to equal another value: `value.eq(&expected)` holds.
    fn to_equal(self, value: U) -> (builder: Self)
        ensures
            builder.subject() == self.subject(),
            adds(
                builder.expectations(),
                self.expectations(),
                |actual: &T, verdict: Verdict| equal_admits(&value, actual, verdict),
            ),
    ;
}

impl<'e, T, U, B> EqualityExpectations<'e, T, U> for B where
    T: PartialEq<U> + Debug + 'e,
    U: Debug + 'e,
    B: ExpectationBuilder<'e, T>,
 {
    fn to_equal(self, value: U) -> (builder: Self) {
        self.to_pass(ToEqualExpectation(value))
    }
}

/// Expectation for `to_equal`.
pub struct ToEqualExpectation<U>(pub U);

impl<T, U> Expectation<T> for ToEqualExpectation<U> where T: PartialEq<U> + Debug, U: Debug {
    open spec fn admits(&self, value: &T, verdict: Verdict) -> bool {
        equal_admits(&self.0, value, verdict)
    }

    fn check(&self, value: &T) -> (result: CheckResult) {
        if value.eq(&self.0) {
            CheckResult::Pass
        } else {
            let expected = debug_text(&self.0);
            let actual = debug_text(value);
            let report = framed(
                "Expectation failed (expected == actual)\nexpected: `",
                expected.as_str(),
                "`\n  actual: `",
                actual.as_str(),
                "`",
            );
            assert(report@ == unequal_report(expected@, actual@));
            CheckResult::Fail(report)
        }
    }
}

} // verus!
