//! Expectations on order.
use crate::expectation_list::adds;
use crate::expectations::predicate::{lemma_predicate_expectation_admits, PredicateExpectation};
use crate::text::{debug_text, framed, is_rendered_pair, rendered_pair};
use crate::{Expectation, ExpectationBuilder, Verdict};
use std::cmp::Ordering;
use std::fmt::Debug;
use std::ops::{Range, RangeInclusive};
use vstd::prelude::*;
use vstd::std_specs::cmp::PartialOrdSpec;
use vstd::std_specs::range::ContainsSpec;

verus! {

/// `a < b` by the order specified on `T`.
pub open spec fn is_less<T: PartialOrd>(a: &T, b: &T) -> bool {
    a.partial_cmp_spec(b) == Some(Ordering::Less)
}

/// `a <= b` by the order specified on `T`.
pub open spec fn is_less_or_equal<T: PartialOrd>(a: &T, b: &T) -> bool {
    a.partial_cmp_spec(b) matches Some(Ordering::Less | Ordering::Equal)
}

/// `a > b` by the order specified on `T`.
pub open spec fn is_greater<T: PartialOrd>(a: &T, b: &T) -> bool {
    a.partial_cmp_spec(b) == Some(Ordering::Greater)
}

/// `a >= b` by the order specified on `T`.
pub open spec fn is_greater_or_equal<T: PartialOrd>(a: &T, b: &T) -> bool {
    a.partial_cmp_spec(b) matches Some(Ordering::Greater | Ordering::Equal)
}

/// The report of a failed comparison: the relation, then the renderings of the
/// two values.
pub open spec fn comparison_report(relation: Seq<char>, a: Seq<char>, b: Seq<char>) -> Seq<char> {
    "Expectation failed ("@ + relation + ")\na: `"@ + a + "`\nb: `"@ + b + "`"@
}

/// Whether `report` has the layout of a failed comparison by `relation`.
pub open spec fn is_comparison_report(relation: Seq<char>, report: Seq<char>) -> bool {
    exists|a: Seq<char>, b: Seq<char>| report == #[trigger] comparison_report(relation, a, b)
}

/// Whether `verdict` is in order for a comparison that `holds` or not: where
/// the order is `specified`, a pass only if it holds and a failure only if it
/// does not; a failure's report has the layout of a failed comparison.
pub open spec fn compared_admits(
    specified: bool,
    holds: bool,
    relation: Seq<char>,
    verdict: Verdict,
) -> bool {
    match verdict {
        Verdict::Pass => specified ==> holds,
        Verdict::Fail(report) => (specified ==> !holds) && is_comparison_report(relation, report),
    }
}

/// The report of a failed comparison by `relation` between `first` and
/// `second`.
pub fn comparison_message<T: Debug>(relation: &str, first: &T, second: &T) -> (report: String)
    ensures
        is_comparison_report(relation@, report@),
{
    let a = debug_text(first);
    let b = debug_text(second);
    let head = framed("Expectation failed (", relation, ")\na: `", a.as_str(), "`\nb: `");
    let report = framed(head.as_str(), b.as_str(), "`", "", "");
    proof {
        reveal_strlit("");
        assert(report@ =~= comparison_report(relation@, a@, b@));
    }
    report
}

/// `a.lt(b)`.
pub fn less<T: PartialOrd>(a: &T, b: &T) -> (holds: bool)
    ensures
        T::obeys_partial_cmp_spec() ==> holds == is_less(a, b),
{
    a.lt(b)
}

/// The report of a value `a` that failed to be `lt` the value `b`.
pub fn less_message<T: Debug>(a: &T, b: &T) -> (report: String)
    ensures
        is_comparison_report("a < b"@, report@),
{
    comparison_message("a < b", b, a)
}

/// `a.le(b)`.
pub fn less_or_equal<T: PartialOrd>(a: &T, b: &T) -> (holds: bool)
    ensures
        T::obeys_partial_cmp_spec() ==> holds == is_less_or_equal(a, b),
{
    a.le(b)
}

/// The report of a value `a` that failed to be `le` the value `b`.
pub fn less_or_equal_message<T: Debug>(a: &T, b: &T) -> (report: String)
    ensures
        is_comparison_report("a ≤ b"@, report@),
{
    comparison_message("a ≤ b", b, a)
}

/// `a.gt(b)`.
pub fn greater<T: PartialOrd>(a: &T, b: &T) -> (holds: bool)
    ensures
        T::obeys_partial_cmp_spec() ==> holds == is_greater(a, b),
{
    a.gt(b)
}

/// The report of a value `a` that failed to be `gt` the value `b`.
pub fn greater_message<T: Debug>(a: &T, b: &T) -> (report: String)
    ensures
        is_comparison_report("a > b"@, report@),
{
    comparison_message("a > b", b, a)
}

/// `a.ge(b)`.
pub fn greater_or_equal<T: PartialOrd>(a: &T, b: &T) -> (holds: bool)
    ensures
        T::obeys_partial_cmp_spec() ==> holds == is_greater_or_equal(a, b),
{
    a.ge(b)
}

/// The report of a value `a` that failed to be `ge` the value `b`.
pub fn greater_or_equal_message<T: Debug>(a: &T, b: &T) -> (report: String)
    ensures
        is_comparison_report("a ≥ b"@, report@),
{
    comparison_message("a ≥ b", b, a)
}

/// A predicate that decides `holds` wherever the order on `T` is specified,
/// with reports laid out as failed comparisons by `relation`, makes an
/// expectation that admits only the verdicts in order for that comparison.
pub proof fn lemma_comparison<T, P, M>(
    expectation: PredicateExpectation<T, T, P, M>,
    relation: Seq<char>,
    holds: spec_fn(&T, &T) -> bool,
) where T: PartialOrd + Debug, P: Fn(&T, &T) -> bool, M: Fn(&T, &T) -> String
    requires
        forall|a: &T, b: &T, decided: bool| #[trigger]
            call_ensures(expectation.predicate(), (a, b), decided) ==> (
            T::obeys_partial_cmp_spec() ==> decided == holds(a, b)),
        forall|a: &T, b: &T, report: String| #[trigger]
            call_ensures(expectation.error_message(), (a, b), report) ==> is_comparison_report(
                relation,
                report@,
            ),
    ensures
        forall|actual: &T, verdict: Verdict| #[trigger]
            expectation.admits(actual, verdict) ==> compared_admits(
                T::obeys_partial_cmp_spec(),
                holds(actual, &expectation.expected_value()),
                relation,
                verdict,
            ),
{
    assert forall|actual: &T, verdict: Verdict| #[trigger]
        expectation.admits(actual, verdict) implies compared_admits(
        T::obeys_partial_cmp_spec(),
        holds(actual, &expectation.expected_value()),
        relation,
        verdict,
    ) by {
        lemma_predicate_expectation_admits(expectation, actual, verdict);
    }
}

/// A range that a value of type `T` can be inside.
pub trait Bounds<T> {
    /// Whether the order on `T` is specified, so that the bounds decide.
    spec fn decides() -> bool;

    /// Whether `value` is inside the range.
    spec fn holds(&self, value: &T) -> bool;

    /// Whether `value` is inside the range.
    fn contains_value(&self, value: &T) -> (inside: bool)
        ensures
            Self::decides() ==> inside == self.holds(value),
    ;
}

impl<T: PartialOrd> Bounds<T> for Range<T> {
    open spec fn decides() -> bool {
        <Range<T> as ContainsSpec<T, T>>::obeys_contains()
    }

    open spec fn holds(&self, value: &T) -> bool {
        self.contains_spec(value)
    }

    fn contains_value(&self, value: &T) -> (inside: bool) {
        self.contains(value)
    }
}

impl<T: PartialOrd> Bounds<T> for RangeInclusive<T> {
    open spec fn decides() -> bool {
        <RangeInclusive<T> as ContainsSpec<T, T>>::obeys_contains()
    }

    open spec fn holds(&self, value: &T) -> bool {
        self.contains_spec(value)
    }

    fn contains_value(&self, value: &T) -> (inside: bool) {
        self.contains(value)
    }
}

/// Whether `report` has the layout of a value found outside a range.
pub open spec fn is_outside_report(report: Seq<char>) -> bool {
    is_rendered_pair("Expectation failed (value ∈ range)\nvalue:`"@, "`\nrange:`"@, "`"@, report)
}

/// Whether `verdict` is in order for a check that `value` is inside `range`:
/// where the bounds decide, a pass only if it is and a failure only if it is
/// not; a failure reports the value and the range.
pub open spec fn inside_admits<T, R: Bounds<T>>(range: &R, value: &T, verdict: Verdict) -> bool {
    match verdict {
        Verdict::Pass => R::decides() ==> range.holds(value),
        Verdict::Fail(report) => (R::decides() ==> !range.holds(value)) && is_outside_report(
            report,
        ),
    }
}

/// `range.contains_value(value)`.
pub fn inside<T, R: Bounds<T>>(value: &T, range: &R) -> (holds: bool)
    ensures
        R::decides() ==> holds == range.holds(value),
{
    range.contains_value(value)
}

/// The report of a `value` that is not inside `range`.
pub fn inside_message<T: Debug, R: Debug>(value: &T, range: &R) -> (report: String)
    ensures
        is_outside_report(report@),
{
    rendered_pair("Expectation failed (value ∈ range)\nvalue:`", value, "`\nrange:`", range, "`")
}

/// Extension trait for ordering expectations.
pub trait OrderExpectations<'e, T>: ExpectationBuilder<'e, T> where T: PartialOrd + Debug + 'e {

    /// Expect the value to be less than another value.
    fn to_be_less_than(self, value: T) -> (builder: Self)
        ensures
            builder.subject() == self.subject(),
            adds(
                builder.expectations(),
                self.expectations(),
                |actual: &T, verdict: Verdict|
                    compared_admits(
                        T::obeys_partial_cmp_spec(),
                        is_less(actual, &value),
                        "a < b"@,
                        verdict,
                    ),
            ),
    ;

    /// Expect the value to be less than or equal to another value.
    fn to_be_less_than_or_equal(self, value: T) -> (builder: Self)
        ensures
            builder.subject() == self.subject(),
            adds(
                builder.expectations(),
                self.expectations(),
                |actual: &T, verdict: Verdict|
                    compared_admits(
                        T::obeys_partial_cmp_spec(),
                        is_less_or_equal(actual, &value),
                        "a ≤ b"@,
                        verdict,
                    ),
            ),
    ;

    /// Expect the value to be greater than another value.
    fn to_be_greater_than(self, value: T) -> (builder: Self)
        ensures
            builder.subject() == self.subject(),
            adds(
                builder.expectations(),
                self.expectations(),
                |actual: &T, verdict: Verdict|
                    compared_admits(
                        T::obeys_partial_cmp_spec(),
                        is_greater(actual, &value),
                        "a > b"@,
                        verdict,
                    ),
            ),
    ;

    /// Expect the value to be greater than or equal to another value.
    fn to_be_greater_than_or_equal(self, value: T) -> (builder: Self)
        ensures
            builder.subject() == self.subject(),
            adds(
                builder.expectations(),
                self.expectations(),
                |actual: &T, verdict: Verdict|
                    compared_admits(
                        T::obeys_partial_cmp_spec(),
                        is_greater_or_equal(actual, &value),
                        "a ≥ b"@,
                        verdict,
                    ),
            ),
    ;

    /// Expect the value to be inside a range.
    fn to_be_inside<R: Bounds<T> + Debug + 'e>(self, range: R) -> (builder: Self)
        ensures
            builder.subject() == self.subject(),
            adds(
                builder.expectations(),
                self.expectations(),
                |actual: &T, verdict: Verdict| inside_admits(&range, actual, verdict),
            ),
    ;
}

impl<'e, T, B> OrderExpectations<'e, T> for B where
    T: PartialOrd + Debug + 'e,
    B: ExpectationBuilder<'e, T>,
 {

    fn to_be_less_than(self, value: T) -> (builder: Self) {
        let expectation = PredicateExpectation::new(value, less::<T>, less_message::<T>);
        proof {
            lemma_comparison(expectation, "a < b"@, |a: &T, b: &T| is_less(a, b));
        }
        self.to_pass(expectation)
    }

    fn to_be_less_than_or_equal(self, value: T) -> (builder: Self) {
        let expectation = PredicateExpectation::new(
            value,
            less_or_equal::<T>,
            less_or_equal_message::<T>,
        );
        proof {
            lemma_comparison(expectation, "a ≤ b"@, |a: &T, b: &T| is_less_or_equal(a, b));
        }
        self.to_pass(expectation)
    }

    fn to_be_greater_than(self, value: T) -> (builder: Self) {
        let expectation = PredicateExpectation::new(value, greater::<T>, greater_message::<T>);
        proof {
            lemma_comparison(expectation, "a > b"@, |a: &T, b: &T| is_greater(a, b));
        }
        self.to_pass(expectation)
    }

    fn to_be_greater_than_or_equal(self, value: T) -> (builder: Self) {
        let expectation = PredicateExpectation::new(
            value,
            greater_or_equal::<T>,
            greater_or_equal_message::<T>,
        );
        proof {
            lemma_comparison(expectation, "a ≥ b"@, |a: &T, b: &T| is_greater_or_equal(a, b));
        }
        self.to_pass(expectation)
    }

    fn to_be_inside<R: Bounds<T> + Debug + 'e>(self, range: R) -> (builder: Self) {
        let expectation = PredicateExpectation::new(range, inside::<T, R>, inside_message::<T, R>);
        proof {
            assert forall|actual: &T, verdict: Verdict| #[trigger]
                expectation.admits(actual, verdict) implies inside_admits(
                &range,
                actual,
                verdict,
            ) by {
                lemma_predicate_expectation_admits(expectation, actual, verdict);
            }
        }
        self.to_pass(expectation)
    }
}

} // verus!
