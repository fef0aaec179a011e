//! Expectations on how many items a collection holds.
use crate::expectation_list::{adds, admits_all, BoxedExpectation, ExpectationList};
use crate::projection::{nested, ExpectProjection};
use crate::{CheckResult, Expectation, ExpectationBuilder, Verdict};
use std::fmt::Debug;
use vstd::prelude::*;

verus! {

/// The report for a collection that holds an item where none was expected.
pub open spec fn not_empty_report() -> Seq<char> {
    "Expected iterable to be empty, but it had at least one item"@
}

/// The report for a collection that holds no item where one was expected.
pub open spec fn empty_report() -> Seq<char> {
    "Expected iterable to not be empty, but it was"@
}

/// The verdict of `to_be_empty` for `items`.
pub open spec fn empty_verdict<C>(items: &Vec<C>) -> Verdict {
    if items@.len() == 0 {
        Verdict::Pass
    } else {
        Verdict::Fail(not_empty_report())
    }
}

/// The verdict of `to_not_be_empty` for `items`.
pub open spec fn not_empty_verdict<C>(items: &Vec<C>) -> Verdict {
    if items@.len() > 0 {
        Verdict::Pass
    } else {
        Verdict::Fail(empty_report())
    }
}

/// Whether checking `expectations` against the number of `items` may be
/// reported one level up as `verdict`.
pub open spec fn count_admits<'e, C>(
    expectations: Seq<BoxedExpectation<'e, usize>>,
    items: &Vec<C>,
    verdict: Verdict,
) -> bool {
    exists|inner: Verdict| #[trigger]
        admits_all(expectations, &(items@.len() as usize), inner) && verdict == nested(inner)
}

/// The number of `items`.
pub fn count_of<C>(items: &Vec<C>) -> (count: usize)
    ensures
        count == items@.len(),
{
    items.len()
}

/// Extension trait for expectations on the number of items.
pub trait IterableCountExpectations<'e, C>: ExpectationBuilder<'e, Vec<C>> where C: Debug + 'e {
    /// Expectations on the number of items, gathered by `config` on a fresh
    /// builder and added as one expectation.
    fn count<G: FnOnce(ExpectationList<'e, usize>) -> ExpectationList<'e, usize>>(
        self,
        config: G,
    ) -> (builder: Self)
        requires
            forall|fresh: ExpectationList<'e, usize>|
                fresh@.len() == 0 ==> #[trigger] call_requires(config, (fresh,)),
        ensures
            builder.subject() == self.subject(),
            exists|fresh: ExpectationList<'e, usize>, configured: ExpectationList<'e, usize>|
                {
                    &&& fresh@.len() == 0
                    &&& #[trigger] call_ensures(config, (fresh,), configured)
                    &&& adds(
                        builder.expectations(),
                        self.expectations(),
                        |actual: &Vec<C>, verdict: Verdict|
                            count_admits(configured@, actual, verdict),
                    )
                },
    ;

    /// Expect the collection to hold at least one item.
    fn to_not_be_empty(self) -> (builder: Self)
        ensures
            builder.subject() == self.subject(),
            adds(
                builder.expectations(),
                self.expectations(),
                |actual: &Vec<C>, verdict: Verdict| verdict == not_empty_verdict(actual),
            ),
    ;

    /// Expect the collection to hold no item.
    fn to_be_empty(self) -> (builder: Self)
        ensures
            builder.subject() == self.subject(),
            adds(
                builder.expectations(),
                self.expectations(),
                |actual: &Vec<C>, verdict: Verdict| verdict == empty_verdict(actual),
            ),
    ;
}

impl<'e, C, B> IterableCountExpectations<'e, C> for B where
    C: Debug + 'e,
    B: ExpectationBuilder<'e, Vec<C>>,
 {
    fn count<G: FnOnce(ExpectationList<'e, usize>) -> ExpectationList<'e, usize>>(
        self,
        config: G,
    ) -> (builder: Self) {
        let builder = self.projected_by(count_of::<C>, config);
        proof {
            let (fresh, configured) = choose|
                fresh: ExpectationList<'e, usize>,
                configured: ExpectationList<'e, usize>,
            |
                {
                    &&& fresh.expectations().len() == 0
                    &&& #[trigger] call_ensures(config, (fresh,), configured)
                    &&& crate::projection::projects(
                        builder.expectations(),
                        self.expectations(),
                        count_of::<C>,
                        configured.expectations(),
                    )
                };
            assert forall|actual: &Vec<C>, verdict: Verdict| #[trigger]
                builder.expectations().last().admits(actual, verdict) implies count_admits(
                configured@,
                actual,
                verdict,
            ) by {
                let (projected, inner) = choose|projected: usize, inner: Verdict|
                    {
                        &&& call_ensures(count_of::<C>, (actual,), projected)
                        &&& #[trigger] admits_all(configured@, &projected, inner)
                        &&& verdict == nested(inner)
                    };
                assert(admits_all(configured@, &(actual@.len() as usize), inner));
            }
        }
        builder
    }

    fn to_not_be_empty(self) -> (builder: Self) {
        self.to_pass(NotEmptyExpectation {  })
    }

    fn to_be_empty(self) -> (builder: Self) {
        self.to_pass(EmptyExpectation {  })
    }
}

/// Expectation for `to_be_empty`.
pub struct EmptyExpectation;

impl<C: Debug> Expectation<Vec<C>> for EmptyExpectation {
    open spec fn admits(&self, value: &Vec<C>, verdict: Verdict) -> bool {
        verdict == empty_verdict(value)
    }

    fn check(&self, value: &Vec<C>) -> (result: CheckResult) {
        if value.len() == 0 {
            CheckResult::Pass
        } else {
            CheckResult::Fail(
                String::from_str("Expected iterable to be empty, but it had at least one item"),
            )
        }
    }
}

/// Expectation for `to_not_be_empty`.
pub struct NotEmptyExpectation;

impl<C: Debug> Expectation<Vec<C>> for NotEmptyExpectation {
    open spec fn admits(&self, value: &Vec<C>, verdict: Verdict) -> bool {
        verdict == not_empty_verdict(value)
    }

    fn check(&self, value: &Vec<C>) -> (result: CheckResult) {
        if value.len() > 0 {
            CheckResult::Pass
        } else {
            CheckResult::Fail(String::from_str("Expected iterable to not be empty, but it was"))
        }
    }
}

} // verus!
