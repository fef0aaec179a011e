//! Expectations on booleans.
use crate::expectation_list::adds;
use crate::expectations::equality::{equal_admits, EqualityExpectations};
use crate::{ExpectationBuilder, Verdict};
use vstd::prelude::*;

verus! {

/// Extension trait for boolean expectations.
pub trait BooleanExpectations<'e>: ExpectationBuilder<'e, bool> {
    /// Expect the value to be true.
    fn to_be_true(self) -> (builder: Self)
        ensures
            builder.subject() == self.subject(),
            adds(
                builder.expectations(),
                self.expectations(),
                |actual: &bool, verdict: Verdict| equal_admits(&true, actual, verdict),
            ),
    ;

    /// Expect the value to be false.
    fn to_be_false(self) -> (builder: Self)
        ensures
            builder.subject() == self.subject(),
            adds(
                builder.expectations(),
                self.expectations(),
                |actual: &bool, verdict: Verdict| equal_admits(&false, actual, verdict),
            ),
    ;
}

impl<'e, B> BooleanExpectations<'e> for B where
    B: ExpectationBuilder<'e, bool> + EqualityExpectations<'e, bool, bool>,
 {
    fn to_be_true(self) -> (builder: Self) {
        self.to_equal(true)
    }

    fn to_be_false(self) -> (builder: Self) {
        self.to_equal(false)
    }
}

} // verus!
