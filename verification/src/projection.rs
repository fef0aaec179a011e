//! Expectations on a value derived from the value under test.
use crate::expectation_list::{admits_all, BoxedExpectation, ExpectationList};
use crate::text::{indent, indented};
use crate::{CheckResult, Expectation, ExpectationBuilder, Verdict};
use std::fmt::Debug;
use std::marker::PhantomData;
use vstd::prelude::*;

verus! {

/// A verdict as it is reported one level up: a pass stays a pass, a failure's
/// report is moved in by two spaces.
pub open spec fn nested(verdict: Verdict) -> Verdict {
    match verdict {
        Verdict::Pass => Verdict::Pass,
        Verdict::Fail(message) => Verdict::Fail(indented(message)),
    }
}

/// Reports `result` one level up.
pub fn nest(result: CheckResult) -> (outer: CheckResult)
    ensures
        outer@ == nested(result@),
{
    match result {
        CheckResult::Fail(message) => CheckResult::Fail(indent(message.as_str())),
        CheckResult::Pass => CheckResult::Pass,
    }
}

/// Whether deriving a value from `value` by `projection` and checking
/// `expectations` against it may be reported as `verdict`.
pub open spec fn projected_admits<'e, F: Fn(&T) -> U, T: Debug, U: Debug>(
    projection: F,
    expectations: Seq<BoxedExpectation<'e, U>>,
    value: &T,
    verdict: Verdict,
) -> bool {
    exists|projected: U, inner: Verdict|
        {
            &&& call_ensures(projection, (value,), projected)
            &&& #[trigger] admits_all(expectations, &projected, inner)
            &&& verdict == nested(inner)
        }
}

/// A list of expectations on a derived value, as one expectation on the value
/// it is derived from. The value is derived anew at every check.
#[verifier::reject_recursive_types(T)]
#[verifier::reject_recursive_types(U)]
#[verifier::reject_recursive_types(F)]
pub struct ProjectedExpectations<'e, F, T, U> where F: Fn(&T) -> U, T: Debug, U: Debug + 'e {
    projection: F,
    expectations: ExpectationList<'e, U>,
    _t: PhantomData<&'e T>,
}

impl<'e, F, T, U> ProjectedExpectations<'e, F, T, U> where
    F: (Fn(&T) -> U) + 'e,
    T: Debug,
    U: Debug + 'e,
 {
    #[verifier::type_invariant]
    spec fn callable(&self) -> bool {
        forall|value: &T| call_requires(self.projection, (value,))
    }

    /// The function that derives the value.
    pub closed spec fn projection(&self) -> F {
        self.projection
    }

    /// The expectations on the derived value.
    pub closed spec fn expectations(&self) -> Seq<BoxedExpectation<'e, U>> {
        self.expectations@
    }

    /// `expectations` on what `projection` derives.
    pub fn new(projection: F, expectations: ExpectationList<'e, U>) -> (projected: Self)
        requires
            forall|value: &T| call_requires(projection, (value,)),
        ensures
            projected.projection() == projection,
            projected.expectations() == expectations@,
    {
        ProjectedExpectations { projection, expectations, _t: PhantomData }
    }
}

impl<'e, F, T, U> Expectation<T> for ProjectedExpectations<'e, F, T, U> where
    F: (Fn(&T) -> U) + 'e,
    T: Debug,
    U: Debug + 'e,
 {
    open spec fn admits(&self, value: &T, verdict: Verdict) -> bool {
        projected_admits(self.projection(), self.expectations(), value, verdict)
    }

    fn check(&self, value: &T) -> (result: CheckResult) {
        proof {
            use_type_invariant(self);
        }
        let projected = (self.projection)(value);
        let inner = self.expectations.check(&projected);
        assert(admits_all(self.expectations(), &projected, inner@));
        nest(inner)
    }
}

/// Whether `longer` is `shorter` followed by one entry that admits what
/// `inner`, checked against what `projection` derives, is reported as.
pub open spec fn projects<'e, F: Fn(&T) -> U, T: Debug, U: Debug>(
    longer: Seq<BoxedExpectation<'e, T>>,
    shorter: Seq<BoxedExpectation<'e, T>>,
    projection: F,
    inner: Seq<BoxedExpectation<'e, U>>,
) -> bool {
    &&& longer.len() == shorter.len() + 1
    &&& longer.drop_last() == shorter
    &&& forall|value: &T, verdict: Verdict| #[trigger]
        longer.last().admits(value, verdict) == projected_admits(
            projection,
            inner,
            value,
            verdict,
        )
}

/// Expectations on a value derived from the one that the builder is about.
pub trait ExpectProjection<'e, F, T, U, B>: ExpectationBuilder<'e, T> where
    F: (Fn(&T) -> U) + 'e,
    T: Debug + 'e,
    U: Debug + 'e,
    B: ExpectationBuilder<'e, U>,
 {
    /// Adds, as one expectation, the expectations that `config` gathers on a
    /// fresh builder, to be checked against what `projection` derives.
    fn projected_by<C: FnOnce(B) -> B>(self, projection: F, config: C) -> (builder: Self)
        requires
            forall|value: &T| call_requires(projection, (value,)),
            forall|fresh: B|
                fresh.expectations().len() == 0 ==> #[trigger] call_requires(config, (fresh,)),
        ensures
            builder.subject() == self.subject(),
            exists|fresh: B, configured: B|
                {
                    &&& fresh.expectations().len() == 0
                    &&& #[trigger] call_ensures(config, (fresh,), configured)
                    &&& projects(
                        builder.expectations(),
                        self.expectations(),
                        projection,
                        configured.expectations(),
                    )
                },
    ;
}

impl<'e, F, T, U, B> ExpectProjection<'e, F, T, U, ExpectationList<'e, U>> for B where
    F: (Fn(&T) -> U) + 'e,
    T: Debug + 'e,
    U: Debug + 'e,
    B: ExpectationBuilder<'e, T>,
 {
    fn projected_by<C: FnOnce(ExpectationList<'e, U>) -> ExpectationList<'e, U>>(
        self,
        projection: F,
        config: C,
    ) -> (builder: Self) {
        let fresh = ExpectationList::new();
        let expectations = config(fresh);
        let builder = self.to_pass(ProjectedExpectations::new(projection, expectations));
        assert(call_ensures(config, (fresh,), expectations));
        builder
    }
}

} // verus!
