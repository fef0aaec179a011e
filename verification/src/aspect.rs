//! Expectations on a value derived once from the value under test, gathered
//! by a builder of their own and handed to the parent builder as one
//! expectation.
use crate::expectation_list::{adds, admits_all, BoxedExpectation, ExpectationList};
use crate::projection::{nest, nested};
use crate::{CheckResult, Expectation, ExpectationBuilder, Verdict};
use std::fmt::Debug;
use std::marker::PhantomData;
use vstd::prelude::*;

verus! {

/// Whether checking `expectations` against the derived `value` may be reported
/// one level up as `verdict`.
pub open spec fn aspect_admits<'e, T: Debug>(
    value: &T,
    expectations: Seq<BoxedExpectation<'e, T>>,
    verdict: Verdict,
) -> bool {
    exists|inner: Verdict| #[trigger]
        admits_all(expectations, value, inner) && verdict == nested(inner)
}

/// A derived value and the expectations on it, as one expectation on the value
/// it was derived from. The derived value is fixed: the checked value is not
/// looked at.
#[verifier::reject_recursive_types(PT)]
#[verifier::reject_recursive_types(T)]
pub struct AggregatedAspectExpectation<'e, PT, T> {
    value: T,
    expectations: ExpectationList<'e, T>,
    _pt: PhantomData<PT>,
}

impl<'e, PT, T> AggregatedAspectExpectation<'e, PT, T> where PT: Debug + 'e, T: Debug + 'e {
    /// The derived value.
    pub closed spec fn value(&self) -> T {
        self.value
    }

    /// The expectations on the derived value.
    pub closed spec fn expectations(&self) -> Seq<BoxedExpectation<'e, T>> {
        self.expectations@
    }

    /// `expectations` on the derived `value`.
    pub fn new(value: T, expectations: ExpectationList<'e, T>) -> (aggregated: Self)
        ensures
            aggregated.value() == value,
            aggregated.expectations() == expectations@,
    {
        AggregatedAspectExpectation { value, expectations, _pt: PhantomData }
    }
}

impl<'e, PT, T> Expectation<PT> for AggregatedAspectExpectation<'e, PT, T> where
    PT: Debug + 'e,
    T: Debug + 'e,
 {
    open spec fn admits(&self, value: &PT, verdict: Verdict) -> bool {
        aspect_admits(&self.value(), self.expectations(), verdict)
    }

    fn check(&self, _value: &PT) -> (result: CheckResult) {
        let inner = self.expectations.check(&self.value);
        assert(admits_all(self.expectations(), &self.value(), inner@));
        nest(inner)
    }
}

/// A builder for the expectations on a value derived from the one that the
/// parent builder is about.
#[verifier::reject_recursive_types(P)]
#[verifier::reject_recursive_types(PT)]
#[verifier::reject_recursive_types(T)]
pub struct AspectExpectations<'e, P, PT: 'e, T: 'e> {
    parent: P,
    expectations: ExpectationList<'e, T>,
    value: T,
    _pt: PhantomData<PT>,
}

impl<'e, P, PT, T> AspectExpectations<'e, P, PT, T> where
    P: ExpectationBuilder<'e, PT>,
    PT: Debug + 'e,
    T: Debug + 'e,
 {
    /// The builder that this one will hand its expectations to.
    pub closed spec fn parent_builder(&self) -> P {
        self.parent
    }

    /// The derived value.
    pub closed spec fn value(&self) -> T {
        self.value
    }

    /// A builder under `parent` for expectations on the derived `value`,
    /// holding none yet.
    pub fn new(parent: P, value: T) -> (child: Self)
        ensures
            child.parent_builder() == parent,
            child.value() == value,
            child.expectations().len() == 0,
    {
        AspectExpectations { parent, expectations: ExpectationList::new(), value, _pt: PhantomData }
    }

    /// A builder under this one for expectations on what `transform` derives
    /// from this builder's value.
    pub fn aspect<U: Debug + 'e, F: FnOnce(&T) -> U>(self, transform: F) -> (child:
        AspectExpectations<'e, Self, T, U>)
        requires
            call_requires(transform, (&self.value(),)),
        ensures
            child.parent_builder() == self,
            call_ensures(transform, (&self.value(),), child.value()),
            child.expectations().len() == 0,
    {
        let value = transform(&self.value);
        AspectExpectations::new(self, value)
    }

    /// Hands the expectations gathered here to the parent as one expectation,
    /// behind those it already has, and gives the parent back.
    pub fn parent(self) -> (parent: P)
        ensures
            parent.subject() == self.parent_builder().subject(),
            adds(
                parent.expectations(),
                self.parent_builder().expectations(),
                |actual: &PT, verdict: Verdict|
                    aspect_admits(&self.value(), self.expectations(), verdict),
            ),
    {
        let aggregated = AggregatedAspectExpectation::new(self.value, self.expectations);
        self.parent.to_pass(aggregated)
    }
}

impl<'e, P, PT, T> ExpectationBuilder<'e, T> for AspectExpectations<'e, P, PT, T> where
    P: ExpectationBuilder<'e, PT>,
    PT: Debug + 'e,
    T: Debug + 'e,
 {
    type Subject = (P, T);

    closed spec fn expectations(&self) -> Seq<BoxedExpectation<'e, T>> {
        self.expectations@
    }

    closed spec fn subject(&self) -> (P, T) {
        (self.parent, self.value)
    }

    fn to_pass<E: Expectation<T> + 'e>(self, expectation: E) -> (builder: Self) {
        let mut builder = self;
        builder.expectations.push(expectation);
        builder
    }
}

} // verus!
