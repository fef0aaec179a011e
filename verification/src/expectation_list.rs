//! An ordered list of expectations on one type of value, checked together.
use crate::text::{join_failures, joined, trimmed_end, views};
use crate::{CheckResult, Expectation, ExpectationBuilder, Verdict};
use std::fmt::Debug;
use vstd::prelude::*;

verus! {

/// An expectation of any concrete type, held as a trait object.
#[verifier::reject_recursive_types(T)]
pub struct BoxedExpectation<'e, T> {
    inner: Box<dyn Expectation<T> + 'e>,
}

impl<'e, T: Debug> BoxedExpectation<'e, T> {
    /// `Box::new`, followed by the coercion to a trait object. A call through
    /// the trait object runs the method of the value it was made from, so it
    /// admits exactly the verdicts that the value admits.
    #[verifier::external_body]
    fn new<E: Expectation<T> + 'e>(expectation: E) -> (boxed: Self)
        ensures
            forall|value: &T, verdict: Verdict| #[trigger]
                boxed.admits(value, verdict) == expectation.admits(value, verdict),
    {
        BoxedExpectation { inner: Box::new(expectation) }
    }
}

impl<'e, T: Debug> Expectation<T> for BoxedExpectation<'e, T> {
    closed spec fn admits(&self, value: &T, verdict: Verdict) -> bool {
        self.inner.admits(value, verdict)
    }

    fn check(&self, value: &T) -> (result: CheckResult) {
        self.inner.check(value)
    }
}

/// The reports of the failures among `verdicts`, in order.
pub open spec fn failures(verdicts: Seq<Verdict>) -> Seq<Seq<char>>
    decreases verdicts.len(),
{
    if verdicts.len() == 0 {
        Seq::empty()
    } else {
        match verdicts.last() {
            Verdict::Fail(message) => failures(verdicts.drop_last()).push(message),
            Verdict::Pass => failures(verdicts.drop_last()),
        }
    }
}

/// One verdict for many: a pass if none failed; else a failure whose report is
/// the failures' reports, each followed by a line feed, without the white
/// space that then ends the whole.
pub open spec fn aggregate(verdicts: Seq<Verdict>) -> Verdict {
    if failures(verdicts).len() == 0 {
        Verdict::Pass
    } else {
        Verdict::Fail(trimmed_end(joined(failures(verdicts))))
    }
}

/// The expectations on a value of type `T`, in the order they were added.
#[verifier::reject_recursive_types(T)]
pub struct ExpectationList<'e, T> {
    items: Vec<BoxedExpectation<'e, T>>,
}

impl<'e, T: Debug> View for ExpectationList<'e, T> {
    type V = Seq<BoxedExpectation<'e, T>>;

    closed spec fn view(&self) -> Seq<BoxedExpectation<'e, T>> {
        self.items@
    }
}

/// Whether `verdicts` holds one verdict per expectation, each admitted by its
/// expectation for `value`.
pub open spec fn explains<'e, T: Debug>(
    expectations: Seq<BoxedExpectation<'e, T>>,
    value: &T,
    verdicts: Seq<Verdict>,
) -> bool {
    &&& verdicts.len() == expectations.len()
    &&& forall|i: int|
        0 <= i < expectations.len() ==> (#[trigger] expectations[i]).admits(value, verdicts[i])
}

/// Whether checking all of `expectations` against `value` may end in `verdict`.
pub open spec fn admits_all<'e, T: Debug>(
    expectations: Seq<BoxedExpectation<'e, T>>,
    value: &T,
    verdict: Verdict,
) -> bool {
    exists|verdicts: Seq<Verdict>| #[trigger]
        explains(expectations, value, verdicts) && verdict == aggregate(verdicts)
}

/// Whether `longer` is `shorter` followed by one entry that admits what
/// `expectation` admits.
pub open spec fn extends<'e, T: Debug, E: Expectation<T>>(
    longer: Seq<BoxedExpectation<'e, T>>,
    shorter: Seq<BoxedExpectation<'e, T>>,
    expectation: E,
) -> bool {
    &&& longer.len() == shorter.len() + 1
    &&& longer.drop_last() == shorter
    &&& forall|value: &T, verdict: Verdict| #[trigger]
        longer.last().admits(value, verdict) == expectation.admits(value, verdict)
}

/// Whether `longer` is `shorter` followed by one entry, and every verdict that
/// the entry admits for a value meets `rule`.
pub open spec fn adds<'e, T: Debug>(
    longer: Seq<BoxedExpectation<'e, T>>,
    shorter: Seq<BoxedExpectation<'e, T>>,
    rule: spec_fn(&T, Verdict) -> bool,
) -> bool {
    &&& longer.len() == shorter.len() + 1
    &&& longer.drop_last() == shorter
    &&& forall|value: &T, verdict: Verdict| #[trigger]
        longer.last().admits(value, verdict) ==> rule(value, verdict)
}

impl<'e, T: Debug> ExpectationList<'e, T> {
    /// An empty list.
    pub fn new() -> (list: Self)
        ensures
            list@.len() == 0,
    {
        ExpectationList { items: Vec::new() }
    }

    /// Appends `expectation`.
    pub fn push<E: Expectation<T> + 'e>(&mut self, expectation: E)
        ensures
            extends(final(self)@, old(self)@, expectation),
    {
        let boxed = BoxedExpectation::new(expectation);
        self.items.push(boxed);
        assert(self.items@.drop_last() =~= old(self).items@);
    }

    /// Checks every expectation against `value`, in order and without stopping
    /// at a failure, and folds the outcomes into one.
    pub fn check(&self, value: &T) -> (result: CheckResult)
        ensures
            admits_all(self@, value, result@),
    {
        let mut reports: Vec<String> = Vec::new();
        let ghost mut verdicts: Seq<Verdict> = Seq::empty();
        let mut i: usize = 0;
        while i < self.items.len()
            invariant
                i <= self.items@.len(),
                explains(self.items@.subrange(0, i as int), value, verdicts),
                views(reports@) == failures(verdicts),
            decreases self.items@.len() - i,
        {
            let result = self.items[i].check(value);
            proof {
                let grown = verdicts.push(result@);
                assert(grown.drop_last() =~= verdicts);
                assert forall|j: int| 0 <= j < i + 1 implies (#[trigger] self.items@.subrange(
                    0,
                    i + 1,
                )[j]).admits(value, grown[j]) by {
                    if j < i {
                        assert(self.items@.subrange(0, i as int)[j] == self.items@[j]);
                    }
                }
                verdicts = grown;
            }
            if let CheckResult::Fail(message) = result {
                assert(views(reports@.push(message)) =~= views(reports@).push(message@));
                reports.push(message);
            }
            i += 1;
        }
        assert(self.items@.subrange(0, i as int) =~= self.items@);
        if reports.len() > 0 {
            CheckResult::Fail(join_failures(&reports))
        } else {
            CheckResult::Pass
        }
    }
}

impl<'e, T: Debug> ExpectationBuilder<'e, T> for ExpectationList<'e, T> {
    type Subject = ();

    open spec fn expectations(&self) -> Seq<BoxedExpectation<'e, T>> {
        self@
    }

    open spec fn subject(&self) -> () {
        ()
    }

    fn to_pass<E: Expectation<T> + 'e>(self, expectation: E) -> (builder: Self) {
        let mut builder = self;
        builder.push(expectation);
        builder
    }
}

} // verus!
