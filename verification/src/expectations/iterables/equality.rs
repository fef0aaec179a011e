//! Expectations on the items of a collection.
use crate::expectation_list::adds;
use crate::expectations::equality::{equality_specified, equals, is_equal};
use crate::text::{debug_text, framed, is_rendered_pair, rendered_pair};
use crate::{CheckResult, Expectation, ExpectationBuilder, Verdict};
use itertools::EitherOrBoth;
use itertools::Itertools;
use std::fmt::Debug;
use vstd::multiset::Multiset;
use vstd::prelude::*;

verus! {

/// Whether some item of `items` equals `needle`.
pub open spec fn holds_equal_to<C: PartialEq>(items: Seq<C>, needle: &C) -> bool {
    exists|j: int| 0 <= j < items.len() && #[trigger] equals(&items[j], needle)
}

/// Whether each of `needles` has an equal among `items`.
pub open spec fn holds_all<C: PartialEq>(items: Seq<C>, needles: Seq<C>) -> bool {
    forall|i: int| 0 <= i < needles.len() ==> holds_equal_to(items, &#[trigger] needles[i])
}

/// Whether `expected` and `items` are as long as each other and equal item by
/// item.
pub open spec fn same_in_order<C: PartialEq>(expected: Seq<C>, items: Seq<C>) -> bool {
    &&& expected.len() == items.len()
    &&& forall|i: int| 0 <= i < expected.len() ==> #[trigger] equals(&expected[i], &items[i])
}

/// Whether `==` on `C` is specified, and as identity.
pub open spec fn equality_is_identity<C: PartialEq>() -> bool {
    &&& equality_specified::<C, C>()
    &&& forall|a: C, b: C| #[trigger] equals(&a, &b) <==> a == b
}

/// Whether `verdict` is in order for a check that `items` holds an equal of
/// each of `needles`: where `==` on `C` is specified, a pass only if it does
/// and a failure only if it does not; a failure reports the two collections.
pub open spec fn contains_admits<C: PartialEq>(
    needles: Seq<C>,
    items: &Vec<C>,
    verdict: Verdict,
) -> bool {
    match verdict {
        Verdict::Pass => equality_specified::<C, C>() ==> holds_all(items@, needles),
        Verdict::Fail(report) => {
            &&& equality_specified::<C, C>() ==> !holds_all(items@, needles)
            &&& is_rendered_pair("Expectation failed (a ⊇ b)\na: `"@, "`\nb: `"@, "`"@, report)
        },
    }
}

/// Whether `verdict` is in order for a check that `items` equals `expected`
/// item by item: where `==` on `C` is specified, a pass only if it does and a
/// failure only if it does not; a failure reports the two collections.
pub open spec fn equivalent_admits<C: PartialEq>(
    expected: Seq<C>,
    items: &Vec<C>,
    verdict: Verdict,
) -> bool {
    match verdict {
        Verdict::Pass => equality_specified::<C, C>() ==> same_in_order(expected, items@),
        Verdict::Fail(report) => {
            &&& equality_specified::<C, C>() ==> !same_in_order(expected, items@)
            &&& is_rendered_pair("Expectation failed (a == b)\na: `"@, "`\nb: `"@, "`"@, report)
        },
    }
}

/// Whether `report` has the layout of a failed comparison in any order: the
/// two collections, the items found beyond the expected ones, and the expected
/// items not found.
pub open spec fn is_any_order_report(report: Seq<char>) -> bool {
    exists|a: Seq<char>, b: Seq<char>, extra: Seq<char>, unmatched: Seq<char>|
        report == #[trigger] any_order_report(a, b, extra, unmatched)
}

/// The report of a failed comparison in any order, around four renderings.
pub open spec fn any_order_report(
    a: Seq<char>,
    b: Seq<char>,
    extra: Seq<char>,
    unmatched: Seq<char>,
) -> Seq<char> {
    "Expectation failed (a ≅ b, any order)\na: `"@ + a + "`\nb: `"@ + b + "`\nextra: `"@ + extra
        + "`\nunmatched: `"@ + unmatched + "`"@
}

/// Whether `verdict` is in order for a check that `items` holds the items of
/// `expected` in any order: where `==` on `C` is identity, a pass only if the
/// two hold the same items the same number of times, and a failure only if
/// they do not; a failure has the layout of such a report.
pub open spec fn any_order_admits<C: PartialEq>(
    expected: Seq<C>,
    items: &Vec<C>,
    verdict: Verdict,
) -> bool {
    match verdict {
        Verdict::Pass => equality_is_identity::<C>() ==> expected.to_multiset()
            == items@.to_multiset(),
        Verdict::Fail(report) => {
            &&& equality_is_identity::<C>() ==> expected.to_multiset() != items@.to_multiset()
            &&& is_any_order_report(report)
        },
    }
}

/// Whether `items` holds an item equal to `needle`.
pub fn has_equal_to<C: PartialEq>(items: &Vec<C>, needle: &C) -> (found: bool)
    ensures
        equality_specified::<C, C>() ==> found == holds_equal_to(items@, needle),
{
    let mut j: usize = 0;
    while j < items.len()
        invariant
            j <= items@.len(),
            equality_specified::<C, C>() ==> forall|k: int|
                0 <= k < j ==> !#[trigger] equals(&items@[k], needle),
        decreases items@.len() - j,
    {
        if is_equal(&items[j], needle) {
            return true;
        }
        j += 1;
    }
    false
}

/// Whether `items` holds an equal of each of `needles`.
pub fn has_all<C: PartialEq>(items: &Vec<C>, needles: &Vec<C>) -> (all: bool)
    ensures
        equality_specified::<C, C>() ==> all == holds_all(items@, needles@),
{
    let mut i: usize = 0;
    while i < needles.len()
        invariant
            i <= needles@.len(),
            equality_specified::<C, C>() ==> forall|k: int|
                0 <= k < i ==> holds_equal_to(items@, &#[trigger] needles@[k]),
        decreases needles@.len() - i,
    {
        if !has_equal_to(items, &needles[i]) {
            assert(equality_specified::<C, C>() ==> !holds_equal_to(items@, &needles@[i as int]));
            return false;
        }
        i += 1;
    }
    true
}

/// An item of each of two sequences walked side by side, or of the one that
/// has not ended yet.
pub enum Paired<'a, C> {
    Both(&'a C, &'a C),
    Left(&'a C),
    Right(&'a C),
}

/// What walking `left` and `right` side by side gives at position `i`.
pub open spec fn paired_at<'a, C>(left: Seq<C>, right: Seq<C>, i: int) -> Paired<'a, C> {
    if i < left.len() && i < right.len() {
        Paired::Both(&left[i], &right[i])
    } else if i < left.len() {
        Paired::Left(&left[i])
    } else {
        Paired::Right(&right[i])
    }
}

/// `Itertools::zip_longest` on the items of `left` and `right`: as long as
/// neither has ended it gives an item of each, after that the items of the
/// longer one alone, and it ends when both have.
#[verifier::external_body]
fn zip_longest<'a, C>(left: &'a Vec<C>, right: &'a Vec<C>) -> (pairs: Vec<Paired<'a, C>>)
    ensures
        pairs@.len() == if left@.len() >= right@.len() {
            left@.len()
        } else {
            right@.len()
        },
        forall|i: int|
            0 <= i < pairs@.len() ==> #[trigger] pairs@[i] == paired_at(left@, right@, i),
{
    left.iter().zip_longest(right.iter()).map(
        |pair| match pair {
            EitherOrBoth::Both(a, b) => Paired::Both(a, b),
            EitherOrBoth::Left(a) => Paired::Left(a),
            EitherOrBoth::Right(b) => Paired::Right(b),
        },
    ).collect()
}

/// Whether `expected` and `items` are as long as each other and equal item by
/// item.
pub fn is_same_in_order<C: PartialEq>(expected: &Vec<C>, items: &Vec<C>) -> (same: bool)
    ensures
        equality_specified::<C, C>() ==> same == same_in_order(expected@, items@),
{
    let pairs = zip_longest(expected, items);
    let mut i: usize = 0;
    while i < pairs.len()
        invariant
            i <= pairs@.len(),
            pairs@.len() >= expected@.len(),
            pairs@.len() >= items@.len(),
            pairs@.len() == expected@.len() || pairs@.len() == items@.len(),
            forall|k: int| 0 <= k < pairs@.len() ==> #[trigger] pairs@[k] == paired_at(
                expected@,
                items@,
                k,
            ),
            i <= expected@.len(),
            i <= items@.len(),
            equality_specified::<C, C>() ==> forall|k: int|
                0 <= k < i ==> #[trigger] equals(&expected@[k], &items@[k]),
        decreases pairs@.len() - i,
    {
        assert(pairs@[i as int] == paired_at(expected@, items@, i as int));
        match &pairs[i] {
            Paired::Both(a, b) => {
                if !is_equal(*a, *b) {
                    assert(equality_specified::<C, C>() ==> !equals(
                        &expected@[i as int],
                        &items@[i as int],
                    ));
                    return false;
                }
            },
            _ => {
                return false;
            },
        }
        i += 1;
    }
    true
}

/// Removing an item by moving the last one into its place takes one
/// occurrence of that item out of the sequence.
pub proof fn lemma_swap_remove_takes_one<C>(s: Seq<C>, p: int)
    requires
        0 <= p < s.len(),
    ensures
        s.update(p, s.last()).drop_last().to_multiset() =~= s.to_multiset().remove(s[p]),
{
    broadcast use vstd::seq_lib::group_to_multiset_ensures;

    let u = s.update(p, s.last());
    let last = s.len() - 1;
    s.to_multiset_ensures();
    u.to_multiset_ensures();
    assert(u.drop_last() =~= u.remove(last));
    assert(u.remove(p) =~= s.remove(p));
    assert(u.remove(last).to_multiset() =~= u.to_multiset().remove(u[last]));
    assert(u.remove(p).to_multiset() =~= u.to_multiset().remove(u[p]));
    assert(s.remove(p).to_multiset() =~= s.to_multiset().remove(s[p]));
}

/// The first position in `remaining` of an item equal to `actual`, if there is
/// one.
pub fn position_of<C: PartialEq>(remaining: &Vec<&C>, actual: &C) -> (position: Option<usize>)
    ensures
        match position {
            Some(p) => p < remaining@.len() && (equality_specified::<C, C>() ==> equals(
                remaining@[p as int],
                actual,
            )),
            None => equality_specified::<C, C>() ==> forall|k: int|
                0 <= k < remaining@.len() ==> !#[trigger] equals(remaining@[k], actual),
        },
{
    let mut p: usize = 0;
    while p < remaining.len()
        invariant
            p <= remaining@.len(),
            equality_specified::<C, C>() ==> forall|k: int|
                0 <= k < p ==> !#[trigger] equals(remaining@[k], actual),
        decreases remaining@.len() - p,
    {
        if is_equal(remaining[p], actual) {
            return Some(p);
        }
        p += 1;
    }
    None
}

/// The items of a sequence of references.
pub open spec fn referents<C>(references: Seq<&C>) -> Seq<C> {
    references.map_values(|r: &C| *r)
}

/// Matches each of `items`, in order, with the first equal item of `expected`
/// that is still unmatched. Gives the items that found no match, and the
/// expected items left unmatched: a matched one gives its place to the last.
#[verifier::rlimit(40)]
pub fn leftovers<'a, C: PartialEq>(expected: &'a Vec<C>, items: &'a Vec<C>) -> (left: (
    Vec<&'a C>,
    Vec<&'a C>,
))
    ensures
        equality_is_identity::<C>() ==> ((left.0@.len() == 0 && left.1@.len() == 0)
            <==> expected@.to_multiset() == items@.to_multiset()),
{
    broadcast use vstd::seq_lib::group_to_multiset_ensures;

    let mut remaining: Vec<&C> = Vec::new();
    let mut k: usize = 0;
    while k < expected.len()
        invariant
            k <= expected@.len(),
            referents(remaining@) =~= expected@.subrange(0, k as int),
        decreases expected@.len() - k,
    {
        proof {
            assert(referents(remaining@.push(&expected@[k as int])) =~= referents(
                remaining@,
            ).push(expected@[k as int]));
        }
        remaining.push(&expected[k]);
        k += 1;
    }
    assert(expected@.subrange(0, k as int) =~= expected@);
    let mut extras: Vec<&C> = Vec::new();
    let ghost mut matched: Multiset<C> = Multiset::empty();
    let ghost mut beyond: Multiset<C> = Multiset::empty();
    let ghost mut surplus: C = arbitrary();
    let mut i: usize = 0;
    assert(items@.subrange(0, 0).to_multiset() =~= Multiset::empty());
    while i < items.len()
        invariant
            i <= items@.len(),
            equality_is_identity::<C>() ==> extras@.len() == beyond.len(),
            equality_is_identity::<C>() ==> expected@.to_multiset() =~= referents(
                remaining@,
            ).to_multiset().add(matched),
            equality_is_identity::<C>() ==> items@.subrange(0, i as int).to_multiset()
                =~= matched.add(beyond),
            equality_is_identity::<C>() && extras@.len() > 0 ==> items@.subrange(
                0,
                i as int,
            ).to_multiset().count(surplus) > expected@.to_multiset().count(surplus),
        decreases items@.len() - i,
    {
        let actual = &items[i];
        let ghost seen = items@.subrange(0, i as int);
        let ghost rem = referents(remaining@);
        proof {
            assert(items@.subrange(0, i + 1) =~= seen.push(*actual));
            seen.to_multiset_ensures();
            rem.to_multiset_ensures();
        }
        match position_of(&remaining, actual) {
            Some(p) => {
                remaining.swap_remove(p);
                proof {
                    lemma_swap_remove_takes_one(rem, p as int);
                    assert(referents(remaining@) =~= rem.update(p as int, rem.last()).drop_last());
                    if equality_is_identity::<C>() {
                        assert(equals(&rem[p as int], actual));
                        assert(rem[p as int] == *actual);
                    }
                    assert(rem.contains(rem[p as int]));
                    matched = matched.insert(rem[p as int]);
                }
            },
            None => {
                extras.push(actual);
                proof {
                    if equality_is_identity::<C>() {
                        assert forall|j: int| 0 <= j < rem.len() implies rem[j] != *actual by {
                            assert(!equals(&rem[j], actual));
                        }
                        assert(!rem.contains(*actual));
                        assert(rem.to_multiset().count(*actual) == 0);
                        surplus = *actual;
                    }
                    beyond = beyond.insert(*actual);
                }
            },
        }
        i += 1;
    }
    assert(items@.subrange(0, i as int) =~= items@);
    proof {
        if equality_is_identity::<C>() {
            let rem = referents(remaining@);
            rem.to_multiset_ensures();
            if extras@.len() == 0 && remaining@.len() == 0 {
                assert(beyond =~= Multiset::empty());
                assert(rem =~= Seq::empty());
                assert(rem.to_multiset() =~= Multiset::empty());
                assert(expected@.to_multiset() =~= items@.to_multiset());
            }
            if expected@.to_multiset() == items@.to_multiset() {
                assert(extras@.len() == 0);
                assert(beyond =~= Multiset::empty());
                assert forall|x: C| rem.to_multiset().count(x) == 0 by {
                    assert(rem.to_multiset().add(matched).count(x) == matched.count(x));
                }
                assert(rem.to_multiset() =~= Multiset::empty());
                assert(rem.len() == 0);
                assert(remaining@.len() == 0);
            }
        }
    }
    (extras, remaining)
}

/// Expectation for `to_contain_equal_to` and `to_contain_equal_to_all_of`.
pub struct ContainsEqualToExpectation<T>(pub Vec<T>);

/// Expectation for `to_be_equivalent_to`.
pub struct IterableIsEquivalentToExpectation<T>(pub Vec<T>);

/// Expectation for `to_be_equivalent_to_in_any_order`.
pub struct IterableIsEquivalentToInAnyOrderExpectation<T>(pub Vec<T>);

impl<C: PartialEq + Debug> Expectation<Vec<C>> for ContainsEqualToExpectation<C> {
    open spec fn admits(&self, value: &Vec<C>, verdict: Verdict) -> bool {
        contains_admits(self.0@, value, verdict)
    }

    fn check(&self, value: &Vec<C>) -> (result: CheckResult) {
        if has_all(value, &self.0) {
            CheckResult::Pass
        } else {
            CheckResult::Fail(
                rendered_pair("Expectation failed (a ⊇ b)\na: `", value, "`\nb: `", &self.0, "`"),
            )
        }
    }
}

impl<C: PartialEq + Debug> Expectation<Vec<C>> for IterableIsEquivalentToExpectation<C> {
    open spec fn admits(&self, value: &Vec<C>, verdict: Verdict) -> bool {
        equivalent_admits(self.0@, value, verdict)
    }

    fn check(&self, value: &Vec<C>) -> (result: CheckResult) {
        if is_same_in_order(&self.0, value) {
            CheckResult::Pass
        } else {
            CheckResult::Fail(
                rendered_pair("Expectation failed (a == b)\na: `", value, "`\nb: `", &self.0, "`"),
            )
        }
    }
}

impl<C: PartialEq + Debug> Expectation<Vec<C>> for IterableIsEquivalentToInAnyOrderExpectation<C> {
    open spec fn admits(&self, value: &Vec<C>, verdict: Verdict) -> bool {
        any_order_admits(self.0@, value, verdict)
    }

    fn check(&self, value: &Vec<C>) -> (result: CheckResult) {
        let (extras, remaining) = leftovers(&self.0, value);
        if remaining.len() == 0 && extras.len() == 0 {
            CheckResult::Pass
        } else {
            let a = debug_text(value);
            let b = debug_text(&self.0);
            let extra = debug_text(&extras);
            let unmatched = debug_text(&remaining);
            let head = framed(
                "Expectation failed (a ≅ b, any order)\na: `",
                a.as_str(),
                "`\nb: `",
                b.as_str(),
                "`\nextra: `",
            );
            let report = framed(
                head.as_str(),
                extra.as_str(),
                "`\nunmatched: `",
                unmatched.as_str(),
                "`",
            );
            assert(report@ =~= any_order_report(a@, b@, extra@, unmatched@));
            CheckResult::Fail(report)
        }
    }
}

/// Extension trait for expectations on the items of a collection.
pub trait IterableItemEqualityExpectations<'e, C>: ExpectationBuilder<'e, Vec<C>> where
    C: PartialEq + Debug + 'e,
 {
    /// Expect the collection to hold an item equal to `value`.
    fn to_contain_equal_to(self, value: C) -> (builder: Self)
        ensures
            builder.subject() == self.subject(),
            adds(
                builder.expectations(),
                self.expectations(),
                |actual: &Vec<C>, verdict: Verdict| contains_admits(seq![value], actual, verdict),
            ),
    ;

    /// Expect the collection to hold an equal of each of `values`, in any
    /// order and any number of times.
    fn to_contain_equal_to_all_of(self, values: Vec<C>) -> (builder: Self)
        ensures
            builder.subject() == self.subject(),
            adds(
                builder.expectations(),
                self.expectations(),
                |actual: &Vec<C>, verdict: Verdict| contains_admits(values@, actual, verdict),
            ),
    ;

    /// Expect the collection to equal `values` item by item.
    fn to_be_equivalent_to(self, values: Vec<C>) -> (builder: Self)
        ensures
            builder.subject() == self.subject(),
            adds(
                builder.expectations(),
                self.expectations(),
                |actual: &Vec<C>, verdict: Verdict| equivalent_admits(values@, actual, verdict),
            ),
    ;

    /// Expect the collection to hold the items of `values`, each as often, in
    /// any order.
    fn to_be_equivalent_to_in_any_order(self, values: Vec<C>) -> (builder: Self)
        ensures
            builder.subject() == self.subject(),
            adds(
                builder.expectations(),
                self.expectations(),
                |actual: &Vec<C>, verdict: Verdict| any_order_admits(values@, actual, verdict),
            ),
    ;
}

impl<'e, C, B> IterableItemEqualityExpectations<'e, C> for B where
    C: PartialEq + Debug + 'e,
    B: ExpectationBuilder<'e, Vec<C>>,
 {
    fn to_contain_equal_to(self, value: C) -> (builder: Self) {
        let mut needles: Vec<C> = Vec::new();
        needles.push(value);
        assert(needles@ =~= seq![value]);
        self.to_pass(ContainsEqualToExpectation(needles))
    }

    fn to_contain_equal_to_all_of(self, values: Vec<C>) -> (builder: Self) {
        self.to_pass(ContainsEqualToExpectation(values))
    }

    fn to_be_equivalent_to(self, values: Vec<C>) -> (builder: Self) {
        self.to_pass(IterableIsEquivalentToExpectation(values))
    }

    fn to_be_equivalent_to_in_any_order(self, values: Vec<C>) -> (builder: Self) {
        self.to_pass(IterableIsEquivalentToInAnyOrderExpectation(values))
    }
}

} // verus!
