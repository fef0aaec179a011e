//! Expectations on strings.
use crate::expectation_list::adds;
use crate::expectations::predicate::{decided, lemma_decided, PredicateExpectation};
use crate::text::{
    between, chars_of, decimal, framed, is_white_space, is_whitespace, push_decimal,
};
use crate::{ExpectationBuilder, Verdict};
use std::fmt::Debug;
use vstd::prelude::*;

verus! {

/// A value that is read as a string.
pub trait Text {
    /// The characters of the string.
    spec fn text(&self) -> Seq<char>;

    /// The string.
    fn as_text(&self) -> (text: &str)
        ensures
            text@ == self.text(),
    ;
}

impl Text for String {
    open spec fn text(&self) -> Seq<char> {
        self@
    }

    fn as_text(&self) -> (text: &str) {
        self.as_str()
    }
}

impl<'a> Text for &'a str {
    open spec fn text(&self) -> Seq<char> {
        self@
    }

    fn as_text(&self) -> (text: &str) {
        *self
    }
}

/// Whether `part` stands in `text` from position `at` on.
pub open spec fn is_part_at(text: Seq<char>, part: Seq<char>, at: int) -> bool {
    0 <= at && at + part.len() <= text.len() && text.subrange(at, at + part.len()) == part
}

/// Whether `part` stands somewhere in `text`.
pub open spec fn is_part(text: Seq<char>, part: Seq<char>) -> bool {
    exists|at: int| is_part_at(text, part, at)
}

/// Whether `text` begins with `part`.
pub open spec fn is_start(text: Seq<char>, part: Seq<char>) -> bool {
    is_part_at(text, part, 0)
}

/// Whether `text` ends with `part`.
pub open spec fn is_end(text: Seq<char>, part: Seq<char>) -> bool {
    is_part_at(text, part, text.len() - part.len())
}

/// The kinds of characters that a string can be expected to be made of.
pub enum CharKind {
    Whitespace,
    Alphabetic,
    Numeric,
    Alphanumeric,
}

/// Whether a character is alphabetic, as `char::is_alphabetic` says.
pub uninterp spec fn alphabetic(c: char) -> bool;

/// Whether a character is numeric, as `char::is_numeric` says.
pub uninterp spec fn numeric(c: char) -> bool;

/// `char::is_alphabetic` is a function of the character alone: whether it has
/// the Unicode property `Alphabetic`.
pub assume_specification[ char::is_alphabetic ](c: char) -> (b: bool)
    ensures
        b == alphabetic(c),
;

/// `char::is_numeric` is a function of the character alone: whether it is in
/// one of the Unicode general categories for numbers.
pub assume_specification[ char::is_numeric ](c: char) -> (b: bool)
    ensures
        b == numeric(c),
;

/// `char::is_alphanumeric` says whether the character is alphabetic or
/// numeric.
pub assume_specification[ char::is_alphanumeric ](c: char) -> (b: bool)
    ensures
        b == (alphabetic(c) || numeric(c)),
;

/// Whether `c` is of `kind`.
pub open spec fn is_of_kind(kind: CharKind, c: char) -> bool {
    match kind {
        CharKind::Whitespace => is_white_space(c),
        CharKind::Alphabetic => alphabetic(c),
        CharKind::Numeric => numeric(c),
        CharKind::Alphanumeric => alphabetic(c) || numeric(c),
    }
}

/// Whether every character of `text` is of `kind`.
pub open spec fn all_of_kind(kind: CharKind, text: Seq<char>) -> bool {
    forall|i: int| 0 <= i < text.len() ==> is_of_kind(kind, #[trigger] text[i])
}

/// Whether `c` is of `kind`.
pub fn of_kind(kind: &CharKind, c: char) -> (is: bool)
    ensures
        is == is_of_kind(*kind, c),
{
    match kind {
        CharKind::Whitespace => is_whitespace(c),
        CharKind::Alphabetic => c.is_alphabetic(),
        CharKind::Numeric => c.is_numeric(),
        CharKind::Alphanumeric => c.is_alphanumeric(),
    }
}

/// Whether every character of `text` is of `kind`.
pub fn every(kind: CharKind, text: &str) -> (all: bool)
    ensures
        all == all_of_kind(kind, text@),
{
    let chars = chars_of(text);
    let mut i: usize = 0;
    while i < chars.len()
        invariant
            i <= chars@.len(),
            chars@ == text@,
            forall|k: int| 0 <= k < i ==> is_of_kind(kind, #[trigger] chars@[k]),
        decreases chars@.len() - i,
    {
        if !of_kind(&kind, chars[i]) {
            return false;
        }
        i += 1;
    }
    true
}

/// Whether `part` stands in `text` from position `at` on.
pub fn stands_at(text: &Vec<char>, part: &Vec<char>, at: usize) -> (stands: bool)
    requires
        at + part@.len() <= text@.len(),
    ensures
        stands == is_part_at(text@, part@, at as int),
{
    let length: usize = text.len();
    let mut j: usize = 0;
    while j < part.len()
        invariant
            j <= part@.len(),
            at + part@.len() <= text@.len(),
            text@.len() == length,
            forall|k: int| 0 <= k < j ==> text@[at + k] == #[trigger] part@[k],
        decreases part@.len() - j,
    {
        if text[at + j] != part[j] {
            assert(text@.subrange(at as int, at + part@.len())[j as int] != part@[j as int]);
            return false;
        }
        j += 1;
    }
    assert(text@.subrange(at as int, at + part@.len()) =~= part@);
    true
}

/// Whether `part` stands somewhere in `text`.
pub fn has_part(text: &str, part: &str) -> (has: bool)
    ensures
        has == is_part(text@, part@),
{
    let whole = chars_of(text);
    let sought = chars_of(part);
    if sought.len() > whole.len() {
        return false;
    }
    let last: usize = whole.len() - sought.len();
    let mut at: usize = 0;
    loop
        invariant
            at <= last,
            whole@ == text@,
            sought@ == part@,
            last + sought@.len() == whole@.len(),
            forall|k: int| 0 <= k < at ==> !is_part_at(whole@, sought@, k),
        decreases last - at,
    {
        if stands_at(&whole, &sought, at) {
            assert(is_part_at(text@, part@, at as int));
            return true;
        }
        if at == last {
            return false;
        }
        at += 1;
    }
}

/// Whether `text` begins with `part`.
pub fn has_start(text: &str, part: &str) -> (has: bool)
    ensures
        has == is_start(text@, part@),
{
    let text = chars_of(text);
    let part = chars_of(part);
    part.len() <= text.len() && stands_at(&text, &part, 0)
}

/// Whether `text` ends with `part`.
pub fn has_end(text: &str, part: &str) -> (has: bool)
    ensures
        has == is_end(text@, part@),
{
    let text = chars_of(text);
    let part = chars_of(part);
    part.len() <= text.len() && stands_at(&text, &part, text.len() - part.len())
}

/// Whether `to_contain` holds of `a`.
pub open spec fn contains_part_holds<T: Text>(a: &T, b: &&str) -> bool {
    is_part(a.text(), b@)
}

/// The report of `to_contain` for an `a` that it does not hold of.
pub open spec fn contains_part_report<T: Text>(a: &T, b: &&str) -> Seq<char> {
    "Expected \""@ + a.text() + "\" to contain \""@ + b@ + "\""@
}

/// Decides `to_contain`.
pub fn contains_part<T: Text>(a: &T, b: &&str) -> (holds: bool)
    ensures
        holds == contains_part_holds(a, b),
{
    has_part(a.as_text(), *b)
}

/// Words the failure of `to_contain`.
pub fn contains_part_message<T: Text>(a: &T, b: &&str) -> (report: String)
    ensures
        report@ == contains_part_report(a, b),
{
    framed("Expected \"", a.as_text(), "\" to contain \"", *b, "\"")
}

/// Whether `to_not_contain` holds of `a`.
pub open spec fn lacks_part_holds<T: Text>(a: &T, b: &&str) -> bool {
    !is_part(a.text(), b@)
}

/// The report of `to_not_contain` for an `a` that it does not hold of.
pub open spec fn lacks_part_report<T: Text>(a: &T, b: &&str) -> Seq<char> {
    "Expected \""@ + a.text() + "\" to not contain \""@ + b@ + "\""@
}

/// Decides `to_not_contain`.
pub fn lacks_part<T: Text>(a: &T, b: &&str) -> (holds: bool)
    ensures
        holds == lacks_part_holds(a, b),
{
    !has_part(a.as_text(), *b)
}

/// Words the failure of `to_not_contain`.
pub fn lacks_part_message<T: Text>(a: &T, b: &&str) -> (report: String)
    ensures
        report@ == lacks_part_report(a, b),
{
    framed("Expected \"", a.as_text(), "\" to not contain \"", *b, "\"")
}

/// Whether `to_start_with` holds of `a`.
pub open spec fn starts_with_part_holds<T: Text>(a: &T, b: &&str) -> bool {
    is_start(a.text(), b@)
}

/// The report of `to_start_with` for an `a` that it does not hold of.
pub open spec fn starts_with_part_report<T: Text>(a: &T, b: &&str) -> Seq<char> {
    "Expected \""@ + a.text() + "\" to start with \""@ + b@ + "\""@
}

/// Decides `to_start_with`.
pub fn starts_with_part<T: Text>(a: &T, b: &&str) -> (holds: bool)
    ensures
        holds == starts_with_part_holds(a, b),
{
    has_start(a.as_text(), *b)
}

/// Words the failure of `to_start_with`.
pub fn starts_with_part_message<T: Text>(a: &T, b: &&str) -> (report: String)
    ensures
        report@ == starts_with_part_report(a, b),
{
    framed("Expected \"", a.as_text(), "\" to start with \"", *b, "\"")
}

/// Whether `to_end_with` holds of `a`.
pub open spec fn ends_with_part_holds<T: Text>(a: &T, b: &&str) -> bool {
    is_end(a.text(), b@)
}

/// The report of `to_end_with` for an `a` that it does not hold of.
pub open spec fn ends_with_part_report<T: Text>(a: &T, b: &&str) -> Seq<char> {
    "Expected \""@ + a.text() + "\" to end with \""@ + b@ + "\""@
}

/// Decides `to_end_with`.
pub fn ends_with_part<T: Text>(a: &T, b: &&str) -> (holds: bool)
    ensures
        holds == ends_with_part_holds(a, b),
{
    has_end(a.as_text(), *b)
}

/// Words the failure of `to_end_with`.
pub fn ends_with_part_message<T: Text>(a: &T, b: &&str) -> (report: String)
    ensures
        report@ == ends_with_part_report(a, b),
{
    framed("Expected \"", a.as_text(), "\" to end with \"", *b, "\"")
}

/// Whether `to_be_empty` holds of `a`.
pub open spec fn is_empty_text_holds<T: Text>(a: &T, b: &()) -> bool {
    a.text().len() == 0
}

/// The report of `to_be_empty` for an `a` that it does not hold of.
pub open spec fn is_empty_text_report<T: Text>(a: &T, b: &()) -> Seq<char> {
    "Expected \""@ + a.text() + "\" to be empty"@
}

/// Decides `to_be_empty`.
pub fn is_empty_text<T: Text>(a: &T, b: &()) -> (holds: bool)
    ensures
        holds == is_empty_text_holds(a, b),
{
    a.as_text().is_empty()
}

/// Words the failure of `to_be_empty`.
pub fn is_empty_text_message<T: Text>(a: &T, b: &()) -> (report: String)
    ensures
        report@ == is_empty_text_report(a, b),
{
    between("Expected \"", a.as_text(), "\" to be empty")
}

/// Whether `to_be_all_whitespace` holds of `a`.
pub open spec fn is_all_whitespace_holds<T: Text>(a: &T, b: &()) -> bool {
    all_of_kind(CharKind::Whitespace, a.text())
}

/// The report of `to_be_all_whitespace` for an `a` that it does not hold of.
pub open spec fn is_all_whitespace_report<T: Text>(a: &T, b: &()) -> Seq<char> {
    "Expected \""@ + a.text() + "\" to be all whitespace"@
}

/// Decides `to_be_all_whitespace`.
pub fn is_all_whitespace<T: Text>(a: &T, b: &()) -> (holds: bool)
    ensures
        holds == is_all_whitespace_holds(a, b),
{
    every(CharKind::Whitespace, a.as_text())
}

/// Words the failure of `to_be_all_whitespace`.
pub fn is_all_whitespace_message<T: Text>(a: &T, b: &()) -> (report: String)
    ensures
        report@ == is_all_whitespace_report(a, b),
{
    between("Expected \"", a.as_text(), "\" to be all whitespace")
}

/// Whether `to_be_alphabetic` holds of `a`.
pub open spec fn is_alphabetic_text_holds<T: Text>(a: &T, b: &()) -> bool {
    a.text().len() > 0 && all_of_kind(CharKind::Alphabetic, a.text())
}

/// The report of `to_be_alphabetic` for an `a` that it does not hold of.
pub open spec fn is_alphabetic_text_report<T: Text>(a: &T, b: &()) -> Seq<char> {
    "Expected \""@ + a.text() + "\" to be alphabetic"@
}

/// Decides `to_be_alphabetic`.
pub fn is_alphabetic_text<T: Text>(a: &T, b: &()) -> (holds: bool)
    ensures
        holds == is_alphabetic_text_holds(a, b),
{
    !a.as_text().is_empty() && every(CharKind::Alphabetic, a.as_text())
}

/// Words the failure of `to_be_alphabetic`.
pub fn is_alphabetic_text_message<T: Text>(a: &T, b: &()) -> (report: String)
    ensures
        report@ == is_alphabetic_text_report(a, b),
{
    between("Expected \"", a.as_text(), "\" to be alphabetic")
}

/// Whether `to_be_numeric` holds of `a`.
pub open spec fn is_numeric_text_holds<T: Text>(a: &T, b: &()) -> bool {
    a.text().len() > 0 && all_of_kind(CharKind::Numeric, a.text())
}

/// The report of `to_be_numeric` for an `a` that it does not hold of.
pub open spec fn is_numeric_text_report<T: Text>(a: &T, b: &()) -> Seq<char> {
    "Expected \""@ + a.text() + "\" to be numeric"@
}

/// Decides `to_be_numeric`.
pub fn is_numeric_text<T: Text>(a: &T, b: &()) -> (holds: bool)
    ensures
        holds == is_numeric_text_holds(a, b),
{
    !a.as_text().is_empty() && every(CharKind::Numeric, a.as_text())
}

/// Words the failure of `to_be_numeric`.
pub fn is_numeric_text_message<T: Text>(a: &T, b: &()) -> (report: String)
    ensures
        report@ == is_numeric_text_report(a, b),
{
    between("Expected \"", a.as_text(), "\" to be numeric")
}

/// Whether `to_be_alphanumeric` holds of `a`.
pub open spec fn is_alphanumeric_text_holds<T: Text>(a: &T, b: &()) -> bool {
    a.text().len() > 0 && all_of_kind(CharKind::Alphanumeric, a.text())
}

/// The report of `to_be_alphanumeric` for an `a` that it does not hold of.
pub open spec fn is_alphanumeric_text_report<T: Text>(a: &T, b: &()) -> Seq<char> {
    "Expected \""@ + a.text() + "\" to be alphanumeric"@
}

/// Decides `to_be_alphanumeric`.
pub fn is_alphanumeric_text<T: Text>(a: &T, b: &()) -> (holds: bool)
    ensures
        holds == is_alphanumeric_text_holds(a, b),
{
    !a.as_text().is_empty() && every(CharKind::Alphanumeric, a.as_text())
}

/// Words the failure of `to_be_alphanumeric`.
pub fn is_alphanumeric_text_message<T: Text>(a: &T, b: &()) -> (report: String)
    ensures
        report@ == is_alphanumeric_text_report(a, b),
{
    between("Expected \"", a.as_text(), "\" to be alphanumeric")
}

/// The number of bytes that `text` takes as a string.
pub open spec fn byte_length(text: Seq<char>) -> usize {
    vstd::utf8::encode_utf8(text).len() as usize
}

/// Whether `to_have_length` holds of `a`.
pub open spec fn has_length_holds<T: Text>(a: &T, b: &usize) -> bool {
    byte_length(a.text()) == *b
}

/// The report of `to_have_length` for an `a` that it does not hold of.
pub open spec fn has_length_report<T: Text>(a: &T, b: &usize) -> Seq<char> {
    "Expected \""@ + a.text() + "\" to have length "@ + decimal(*b as nat)
        + ", but it has length "@ + decimal(byte_length(a.text()) as nat)
}

/// Decides `to_have_length`.
pub fn has_length<T: Text>(a: &T, b: &usize) -> (holds: bool)
    ensures
        holds == has_length_holds(a, b),
{
    a.as_text().len() == *b
}

/// Words the failure of `to_have_length`.
pub fn has_length_message<T: Text>(a: &T, b: &usize) -> (report: String)
    ensures
        report@ == has_length_report(a, b),
{
    let mut report = String::from_str("Expected \"");
    report.append(a.as_text());
    report.append("\" to have length ");
    push_decimal(&mut report, *b);
    report.append(", but it has length ");
    push_decimal(&mut report, a.as_text().len());
    report
}

/// Expectations for strings.
pub trait StringExpectations<'e, T>: ExpectationBuilder<'e, T> where T: Text + Debug + 'e {

    /// Expect that a string contains a substring.
    fn to_contain(self, substring: &'e str) -> (builder: Self)
        ensures
            builder.subject() == self.subject(),
            adds(
                builder.expectations(),
                self.expectations(),
                |actual: &T, verdict: Verdict|
                    verdict == decided(
                        contains_part_holds(actual, &substring),
                        contains_part_report(actual, &substring),
                    ),
            ),
    ;

    /// Expect that a string does not contain a substring.
    fn to_not_contain(self, substring: &'e str) -> (builder: Self)
        ensures
            builder.subject() == self.subject(),
            adds(
                builder.expectations(),
                self.expectations(),
                |actual: &T, verdict: Verdict|
                    verdict == decided(
                        lacks_part_holds(actual, &substring),
                        lacks_part_report(actual, &substring),
                    ),
            ),
    ;

    /// Expect that a string has a length, counted in bytes.
    fn to_have_length(self, length: usize) -> (builder: Self)
        ensures
            builder.subject() == self.subject(),
            adds(
                builder.expectations(),
                self.expectations(),
                |actual: &T, verdict: Verdict|
                    verdict == decided(
                        has_length_holds(actual, &length),
                        has_length_report(actual, &length),
                    ),
            ),
    ;

    /// Expect that a string starts with a prefix.
    fn to_start_with(self, prefix: &'e str) -> (builder: Self)
        ensures
            builder.subject() == self.subject(),
            adds(
                builder.expectations(),
                self.expectations(),
                |actual: &T, verdict: Verdict|
                    verdict == decided(
                        starts_with_part_holds(actual, &prefix),
                        starts_with_part_report(actual, &prefix),
                    ),
            ),
    ;

    /// Expect that a string ends with a suffix.
    fn to_end_with(self, suffix: &'e str) -> (builder: Self)
        ensures
            builder.subject() == self.subject(),
            adds(
                builder.expectations(),
                self.expectations(),
                |actual: &T, verdict: Verdict|
                    verdict == decided(
                        ends_with_part_holds(actual, &suffix),
                        ends_with_part_report(actual, &suffix),
                    ),
            ),
    ;

    /// Expect that a string is empty.
    fn to_be_empty(self) -> (builder: Self)
        ensures
            builder.subject() == self.subject(),
            adds(
                builder.expectations(),
                self.expectations(),
                |actual: &T, verdict: Verdict|
                    verdict == decided(
                        is_empty_text_holds(actual, &()),
                        is_empty_text_report(actual, &()),
                    ),
            ),
    ;

    /// Expect that a string holds only white space; an empty one does.
    fn to_be_all_whitespace(self) -> (builder: Self)
        ensures
            builder.subject() == self.subject(),
            adds(
                builder.expectations(),
                self.expectations(),
                |actual: &T, verdict: Verdict|
                    verdict == decided(
                        is_all_whitespace_holds(actual, &()),
                        is_all_whitespace_report(actual, &()),
                    ),
            ),
    ;

    /// Expect that a string is not empty and holds only alphabetic characters.
    fn to_be_alphabetic(self) -> (builder: Self)
        ensures
            builder.subject() == self.subject(),
            adds(
                builder.expectations(),
                self.expectations(),
                |actual: &T, verdict: Verdict|
                    verdict == decided(
                        is_alphabetic_text_holds(actual, &()),
                        is_alphabetic_text_report(actual, &()),
                    ),
            ),
    ;

    /// Expect that a string is not empty and holds only numeric characters.
    fn to_be_numeric(self) -> (builder: Self)
        ensures
            builder.subject() == self.subject(),
            adds(
                builder.expectations(),
                self.expectations(),
                |actual: &T, verdict: Verdict|
                    verdict == decided(
                        is_numeric_text_holds(actual, &()),
                        is_numeric_text_report(actual, &()),
                    ),
            ),
    ;

    /// Expect that a string is not empty and holds only alphanumeric characters.
    fn to_be_alphanumeric(self) -> (builder: Self)
        ensures
            builder.subject() == self.subject(),
            adds(
                builder.expectations(),
                self.expectations(),
                |actual: &T, verdict: Verdict|
                    verdict == decided(
                        is_alphanumeric_text_holds(actual, &()),
                        is_alphanumeric_text_report(actual, &()),
                    ),
            ),
    ;
}

impl<'e, T, B> StringExpectations<'e, T> for B where
    T: Text + Debug + 'e,
    B: ExpectationBuilder<'e, T>,
 {

    fn to_contain(self, substring: &'e str) -> (builder: Self) {
        let expectation = PredicateExpectation::new(
            substring,
            contains_part::<T>,
            contains_part_message::<T>,
        );
        proof {
            lemma_decided(
                expectation,
                |a: &T, b: &&'e str| contains_part_holds(a, b),
                |a: &T, b: &&'e str| contains_part_report(a, b),
            );
        }
        self.to_pass(expectation)
    }

    fn to_not_contain(self, substring: &'e str) -> (builder: Self) {
        let expectation = PredicateExpectation::new(
            substring,
            lacks_part::<T>,
            lacks_part_message::<T>,
        );
        proof {
            lemma_decided(
                expectation,
                |a: &T, b: &&'e str| lacks_part_holds(a, b),
                |a: &T, b: &&'e str| lacks_part_report(a, b),
            );
        }
        self.to_pass(expectation)
    }

    fn to_have_length(self, length: usize) -> (builder: Self) {
        let expectation = PredicateExpectation::new(
            length,
            has_length::<T>,
            has_length_message::<T>,
        );
        proof {
            lemma_decided(
                expectation,
                |a: &T, b: &usize| has_length_holds(a, b),
                |a: &T, b: &usize| has_length_report(a, b),
            );
        }
        self.to_pass(expectation)
    }

    fn to_start_with(self, prefix: &'e str) -> (builder: Self) {
        let expectation = PredicateExpectation::new(
            prefix,
            starts_with_part::<T>,
            starts_with_part_message::<T>,
        );
        proof {
            lemma_decided(
                expectation,
                |a: &T, b: &&'e str| starts_with_part_holds(a, b),
                |a: &T, b: &&'e str| starts_with_part_report(a, b),
            );
        }
        self.to_pass(expectation)
    }

    fn to_end_with(self, suffix: &'e str) -> (builder: Self) {
        let expectation = PredicateExpectation::new(
            suffix,
            ends_with_part::<T>,
            ends_with_part_message::<T>,
        );
        proof {
            lemma_decided(
                expectation,
                |a: &T, b: &&'e str| ends_with_part_holds(a, b),
                |a: &T, b: &&'e str| ends_with_part_report(a, b),
            );
        }
        self.to_pass(expectation)
    }

    fn to_be_empty(self) -> (builder: Self) {
        let expectation = PredicateExpectation::new(
            (),
            is_empty_text::<T>,
            is_empty_text_message::<T>,
        );
        proof {
            lemma_decided(
                expectation,
                |a: &T, b: &()| is_empty_text_holds(a, b),
                |a: &T, b: &()| is_empty_text_report(a, b),
            );
        }
        self.to_pass(expectation)
    }

    fn to_be_all_whitespace(self) -> (builder: Self) {
        let expectation = PredicateExpectation::new(
            (),
            is_all_whitespace::<T>,
            is_all_whitespace_message::<T>,
        );
        proof {
            lemma_decided(
                expectation,
                |a: &T, b: &()| is_all_whitespace_holds(a, b),
                |a: &T, b: &()| is_all_whitespace_report(a, b),
            );
        }
        self.to_pass(expectation)
    }

    fn to_be_alphabetic(self) -> (builder: Self) {
        let expectation = PredicateExpectation::new(
            (),
            is_alphabetic_text::<T>,
            is_alphabetic_text_message::<T>,
        );
        proof {
            lemma_decided(
                expectation,
                |a: &T, b: &()| is_alphabetic_text_holds(a, b),
                |a: &T, b: &()| is_alphabetic_text_report(a, b),
            );
        }
        self.to_pass(expectation)
    }

    fn to_be_numeric(self) -> (builder: Self) {
        let expectation = PredicateExpectation::new(
            (),
            is_numeric_text::<T>,
            is_numeric_text_message::<T>,
        );
        proof {
            lemma_decided(
                expectation,
                |a: &T, b: &()| is_numeric_text_holds(a, b),
                |a: &T, b: &()| is_numeric_text_report(a, b),
            );
        }
        self.to_pass(expectation)
    }

    fn to_be_alphanumeric(self) -> (builder: Self) {
        let expectation = PredicateExpectation::new(
            (),
            is_alphanumeric_text::<T>,
            is_alphanumeric_text_message::<T>,
        );
        proof {
            lemma_decided(
                expectation,
                |a: &T, b: &()| is_alphanumeric_text_holds(a, b),
                |a: &T, b: &()| is_alphanumeric_text_report(a, b),
            );
        }
        self.to_pass(expectation)
    }
}

} // verus!
