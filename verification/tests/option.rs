use rxpect::expectations::{EqualityExpectations, OptionExpectations, ProjectedOptionExpectations};
use rxpect::{expect, CheckResult, RootExpectations};
use std::fmt::Debug;

fn run<T: Debug>(expectations: RootExpectations<'_, T>) {
    if let CheckResult::Fail(message) = expectations.check() {
        panic!("{}", message);
    }
}

#[test]
fn that_to_be_some_accepts_some_values() {
    // Given an Option that is Some
    let option: Option<i32> = Some(42);

    // Expect the to_be_some expectation to pass
    run(expect(option).to_be_some());
}

#[test]
#[should_panic]
fn that_to_be_some_does_not_accept_none_values() {
    // Given an Option that is None
    let option: Option<i32> = None;

    // Expect the to_be_some expectation to fail
    run(expect(option).to_be_some());
}

#[test]
fn that_to_be_none_accepts_none_values() {
    // Given an Option that is None
    let option: Option<i32> = None;

    // Expect the to_be_none expectation to pass
    run(expect(option).to_be_none());
}

#[test]
#[should_panic]
fn that_to_be_none_does_not_accept_some_values() {
    // Given an Option that is Some
    let option: Option<i32> = Some(42);

    // Expect the to_be_none expectation to fail
    run(expect(option).to_be_none());
}

#[test]
fn that_to_be_some_matching_accepts_some_values_that_match_predicate() {
    // Given an Option that is Some with a value that matches the predicate
    let option: Option<i32> = Some(42);

    // Expect the to_be_some_matching expectation to pass
    run(expect(option).to_be_some_matching(|v| *v > 40));
}

#[test]
#[should_panic]
fn that_to_be_some_matching_does_not_accept_some_values_that_do_not_match_predicate() {
    // Given an Option that is Some with a value that does not match the predicate
    let option: Option<i32> = Some(42);

    // Expect the to_be_some_matching expectation to fail
    run(expect(option).to_be_some_matching(|v| *v < 40));
}

#[test]
#[should_panic]
fn that_to_be_some_matching_does_not_accept_none_values() {
    // Given an Option that is None
    let option: Option<i32> = None;

    // Expect the to_be_some_matching expectation to fail
    run(expect(option).to_be_some_matching(|v| *v > 40));
}

#[test]
fn that_to_be_some_and_accepts_some_values_with_matching_expectations() {
    // Given an Option that is Some with a value that matches the expectation
    let option: Option<i32> = Some(42);

    // Expect the to_be_some_and expectation to pass
    run(expect(option).to_be_some_and(|v| v.to_equal(42)));
}

#[test]
#[should_panic]
fn that_to_be_some_and_does_not_accept_some_values_with_non_matching_expectations() {
    // Given an Option that is Some with a value that does not match the expectation
    let option: Option<i32> = Some(42);

    // Expect the to_be_some_and expectation to fail
    run(expect(option).to_be_some_and(|v| v.to_equal(43)));
}

#[test]
#[should_panic]
fn that_to_be_some_and_does_not_accept_none_values() {
    // Given an Option that is None
    let option: Option<i32> = None;

    // Expect the to_be_some_and expectation to fail
    run(expect(option).to_be_some_and(|v| v.to_equal(42)));
}
