use rxpect::expectations::{EqualityExpectations, ProjectedResultExpectations, ResultExpectations};
use rxpect::{expect, CheckResult, RootExpectations};
use std::fmt::Debug;

fn run<T: Debug>(expectations: RootExpectations<'_, T>) {
    if let CheckResult::Fail(message) = expectations.check() {
        panic!("{}", message);
    }
}

#[test]
fn that_to_be_ok_accepts_ok_values() {
    // Given a Result that is Ok
    let result: Result<i32, &str> = Ok(42);

    // Expect the to_be_ok expectation to pass
    run(expect(result).to_be_ok());
}

#[test]
#[should_panic]
fn that_to_be_ok_does_not_accept_err_values() {
    // Given a Result that is Err
    let result: Result<i32, &str> = Err("error");

    // Expect the to_be_ok expectation to fail
    run(expect(result).to_be_ok());
}

#[test]
fn that_to_be_err_accepts_err_values() {
    // Given a Result that is Err
    let result: Result<i32, &str> = Err("error");

    // Expect the to_be_err expectation to pass
    run(expect(result).to_be_err());
}

#[test]
#[should_panic]
fn that_to_be_err_does_not_accept_ok_values() {
    // Given a Result that is Ok
    let result: Result<i32, &str> = Ok(42);

    // Expect the to_be_err expectation to fail
    run(expect(result).to_be_err());
}

#[test]
fn that_to_be_ok_matching_accepts_ok_values_that_match_predicate() {
    // Given a Result that is Ok with a value that matches the predicate
    let result: Result<i32, &str> = Ok(42);

    // Expect the to_be_ok_matching expectation to pass
    run(expect(result).to_be_ok_matching(|v| *v > 40));
}

#[test]
#[should_panic]
fn that_to_be_ok_matching_does_not_accept_ok_values_that_do_not_match_predicate() {
    // Given a Result that is Ok with a value that does not match the predicate
    let result: Result<i32, &str> = Ok(42);

    // Expect the to_be_ok_matching expectation to fail
    run(expect(result).to_be_ok_matching(|v| *v < 40));
}

#[test]
#[should_panic]
fn that_to_be_ok_matching_does_not_accept_err_values() {
    // Given a Result that is Err
    let result: Result<i32, &str> = Err("error");

    // Expect the to_be_ok_matching expectation to fail
    run(expect(result).to_be_ok_matching(|v| *v > 40));
}

#[test]
fn that_to_be_err_matching_accepts_err_values_that_match_predicate() {
    // Given a Result that is Err with a value that matches the predicate
    let result: Result<i32, &str> = Err("error");

    // Expect the to_be_err_matching expectation to pass
    run(expect(result).to_be_err_matching(|e| *e == "error"));
}

#[test]
#[should_panic]
fn that_to_be_err_matching_does_not_accept_err_values_that_do_not_match_predicate() {
    // Given a Result that is Err with a value that does not match the predicate
    let result: Result<i32, &str> = Err("error");

    // Expect the to_be_err_matching expectation to fail
    run(expect(result).to_be_err_matching(|e| *e == "other error"));
}

#[test]
#[should_panic]
fn that_to_be_err_matching_does_not_accept_ok_values() {
    // Given a Result that is Ok
    let result: Result<i32, &str> = Ok(42);

    // Expect the to_be_err_matching expectation to fail
    run(expect(result).to_be_err_matching(|e| *e == "error"));
}

#[test]
fn that_to_be_ok_and_accepts_ok_values_with_matching_expectations() {
    // Given a Result that is Ok with a value that matches the expectation
    let result: Result<i32, &str> = Ok(42);

    // Expect the to_be_ok_and expectation to pass
    run(expect(result).to_be_ok_and(|v| v.to_equal(42)));
}

#[test]
#[should_panic]
fn that_to_be_ok_and_does_not_accept_ok_values_with_non_matching_expectations() {
    // Given a Result that is Ok with a value that does not match the expectation
    let result: Result<i32, &str> = Ok(42);

    // Expect the to_be_ok_and expectation to fail
    run(expect(result).to_be_ok_and(|v| v.to_equal(43)));
}

#[test]
#[should_panic]
fn that_to_be_ok_and_does_not_accept_err_values() {
    // Given a Result that is Err
    let result: Result<i32, &str> = Err("error");

    // Expect the to_be_ok_and expectation to fail
    run(expect(result).to_be_ok_and(|v| v.to_equal(42)));
}

#[test]
fn that_to_be_err_and_accepts_err_values_with_matching_expectations() {
    // Given a Result that is Err with a value that matches the expectation
    let result: Result<i32, &str> = Err("error");

    // Expect the to_be_err_and expectation to pass
    run(expect(result).to_be_err_and(|e| e.to_equal("error")));
}

#[test]
#[should_panic]
fn that_to_be_err_and_does_not_accept_err_values_with_non_matching_expectations() {
    // Given a Result that is Err with a value that does not match the expectation
    let result: Result<i32, &str> = Err("error");

    // Expect the to_be_err_and expectation to fail
    run(expect(result).to_be_err_and(|e| e.to_equal("other error")));
}

#[test]
#[should_panic]
fn that_to_be_err_and_does_not_accept_ok_values() {
    // Given a Result that is Ok
    let result: Result<i32, &str> = Ok(42);

    // Expect the to_be_err_and expectation to fail
    run(expect(result).to_be_err_and(|e| e.to_equal("error")));
}
