use rxpect::expectations::OrderExpectations;
use rxpect::{expect, CheckResult, RootExpectations};
use std::fmt::Debug;

fn run<T: Debug>(expectations: RootExpectations<'_, T>) {
    if let CheckResult::Fail(message) = expectations.check() {
        panic!("{}", message);
    }
}

#[test]
fn that_greater_than_accepts_lesser_value() {
    // Given a value that implements PartialOrd
    let value = 2;

    // Expect the to_be_greater_than expectation to pass with a lesser value
    run(expect(value).to_be_greater_than(1));
}

#[test]
#[should_panic]
fn that_greater_than_does_not_accept_equal_value() {
    // Given a value that implements PartialOrd
    let value = 2;

    // Expect the to_be_greater_than expectation to not pass with the same value
    run(expect(value).to_be_greater_than(2));
}

#[test]
#[should_panic]
fn that_greater_than_does_not_accept_greater_value() {
    // Given a value that implements PartialOrd
    let value = 2;

    // Expect the to_be_greater_than expectation to not pass with a greater value
    run(expect(value).to_be_greater_than(3));
}

#[test]
fn that_less_than_accepts_greater_value() {
    // Given a value that implements PartialOrd
    let value = 1;

    // Expect the to_be_less_than expectation to pass with a greater value
    run(expect(value).to_be_less_than(2));
}

#[test]
#[should_panic]
fn that_less_than_does_not_accept_equal_value() {
    // Given a value that implements PartialOrd
    let value = 2;

    // Expect the to_be_less_than expectation to not pass with the same value
    run(expect(value).to_be_less_than(2));
}

#[test]
#[should_panic]
fn that_less_than_does_not_accept_lesser_value() {
    // Given a value that implements PartialOrd
    let value = 3;

    // Expect the to_be_less_than expectation to not pass with a lesser value
    run(expect(value).to_be_less_than(2));
}

#[test]
fn that_less_than_or_equal_accepts_greater_value() {
    // Given a value that implements PartialOrd
    let value = 1;

    // Expect the to_be_less_than_or_equal expectation to pass with a greater value
    run(expect(value).to_be_less_than_or_equal(2));
}

#[test]
fn that_less_than_or_equal_accepts_equal_value() {
    // Given a value that implements PartialOrd
    let value = 2;

    // Expect the to_be_less_than_or_equal expectation to pass with the same value
    run(expect(value).to_be_less_than_or_equal(2));
}

#[test]
#[should_panic]
fn that_less_than_or_equal_does_not_accept_lesser_value() {
    // Given a value that implements PartialOrd
    let value = 3;

    // Expect the to_be_less_than_or_equal expectation to not pass with a lesser value
    run(expect(value).to_be_less_than_or_equal(2));
}

#[test]
fn that_greater_than_or_equal_accepts_lesser_value() {
    // Given a value that implements PartialOrd
    let value = 3;

    // Expect the to_be_greater_than_or_equal expectation to pass with a lesser value
    run(expect(value).to_be_greater_than_or_equal(2));
}

#[test]
fn that_greater_than_or_equal_accepts_equal_value() {
    // Given a value that implements PartialOrd
    let value = 2;

    // Expect the to_be_greater_than_or_equal expectation to pass with the same value
    run(expect(value).to_be_greater_than_or_equal(2));
}

#[test]
#[should_panic]
fn that_greater_than_or_equal_does_not_accept_greater_value() {
    // Given a value that implements PartialOrd
    let value = 1;

    // Expect the to_be_greater_than_or_equal expectation to not pass with a greater value
    run(expect(value).to_be_greater_than_or_equal(2));
}

#[test]
fn that_inside_does_accept_value_inside_range() {
    // Given a value that implements PartialOrd
    let value: u32 = 5;

    // Expect the to_be_inside expectation to pass with ranges that include it
    run(expect(value).to_be_inside(1..=5));
    run(expect(value).to_be_inside(5..10));
}

#[test]
fn that_inside_does_not_accept_value_outside_range() {
    // Given a value that implements PartialOrd
    let value: u32 = 5;

    // Expect the to_be_inside expectation to not pass with ranges that do not include it
    assert!(matches!(expect(value).to_be_inside(1..5).check(), CheckResult::Fail(_)));
    match expect(value).to_be_inside(6..10).check() {
        CheckResult::Fail(message) => {
            assert_eq!(message, "Expectation failed (value ∈ range)\nvalue:`5`\nrange:`6..10`")
        }
        CheckResult::Pass => panic!("Result was a pass when failure was expected"),
    }
}

#[test]
fn that_a_failed_comparison_names_the_relation_and_both_values() {
    let reports = [
        (expect(3).to_be_less_than(2).check(), "Expectation failed (a < b)\na: `2`\nb: `3`"),
        (expect(3).to_be_less_than_or_equal(2).check(), "Expectation failed (a ≤ b)\na: `2`\nb: `3`"),
        (expect(1).to_be_greater_than(2).check(), "Expectation failed (a > b)\na: `2`\nb: `1`"),
        (expect(1).to_be_greater_than_or_equal(2).check(), "Expectation failed (a ≥ b)\na: `2`\nb: `1`"),
    ];
    for (result, expected) in reports {
        match result {
            CheckResult::Fail(message) => assert_eq!(message, expected),
            CheckResult::Pass => panic!("Result was a pass when failure was expected"),
        }
    }
}

#[test]
fn that_order_works_on_strings() {
    run(expect("abc").to_be_less_than("def"));
    run(expect("def").to_be_greater_than_or_equal("def"));
}
