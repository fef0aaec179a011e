use rxpect::expectations::{EqualityExpectations, OrderExpectations};
use rxpect::{
    expect, CheckResult, ExpectProjection, Expectation, ExpectationBuilder, ExpectationList,
    ProjectedExpectations, RootExpectations,
};
use std::cell::Cell;
use std::fmt::Debug;
use std::rc::Rc;

struct TestExpectation {
    asserted: Rc<Cell<bool>>,
    result: CheckResult,
}

impl TestExpectation {
    fn new(result: CheckResult) -> (TestExpectation, Rc<Cell<bool>>) {
        let asserted = Rc::new(Cell::new(false));
        (TestExpectation { asserted: asserted.clone(), result }, asserted)
    }
}

impl<T: Debug> Expectation<T> for TestExpectation {
    fn check(&self, _: &T) -> CheckResult {
        self.asserted.set(true);
        self.result.clone()
    }
}

fn run<T: Debug>(expectations: RootExpectations<'_, T>) {
    if let CheckResult::Fail(message) = expectations.check() {
        panic!("{}", message);
    }
}

#[derive(Debug)]
struct MyStruct {
    foo: u32,
}

#[test]
fn that_projection_runs_all_expectations() {
    // Given two expectations that both pass
    let (expectation1, expected1) = TestExpectation::new(CheckResult::Pass);
    let (expectation2, expected2) = TestExpectation::new(CheckResult::Pass);

    // And a projection expectation containing those
    let projection =
        expect(true).projected_by(|_| 1, |it| it.to_pass(expectation1).to_pass(expectation2));

    // When the projection is checked
    run(projection);

    // Then both expectations were run
    assert!(expected1.get());
    assert!(expected2.get());
}

#[test]
fn that_projection_indents_output() {
    // Given expectation that fails
    let (expectation, _) =
        TestExpectation::new(CheckResult::Fail("this\nis\na\nmultiline\nmessage".to_string()));

    // And an aggregated projection expectation
    let mut expectations = ExpectationList::new();
    expectations.push(expectation);
    let projected = ProjectedExpectations::new(|_: &bool| 1, expectations);

    // When the aggregated expectation is checked
    let result = projected.check(&true);

    // Then each line of the error message starts with two spaces
    if let CheckResult::Fail(message) = result {
        assert_eq!(message.lines().count(), 5);
        message.lines().for_each(|line| assert!(line.starts_with("  ")));
        message.lines().for_each(|line| assert!(!line.starts_with("   ")));
    } else {
        panic!("Result was a pass when failure was expected");
    }
}

#[test]
fn that_projections_can_be_nested_deeply() {
    // Given an expectation that passes
    let (expectation, expected) = TestExpectation::new(CheckResult::Pass);

    // And a deeply projected expectation
    let expectations = expect(true).projected_by(
        |_| 1,
        |it| it.projected_by(|_| 1.0, |it| it.projected_by(|_| "foo", |it| it.to_pass(expectation))),
    );

    // When the expectations are checked
    run(expectations);

    // Then the expectation was checked
    assert!(expected.get());
}

#[test]
fn that_two_levels_of_projection_indent_by_four_spaces() {
    let (expectation, _) =
        TestExpectation::new(CheckResult::Fail("this\nis\na\nmultiline\nmessage".to_string()));

    let result = expect(true)
        .projected_by(|_| 1, |it| it.projected_by(|_| 2, |it| it.to_pass(expectation)))
        .check();

    match result {
        CheckResult::Fail(message) => {
            assert_eq!(message, "    this\n    is\n    a\n    multiline\n    message");
        }
        CheckResult::Pass => panic!("Result was a pass when failure was expected"),
    }

    let (expectation, _) =
        TestExpectation::new(CheckResult::Fail("this\nis\na\nmultiline\nmessage".to_string()));
    let mut innermost = ExpectationList::new();
    innermost.push(expectation);
    let mut middle = ExpectationList::new();
    middle.push(ProjectedExpectations::new(|_: &i32| 2, innermost));
    let outer = ProjectedExpectations::new(|_: &bool| 1, middle);
    match outer.check(&true) {
        CheckResult::Fail(message) => {
            assert_eq!(message.lines().count(), 5);
            message.lines().for_each(|line| assert!(line.starts_with("    ")));
            message.lines().for_each(|line| assert!(!line.starts_with("     ")));
        }
        CheckResult::Pass => panic!("Result was a pass when failure was expected"),
    }
}

#[test]
fn that_a_projected_field_is_derived_and_checked() {
    run(expect(MyStruct { foo: 7 }).projected_by(|it| it.foo, |foo| foo.to_equal(7)));

    let result =
        expect(MyStruct { foo: 7 }).projected_by(|it| it.foo, |foo| foo.to_equal(8)).check();
    match result {
        CheckResult::Fail(message) => assert_eq!(
            message,
            "  Expectation failed (expected == actual)\n  expected: `8`\n    actual: `7`"
        ),
        CheckResult::Pass => panic!("Result was a pass when failure was expected"),
    }
}

#[test]
fn that_a_projection_without_expectations_passes() {
    let result = expect(MyStruct { foo: 7 }).projected_by(|it| it.foo, |foo| foo).check();
    assert!(matches!(result, CheckResult::Pass));
    let result = expect("text").projected_by(|it| it.len(), |length| length).check();
    assert!(matches!(result, CheckResult::Pass));
}

#[test]
fn that_both_failures_are_reported_in_order() {
    let result = expect(1).to_equal(2).to_be_greater_than(3).check();
    match result {
        CheckResult::Fail(message) => assert_eq!(
            message,
            "Expectation failed (expected == actual)\nexpected: `2`\n  actual: `1`\n\
             Expectation failed (a > b)\na: `3`\nb: `1`"
        ),
        CheckResult::Pass => panic!("Result was a pass when failure was expected"),
    }
}
