use rxpect::{
    expect, AggregatedAspectExpectation, CheckResult, Expectation, ExpectationBuilder,
    ExpectationList, RootExpectations,
};
use std::cell::Cell;
use std::fmt::Debug;
use std::rc::Rc;

struct TestExpectation {
    asserted: Rc<Cell<bool>>,
    result: CheckResult,
}

impl TestExpectation {
    fn new(result: CheckResult) -> (TestExpectation, Rc<Cell<bool>>) {
        let asserted = Rc::new(Cell::new(false));
        (TestExpectation { asserted: asserted.clone(), result }, asserted)
    }
}

impl<T: Debug> Expectation<T> for TestExpectation {
    fn check(&self, _: &T) -> CheckResult {
        self.asserted.set(true);
        self.result.clone()
    }
}

fn run<T: Debug>(expectations: RootExpectations<'_, T>) {
    if let CheckResult::Fail(message) = expectations.check() {
        panic!("{}", message);
    }
}

#[test]
fn that_aspect_runs_all_expectations() {
    // Given two expectations that both pass
    let (expectation1, expected1) = TestExpectation::new(CheckResult::Pass);
    let (expectation2, expected2) = TestExpectation::new(CheckResult::Pass);

    // And an aspect expectation containing those
    let aspect = expect(true).aspect(|_| 1).to_pass(expectation1).to_pass(expectation2);

    // When the aspect is handed to its parent and checked
    run(aspect.parent());

    // Then both expectations were run
    assert!(expected1.get());
    assert!(expected2.get());
}

#[test]
fn that_aspect_indents_output() {
    // Given an expectation that fails
    let (expectation, _) =
        TestExpectation::new(CheckResult::Fail("this\nis\na\nmultiline\nmessage".to_string()));

    // And an aggregated aspect expectation holding it
    let mut expectations = ExpectationList::new();
    expectations.push(expectation);
    let aggregated: AggregatedAspectExpectation<bool, i32> =
        AggregatedAspectExpectation::new(1, expectations);

    // When the aggregated expectation is checked
    let result = aggregated.check(&true);

    // Then each line of the error message starts with two spaces
    if let CheckResult::Fail(message) = result {
        assert_eq!(message.lines().count(), 5);
        message.lines().for_each(|line| assert!(line.starts_with("  ")));
        assert_eq!(message, "  this\n  is\n  a\n  multiline\n  message");
    } else {
        panic!("Result was a pass when failure was expected");
    }
}

#[test]
fn that_nested_aspects_indent_once_per_level() {
    let (expectation, _) = TestExpectation::new(CheckResult::Fail("deep\ndown".to_string()));

    let inner = expect(true).aspect(|_| 1).aspect(|n| *n + 1).to_pass(expectation);
    let result = inner.parent().parent().check();

    match result {
        CheckResult::Fail(message) => assert_eq!(message, "    deep\n    down"),
        CheckResult::Pass => panic!("Result was a pass when failure was expected"),
    }
}

#[test]
fn that_an_aspect_without_expectations_passes() {
    let result = expect("anything").aspect(|text| text.len()).parent().check();
    assert!(matches!(result, CheckResult::Pass));
}
