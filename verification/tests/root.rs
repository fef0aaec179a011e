use rxpect::{
    expect, CheckResult, Evaluation, Expectation, ExpectationBuilder, RootExpectations,
};
use std::cell::Cell;
use std::fmt::Debug;
use std::rc::Rc;

struct TestExpectation {
    asserted: Rc<Cell<bool>>,
    result: CheckResult,
}

impl TestExpectation {
    fn new(result: CheckResult) -> (TestExpectation, Rc<Cell<bool>>) {
        let asserted = Rc::new(Cell::new(false));
        (TestExpectation { asserted: asserted.clone(), result }, asserted)
    }
}

impl<T: Debug> Expectation<T> for TestExpectation {
    fn check(&self, _: &T) -> CheckResult {
        self.asserted.set(true);
        self.result.clone()
    }
}

fn run<T: Debug>(expectations: RootExpectations<'_, T>) {
    if let CheckResult::Fail(message) = expectations.check() {
        panic!("{}", message);
    }
}

#[test]
fn that_assert_runs_an_expectation() {
    // Given an expectation
    let (expectation, expected) = TestExpectation::new(CheckResult::Pass);

    // And expectations containing it
    let expectations = expect(true).to_pass(expectation);

    // When the expectations are checked
    run(expectations);

    // Then the expectation was run
    assert!(expected.get());
}

#[test]
fn that_assert_works_on_references() {
    // Given an expectation
    let (expectation, _) = TestExpectation::new(CheckResult::Pass);

    // Expect a reference to work
    let value = true;
    run(expect(&value).to_pass(expectation));
}

#[test]
fn that_check_runs_all_expectations() {
    // Given two expectations that both pass
    let (expectation1, expected1) = TestExpectation::new(CheckResult::Pass);
    let (expectation2, expected2) = TestExpectation::new(CheckResult::Pass);

    // And expectations containing those
    let expectations = expect(true).to_pass(expectation1).to_pass(expectation2);

    // When the expectations are checked
    run(expectations);

    // Then both expectations were run
    assert!(expected1.get());
    assert!(expected2.get());
}

#[test]
#[should_panic]
fn that_failure_panics() {
    // Given an expectation that fails
    let (expectation, _) = TestExpectation::new(CheckResult::Fail("message".to_owned()));

    // And expectations containing it
    let expectations = expect(true).to_pass(expectation);

    // Expect a panic when checked
    run(expectations);
}

#[test]
fn that_a_failure_does_not_stop_the_later_expectations() {
    let (first, first_ran) = TestExpectation::new(CheckResult::Fail("first".to_owned()));
    let (second, second_ran) = TestExpectation::new(CheckResult::Pass);
    let (third, third_ran) = TestExpectation::new(CheckResult::Fail("third".to_owned()));

    let result = expect(true).to_pass(first).to_pass(second).to_pass(third).check();

    assert!(first_ran.get());
    assert!(second_ran.get());
    assert!(third_ran.get());
    match result {
        CheckResult::Fail(message) => assert_eq!(message, "first\nthird"),
        CheckResult::Pass => panic!("Result was a pass when failure was expected"),
    }
}

#[test]
fn that_no_expectation_is_a_pass() {
    assert!(matches!(expect(7).check(), CheckResult::Pass));
}

#[test]
fn that_only_the_end_of_the_report_is_trimmed() {
    let (first, _) = TestExpectation::new(CheckResult::Fail("  a ".to_owned()));
    let (second, _) = TestExpectation::new(CheckResult::Fail(" b\t\n".to_owned()));

    match expect(true).to_pass(first).to_pass(second).check() {
        CheckResult::Fail(message) => assert_eq!(message, "  a \n b"),
        CheckResult::Pass => panic!("Result was a pass when failure was expected"),
    }
}

struct Counted {
    evaluations: Rc<Cell<u32>>,
    result: CheckResult,
}

impl<T: Debug> Expectation<T> for Counted {
    fn check(&self, _: &T) -> CheckResult {
        self.evaluations.set(self.evaluations.get() + 1);
        self.result.clone()
    }
}

#[test]
fn that_every_expectation_is_evaluated_exactly_once() {
    let passing = Rc::new(Cell::new(0));
    let failing = Rc::new(Cell::new(0));

    let result = expect(true)
        .to_pass(Counted { evaluations: failing.clone(), result: CheckResult::Fail("no".to_owned()) })
        .to_pass(Counted { evaluations: passing.clone(), result: CheckResult::Pass })
        .check();

    assert_eq!(passing.get(), 1);
    assert_eq!(failing.get(), 1);
    match result {
        CheckResult::Fail(message) => assert_eq!(message, "no"),
        CheckResult::Pass => panic!("Result was a pass when failure was expected"),
    }
}

#[test]
fn that_all_passing_expectations_give_a_pass() {
    let (first, _) = TestExpectation::new(CheckResult::Pass);
    let (second, _) = TestExpectation::new(CheckResult::Pass);
    let result = expect(true).to_pass(first).to_pass(second).check();
    assert!(matches!(result, CheckResult::Pass));
}

#[test]
fn that_a_second_run_checks_nothing() {
    let evaluations = Rc::new(Cell::new(0));
    let counted = Counted { evaluations: evaluations.clone(), result: CheckResult::Fail("no".to_owned()) };
    let mut evaluation = Evaluation::new(expect(true).to_pass(counted));

    match evaluation.run() {
        Some(CheckResult::Fail(message)) => assert_eq!(message, "no"),
        _ => panic!("Result was not a failure when failure was expected"),
    }
    assert!(evaluation.run().is_none());
    assert!(evaluation.run().is_none());
    assert_eq!(evaluations.get(), 1);
}

#[test]
fn that_an_open_evaluation_takes_more_expectations() {
    let (first, first_ran) = TestExpectation::new(CheckResult::Pass);
    let (second, second_ran) = TestExpectation::new(CheckResult::Pass);
    let (late, late_ran) = TestExpectation::new(CheckResult::Fail("late".to_owned()));
    let mut evaluation = Evaluation::new(expect(1).to_pass(first));

    evaluation.configure(|it| it.to_pass(second));
    assert!(matches!(evaluation.run(), Some(CheckResult::Pass)));
    evaluation.configure(|it| it.to_pass(late));

    assert!(evaluation.run().is_none());
    assert!(first_ran.get());
    assert!(second_ran.get());
    assert!(!late_ran.get());
}
