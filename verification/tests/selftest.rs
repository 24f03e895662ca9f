use motor_core::protocol::message::Message;
use motor_core::protocol::parser::{parse, ParsingError};
use motor_core::tests::Tester;

#[test]
fn the_self_test_passes() {
    let mut tester = Tester::new();
    assert_eq!(tester.output(), "");
    assert!(!tester.failed());
    tester.run_tests();
    assert_eq!(tester.output(), "PASSED");
    assert!(!tester.failed());
}

#[test]
fn the_data_test_adds_one_result() {
    let mut tester = Tester::new();
    tester.parse_data_test();
    tester.parse_data_test();
    assert_eq!(tester.output(), "PASSEDPASSED");
    assert!(!tester.failed());
}

#[test]
fn a_difference_is_a_failure() {
    let mut tester = Tester::new();
    tester.assert_eq(&parse("STEPS:1,"), &Ok(Message::StepperMotorRunSteps(1)));
    assert_eq!(tester.output(), "PASSED");
    assert!(!tester.failed());
    tester.assert_eq(&parse("STEPS:1,"), &Ok(Message::StepperMotorRunSteps(2)));
    assert_eq!(tester.output(), "PASSEDFAILED");
    assert!(tester.failed());
    tester.assert_eq(&parse("STEPS:,"), &Err(ParsingError::ValueParsingError));
    assert_eq!(tester.output(), "PASSEDFAILEDPASSED");
    assert!(tester.failed());
    tester.assert_eq(&parse("STEPS:,"), &Err(ParsingError::NotAComandError));
    tester.assert_eq(&parse("STEPS:,"), &Ok(Message::StepperStop));
    assert_eq!(tester.output(), "PASSEDFAILEDPASSEDFAILEDFAILED");
}
