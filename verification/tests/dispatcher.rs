use motor_core::dispatcher::{Action, Dispatcher};
use motor_core::drivers::servo::Servo;
use motor_core::drivers::stepper::{Direction, Level, Motion, Speed, StepperWithDriver};
use motor_core::protocol::message::Message;
use motor_core::protocol::parser::parse;

fn fresh() -> Dispatcher {
    Dispatcher::new(StepperWithDriver::new(), Servo::new(20))
}

#[test]
fn a_new_dispatcher_has_no_motion() {
    let dispatcher = fresh();
    assert_eq!(dispatcher.motion, None);
    assert_eq!(dispatcher.stepper, StepperWithDriver::new());
    assert_eq!(dispatcher.servo, Servo::new(20));
}

#[test]
fn a_run_begins_when_none_is_under_way() {
    let mut dispatcher = fresh();
    let action = dispatcher.dispatch(Message::StepperMotorRunSteps(2));
    assert!(matches!(action, Action::Run(Some(Level::High))));
    assert_eq!(dispatcher.motion, Some(Motion { remaining: 4 }));
    assert_eq!(dispatcher.stepper.direction, Direction::Forward);
}

#[test]
fn a_second_run_is_dropped_while_the_first_is_under_way() {
    let mut dispatcher = fresh();
    dispatcher.dispatch(Message::StepperMotorRunSteps(2));
    assert!(dispatcher.next_pulse().is_some());
    let before_stepper = dispatcher.stepper;
    let action = dispatcher.dispatch(Message::StepperMotorRunSteps(-7));
    assert!(matches!(action, Action::Dropped));
    assert_eq!(dispatcher.motion, Some(Motion { remaining: 3 }));
    assert_eq!(dispatcher.stepper, before_stepper);
}

#[test]
fn a_run_is_accepted_again_once_the_first_has_ended() {
    let mut dispatcher = fresh();
    dispatcher.dispatch(Message::StepperMotorRunSteps(1));
    assert!(dispatcher.next_pulse().is_some());
    assert!(dispatcher.next_pulse().is_some());
    assert!(dispatcher.next_pulse().is_none());
    assert_eq!(dispatcher.motion, None);
    let action = dispatcher.dispatch(Message::StepperMotorRunSteps(-1));
    assert!(matches!(action, Action::Run(Some(Level::Low))));
    assert_eq!(dispatcher.motion, Some(Motion { remaining: 2 }));
}

#[test]
fn a_halt_cancels_the_motion_at_the_next_phase() {
    let mut dispatcher = fresh();
    dispatcher.dispatch(Message::StepperMotorRunSteps(100));
    assert!(dispatcher.next_pulse().is_some());
    assert!(matches!(dispatcher.dispatch(Message::StepperStop), Action::Halted));
    assert_eq!(dispatcher.stepper.direction, Direction::Stop);
    assert_eq!(dispatcher.stepper.speed, Speed::Zero);
    assert!(dispatcher.next_pulse().is_none());
    assert_eq!(dispatcher.motion, None);
}

#[test]
fn speed_and_angle_are_handed_on_also_during_a_motion() {
    let mut dispatcher = fresh();
    dispatcher.dispatch(Message::StepperMotorRunSteps(5));
    match dispatcher.dispatch(parse("SPEED:40,").ok().unwrap()) {
        Action::Speed(speed) => assert_eq!(speed.as_str().parse::<f32>(), Ok(40.0)),
        _ => panic!("no speed"),
    }
    match dispatcher.dispatch(parse("ANGLE:90,").ok().unwrap()) {
        Action::Angle(angle) => assert_eq!(angle.as_str().parse::<f32>(), Ok(90.0)),
        _ => panic!("no angle"),
    }
    assert_eq!(dispatcher.motion, Some(Motion { remaining: 10 }));
    dispatcher.set_speed(Speed::Moving { delay_ms: 25 });
    assert_eq!(dispatcher.next_pulse().unwrap().delay_ms, 25);
}

#[test]
fn no_motion_no_pulse() {
    let mut dispatcher = fresh();
    assert!(dispatcher.next_pulse().is_none());
    assert_eq!(dispatcher.motion, None);
}

#[test]
fn a_run_of_zero_steps_ends_at_once() {
    let mut dispatcher = fresh();
    let action = dispatcher.dispatch(Message::StepperMotorRunSteps(0));
    assert!(matches!(action, Action::Run(None)));
    assert_eq!(dispatcher.stepper.direction, Direction::Stop);
    assert!(dispatcher.next_pulse().is_none());
    assert_eq!(dispatcher.motion, None);
}
