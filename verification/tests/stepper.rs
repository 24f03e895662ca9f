use motor_core::drivers::stepper::{
    Direction, Level, Motion, Pulse, Speed, StepperWithDriver, DEFAULT_DELAY_MS,
};

fn run_all(stepper: &mut StepperWithDriver, motion: &mut Motion) -> Vec<Pulse> {
    let mut pulses = Vec::new();
    while let Some(pulse) = stepper.next_pulse(motion) {
        pulses.push(pulse);
    }
    pulses
}

#[test]
fn a_new_stepper_is_halted_with_the_clock_low() {
    let stepper = StepperWithDriver::new();
    assert_eq!(stepper.direction, Direction::Stop);
    assert_eq!(stepper.step_phase, false);
    assert_eq!(stepper.speed, Speed::Moving { delay_ms: 500 });
    assert_eq!(DEFAULT_DELAY_MS, 500);
    assert_eq!(Direction::default(), Direction::Stop);
}

#[test]
fn set_dir_writes_the_direction_output() {
    let mut stepper = StepperWithDriver::new();
    assert_eq!(stepper.set_dir(Direction::Forward), Some(Level::High));
    assert_eq!(stepper.direction, Direction::Forward);
    assert_eq!(stepper.set_dir(Direction::Backward), Some(Level::Low));
    assert_eq!(stepper.direction, Direction::Backward);
    assert_eq!(stepper.speed, Speed::Moving { delay_ms: 500 });
    assert_eq!(stepper.set_dir(Direction::Stop), None);
    assert_eq!(stepper.direction, Direction::Stop);
    assert_eq!(stepper.speed, Speed::Zero);
}

#[test]
fn repeated_stop_is_safe_and_leaves_speed_at_zero() {
    let mut stepper = StepperWithDriver::new();
    stepper.set_dir(Direction::Forward);
    stepper.set_dir(Direction::Stop);
    let once = stepper;
    stepper.set_dir(Direction::Stop);
    stepper.set_dir(Direction::Stop);
    assert_eq!(stepper, once);
    assert_eq!(stepper.speed, Speed::Zero);
}

#[test]
fn advance_phase_toggles_the_clock() {
    let mut stepper = StepperWithDriver::new();
    stepper.set_dir(Direction::Forward);
    assert_eq!(stepper.advance_phase(), Some(Level::High));
    assert_eq!(stepper.step_phase, true);
    assert_eq!(stepper.advance_phase(), Some(Level::Low));
    assert_eq!(stepper.step_phase, false);
}

#[test]
fn advance_phase_does_nothing_while_halted() {
    let mut stepper = StepperWithDriver::new();
    let before = stepper;
    assert_eq!(stepper.advance_phase(), None);
    assert_eq!(stepper, before);
}

#[test]
fn set_speed_stores_the_speed() {
    let mut stepper = StepperWithDriver::new();
    stepper.set_speed(Speed::Moving { delay_ms: 20 });
    assert_eq!(stepper.speed, Speed::Moving { delay_ms: 20 });
    assert_eq!(stepper.direction, Direction::Stop);
    stepper.set_speed(Speed::Zero);
    assert_eq!(stepper.speed, Speed::Zero);
}

#[test]
fn a_run_emits_two_phases_for_each_step() {
    let mut stepper = StepperWithDriver::new();
    stepper.set_speed(Speed::Moving { delay_ms: 250 });
    let (write, mut motion) = stepper.steps(3);
    assert_eq!(write, Some(Level::High));
    assert_eq!(motion.remaining, 6);
    assert_eq!(stepper.direction, Direction::Forward);
    let pulses = run_all(&mut stepper, &mut motion);
    let high = Pulse { level: Level::High, delay_ms: 250 };
    let low = Pulse { level: Level::Low, delay_ms: 250 };
    assert_eq!(pulses, vec![high, low, high, low, high, low]);
    assert_eq!(motion.remaining, 0);
    assert_eq!(stepper.step_phase, false);
    assert_eq!(stepper.next_pulse(&mut motion), None);
}

#[test]
fn a_negative_count_runs_backward() {
    let mut stepper = StepperWithDriver::new();
    let (write, mut motion) = stepper.steps(-25);
    assert_eq!(write, Some(Level::Low));
    assert_eq!(stepper.direction, Direction::Backward);
    assert_eq!(motion.remaining, 50);
    assert_eq!(run_all(&mut stepper, &mut motion).len(), 50);
}

#[test]
fn zero_steps_change_nothing() {
    let mut stepper = StepperWithDriver::new();
    let before = stepper;
    let (write, mut motion) = stepper.steps(0);
    assert_eq!(write, None);
    assert_eq!(motion.remaining, 0);
    assert_eq!(stepper, before);
    assert_eq!(stepper.next_pulse(&mut motion), None);
}

#[test]
fn the_largest_counts_fit() {
    let mut stepper = StepperWithDriver::new();
    assert_eq!(stepper.steps(i32::MIN).1.remaining, 4294967296);
    assert_eq!(stepper.steps(i32::MAX).1.remaining, 4294967294);
}

#[test]
fn with_no_speed_a_run_emits_nothing() {
    let mut stepper = StepperWithDriver::new();
    stepper.set_speed(Speed::Zero);
    let (_, mut motion) = stepper.steps(10);
    let before = stepper;
    assert_eq!(stepper.next_pulse(&mut motion), None);
    assert_eq!(stepper, before);
    assert_eq!(motion.remaining, 0);
}

#[test]
fn a_stop_ends_the_run_before_it_is_done() {
    let mut stepper = StepperWithDriver::new();
    let (_, mut motion) = stepper.steps(4);
    let mut emitted = 0;
    for _ in 0..3 {
        assert!(stepper.next_pulse(&mut motion).is_some());
        emitted += 1;
    }
    stepper.set_dir(Direction::Stop);
    assert_eq!(stepper.next_pulse(&mut motion), None);
    assert!(emitted < 2 * 4);
    assert_eq!(motion.remaining, 0);
    stepper.set_dir(Direction::Forward);
    stepper.set_speed(Speed::Moving { delay_ms: 1 });
    assert_eq!(stepper.next_pulse(&mut motion), None);
}

#[test]
fn a_speed_of_zero_ends_the_run_too() {
    let mut stepper = StepperWithDriver::new();
    let (_, mut motion) = stepper.steps(4);
    assert!(stepper.next_pulse(&mut motion).is_some());
    stepper.set_speed(Speed::Zero);
    assert_eq!(stepper.next_pulse(&mut motion), None);
    assert_eq!(motion.remaining, 0);
}

#[test]
fn a_new_speed_is_taken_at_the_next_phase() {
    let mut stepper = StepperWithDriver::new();
    let (_, mut motion) = stepper.steps(2);
    assert_eq!(stepper.next_pulse(&mut motion).unwrap().delay_ms, 500);
    stepper.set_speed(Speed::Moving { delay_ms: 10 });
    assert_eq!(stepper.next_pulse(&mut motion).unwrap().delay_ms, 10);
}

#[test]
fn the_pause_is_a_thousand_over_the_speed() {
    let speed: f32 = 2.0;
    let delay_ms = (1000.0 / speed) as u64;
    assert_eq!(delay_ms, DEFAULT_DELAY_MS);
}
