use motor_core::drivers::servo::{Servo, MAX_DUTY_ON_ZERO};

#[test]
fn the_duty_at_ninety_is_three_times_the_duty_at_zero() {
    let servo = Servo::new(20);
    assert_eq!(servo.duty_on_zero(), 20);
    assert_eq!(servo.duty_on_90(), 60);
    assert_eq!(servo.rise_to_90(), 40);
}

#[test]
fn no_rise_gives_the_duty_at_zero() {
    assert_eq!(Servo::new(20).set_angle(0), 20);
    assert_eq!(Servo::new(0).set_angle(0), 0);
}

#[test]
fn the_whole_rise_gives_the_duty_at_ninety() {
    let servo = Servo::new(1000);
    assert_eq!(servo.set_angle(servo.rise_to_90()), 3000);
    assert_eq!(servo.set_angle(500), 1500);
}

#[test]
fn the_largest_calibration() {
    assert_eq!(MAX_DUTY_ON_ZERO, 21845);
    let servo = Servo::new(MAX_DUTY_ON_ZERO);
    assert_eq!(servo.duty_on_90(), 65535);
    assert!(Servo::checked_new(21845).is_some());
    assert!(Servo::checked_new(21846).is_none());
    assert_eq!(Servo::checked_new(7).unwrap().duty_on_90(), 21);
}

#[test]
fn a_sum_past_the_largest_duty_is_none() {
    let servo = Servo::new(20000);
    assert_eq!(servo.checked_set_angle(45535), Some(65535));
    assert_eq!(servo.checked_set_angle(45536), None);
    assert_eq!(servo.checked_set_angle(0), Some(20000));
}

#[test]
fn scaled_angles_within_truncation_of_the_line() {
    let servo = Servo::new(20);
    let per_degree = servo.rise_to_90() as f32 / 90.0;
    let max_angle: f32 = 180.0;
    let duty = |angle: f32| {
        let angle = if angle > max_angle { max_angle } else { angle };
        servo.set_angle((per_degree * angle) as u16)
    };
    assert_eq!(duty(0.0), 20);
    assert!(duty(90.0) == 60 || duty(90.0) == 59);
    assert_eq!(duty(500.0), duty(180.0));
    assert_eq!(duty(-10.0), 20);
}
