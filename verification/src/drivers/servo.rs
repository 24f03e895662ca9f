//! A hobby servo on a duty-cycle output.
//!
//! The servo is calibrated by two points: the duty at 0 degrees and the duty
//! at 90 degrees, which is three times the first. The duty for an angle is
//! the duty at 0 degrees plus the angle's share of the rise between the two
//! points. The caller scales the angle, which is a real number, to that share
//! and cuts it to a whole number; the sums and the calibration are here.

use vstd::prelude::*;

verus! {

/// The largest duty at 0 degrees whose threefold still is a duty.
pub const MAX_DUTY_ON_ZERO: u16 = 21845;

/// The calibration of a servo.
#[derive(Debug, Clone, Copy, PartialEq, Eq, Structural)]
pub struct Servo {
    duty_on_zero: u16,
    duty_on_90: u16,
}

impl Servo {
    /// The duty at 0 degrees.
    pub closed spec fn zero(self) -> int {
        self.duty_on_zero as int
    }

    /// The duty at 90 degrees.
    pub closed spec fn ninety(self) -> int {
        self.duty_on_90 as int
    }

    /// The calibration that every servo has: the duty at 90 degrees is three
    /// times the duty at 0 degrees.
    #[verifier::type_invariant]
    pub closed spec fn calibrated(self) -> bool {
        self.duty_on_90 == 3 * self.duty_on_zero
    }

    /// The duty for an angle whose share of the rise is `rise`.
    pub open spec fn duty_for(self, rise: int) -> int {
        self.zero() + rise
    }

    /// A servo whose duty at 0 degrees is `duty_on_zero` and whose duty at 90
    /// degrees is three times that.
    pub fn new(duty_on_zero: u16) -> (servo: Self)
        requires
            duty_on_zero <= MAX_DUTY_ON_ZERO,
        ensures
            servo.calibrated(),
            servo.zero() == duty_on_zero,
            servo.ninety() == 3 * duty_on_zero,
    {
        Servo { duty_on_zero, duty_on_90: duty_on_zero * 3 }
    }

    /// As `new`, for any `duty_on_zero`: `None` where its threefold is no duty.
    pub fn checked_new(duty_on_zero: u16) -> (servo: Option<Self>)
        ensures
            servo is Some <==> duty_on_zero <= MAX_DUTY_ON_ZERO,
            servo matches Some(s) ==> s.calibrated() && s.zero() == duty_on_zero && s.ninety() == 3
                * duty_on_zero,
    {
        if duty_on_zero <= MAX_DUTY_ON_ZERO {
            Some(Servo::new(duty_on_zero))
        } else {
            None
        }
    }

    /// The duty at 0 degrees.
    pub fn duty_on_zero(&self) -> (duty: u16)
        ensures
            duty == self.zero(),
    {
        self.duty_on_zero
    }

    /// The duty at 90 degrees.
    pub fn duty_on_90(&self) -> (duty: u16)
        ensures
            duty == self.ninety(),
            duty == 3 * self.zero(),
    {
        proof {
            use_type_invariant(self);
        }
        self.duty_on_90
    }

    /// The rise of the duty from 0 to 90 degrees: a ninetieth of it is the
    /// duty per degree.
    pub fn rise_to_90(&self) -> (rise: u16)
        ensures
            rise == self.ninety() - self.zero(),
            rise == 2 * self.zero(),
    {
        proof {
            use_type_invariant(self);
        }
        self.duty_on_90 - self.duty_on_zero
    }

    /// The duty to write for an angle whose share of the rise is `rise`.
    pub fn set_angle(&self, rise: u16) -> (duty: u16)
        requires
            self.duty_for(rise as int) <= u16::MAX,
        ensures
            duty == self.duty_for(rise as int),
    {
        rise + self.duty_on_zero
    }

    /// As `set_angle`, for any `rise`: `None` where the sum is no duty.
    pub fn checked_set_angle(&self, rise: u16) -> (duty: Option<u16>)
        ensures
            duty is Some <==> self.duty_for(rise as int) <= u16::MAX,
            duty matches Some(d) ==> d == self.duty_for(rise as int),
    {
        if rise <= u16::MAX - self.duty_on_zero {
            Some(self.set_angle(rise))
        } else {
            None
        }
    }
}

/// The line through the two points of the calibration: with no rise the duty
/// is the duty at 0 degrees, and with the whole rise to 90 degrees it is the
/// duty at 90 degrees, three times the first.
pub proof fn lemma_calibration_points(servo: Servo)
    requires
        servo.calibrated(),
    ensures
        servo.duty_for(0) == servo.zero(),
        servo.duty_for(servo.ninety() - servo.zero()) == servo.ninety(),
        servo.ninety() == 3 * servo.zero(),
{
}

} // verus!
