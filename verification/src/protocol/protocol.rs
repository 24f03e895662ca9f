//! The fixed characters and words of the wire format.

use vstd::prelude::*;

verus! {

/// Ends a command; what follows it on the line is ignored.
pub const SEPPARATOR: char = ',';

/// Stands between a command's word and its value.
pub const EQ_VAL: char = ':';

/// The word that sets the servo's angle.
pub const ANGLE_PREFIX: &'static str = "ANGLE";

/// The word that runs the stepper for a number of steps.
pub const STEPPER_STEPS_PREFIX: &'static str = "STEPS";

/// The word that sets the stepper's speed.
pub const STEPPER_SPEED_PREFIX: &'static str = "SPEED";

/// The word that stops the stepper.
pub const STEPPER_STOP: &'static str = "STOP";

} // verus!
