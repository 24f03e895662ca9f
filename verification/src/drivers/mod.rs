//! The two actuators as state machines: they decide what is written to the
//! pins and for how long to pause; the caller writes and pauses.

pub mod servo;
pub mod stepper;
