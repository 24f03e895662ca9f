//! Command-driven motor control: a line protocol for a stepper motor and a
//! servo, the buffer that collects a line from a serial link, and the state
//! machines that turn commands into pin and duty-cycle writes.
//!
//! - `protocol` reads a line of the form `COMMAND:VALUE,` as a command.
//! - `bridge` collects the bytes of a line and offers the command to the
//!   channel that leads to the dispatcher.
//! - `dispatcher` routes commands and lets one stepper motion run at a time.
//! - `drivers` holds the stepper and the servo.
//! - `tests` is a self-test to run at start-up.
//!
//! Everything here works on plain values. Pins, timers and the serial link
//! stay with the caller, who performs the writes and pauses that the state
//! machines ask for. Real numbers stay with the caller too: the library
//! checks the shape of a speed or an angle and hands its text on.

pub mod bridge;
pub mod dispatcher;
pub mod drivers;
pub mod protocol;
