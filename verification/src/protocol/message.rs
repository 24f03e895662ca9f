//! The commands that a line can carry.

use vstd::prelude::*;
use crate::protocol::number::RealLiteral;

verus! {

/// A command as it was read from a line.
///
/// A speed or an angle is kept as the literal that the line held; the caller
/// converts it to the machine's number when it acts on the command.
#[derive(Debug)]
pub enum Message {
    /// Run the stepper: the sign gives the direction.
    StepperMotorRunSteps(i32),
    /// Set the stepper's speed, in steps per second.
    StepperMotorSpeed(RealLiteral),
    /// Turn the servo to an angle, in degrees.
    ServoAngle(RealLiteral),
    /// Halt the stepper.
    StepperStop,
}

/// What a `Message` says, with each literal as its characters.
pub enum Command {
    RunSteps(i32),
    SetSpeed(Seq<char>),
    SetServoAngle(Seq<char>),
    Stop,
}

impl View for Message {
    type V = Command;

    open spec fn view(&self) -> Command {
        match *self {
            Message::StepperMotorRunSteps(steps) => Command::RunSteps(steps),
            Message::StepperMotorSpeed(speed) => Command::SetSpeed(speed@),
            Message::ServoAngle(angle) => Command::SetServoAngle(angle@),
            Message::StepperStop => Command::Stop,
        }
    }
}

impl Message {
    /// Whether two messages say the same, literal for literal.
    pub fn same(&self, other: &Message) -> (same: bool)
        ensures
            same == (self@ == other@),
    {
        match (self, other) {
            (Message::StepperMotorRunSteps(a), Message::StepperMotorRunSteps(b)) => *a == *b,
            (Message::StepperMotorSpeed(a), Message::StepperMotorSpeed(b)) => a.same_text(b),
            (Message::ServoAngle(a), Message::ServoAngle(b)) => a.same_text(b),
            (Message::StepperStop, Message::StepperStop) => true,
            _ => false,
        }
    }
}

impl PartialEq for Message {
    fn eq(&self, other: &Message) -> (same: bool) {
        self.same(other)
    }
}

impl vstd::std_specs::cmp::PartialEqSpecImpl for Message {
    open spec fn obeys_eq_spec() -> bool {
        true
    }

    open spec fn eq_spec(&self, other: &Message) -> bool {
        self@ == other@
    }
}

} // verus!
