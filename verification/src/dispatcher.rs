//! Routing commands to the actuators.
//!
//! The dispatcher owns the stepper and the servo. It lets one motion of the
//! stepper run at a time: a command to run steps that arrives while a motion
//! is under way is dropped. A speed, an angle and a halt are taken at once,
//! also during a motion.

use vstd::prelude::*;
use crate::drivers::servo::Servo;
use crate::drivers::stepper::{
    level_of, phases_of, Direction, Level, Motion, Pulse, Speed, StepperWithDriver,
};
use crate::protocol::message::{Command, Message};
use crate::protocol::number::RealLiteral;

verus! {

/// What the caller does after a command was dispatched.
pub enum Action {
    /// A motion began: write the level, if any, to the direction output, then
    /// drive the motion with `next_pulse`.
    Run(Option<Level>),
    /// A motion was under way; the command to run steps was dropped.
    Dropped,
    /// Convert the literal to a speed and hand it to `set_speed`.
    Speed(RealLiteral),
    /// Convert the literal to an angle and write the duty for it.
    Angle(RealLiteral),
    /// The stepper was halted.
    Halted,
}

/// The owner of the two actuators and of the motion under way, if any.
pub struct Dispatcher {
    pub stepper: StepperWithDriver,
    pub servo: Servo,
    pub motion: Option<Motion>,
}

impl Dispatcher {
    /// The state after a command: only a run that is accepted and a halt
    /// change it.
    pub open spec fn after(self, command: Command) -> Dispatcher {
        match command {
            Command::RunSteps(steps) => if self.motion is Some {
                self
            } else {
                Dispatcher {
                    stepper: self.stepper.after_steps(steps),
                    servo: self.servo,
                    motion: Some(Motion { remaining: phases_of(steps) as u64 }),
                }
            },
            Command::Stop => Dispatcher {
                stepper: self.stepper.after_set_dir(Direction::Stop),
                servo: self.servo,
                motion: self.motion,
            },
            _ => self,
        }
    }

    /// Whether `action` is what the caller is told after `command`.
    pub open spec fn answers(self, command: Command, action: Action) -> bool {
        match command {
            Command::RunSteps(steps) => if self.motion is Some {
                action is Dropped
            } else {
                action matches Action::Run(write) && write == if steps > 0 {
                    Some(Level::High)
                } else if steps < 0 {
                    Some(Level::Low)
                } else {
                    None
                }
            },
            Command::SetSpeed(text) => action matches Action::Speed(literal) && literal@ == text,
            Command::SetServoAngle(text) => action matches Action::Angle(literal) && literal@
                == text,
            Command::Stop => action is Halted,
        }
    }

    /// A dispatcher with no motion under way.
    pub fn new(stepper: StepperWithDriver, servo: Servo) -> (dispatcher: Self)
        ensures
            dispatcher.stepper == stepper,
            dispatcher.servo == servo,
            dispatcher.motion is None,
    {
        Dispatcher { stepper, servo, motion: None }
    }

    /// Routes one command.
    pub fn dispatch(&mut self, message: Message) -> (action: Action)
        ensures
            *final(self) == old(self).after(message@),
            old(self).answers(message@, action),
    {
        match message {
            Message::StepperMotorRunSteps(steps) => {
                if self.motion.is_some() {
                    Action::Dropped
                } else {
                    let (write, motion) = self.stepper.steps(steps);
                    self.motion = Some(motion);
                    Action::Run(write)
                }
            },
            Message::StepperMotorSpeed(speed) => Action::Speed(speed),
            Message::ServoAngle(angle) => Action::Angle(angle),
            Message::StepperStop => {
                let _ = self.stepper.set_dir(Direction::Stop);
                Action::Halted
            },
        }
    }

    /// Takes a new speed, also during a motion.
    pub fn set_speed(&mut self, speed: Speed)
        ensures
            *final(self) == (Dispatcher {
                stepper: StepperWithDriver { speed, ..old(self).stepper },
                ..*old(self)
            }),
    {
        self.stepper.set_speed(speed);
    }

    /// The next phase of the motion under way, or `None` where there is no
    /// motion or it has just ended; after `None` no motion is under way.
    pub fn next_pulse(&mut self) -> (pulse: Option<Pulse>)
        ensures
            final(self).servo == old(self).servo,
            pulse is Some <==> (old(self).motion matches Some(m) && old(self).stepper.goes_on(m)),
            pulse matches Some(p) ==> {
                &&& final(self).stepper == old(self).stepper.after_advance()
                &&& final(self).motion == Some(
                    Motion { remaining: (old(self).motion->0.remaining - 1) as u64 },
                )
                &&& p.level == level_of(final(self).stepper.step_phase)
                &&& old(self).stepper.speed == (Speed::Moving { delay_ms: p.delay_ms })
            },
            pulse is None ==> final(self).stepper == old(self).stepper && final(self).motion is None,
    {
        match self.motion {
            None => None,
            Some(motion) => {
                let mut motion = motion;
                let pulse = self.stepper.next_pulse(&mut motion);
                if pulse.is_some() {
                    self.motion = Some(motion);
                } else {
                    self.motion = None;
                }
                pulse
            },
        }
    }
}

/// While a motion is under way a command to run steps changes nothing.
pub proof fn lemma_one_motion_at_a_time(dispatcher: Dispatcher, steps: i32)
    requires
        dispatcher.motion is Some,
    ensures
        dispatcher.after(Command::RunSteps(steps)) == dispatcher,
        forall|action: Action|
            dispatcher.answers(Command::RunSteps(steps), action) ==> action is Dropped,
{
}

/// After a halt the motion under way emits no further phase.
pub proof fn lemma_halt_cancels_motion(dispatcher: Dispatcher)
    requires
        dispatcher.motion is Some,
    ensures
        dispatcher.after(Command::Stop).stepper.pulses_ahead(dispatcher.motion->0) == 0,
{
}

} // verus!
