//! A stepper motor behind a step/direction driver.
//!
//! The driver has a direction input and a clock input. Every transition of
//! the clock is a phase; two phases make one step. The state machine here
//! says which level to write and how long to pause after it, and stops
//! asking as soon as the motor is stopped or its speed is zero.

use vstd::prelude::*;

verus! {

/// Which way the motor turns, or that it is halted.
#[derive(Debug, Clone, Copy, PartialEq, Eq, Structural)]
pub enum Direction {
    Forward,
    Backward,
    Stop,
}

impl Default for Direction {
    fn default() -> (direction: Self)
        ensures
            direction == Direction::Stop,
    {
        Direction::Stop
    }
}

/// The level of a digital output.
#[derive(Debug, Clone, Copy, PartialEq, Eq, Structural)]
pub enum Level {
    Low,
    High,
}

/// The motor's speed as the motion loop reads it: no motion at all, or the
/// pause after each phase, in milliseconds (1000 divided by the speed in
/// steps per second, cut to a whole number).
#[derive(Debug, Clone, Copy, PartialEq, Eq, Structural)]
pub enum Speed {
    Zero,
    Moving { delay_ms: u64 },
}

/// The pause that belongs to the speed a new motor starts with, two steps
/// per second.
pub const DEFAULT_DELAY_MS: u64 = 500;

/// One phase of a motion: write `level` to the clock output, then pause.
#[derive(Debug, Clone, Copy, PartialEq, Eq, Structural)]
pub struct Pulse {
    pub level: Level,
    pub delay_ms: u64,
}

/// A motion under way: the phases it still owes.
#[derive(Debug, Clone, Copy, PartialEq, Eq, Structural)]
pub struct Motion {
    pub remaining: u64,
}

/// The state of the motor: its direction, the level of its clock output
/// (`true` is high) and its speed.
#[derive(Debug, Clone, Copy, PartialEq, Eq, Structural)]
pub struct StepperWithDriver {
    pub speed: Speed,
    pub direction: Direction,
    pub step_phase: bool,
}

/// The level that a phase flag stands for.
pub open spec fn level_of(phase: bool) -> Level {
    if phase {
        Level::High
    } else {
        Level::Low
    }
}

/// What `set_dir` writes to the direction output.
pub open spec fn direction_write(dir: Direction) -> Option<Level> {
    match dir {
        Direction::Forward => Some(Level::High),
        Direction::Backward => Some(Level::Low),
        Direction::Stop => None,
    }
}

/// The number of phases that a run of `steps` steps owes: two for each step,
/// whatever the sign.
pub open spec fn phases_of(steps: i32) -> nat {
    if steps >= 0 {
        (2 * steps) as nat
    } else {
        (-2 * steps) as nat
    }
}

impl StepperWithDriver {
    /// The state after `set_dir(dir)`: halting also takes the speed away.
    pub open spec fn after_set_dir(self, dir: Direction) -> StepperWithDriver {
        StepperWithDriver {
            speed: if dir == Direction::Stop {
                Speed::Zero
            } else {
                self.speed
            },
            direction: dir,
            step_phase: self.step_phase,
        }
    }

    /// The state after `advance_phase()`: the clock flips unless the motor is halted.
    pub open spec fn after_advance(self) -> StepperWithDriver {
        if self.direction == Direction::Stop {
            self
        } else {
            StepperWithDriver { step_phase: !self.step_phase, ..self }
        }
    }

    /// The state after `steps(steps)` has set the direction.
    pub open spec fn after_steps(self, steps: i32) -> StepperWithDriver {
        if steps > 0 {
            self.after_set_dir(Direction::Forward)
        } else if steps < 0 {
            self.after_set_dir(Direction::Backward)
        } else {
            self
        }
    }

    /// Whether a motion that owes `motion.remaining` phases goes on.
    pub open spec fn goes_on(self, motion: Motion) -> bool {
        &&& motion.remaining > 0
        &&& self.direction != Direction::Stop
        &&& self.speed != Speed::Zero
    }

    /// How many phases a motion emits from here if nothing interferes.
    pub open spec fn pulses_ahead(self, motion: Motion) -> nat
        decreases motion.remaining,
    {
        if self.goes_on(motion) {
            1 + self.after_advance().pulses_ahead(Motion { remaining: (motion.remaining - 1) as u64 })
        } else {
            0
        }
    }

    /// A halted motor with its clock low and the default speed.
    pub fn new() -> (stepper: Self)
        ensures
            stepper.direction == Direction::Stop,
            stepper.step_phase == false,
            stepper.speed == (Speed::Moving { delay_ms: DEFAULT_DELAY_MS }),
    {
        StepperWithDriver {
            speed: Speed::Moving { delay_ms: DEFAULT_DELAY_MS },
            direction: Direction::default(),
            step_phase: false,
        }
    }

    /// Stores the speed. It takes effect at the next phase.
    pub fn set_speed(&mut self, speed: Speed)
        ensures
            *final(self) == (StepperWithDriver { speed, ..*old(self) }),
    {
        self.speed = speed;
    }

    /// Sets the direction and says what to write to the direction output:
    /// high for forward, low for backward, nothing for a halt.
    pub fn set_dir(&mut self, dir: Direction) -> (write: Option<Level>)
        ensures
            *final(self) == old(self).after_set_dir(dir),
            write == direction_write(dir),
    {
        self.direction = dir;
        match dir {
            Direction::Forward => Some(Level::High),
            Direction::Backward => Some(Level::Low),
            Direction::Stop => {
                self.speed = Speed::Zero;
                None
            },
        }
    }

    /// Flips the clock and says which level to write; does nothing and says
    /// nothing while the motor is halted.
    pub fn advance_phase(&mut self) -> (write: Option<Level>)
        ensures
            *final(self) == old(self).after_advance(),
            write == if old(self).direction == Direction::Stop {
                None
            } else {
                Some(level_of(!old(self).step_phase))
            },
    {
        match self.direction {
            Direction::Stop => None,
            _ => {
                self.step_phase = !self.step_phase;
                Some(if self.step_phase {
                    Level::High
                } else {
                    Level::Low
                })
            },
        }
    }

    /// Begins a run of `steps` steps: forward if positive, backward if
    /// negative, nothing at all if zero. Says what to write to the direction
    /// output and hands out the motion to drive with `next_pulse`.
    pub fn steps(&mut self, steps: i32) -> (begun: (Option<Level>, Motion))
        ensures
            *final(self) == old(self).after_steps(steps),
            begun.1.remaining == phases_of(steps),
            begun.0 == if steps > 0 {
                Some(Level::High)
            } else if steps < 0 {
                Some(Level::Low)
            } else {
                None
            },
    {
        if steps > 0 {
            let write = self.set_dir(Direction::Forward);
            (write, Motion { remaining: 2 * (steps as u64) })
        } else if steps < 0 {
            let write = self.set_dir(Direction::Backward);
            let magnitude: u64 = (-(steps as i64)) as u64;
            (write, Motion { remaining: 2 * magnitude })
        } else {
            (None, Motion { remaining: 0 })
        }
    }

    /// The next phase of `motion`, or `None` when the motion is over: all its
    /// phases are done, the motor was halted, or its speed is zero. A motion
    /// that is over stays over.
    pub fn next_pulse(&mut self, motion: &mut Motion) -> (pulse: Option<Pulse>)
        ensures
            pulse is Some <==> old(self).goes_on(*old(motion)),
            pulse matches Some(p) ==> {
                &&& *final(self) == old(self).after_advance()
                &&& final(motion).remaining == old(motion).remaining - 1
                &&& p.level == level_of(final(self).step_phase)
                &&& old(self).speed == (Speed::Moving { delay_ms: p.delay_ms })
            },
            pulse is None ==> *final(self) == *old(self) && final(motion).remaining == 0,
    {
        if motion.remaining == 0 {
            return None;
        }
        let delay_ms: u64 = match self.speed {
            Speed::Moving { delay_ms } => delay_ms,
            Speed::Zero => {
                motion.remaining = 0;
                return None;
            },
        };
        match self.advance_phase() {
            Some(level) => {
                motion.remaining = motion.remaining - 1;
                Some(Pulse { level, delay_ms })
            },
            None => {
                motion.remaining = 0;
                None
            },
        }
    }
}

/// Two phases make one step: after them the clock is at the level it had.
pub proof fn lemma_two_phases_restore_the_clock(stepper: StepperWithDriver)
    ensures
        stepper.after_advance().after_advance() == stepper,
{
}

/// A run that nothing interferes with emits every phase it owes, provided
/// the motor is not halted and has a speed.
pub proof fn lemma_run_completes(stepper: StepperWithDriver, motion: Motion)
    requires
        stepper.direction != Direction::Stop,
        stepper.speed != Speed::Zero,
    ensures
        stepper.pulses_ahead(motion) == motion.remaining,
    decreases motion.remaining,
{
    if motion.remaining > 0 {
        lemma_run_completes(
            stepper.after_advance(),
            Motion { remaining: (motion.remaining - 1) as u64 },
        );
    }
}

/// A run of `steps` steps, begun with a speed and left alone, emits two
/// phases for each step.
pub proof fn lemma_steps_emit_two_phases_each(stepper: StepperWithDriver, steps: i32)
    requires
        stepper.speed != Speed::Zero,
    ensures
        stepper.after_steps(steps).pulses_ahead(Motion { remaining: phases_of(steps) as u64 })
            == phases_of(steps),
{
    if steps != 0 {
        lemma_run_completes(
            stepper.after_steps(steps),
            Motion { remaining: phases_of(steps) as u64 },
        );
    }
}

/// With no speed a run emits no phase at all.
pub proof fn lemma_no_speed_no_phase(stepper: StepperWithDriver, steps: i32)
    requires
        stepper.speed == Speed::Zero,
    ensures
        stepper.after_steps(steps).pulses_ahead(Motion { remaining: phases_of(steps) as u64 })
            == 0,
{
}

/// A halt ends a motion at once: whatever it still owed, no phase follows.
pub proof fn lemma_stop_ends_motion(stepper: StepperWithDriver, motion: Motion)
    ensures
        stepper.after_set_dir(Direction::Stop).pulses_ahead(motion) == 0,
{
}

/// A halt that comes after `done` phases of a run leaves the run short of
/// what it owed: `done` phases were emitted and none follows.
pub proof fn lemma_stopped_run_is_short(
    stepper: StepperWithDriver,
    motion: Motion,
    done: nat,
    owed: nat,
)
    requires
        done + motion.remaining == owed,
        motion.remaining > 0,
    ensures
        done + stepper.after_set_dir(Direction::Stop).pulses_ahead(motion) < owed,
{
}

/// Halting twice is halting once, and the speed is zero after it.
pub proof fn lemma_stop_is_idempotent(stepper: StepperWithDriver)
    ensures
        stepper.after_set_dir(Direction::Stop).speed == Speed::Zero,
        stepper.after_set_dir(Direction::Stop).direction == Direction::Stop,
        stepper.after_set_dir(Direction::Stop).after_set_dir(Direction::Stop)
            == stepper.after_set_dir(Direction::Stop),
{
}

} // verus!
