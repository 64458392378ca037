//! A fixed-interval driver for the game: polled once per frame, it steps the
//! game each time its deadline has passed, until the game ends.

use crate::game::{tick_step, GameState, Outcome, Step};
use vstd::prelude::*;

verus! {

/// The usual time between two ticks, in milliseconds.
pub const TICK_MS: u64 = 500;

/// Where the scheduler stands.
#[derive(Clone, Copy, Debug, PartialEq, Eq, Structural)]
pub enum Phase {
    /// Not polled yet.
    Idle,
    /// The next tick is due once the clock passes this time, in milliseconds.
    Armed(u64),
    /// The game ended with this outcome; no tick follows.
    Ended(Outcome),
}

/// What one poll did.
pub enum Poll {
    /// No tick was due.
    Waiting,
    /// The game took one tick.
    Ticked(Step),
    /// The game has ended; nothing was done.
    Stopped,
}

/// Drives `GameState::advance` at a fixed interval.
pub struct Scheduler {
    pub phase: Phase,
    pub tick_ms: u64,
}

impl Scheduler {
    /// A scheduler that ticks every `tick_ms` milliseconds, not yet armed.
    pub fn new(tick_ms: u64) -> (r: Scheduler)
        ensures
            r.phase == Phase::Idle,
            r.tick_ms == tick_ms,
    {
        Scheduler { phase: Phase::Idle, tick_ms }
    }

    /// Whether the game has ended.
    pub fn is_ended(&self) -> (r: bool)
        ensures
            r == (self.phase is Ended),
    {
        match self.phase {
            Phase::Ended(_) => true,
            _ => false,
        }
    }

    /// One poll at time `now_ms`. The first poll arms the deadline one
    /// interval ahead. Once the clock is past the deadline the game takes
    /// exactly one tick and the deadline moves on by one interval; a tick that
    /// ends the game ends the scheduler, which never ticks again.
    pub fn poll(&mut self, now_ms: u64, game: &mut GameState) -> (r: Poll)
        requires
            old(game).wf(),
        ensures
            final(game).wf(),
            final(self).tick_ms == old(self).tick_ms,
            match old(self).phase {
                Phase::Idle => {
                    &&& r is Waiting
                    &&& final(self).phase == Phase::Armed(
                        if now_ms + old(self).tick_ms <= u64::MAX {
                            (now_ms + old(self).tick_ms) as u64
                        } else {
                            u64::MAX
                        },
                    )
                    &&& *final(game) == *old(game)
                },
                Phase::Armed(deadline) => if now_ms > deadline {
                    &&& r is Ticked
                    &&& tick_step(*old(game), *final(game), r->Ticked_0.outcome, r->Ticked_0.changes@)
                    &&& final(self).phase == if r->Ticked_0.outcome == Outcome::Continue {
                        Phase::Armed(
                            if deadline + old(self).tick_ms <= u64::MAX {
                                (deadline + old(self).tick_ms) as u64
                            } else {
                                u64::MAX
                            },
                        )
                    } else {
                        Phase::Ended(r->Ticked_0.outcome)
                    }
                } else {
                    &&& r is Waiting
                    &&& final(self).phase == old(self).phase
                    &&& *final(game) == *old(game)
                },
                Phase::Ended(_) => {
                    &&& r is Stopped
                    &&& final(self).phase == old(self).phase
                    &&& *final(game) == *old(game)
                },
            },
    {
        match self.phase {
            Phase::Idle => {
                self.phase = Phase::Armed(now_ms.saturating_add(self.tick_ms));
                Poll::Waiting
            },
            Phase::Armed(deadline) => {
                if now_ms > deadline {
                    let step = game.advance();
                    if step.outcome == Outcome::Continue {
                        self.phase = Phase::Armed(deadline.saturating_add(self.tick_ms));
                    } else {
                        self.phase = Phase::Ended(step.outcome);
                    }
                    Poll::Ticked(step)
                } else {
                    Poll::Waiting
                }
            },
            Phase::Ended(_) => Poll::Stopped,
        }
    }
}

/// The message shown when the game ends with `outcome`, if it ended.
pub fn end_message(outcome: Outcome) -> (r: Option<&'static str>)
    ensures
        outcome == Outcome::Victory ==> r is Some && r->0@ == "You won!"@,
        outcome == Outcome::Death ==> r is Some && r->0@ == "You have died!"@,
        outcome == Outcome::Continue ==> r is None,
{
    match outcome {
        Outcome::Continue => None,
        Outcome::Victory => Some("You won!"),
        Outcome::Death => Some("You have died!"),
    }
}

} // verus!
