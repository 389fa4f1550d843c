use vstd::prelude::*;

use crate::direction::Direction;

verus! {

/// The time elapsed since the last frame, in microseconds.
#[derive(Debug, Clone, Copy, PartialEq, Eq, Structural)]
pub struct TimeDelta(pub u64);

/// The input intent of one frame.
#[derive(Debug, Clone, Copy, PartialEq, Eq, Structural)]
pub enum KeyboardEvent {
    /// Begin to move in the given direction
    MoveInDirection(Direction),
    /// Stop moving in the current direction
    Stop,
}

/// The current status of the game.
#[derive(Debug, Clone, Copy, PartialEq, Eq, Structural)]
pub enum GameStatus {
    Running,
    Win,
    Lose,
}

/// Signifies whether or not the game should end immediately.
#[derive(Debug, Clone, Copy, PartialEq, Eq, Structural)]
pub enum GameOver {
    Yes,
    No,
}

impl GameStatus {
    /// Win and Lose end the frame loop.
    pub open spec fn ends_game(self) -> bool {
        self != GameStatus::Running
    }

    /// Whether the frame loop must stop after this status.
    pub fn game_over(&self) -> (g: GameOver)
        ensures
            (g == GameOver::Yes) == self.ends_game(),
    {
        match self {
            GameStatus::Running => GameOver::No,
            _ => GameOver::Yes,
        }
    }
}

} // verus!

verus! {

/// The time between two readings of the world clock; a reading later than `now`
/// counts as no time at all.
pub open spec fn elapsed(now: u64, since: u64) -> int {
    if now >= since {
        now - since
    } else {
        0
    }
}

/// Exec counterpart of `elapsed`.
pub fn elapsed_micros(now: u64, since: u64) -> (r: u64)
    ensures
        r == elapsed(now, since),
{
    if now >= since {
        now - since
    } else {
        0
    }
}

} // verus!
