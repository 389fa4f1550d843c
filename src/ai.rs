use vstd::prelude::*;

use crate::components::{Enemy, Velocity};
use crate::direction::Direction;
use crate::resources::elapsed;

verus! {

/// The direction drawn from a percentile roll in 1..=100: 1..=60 keeps the current
/// direction, then 10 each for Up, Down, Left and Right.
pub open spec fn direction_from_roll(roll: int, current: Direction) -> Direction {
    if roll <= 60 {
        current
    } else if roll <= 70 {
        Direction::Up
    } else if roll <= 80 {
        Direction::Down
    } else if roll <= 90 {
        Direction::Left
    } else {
        Direction::Right
    }
}

/// Picks the next direction of an enemy from a percentile roll.
pub fn choose_direction(roll: u32, current: Direction) -> (d: Direction)
    requires
        1 <= roll <= 100,
    ensures
        d == direction_from_roll(roll as int, current),
{
    if roll <= 60 {
        current
    } else if roll <= 70 {
        Direction::Up
    } else if roll <= 80 {
        Direction::Down
    } else if roll <= 90 {
        Direction::Left
    } else {
        Direction::Right
    }
}

/// The enemy is due for a new direction at clock reading `now`.
pub open spec fn reroll_due(e: Enemy, now: u64) -> bool {
    elapsed(now, e.direction_timer) >= e.direction_change_delay
}

/// Whether the enemy is due for a new direction.
pub fn is_reroll_due(e: Enemy, now: u64) -> (b: bool)
    ensures
        b == reroll_due(e, now),
{
    crate::resources::elapsed_micros(now, e.direction_timer) >= e.direction_change_delay
}

/// An enemy and its velocity after a due re-roll with the given roll: the
/// direction follows the roll, the speed stays, and the timer restarts at `now`.
pub open spec fn rerolled(e: Enemy, v: Velocity, now: u64, roll: int) -> (Enemy, Velocity) {
    (
        Enemy { direction_timer: now, direction_change_delay: e.direction_change_delay },
        Velocity { speed: v.speed, direction: direction_from_roll(roll, v.direction) },
    )
}

/// Applies a re-roll to an enemy that is due for one.
pub fn reroll(e: Enemy, v: Velocity, now: u64, roll: u32) -> (r: (Enemy, Velocity))
    requires
        1 <= roll <= 100,
    ensures
        r == rerolled(e, v, now, roll as int),
{
    (
        Enemy { direction_timer: now, direction_change_delay: e.direction_change_delay },
        Velocity { speed: v.speed, direction: choose_direction(roll, v.direction) },
    )
}

/// Before its delay has elapsed an enemy is not due, so its direction stays. Once a
/// re-roll happens the timer restarts, so the next one is not due before a full
/// delay has passed again.
pub proof fn lemma_reroll_cadence(e: Enemy, v: Velocity, now: u64, roll: int, later: u64)
    ensures
        elapsed(now, e.direction_timer) < e.direction_change_delay ==> !reroll_due(e, now),
        now <= later < now + e.direction_change_delay ==> !reroll_due(
            rerolled(e, v, now, roll).0,
            later,
        ),
        later >= now + e.direction_change_delay ==> reroll_due(rerolled(e, v, now, roll).0, later),
        rerolled(e, v, now, roll).1.speed == v.speed,
{
}

} // verus!
