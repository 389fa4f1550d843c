use vstd::prelude::*;

use crate::components::{Player, Velocity};
use crate::resources::KeyboardEvent;

verus! {

/// The velocity of a player after this frame's input intent: moving sets the
/// player's movement speed and the direction; stopping sets the speed to 0 and
/// keeps the direction; no intent changes nothing.
pub open spec fn steered(event: Option<KeyboardEvent>, player: Player, v: Velocity) -> Velocity {
    match event {
        Some(KeyboardEvent::MoveInDirection(d)) => Velocity {
            speed: player.movement_speed,
            direction: d,
        },
        Some(KeyboardEvent::Stop) => Velocity { speed: 0, direction: v.direction },
        None => v,
    }
}

/// Applies the input intent to the velocity of one player.
pub fn steer(event: Option<KeyboardEvent>, player: Player, v: Velocity) -> (r: Velocity)
    ensures
        r == steered(event, player, v),
{
    match event {
        Some(KeyboardEvent::MoveInDirection(d)) => Velocity { speed: player.movement_speed, direction: d },
        Some(KeyboardEvent::Stop) => Velocity { speed: 0, direction: v.direction },
        None => v,
    }
}

/// Stopping twice is stopping once: speed 0, direction as before the first stop.
pub proof fn lemma_stop_idempotent(player: Player, v: Velocity)
    ensures
        steered(Some(KeyboardEvent::Stop), player, v) == (Velocity { speed: 0, direction: v.direction }),
        steered(Some(KeyboardEvent::Stop), player, steered(Some(KeyboardEvent::Stop), player, v))
            == steered(Some(KeyboardEvent::Stop), player, v),
{
}

} // verus!
