use vstd::prelude::*;

use crate::direction::Direction;
use crate::geometry::Rect;

verus! {

/// The position and dimensions of an entity in world coordinates.
#[derive(Debug, Clone, Copy, PartialEq, Eq, Structural)]
pub struct BoundingBox(pub Rect);

/// Allows an entity to move with the given speed (pixels per second) in the
/// given direction. The direction is kept while the speed is 0 (facing).
#[derive(Debug, Clone, Copy, PartialEq, Eq, Structural)]
pub struct Velocity {
    pub speed: i32,
    pub direction: Direction,
}

/// The sprite to render for an entity: a texture and a region of it.
#[derive(Debug, Clone, Copy, PartialEq, Eq, Structural)]
pub struct Sprite {
    /// Index into the texture list owned by the renderer
    pub texture_id: usize,
    /// The region of the spritesheet to copy
    pub region: Rect,
}

/// A handle to an immutable clip (a sequence of frames) kept by the world.
/// Two animations play the same clip exactly when their handles are equal.
#[derive(Debug, Clone, Copy, PartialEq, Eq, Structural)]
pub struct ClipId(pub usize);

/// One frame of a clip.
#[derive(Debug, Clone, Copy, PartialEq, Eq, Structural)]
pub struct Frame {
    /// The sprite to render for this frame
    pub sprite: Sprite,
    /// How long the frame stays, in microseconds
    pub duration: u64,
}

/// A clip being played on an entity.
#[derive(Debug, Clone, Copy, PartialEq, Eq, Structural)]
pub struct Animation {
    /// The frames of the animation
    pub frames: ClipId,
    /// The index of the current frame in the clip
    pub current_frame: usize,
    /// The world clock reading (microseconds) at which the current frame began
    pub frame_timer: u64,
}

/// The clip to play for each direction of motion.
#[derive(Debug, Clone, Copy, PartialEq, Eq, Structural)]
pub struct MovementAnimations {
    pub walking_up: Animation,
    pub walking_down: Animation,
    pub walking_left: Animation,
    pub walking_right: Animation,
}

/// Marks an entity as the keyboard controlled player.
#[derive(Debug, Clone, Copy, PartialEq, Eq, Structural)]
pub struct Player {
    /// The speed of the player when they are moving
    pub movement_speed: i32,
}

/// Marks an entity as an enemy: touching it loses the game. Enemies change
/// direction at random every so often.
#[derive(Debug, Clone, Copy, PartialEq, Eq, Structural)]
pub struct Enemy {
    /// The world clock reading (microseconds) at the last change of direction
    pub direction_timer: u64,
    /// The time to wait between direction changes, in microseconds
    pub direction_change_delay: u64,
}

/// Marks an entity as the goal: reaching it wins the game.
#[derive(Debug, Clone, Copy, PartialEq, Eq, Structural)]
pub struct Goal;

impl MovementAnimations {
    /// The animation for the given direction.
    pub open spec fn for_direction(self, d: Direction) -> Animation {
        match d {
            Direction::Up => self.walking_up,
            Direction::Down => self.walking_down,
            Direction::Left => self.walking_left,
            Direction::Right => self.walking_right,
        }
    }

    /// The four directions play four different clips.
    pub open spec fn distinct_clips(self) -> bool {
        forall|a: Direction, b: Direction|
            a != b ==> #[trigger] self.for_direction(a).frames != #[trigger] self.for_direction(
                b,
            ).frames
    }

    pub fn animation_for(&self, d: Direction) -> (a: Animation)
        ensures
            a == self.for_direction(d),
    {
        match d {
            Direction::Up => self.walking_up,
            Direction::Down => self.walking_down,
            Direction::Left => self.walking_left,
            Direction::Right => self.walking_right,
        }
    }
}

} // verus!
