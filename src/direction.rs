use vstd::prelude::*;

use crate::geometry::Point;

verus! {

/// A cardinal direction of motion.
#[derive(Debug, Clone, Copy, PartialEq, Eq, Structural)]
pub enum Direction {
    Up,
    Down,
    Left,
    Right,
}

impl Direction {
    /// Horizontal component of the unit vector of this direction (world coordinates,
    /// y grows downwards).
    pub open spec fn unit_x(self) -> int {
        match self {
            Direction::Left => -1,
            Direction::Right => 1,
            _ => 0,
        }
    }

    /// Vertical component of the unit vector of this direction.
    pub open spec fn unit_y(self) -> int {
        match self {
            Direction::Up => -1,
            Direction::Down => 1,
            _ => 0,
        }
    }

    /// Returns a point that represents this direction in world coordinates.
    pub fn into_point(self) -> (p: Point)
        ensures
            p.x as int == self.unit_x(),
            p.y as int == self.unit_y(),
    {
        match self {
            Direction::Up => Point::new(0, -1),
            Direction::Down => Point::new(0, 1),
            Direction::Left => Point::new(-1, 0),
            Direction::Right => Point::new(1, 0),
        }
    }
}

} // verus!
