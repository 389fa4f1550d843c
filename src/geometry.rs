use vstd::prelude::*;

verus! {

/// A point in world coordinates.
#[derive(Debug, Clone, Copy, PartialEq, Eq, Structural)]
pub struct Point {
    pub x: i32,
    pub y: i32,
}

impl Point {
    pub fn new(x: i32, y: i32) -> (p: Point)
        ensures
            p.x == x,
            p.y == y,
    {
        Point { x, y }
    }
}

/// An axis-aligned rectangle: its top-left corner and its size.
#[derive(Debug, Clone, Copy, PartialEq, Eq, Structural)]
pub struct Rect {
    pub x: i32,
    pub y: i32,
    pub width: u32,
    pub height: u32,
}

/// The x or y coordinate at which a rectangle of size `size` centred on `c` begins.
pub open spec fn centered_start(c: int, size: int) -> int {
    c - size / 2
}

impl Rect {
    /// A rectangle is well formed when it is not empty and its right and bottom
    /// edges are representable.
    pub open spec fn wf(self) -> bool {
        &&& self.width > 0
        &&& self.height > 0
        &&& self.right() <= i32::MAX
        &&& self.bottom() <= i32::MAX
    }

    pub open spec fn left(self) -> int {
        self.x as int
    }

    pub open spec fn right(self) -> int {
        self.x + self.width
    }

    pub open spec fn top(self) -> int {
        self.y as int
    }

    pub open spec fn bottom(self) -> int {
        self.y + self.height
    }

    /// The x coordinate of the centre (rounded towards the top-left).
    pub open spec fn center_x(self) -> int {
        self.x + self.width / 2
    }

    pub open spec fn center_y(self) -> int {
        self.y + self.height / 2
    }

    /// `other` lies inside `self`, edges included.
    pub open spec fn contains_spec(self, other: Rect) -> bool {
        &&& self.left() <= other.left()
        &&& other.right() <= self.right()
        &&& self.top() <= other.top()
        &&& other.bottom() <= self.bottom()
    }

    /// The two rectangles share some area: touching edges do not count, and an
    /// empty rectangle intersects nothing.
    pub open spec fn intersects_spec(self, other: Rect) -> bool {
        &&& self.width > 0
        &&& self.height > 0
        &&& other.width > 0
        &&& other.height > 0
        &&& self.left() < other.right()
        &&& other.left() < self.right()
        &&& self.top() < other.bottom()
        &&& other.top() < self.bottom()
    }

    pub fn new(x: i32, y: i32, width: u32, height: u32) -> (r: Rect)
        ensures
            r == (Rect { x, y, width, height }),
    {
        Rect { x, y, width, height }
    }

    /// The rectangle of the given size centred on `center`.
    pub fn from_center(center: Point, width: u32, height: u32) -> (r: Rect)
        requires
            width > 0,
            height > 0,
            i32::MIN <= centered_start(center.x as int, width as int),
            i32::MIN <= centered_start(center.y as int, height as int),
            centered_start(center.x as int, width as int) + width <= i32::MAX,
            centered_start(center.y as int, height as int) + height <= i32::MAX,
        ensures
            r.x == centered_start(center.x as int, width as int),
            r.y == centered_start(center.y as int, height as int),
            r.width == width,
            r.height == height,
            r.wf(),
            r.center_x() == center.x,
            r.center_y() == center.y,
    {
        let x = (center.x as i64 - (width / 2) as i64) as i32;
        let y = (center.y as i64 - (height / 2) as i64) as i32;
        Rect { x, y, width, height }
    }

    /// The centre of the rectangle.
    pub fn center(&self) -> (p: Point)
        requires
            self.center_x() <= i32::MAX,
            self.center_y() <= i32::MAX,
        ensures
            p.x == self.center_x(),
            p.y == self.center_y(),
    {
        let x = (self.x as i64 + (self.width / 2) as i64) as i32;
        let y = (self.y as i64 + (self.height / 2) as i64) as i32;
        Point { x, y }
    }

    /// Whether `other` lies entirely inside this rectangle (shared edges allowed).
    pub fn contains_rect(&self, other: Rect) -> (b: bool)
        ensures
            b == self.contains_spec(other),
    {
        let sr = self.x as i64 + self.width as i64;
        let sb = self.y as i64 + self.height as i64;
        let or = other.x as i64 + other.width as i64;
        let ob = other.y as i64 + other.height as i64;
        self.x <= other.x && or <= sr && self.y <= other.y && ob <= sb
    }

    /// Whether the two rectangles overlap with a positive area.
    pub fn has_intersection(&self, other: Rect) -> (b: bool)
        ensures
            b == self.intersects_spec(other),
    {
        if self.width == 0 || self.height == 0 || other.width == 0 || other.height == 0 {
            return false;
        }
        let sr = self.x as i64 + self.width as i64;
        let sb = self.y as i64 + self.height as i64;
        let or = other.x as i64 + other.width as i64;
        let ob = other.y as i64 + other.height as i64;
        (self.x as i64) < or && (other.x as i64) < sr && (self.y as i64) < ob && (other.y as i64)
            < sb
    }
}

} // verus!
