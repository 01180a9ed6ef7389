//! Points, offsets and rectangles in 16-bit display coordinates.

use vstd::prelude::*;

verus! {

/// Largest magnitude of a coordinate of the bounds, of a padding and of a font
/// metric that a layout works with.
pub const COORD_LIMIT: i16 = 4096;

/// Largest magnitude of a coordinate of a cursor that a layout pass starts
/// from. Four times `COORD_LIMIT` and this still fit in 16 bits.
pub const CANVAS_LIMIT: i16 = 16383;

/// Largest magnitude of a coordinate of a position that a layout pass reports:
/// `CANVAS_LIMIT` and twice `COORD_LIMIT`.
pub const REACH_LIMIT: i16 = 24575;

/// `value` is no further from zero than `COORD_LIMIT`.
pub open spec fn within_limit(value: int) -> bool {
    -(COORD_LIMIT as int) <= value <= COORD_LIMIT as int
}

/// Whether `value` is no further from zero than `COORD_LIMIT`.
pub fn is_within_limit(value: i16) -> (yes: bool)
    ensures
        yes == within_limit(value as int),
{
    -COORD_LIMIT <= value && value <= COORD_LIMIT
}

/// Half of `value`, rounded towards zero.
pub open spec fn half_towards_zero(value: int) -> int {
    if value >= 0 {
        value / 2
    } else {
        -((-value) / 2)
    }
}

/// Horizontal placement of content in the room it has.
#[derive(Copy, Clone, Debug, PartialEq, Eq, Structural)]
pub enum Alignment {
    Start,
    Center,
    End,
}

/// A displacement on the display.
#[derive(Copy, Clone, Debug, PartialEq, Eq, Structural)]
pub struct Offset {
    pub x: i16,
    pub y: i16,
}

impl Offset {
    pub fn new(x: i16, y: i16) -> (offset: Self)
        ensures
            offset == (Offset { x, y }),
    {
        Offset { x, y }
    }

    /// A displacement along the horizontal axis only.
    pub fn x(x: i16) -> (offset: Self)
        ensures
            offset == (Offset { x, y: 0 }),
    {
        Offset { x, y: 0 }
    }

    /// A displacement along the vertical axis only.
    pub fn y(y: i16) -> (offset: Self)
        ensures
            offset == (Offset { x: 0, y }),
    {
        Offset { x: 0, y }
    }

}

/// A position on the display.
#[derive(Copy, Clone, Debug, PartialEq, Eq, Structural)]
pub struct Point {
    pub x: i16,
    pub y: i16,
}

impl Point {
    pub fn new(x: i16, y: i16) -> (point: Self)
        ensures
            point == (Point { x, y }),
    {
        Point { x, y }
    }

    /// Both coordinates are no further from zero than `CANVAS_LIMIT`.
    pub open spec fn on_canvas(self) -> bool {
        &&& -(CANVAS_LIMIT as int) <= self.x <= CANVAS_LIMIT as int
        &&& -(CANVAS_LIMIT as int) <= self.y <= CANVAS_LIMIT as int
    }

    /// Whether a layout pass may start from this point.
    pub fn is_on_canvas(&self) -> (yes: bool)
        ensures
            yes == self.on_canvas(),
    {
        -CANVAS_LIMIT <= self.x && self.x <= CANVAS_LIMIT && -CANVAS_LIMIT <= self.y && self.y
            <= CANVAS_LIMIT
    }

    /// Both coordinates are no further from zero than `REACH_LIMIT`.
    pub open spec fn in_reach(self) -> bool {
        &&& -(REACH_LIMIT as int) <= self.x <= REACH_LIMIT as int
        &&& -(REACH_LIMIT as int) <= self.y <= REACH_LIMIT as int
    }

    /// The point displaced by `offset`, where both sums fit in 16 bits.
    pub open spec fn moved(self, offset: Offset) -> Point {
        Point { x: (self.x + offset.x) as i16, y: (self.y + offset.y) as i16 }
    }

    /// The point displaced by `offset`.
    pub fn translate(self, offset: Offset) -> (point: Self)
        requires
            i16::MIN <= self.x + offset.x <= i16::MAX,
            i16::MIN <= self.y + offset.y <= i16::MAX,
        ensures
            point == self.moved(offset),
    {
        Point { x: self.x + offset.x, y: self.y + offset.y }
    }
}

/// A rectangle from its top-left corner `(x0, y0)` to its bottom-right corner
/// `(x1, y1)`.
#[derive(Copy, Clone, Debug, PartialEq, Eq, Structural)]
pub struct Rect {
    pub x0: i16,
    pub y0: i16,
    pub x1: i16,
    pub y1: i16,
}

impl Rect {
    pub fn new(p0: Point, p1: Point) -> (rect: Self)
        ensures
            rect == (Rect { x0: p0.x, y0: p0.y, x1: p1.x, y1: p1.y }),
    {
        Rect { x0: p0.x, y0: p0.y, x1: p1.x, y1: p1.y }
    }

    pub fn zero() -> (rect: Self)
        ensures
            rect == (Rect { x0: 0, y0: 0, x1: 0, y1: 0 }),
    {
        Rect { x0: 0, y0: 0, x1: 0, y1: 0 }
    }

    /// All four coordinates are no further from zero than `COORD_LIMIT`.
    pub open spec fn near(self) -> bool {
        &&& within_limit(self.x0 as int)
        &&& within_limit(self.y0 as int)
        &&& within_limit(self.x1 as int)
        &&& within_limit(self.y1 as int)
    }

    /// Whether all four coordinates are no further from zero than
    /// `COORD_LIMIT`.
    pub fn is_near(&self) -> (yes: bool)
        ensures
            yes == self.near(),
    {
        is_within_limit(self.x0) && is_within_limit(self.y0) && is_within_limit(self.x1)
            && is_within_limit(self.y1)
    }

    /// The point lies in the rectangle: not left of or above its top-left
    /// corner, and left of and above its bottom-right corner.
    pub open spec fn contains_spec(self, point: Point) -> bool {
        self.x0 <= point.x < self.x1 && self.y0 <= point.y < self.y1
    }

    /// Whether the point lies in the rectangle.
    pub fn contains(&self, point: Point) -> (yes: bool)
        ensures
            yes == self.contains_spec(point),
    {
        self.x0 <= point.x && point.x < self.x1 && self.y0 <= point.y && point.y < self.y1
    }

    /// The point in the middle between the two corners, rounded towards the
    /// top-left corner.
    pub open spec fn center_spec(self) -> Point {
        Point {
            x: (self.x0 + half_towards_zero(self.x1 - self.x0)) as i16,
            y: (self.y0 + half_towards_zero(self.y1 - self.y0)) as i16,
        }
    }

    /// The point in the middle between the two corners.
    pub fn center(&self) -> (point: Point)
        ensures
            point == self.center_spec(),
            point.x == self.x0 + half_towards_zero(self.x1 - self.x0),
            point.y == self.y0 + half_towards_zero(self.y1 - self.y0),
    {
        let x = self.x0 as i32 + halve(self.x1 as i32 - self.x0 as i32);
        let y = self.y0 as i32 + halve(self.y1 as i32 - self.y0 as i32);
        Point { x: x as i16, y: y as i16 }
    }

    pub fn top_left(&self) -> (point: Point)
        ensures
            point == (Point { x: self.x0, y: self.y0 }),
    {
        Point { x: self.x0, y: self.y0 }
    }
}

/// Half of `value`, rounded towards zero.
pub fn halve(value: i32) -> (half: i32)
    ensures
        half == half_towards_zero(value as int),
{
    value / 2
}

} // verus!
