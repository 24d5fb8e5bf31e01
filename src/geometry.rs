//! Plain geometric values: points, sizes, rectangles and line heights.
use vstd::prelude::*;

verus! {

/// A point on the drawing surface.
#[derive(Clone, Copy, Debug, PartialEq, Eq, Structural)]
pub struct Point {
    pub x: i32,
    pub y: i32,
}

impl Point {
    pub fn new(x: i32, y: i32) -> (r: Point)
        ensures
            r == (Point { x, y }),
    {
        Point { x, y }
    }

    pub fn zero() -> (r: Point)
        ensures
            r == (Point { x: 0, y: 0 }),
    {
        Point { x: 0, y: 0 }
    }
}

/// A width and a height in pixels.
#[derive(Clone, Copy, Debug, PartialEq, Eq, Structural)]
pub struct Size {
    pub width: u32,
    pub height: u32,
}

impl Size {
    pub fn new(width: u32, height: u32) -> (r: Size)
        ensures
            r == (Size { width, height }),
    {
        Size { width, height }
    }
}

/// An axis aligned rectangle given by its top left corner and its size.
#[derive(Clone, Copy, Debug, PartialEq, Eq, Structural)]
pub struct Rectangle {
    pub top_left: Point,
    pub size: Size,
}

impl Rectangle {
    pub fn new(top_left: Point, size: Size) -> (r: Rectangle)
        ensures
            r == (Rectangle { top_left, size }),
    {
        Rectangle { top_left, size }
    }

    /// The bottom right corner can be computed without leaving `i32`.
    pub open spec fn corner_in_range(self) -> bool {
        &&& self.size.width <= i32::MAX
        &&& self.size.height <= i32::MAX
        &&& self.top_left.x + self.size.width <= i32::MAX
        &&& self.top_left.y + self.size.height <= i32::MAX
    }

    /// The last pixel covered by the rectangle, if it covers any.
    pub open spec fn bottom_right_spec(self) -> Option<Point> {
        if self.size.width > 0 && self.size.height > 0 {
            Some(
                Point {
                    x: (self.top_left.x + self.size.width - 1) as i32,
                    y: (self.top_left.y + self.size.height - 1) as i32,
                },
            )
        } else {
            None
        }
    }

    pub fn bottom_right(&self) -> (r: Option<Point>)
        requires
            self.corner_in_range(),
        ensures
            r == self.bottom_right_spec(),
    {
        graphics_bottom_right(self)
    }
}

/// Relies on embedded_graphics' `Rectangle::bottom_right`: `None` for an empty
/// rectangle, else the top left corner plus the size minus one on each axis.
/// Adding the size casts each side to `i32` (asserted not to wrap) and sums in
/// `i32`; `requires` leaves out the inputs on which either panics.
#[verifier::external_body]
fn graphics_bottom_right(r: &Rectangle) -> (res: Option<Point>)
    requires
        r.corner_in_range(),
    ensures
        res == r.bottom_right_spec(),
{
    let rect = embedded_graphics::primitives::Rectangle::new(
        embedded_graphics::geometry::Point::new(r.top_left.x, r.top_left.y),
        embedded_graphics::geometry::Size::new(r.size.width, r.size.height),
    );
    rect.bottom_right().map(|p| Point { x: p.x, y: p.y })
}

/// The distance between the tops of two consecutive lines.
#[derive(Clone, Copy, Debug, PartialEq, Eq, Structural)]
pub enum LineHeight {
    /// An absolute distance in pixels.
    Pixels(u32),
    /// A percentage of the font's own line height.
    Percent(u32),
}

impl LineHeight {
    /// The absolute distance for a font whose line height is `base`.
    pub open spec fn absolute(self, base: u32) -> int {
        match self {
            LineHeight::Pixels(px) => px as int,
            LineHeight::Percent(p) => base * p / 100,
        }
    }

    /// The intermediate product fits in `u32`.
    pub open spec fn in_range(self, base: u32) -> bool {
        match self {
            LineHeight::Pixels(_) => true,
            LineHeight::Percent(p) => base * p <= u32::MAX,
        }
    }

    pub fn to_absolute(self, base_line_height: u32) -> (r: u32)
        requires
            self.in_range(base_line_height),
        ensures
            r == self.absolute(base_line_height),
    {
        graphics_line_height(self, base_line_height)
    }
}

/// Relies on embedded_graphics' `LineHeight::to_absolute`: pixels are returned
/// as they are, a percentage `p` gives `base * p / 100` (the product panics on
/// overflow, which `requires` leaves out).
#[verifier::external_body]
fn graphics_line_height(h: LineHeight, base: u32) -> (r: u32)
    requires
        h.in_range(base),
    ensures
        r == h.absolute(base),
{
    let outside = match h {
        LineHeight::Pixels(px) => embedded_graphics::text::LineHeight::Pixels(px),
        LineHeight::Percent(p) => embedded_graphics::text::LineHeight::Percent(p),
    };
    outside.to_absolute(base)
}

} // verus!
