//! Cursors that track the rendering position: horizontally within a line and
//! vertically across the lines of a box.
use vstd::prelude::*;
use crate::geometry::{LineHeight, Point, Rectangle};

verus! {

/// Tracks the position within one line.
#[derive(Clone, Copy, Debug, PartialEq, Eq, Structural)]
pub struct LineCursor {
    /// Where the line starts on the drawing surface.
    pub start: Point,
    /// The width of the line.
    pub width: u32,
    /// The distance from the start of the line.
    pub position: u32,
    /// The distance between two tab stops.
    pub tab_width: u32,
}

impl LineCursor {
    /// The position never leaves the line.
    pub open spec fn wf(self) -> bool {
        self.position <= self.width
    }

    /// The room left in the line.
    pub open spec fn space_spec(self) -> int {
        self.width - self.position
    }

    /// The distance to the next tab stop, which is never zero.
    pub open spec fn tab_distance(self) -> int {
        self.tab_width - (self.position as int) % (self.tab_width as int)
    }

    /// Creates a cursor at the start of a line that starts at the origin.
    pub fn new(width: u32, tab_width: u32) -> (r: LineCursor)
        ensures
            r == (LineCursor { start: Point { x: 0, y: 0 }, width, position: 0, tab_width }),
            r.wf(),
    {
        LineCursor { start: Point::zero(), width, tab_width, position: 0 }
    }

    /// The cursor's place on the drawing surface.
    pub fn pos(&self) -> (r: Point)
        requires
            self.start.x + self.position <= i32::MAX,
        ensures
            r == (Point { x: (self.start.x + self.position) as i32, y: self.start.y }),
    {
        Point { x: (self.start.x as i64 + self.position as i64) as i32, y: self.start.y }
    }

    /// Returns the distance to the next tab position.
    pub fn next_tab_width(&self) -> (r: u32)
        requires
            self.tab_width > 0,
        ensures
            r == self.tab_distance(),
            0 < r <= self.tab_width,
            (self.position + r) % (self.tab_width as int) == 0,
    {
        proof {
            let p = self.position as int;
            let t = self.tab_width as int;
            assert(0 <= p % t < t) by (nonlinear_arith)
                requires t > 0;
            assert((p + (t - p % t)) % t == 0) by (nonlinear_arith)
                requires t > 0;
        }
        self.tab_width - self.position % self.tab_width
    }

    /// Returns the width of the line.
    pub fn line_width(&self) -> (r: u32)
        ensures
            r == self.width,
    {
        self.width
    }

    /// Moves the cursor back to the start of the line.
    pub fn carriage_return(&mut self)
        ensures
            *final(self) == (LineCursor { position: 0, ..*old(self) }),
    {
        self.position = 0;
    }

    /// Returns whether the line has room for an object of the given width.
    pub fn fits_in_line(&self, width: u32) -> (r: bool)
        requires
            self.wf(),
        ensures
            r == (width <= self.space_spec()),
    {
        width <= self.space()
    }

    /// Returns the room left in the line.
    pub fn space(&self) -> (r: u32)
        requires
            self.wf(),
        ensures
            r == self.space_spec(),
    {
        self.width - self.position
    }

    /// Moves the cursor forward if the line has room for `by`; reports whether it did.
    pub fn advance(&mut self, by: u64) -> (r: bool)
        requires
            old(self).wf(),
        ensures
            r == (by <= old(self).space_spec()),
            r ==> *final(self) == (LineCursor { position: (old(self).position + by) as u32, ..*old(self) }),
            !r ==> *final(self) == *old(self),
            final(self).wf(),
    {
        if by <= self.space() as u64 {
            self.position = self.position + by as u32;
            true
        } else {
            false
        }
    }

    /// Moves the cursor forward by an amount already known to fit.
    pub fn advance_unchecked(&mut self, by: u32)
        requires
            old(self).wf(),
            by <= old(self).space_spec(),
        ensures
            *final(self) == (LineCursor { position: (old(self).position + by) as u32, ..*old(self) }),
            final(self).wf(),
    {
        self.position = self.position + by;
    }

    /// Moves the cursor back if it is at least `by` from the start; reports whether it did.
    pub fn rewind(&mut self, by: u64) -> (r: bool)
        requires
            old(self).wf(),
        ensures
            r == (by <= old(self).position),
            r ==> *final(self) == (LineCursor { position: (old(self).position - by) as u32, ..*old(self) }),
            !r ==> *final(self) == *old(self),
            final(self).wf(),
    {
        if by <= self.position as u64 {
            self.position = self.position - by as u32;
            true
        } else {
            false
        }
    }

    /// Moves the cursor by a signed amount. `Ok(by)` when the whole move stays
    /// in the line; else the cursor stays and `Err` holds the largest move
    /// possible in that direction.
    pub fn move_cursor(&mut self, by: i32) -> (r: Result<i32, i32>)
        requires
            old(self).wf(),
            old(self).width <= i32::MAX,
        ensures
            final(self).wf(),
            by < 0 && -by <= old(self).position ==> r == Ok::<i32, i32>(by)
                && *final(self) == (LineCursor { position: (old(self).position + by) as u32, ..*old(self) }),
            by < 0 && -by > old(self).position ==> r == Err::<i32, i32>((-old(self).position) as i32)
                && *final(self) == *old(self),
            by >= 0 && by <= old(self).space_spec() ==> r == Ok::<i32, i32>(by)
                && *final(self) == (LineCursor { position: (old(self).position + by) as u32, ..*old(self) }),
            by >= 0 && by > old(self).space_spec() ==> r == Err::<i32, i32>(old(self).space_spec() as i32)
                && *final(self) == *old(self),
    {
        if by < 0 {
            let abs: i64 = -(by as i64);
            if abs <= self.position as i64 {
                self.position = self.position - abs as u32;
                Ok(by)
            } else {
                Err(-(self.position as i32))
            }
        } else {
            let space = self.space() as i32;
            if by <= space {
                self.position = self.position + by as u32;
                Ok(by)
            } else {
                Err(space)
            }
        }
    }
}

/// Tracks the vertical position of the current line within a box.
#[derive(Clone, Copy, Debug, PartialEq, Eq, Structural)]
pub struct Cursor {
    /// The top of the current line.
    pub y: i32,
    /// The box.
    pub bounds: Rectangle,
    /// The height of a line of glyphs.
    pub line_height: i32,
    /// The distance from the top of one line to the top of the next.
    pub line_spacing: i32,
    /// The distance between two tab stops.
    pub tab_width: u32,
}

/// `v` clamped to what an `i32` can hold; `v` is never negative here.
pub open spec fn clamp_to_i32(v: int) -> i32 {
    if v > i32::MAX {
        i32::MAX
    } else {
        v as i32
    }
}

impl Cursor {
    /// Creates a cursor at the top of the given box.
    pub fn new(bounds: Rectangle, base_line_height: u32, line_height: LineHeight, tab_width: u32) -> (r: Cursor)
        requires
            line_height.in_range(base_line_height),
        ensures
            r == (Cursor {
                y: bounds.top_left.y,
                bounds,
                line_height: clamp_to_i32(base_line_height as int),
                line_spacing: clamp_to_i32(line_height.absolute(base_line_height)),
                tab_width,
            }),
    {
        let spacing = line_height.to_absolute(base_line_height);
        Cursor {
            y: bounds.top_left.y,
            line_height: if base_line_height > i32::MAX as u32 { i32::MAX } else { base_line_height as i32 },
            line_spacing: if spacing > i32::MAX as u32 { i32::MAX } else { spacing as i32 },
            bounds,
            tab_width,
        }
    }

    /// A cursor for the current line, at its start.
    pub fn line(&self) -> (r: LineCursor)
        ensures
            r == (LineCursor {
                start: Point { x: self.bounds.top_left.x, y: self.y },
                width: self.bounds.size.width,
                position: 0,
                tab_width: self.tab_width,
            }),
            r.wf(),
    {
        LineCursor {
            start: Point::new(self.bounds.top_left.x, self.y),
            width: self.bounds.size.width,
            position: 0,
            tab_width: self.tab_width,
        }
    }

    /// The box's last pixel, or its top left corner for an empty box.
    pub open spec fn bottom_right_spec(self) -> Point {
        match self.bounds.bottom_right_spec() {
            Some(p) => p,
            None => self.bounds.top_left,
        }
    }

    /// Returns the coordinates of the bottom right corner.
    pub fn bottom_right(&self) -> (r: Point)
        requires
            self.bounds.corner_in_range(),
        ensures
            r == self.bottom_right_spec(),
    {
        match self.bounds.bottom_right() {
            Some(p) => p,
            None => self.bounds.top_left,
        }
    }

    /// Returns the coordinates of the top left corner.
    pub fn top_left(&self) -> (r: Point)
        ensures
            r == self.bounds.top_left,
    {
        self.bounds.top_left
    }

    /// Returns the width of the box.
    pub fn line_width(&self) -> (r: u32)
        ensures
            r == self.bounds.size.width,
    {
        self.bounds.size.width
    }

    /// Returns the height of a line.
    pub fn line_height(&self) -> (r: i32)
        ensures
            r == self.line_height,
    {
        self.line_height
    }

    /// The top of the next line, held at `i32::MAX`.
    pub open spec fn next_line_y(self) -> i32 {
        if self.y + self.line_spacing > i32::MAX {
            i32::MAX
        } else if self.y + self.line_spacing < i32::MIN {
            i32::MIN
        } else {
            (self.y + self.line_spacing) as i32
        }
    }

    /// Starts a new line.
    pub fn new_line(&mut self)
        ensures
            *final(self) == (Cursor { y: old(self).next_line_y(), ..*old(self) }),
    {
        let next: i64 = self.y as i64 + self.line_spacing as i64;
        self.y = if next > i32::MAX as i64 {
            i32::MAX
        } else if next < i32::MIN as i64 {
            i32::MIN
        } else {
            next as i32
        };
    }

    /// Whether a whole line starting at the cursor fits in the box vertically.
    pub open spec fn in_display_area_spec(self) -> bool {
        self.bounds.top_left.y <= self.y <= self.bottom_right_spec().y - self.line_height + 1
    }

    /// Returns whether the line marked by the cursor can be drawn without
    /// vertical clipping. Only vertical overrun is checked.
    pub fn in_display_area(&self) -> (r: bool)
        requires
            self.bounds.corner_in_range(),
        ensures
            r == self.in_display_area_spec(),
    {
        let bottom = self.bottom_right().y as i64 - self.line_height as i64 + 1;
        self.bounds.top_left.y <= self.y && self.y as i64 <= bottom
    }
}

} // verus!
