//! Horizontal and vertical alignment policies.
use vstd::prelude::*;
use crate::cursor::Cursor;
use crate::line_iter::SpacePolicy;
use crate::space_config::{JustifiedSpaceConfig, SpaceConfig, UniformSpaceConfig};

verus! {

/// The measured width of a line, and the width of the box it goes in.
#[derive(Clone, Copy, Debug, PartialEq, Eq, Structural)]
pub struct LineMeasurement {
    /// The width of the box.
    pub max_line_width: u32,
    /// The width of the line's content.
    pub width: u32,
}

/// Marks text to be rendered left aligned.
#[derive(Clone, Copy, Debug, PartialEq, Eq, Structural)]
pub struct LeftAligned;

impl LeftAligned {
    /// Left aligned text keeps the spaces at both ends of a line.
    pub fn space_policy(&self) -> (r: SpacePolicy)
        ensures
            r == (SpacePolicy { starting_spaces: true, ending_spaces: true }),
    {
        SpacePolicy { starting_spaces: true, ending_spaces: true }
    }

    /// A left aligned line starts at the left edge, with spaces of the font's width.
    pub fn place_line(&self, measurement: LineMeasurement, space_width: u32) -> (r: (
        u32,
        UniformSpaceConfig,
    ))
        ensures
            r.0 == 0,
            r.1.space_width == space_width,
    {
        (0, UniformSpaceConfig::new(space_width))
    }
}

/// Marks text to be rendered centered.
#[derive(Clone, Copy, Debug, PartialEq, Eq, Structural)]
pub struct CenterAligned;

impl CenterAligned {
    /// Centered text drops the spaces at both ends of a line.
    pub fn space_policy(&self) -> (r: SpacePolicy)
        ensures
            r == (SpacePolicy { starting_spaces: false, ending_spaces: false }),
    {
        SpacePolicy { starting_spaces: false, ending_spaces: false }
    }

    /// A centered line starts half of the free room from the left edge.
    pub fn place_line(&self, measurement: LineMeasurement, space_width: u32) -> (r: (
        u32,
        UniformSpaceConfig,
    ))
        requires
            measurement.width <= measurement.max_line_width,
        ensures
            r.0 == (measurement.max_line_width - measurement.width) / 2,
            r.1.space_width == space_width,
    {
        ((measurement.max_line_width - measurement.width) / 2, UniformSpaceConfig::new(space_width))
    }
}

/// Marks text to be rendered right aligned.
#[derive(Clone, Copy, Debug, PartialEq, Eq, Structural)]
pub struct RightAligned;

impl RightAligned {
    /// Right aligned text drops the spaces at both ends of a line.
    pub fn space_policy(&self) -> (r: SpacePolicy)
        ensures
            r == (SpacePolicy { starting_spaces: false, ending_spaces: false }),
    {
        SpacePolicy { starting_spaces: false, ending_spaces: false }
    }

    /// A line of width `W` in a box of width `B` starts at `B - W`, so that
    /// it ends at the right edge.
    pub fn place_line(&self, measurement: LineMeasurement, space_width: u32) -> (r: (
        u32,
        UniformSpaceConfig,
    ))
        requires
            measurement.width <= measurement.max_line_width,
        ensures
            r.0 == measurement.max_line_width - measurement.width,
            r.0 + measurement.width == measurement.max_line_width,
            r.1.space_width == space_width,
    {
        (measurement.max_line_width - measurement.width, UniformSpaceConfig::new(space_width))
    }
}

/// Marks text to be rendered justified: the spaces of every line but the
/// last of a paragraph widen until the line fills the box.
#[derive(Clone, Copy, Debug, PartialEq, Eq, Structural)]
pub struct Justified;

impl Justified {
    /// Justified text drops the spaces at both ends of a line.
    pub fn space_policy(&self) -> (r: SpacePolicy)
        ensures
            r == (SpacePolicy { starting_spaces: false, ending_spaces: false }),
    {
        SpacePolicy { starting_spaces: false, ending_spaces: false }
    }

    /// A justified line starts at the left edge. Where it wraps and has
    /// spaces, the room it leaves is shared out over them, a pixel more for
    /// the first ones, so that words and spaces together fill the box; the
    /// last line of a paragraph keeps spaces of the font's width.
    /// `measurement.width` counts `space_count` spaces of `space_width`.
    pub fn place_line(
        &self,
        measurement: LineMeasurement,
        space_width: u32,
        space_count: u32,
        wrapped: bool,
    ) -> (r: (u32, JustifiedSpaceConfig))
        requires
            space_count * space_width <= measurement.width <= measurement.max_line_width,
        ensures
            r.0 == 0,
            !wrapped || space_count == 0 ==> r.1 == (JustifiedSpaceConfig {
                space_width,
                extra_pixels: 0,
            }),
            wrapped && space_count > 0 ==> r.1 == (JustifiedSpaceConfig {
                space_width: (space_width + (measurement.max_line_width - measurement.width)
                    / space_count as int) as u32,
                extra_pixels: ((measurement.max_line_width - measurement.width) % space_count as int) as u32,
            }),
            wrapped && space_count > 0 ==> measurement.width - space_count * space_width + r.1.width_of(
                space_count as nat,
            ) == measurement.max_line_width,
    {
        if !wrapped || space_count == 0 {
            return (0, JustifiedSpaceConfig::new(space_width, 0));
        }
        let free = measurement.max_line_width - measurement.width;
        proof {
            let c = space_count as int;
            let f = free as int;
            assert(f == c * (f / c) + f % c) by (nonlinear_arith)
                requires c > 0, f >= 0;
            assert(0 <= f % c < c) by (nonlinear_arith)
                requires c > 0, f >= 0;
            assert(f / c <= f) by (nonlinear_arith)
                requires c > 0, f >= 0;
            assert(space_width <= c * space_width) by (nonlinear_arith)
                requires c > 0;
            assert(c * (space_width + f / c) == c * space_width + c * (f / c)) by (nonlinear_arith);
        }
        let config = JustifiedSpaceConfig::new(space_width + free / space_count, free % space_count);
        (0, config)
    }
}

/// Align text to the top of the box.
#[derive(Clone, Copy, Debug, PartialEq, Eq, Structural)]
pub struct TopAligned;

impl TopAligned {
    /// Text at the top starts where the cursor already is.
    pub fn apply_vertical_alignment(&self, cursor: &mut Cursor)
        ensures
            *final(cursor) == *old(cursor),
    {
    }
}

} // verus!
