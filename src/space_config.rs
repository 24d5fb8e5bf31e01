//! Policies for the width of runs of spaces.
use vstd::prelude::*;

verus! {

/// Gives the width of runs of spaces. A peek predicts exactly what the next
/// consume of the same count commits.
pub trait SpaceConfig: Sized + Copy {
    /// The width of the next `n` spaces.
    spec fn width_of(&self, n: nat) -> nat;

    /// The state after `n` spaces were committed.
    spec fn after(&self, n: nat) -> Self;

    /// Looks at the width of the next `n` spaces, without advancing.
    fn peek_next_width(&self, n: u32) -> (r: u64)
        ensures
            r == self.width_of(n as nat),
    ;

    /// Commits `n` spaces and returns their width.
    fn consume(&mut self, n: u32) -> (r: u64)
        ensures
            r == old(self).width_of(n as nat),
            *final(self) == old(self).after(n as nat),
    ;
}

/// Every space has the same width.
#[derive(Clone, Copy, Debug, PartialEq, Eq, Structural)]
pub struct UniformSpaceConfig {
    /// Space width.
    pub space_width: u32,
}

impl UniformSpaceConfig {
    /// A configuration whose spaces are `space_width` wide.
    pub fn new(space_width: u32) -> (r: UniformSpaceConfig)
        ensures
            r.space_width == space_width,
    {
        UniformSpaceConfig { space_width }
    }
}

impl SpaceConfig for UniformSpaceConfig {
    open spec fn width_of(&self, n: nat) -> nat {
        (n * self.space_width) as nat
    }

    open spec fn after(&self, n: nat) -> Self {
        *self
    }

    fn peek_next_width(&self, n: u32) -> (r: u64) {
        proof {
            let a = n as int;
            let b = self.space_width as int;
            assert(a * b <= u32::MAX * u32::MAX) by (nonlinear_arith)
                requires 0 <= a <= u32::MAX, 0 <= b <= u32::MAX;
        }
        n as u64 * self.space_width as u64
    }

    fn consume(&mut self, n: u32) -> (r: u64) {
        self.peek_next_width(n)
    }
}

/// The smaller of `a` and `b`.
pub open spec fn min_nat(a: nat, b: nat) -> nat {
    if a < b {
        a
    } else {
        b
    }
}

/// The spaces of a justified line: each is `space_width` wide, and the next
/// `extra_pixels` of them are one pixel wider, so that together they take up
/// the room that the line's words leave.
#[derive(Clone, Copy, Debug, PartialEq, Eq, Structural)]
pub struct JustifiedSpaceConfig {
    /// The width that every space has.
    pub space_width: u32,
    /// How many of the next spaces are one pixel wider.
    pub extra_pixels: u32,
}

impl JustifiedSpaceConfig {
    pub fn new(space_width: u32, extra_pixels: u32) -> (r: JustifiedSpaceConfig)
        ensures
            r == (JustifiedSpaceConfig { space_width, extra_pixels }),
    {
        JustifiedSpaceConfig { space_width, extra_pixels }
    }
}

impl SpaceConfig for JustifiedSpaceConfig {
    open spec fn width_of(&self, n: nat) -> nat {
        (n * self.space_width + min_nat(n, self.extra_pixels as nat)) as nat
    }

    open spec fn after(&self, n: nat) -> Self {
        JustifiedSpaceConfig {
            extra_pixels: (self.extra_pixels - min_nat(n, self.extra_pixels as nat)) as u32,
            ..*self
        }
    }

    fn peek_next_width(&self, n: u32) -> (r: u64) {
        proof {
            let a = n as int;
            let b = self.space_width as int;
            assert(a * b <= u32::MAX * u32::MAX) by (nonlinear_arith)
                requires 0 <= a <= u32::MAX, 0 <= b <= u32::MAX;
        }
        let extra = if n < self.extra_pixels {
            n
        } else {
            self.extra_pixels
        };
        n as u64 * self.space_width as u64 + extra as u64
    }

    fn consume(&mut self, n: u32) -> (r: u64) {
        let w = self.peek_next_width(n);
        let extra = if n < self.extra_pixels {
            n
        } else {
            self.extra_pixels
        };
        self.extra_pixels = self.extra_pixels - extra;
        w
    }
}

} // verus!
