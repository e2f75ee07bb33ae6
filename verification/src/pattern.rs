//! Two-colored patterns.
//!
//! Each pattern of this library cuts space into numbered cells and colors the even cells
//! with its first color and the odd cells with its second. Which cell a point
//! falls in is the caller's to compute: for stripes the floor of x, for rings
//! the floor of x*x + z*z, for checkers the sum of the floors of x, y and z,
//! each cut to the range of `i32`.

use crate::color::Color;
use vstd::prelude::*;

verus! {

/// The color of cell `cell` where even cells have `c1` and odd ones `c2`.
pub open spec fn cell_color(c1: Color, c2: Color, cell: i32) -> Color {
    if cell % 2 == 0 {
        c1
    } else {
        c2
    }
}

fn pick(c1: Color, c2: Color, cell: i32) -> (c: Color)
    ensures
        c == cell_color(c1, c2, cell),
{
    if cell % 2 == 0 {
        c1
    } else {
        c2
    }
}

/// Bands across the x axis.
#[derive(Clone, Copy, Debug, PartialEq, Eq, Structural)]
pub struct StripedPattern {
    pub c1: Color,
    pub c2: Color,
}

impl StripedPattern {
    pub fn new(c1: Color, c2: Color) -> (p: StripedPattern)
        ensures
            p == (StripedPattern { c1, c2 }),
    {
        StripedPattern { c1, c2 }
    }

    pub fn get_color(&self, cell: i32) -> (c: Color)
        ensures
            c == cell_color(self.c1, self.c2, cell),
    {
        pick(self.c1, self.c2, cell)
    }
}

/// Rings around the y axis.
#[derive(Clone, Copy, Debug, PartialEq, Eq, Structural)]
pub struct RingPattern {
    pub c1: Color,
    pub c2: Color,
}

impl RingPattern {
    pub fn new(c1: Color, c2: Color) -> (p: RingPattern)
        ensures
            p == (RingPattern { c1, c2 }),
    {
        RingPattern { c1, c2 }
    }

    pub fn get_color(&self, cell: i32) -> (c: Color)
        ensures
            c == cell_color(self.c1, self.c2, cell),
    {
        pick(self.c1, self.c2, cell)
    }
}

/// Cubes of alternating color.
#[derive(Clone, Copy, Debug, PartialEq, Eq, Structural)]
pub struct CheckersPattern {
    pub c1: Color,
    pub c2: Color,
}

impl CheckersPattern {
    pub fn new(c1: Color, c2: Color) -> (p: CheckersPattern)
        ensures
            p == (CheckersPattern { c1, c2 }),
    {
        CheckersPattern { c1, c2 }
    }

    pub fn get_color(&self, cell: i32) -> (c: Color)
        ensures
            c == cell_color(self.c1, self.c2, cell),
    {
        pick(self.c1, self.c2, cell)
    }
}

/// A pattern: one of the three that this library knows, or one of the
/// caller's own.
#[derive(Clone, Copy, Debug, PartialEq, Eq, Structural)]
pub enum Pattern {
    Striped(StripedPattern),
    Ring(RingPattern),
    Checkers(CheckersPattern),
    /// A pattern of the caller's own, known by the number the caller gave
    /// it: what color it has at a point is the caller's to say.
    Own(usize),
}

impl Pattern {
    /// The two colors of a pattern of this library, first and second; a
    /// pattern of the caller's own has none that the library knows of.
    pub open spec fn colors(self) -> Option<(Color, Color)> {
        match self {
            Pattern::Striped(p) => Some((p.c1, p.c2)),
            Pattern::Ring(p) => Some((p.c1, p.c2)),
            Pattern::Checkers(p) => Some((p.c1, p.c2)),
            Pattern::Own(_) => None,
        }
    }

    /// The color of the pattern in cell `cell`, where the library knows it.
    pub open spec fn color_in(self, cell: i32) -> Option<Color> {
        match self.colors() {
            Some(pair) => Some(cell_color(pair.0, pair.1, cell)),
            None => None,
        }
    }

    /// The color in cell `cell` of a pattern of this library; `None` for a
    /// pattern of the caller's own.
    pub fn get_color(&self, cell: i32) -> (c: Option<Color>)
        ensures
            c == self.color_in(cell),
    {
        match self {
            Pattern::Striped(p) => Some(p.get_color(cell)),
            Pattern::Ring(p) => Some(p.get_color(cell)),
            Pattern::Checkers(p) => Some(p.get_color(cell)),
            Pattern::Own(_) => None,
        }
    }
}

} // verus!
