use vstd::prelude::*;

verus! {

/// A crab's shell color.
#[derive(Clone, Copy, PartialEq, Eq, Structural, Debug)]
pub enum Color {
    Red,
    Green,
    Blue,
}

/// Position of a color on the palette wheel.
pub open spec fn color_position(c: Color) -> int {
    match c {
        Color::Red => 0,
        Color::Green => 1,
        Color::Blue => 2,
    }
}

/// The color standing at a given position on the palette wheel.
pub open spec fn color_at_position(p: int) -> Color {
    if p == 0 {
        Color::Red
    } else if p == 1 {
        Color::Green
    } else {
        Color::Blue
    }
}

impl Color {
    /// Crossing two colors walks the palette wheel: the offspring's
    /// position is the sum of the parents' positions, wrapped around.
    pub open spec fn spec_cross(a: Color, b: Color) -> Color {
        color_at_position((color_position(a) + color_position(b)) % 3)
    }

    /// Combines the colors of two parents into the offspring's color.
    pub fn cross(a: Color, b: Color) -> (c: Color)
        ensures
            c == Color::spec_cross(a, b),
    {
        let pa: u8 = match a {
            Color::Red => 0,
            Color::Green => 1,
            Color::Blue => 2,
        };
        let pb: u8 = match b {
            Color::Red => 0,
            Color::Green => 1,
            Color::Blue => 2,
        };
        let p: u8 = (pa + pb) % 3;
        if p == 0 {
            Color::Red
        } else if p == 1 {
            Color::Green
        } else {
            Color::Blue
        }
    }
}

} // verus!
