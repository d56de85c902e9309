//! Display colours of blocks.

use vstd::prelude::*;

verus! {

/// A display colour, eight bits per channel.  The rules never look at it;
/// it travels with a block for whoever draws the board.
#[derive(Clone, Copy, Debug, PartialEq, Eq, Structural)]
pub struct Color {
    pub r: u8,
    pub g: u8,
    pub b: u8,
    pub a: u8,
}

impl Color {
    /// The colour that `rgba` names.
    pub open spec fn of(rgba: (u8, u8, u8, u8)) -> Color {
        Color { r: rgba.0, g: rgba.1, b: rgba.2, a: rgba.3 }
    }

    /// The colour with the channels `rgba`: red, green, blue, alpha.
    pub fn new(rgba: (u8, u8, u8, u8)) -> (c: Self)
        ensures
            c == Color::of(rgba),
    {
        Color { r: rgba.0, g: rgba.1, b: rgba.2, a: rgba.3 }
    }
}

} // verus!
