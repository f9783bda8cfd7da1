//! # Screen
//!
//! Positions on the screen, moved by other positions or by offsets.

use vstd::prelude::*;

use crate::tui::base::{spec_u16_minus, spec_u16_plus};

pub use crate::tui::base::{darken_rgb, hash_color_to_rgb, Rgb, TextStyle};

verus! {

/// Position on the Screen.
#[derive(Debug, Copy, Clone, Eq, PartialEq, Hash, Structural)]
pub struct Pos {
    pub x: u16,
    pub y: u16,
}

impl Pos {
    /// Both coordinates added (not beyond the largest `u16`).
    pub fn plus(self, other: Pos) -> (sum: Self)
        ensures
            sum == (Pos { x: spec_u16_plus(self.x, other.x), y: spec_u16_plus(self.y, other.y) }),
    {
        Self { x: self.x.saturating_add(other.x), y: self.y.saturating_add(other.y) }
    }

    /// The position moved by an offset (not beyond the largest `u16`).
    pub fn plus_offset(self, offset: (u16, u16)) -> (sum: Self)
        ensures
            sum == (Pos { x: spec_u16_plus(self.x, offset.0), y: spec_u16_plus(self.y, offset.1) }),
    {
        Self { x: self.x.saturating_add(offset.0), y: self.y.saturating_add(offset.1) }
    }

    /// Both coordinates subtracted (not below 0).
    pub fn minus(self, other: Pos) -> (difference: Self)
        ensures
            difference == (Pos { x: spec_u16_minus(self.x, other.x), y: spec_u16_minus(self.y, other.y) }),
    {
        Self { x: self.x.saturating_sub(other.x), y: self.y.saturating_sub(other.y) }
    }

    /// The position moved back by an offset (not below 0).
    pub fn minus_offset(self, offset: (u16, u16)) -> (difference: Self)
        ensures
            difference == (Pos { x: spec_u16_minus(self.x, offset.0), y: spec_u16_minus(self.y, offset.1) }),
    {
        Self { x: self.x.saturating_sub(offset.0), y: self.y.saturating_sub(offset.1) }
    }

    /// The position as a tuple.
    pub fn to_tuple(self) -> (position: (u16, u16))
        ensures
            position == (self.x, self.y),
    {
        (self.x, self.y)
    }
}

impl From<(u16, u16)> for Pos {
    /// Create a new Screen Position from a tuple.
    fn from(position: (u16, u16)) -> (screen_position: Self) {
        Self { x: position.0, y: position.1 }
    }
}

impl vstd::std_specs::convert::FromSpecImpl<(u16, u16)> for Pos {
    open spec fn obeys_from_spec() -> bool {
        true
    }

    open spec fn from_spec(position: (u16, u16)) -> Pos {
        Pos { x: position.0, y: position.1 }
    }
}

} // verus!
