//! # TUI Basics
//!
//! Positions on the screen, text styles and colours.

use vstd::prelude::*;

verus! {

/// A colour of red, green and blue parts.
#[derive(Debug, PartialEq, Eq, Clone, Copy, Hash, Structural)]
pub struct Rgb(pub u8, pub u8, pub u8);

/// Transform a colour given as `#0066ff` to an Rgb(0, 102, 255) type: red is the third byte
/// from the end, green the second, blue the last.
pub fn hash_color_to_rgb(color_hash: u32) -> (colour: Rgb)
    ensures
        colour == Rgb(((color_hash >> 16u32) % 256) as u8, ((color_hash >> 8u32) % 256) as u8, (color_hash % 256) as u8),
{
    let r: u8 = ((color_hash >> 16) % 256) as u8;
    let g: u8 = ((color_hash >> 8) % 256) as u8;
    let b: u8 = (color_hash % 256) as u8;
    Rgb(r, g, b)
}

/// `value - darker_value`, but not below 0.
pub open spec fn spec_darker(value: u8, darker_value: u8) -> u8 {
    if value >= darker_value {
        (value - darker_value) as u8
    } else {
        0
    }
}

/// Darken a colour value.
/// Decreasing all fields value with the same amount.
pub fn darken_rgb(colour: Rgb, darker_value: u8) -> (darker: Rgb)
    ensures
        darker == Rgb(
            spec_darker(colour.0, darker_value),
            spec_darker(colour.1, darker_value),
            spec_darker(colour.2, darker_value),
        ),
{
    let Rgb(r, g, b) = colour;
    let r1 = r.saturating_sub(darker_value);
    let g1: u8 = g.saturating_sub(darker_value);
    let b1: u8 = b.saturating_sub(darker_value);
    Rgb(r1, g1, b1)
}

/// `value + offset`, but not beyond the largest `u16`.
pub open spec fn spec_u16_plus(value: u16, offset: u16) -> u16 {
    if value + offset <= u16::MAX {
        (value + offset) as u16
    } else {
        u16::MAX
    }
}

/// `value - offset`, but not below 0.
pub open spec fn spec_u16_minus(value: u16, offset: u16) -> u16 {
    if value >= offset {
        (value - offset) as u16
    } else {
        0
    }
}

/// Position on the Screen.
#[derive(Debug, PartialEq, Eq, Clone, Copy, Hash, Structural)]
pub struct ScreenPos {
    pub x: u16,
    pub y: u16,
}

impl ScreenPos {
    pub fn from(position: (u16, u16)) -> (screen_position: Self)
        ensures
            screen_position == (ScreenPos { x: position.0, y: position.1 }),
    {
        Self { x: position.0, y: position.1 }
    }

    pub fn left_by(&self, offset: u16) -> (moved: Self)
        ensures
            moved == (ScreenPos { x: spec_u16_minus(self.x, offset), y: self.y }),
    {
        Self { x: self.x.saturating_sub(offset), y: self.y }
    }

    pub fn left(&self) -> (moved: Self)
        ensures
            moved == (ScreenPos { x: spec_u16_minus(self.x, 1), y: self.y }),
    {
        self.left_by(1)
    }

    pub fn right_by(&self, offset: u16) -> (moved: Self)
        ensures
            moved == (ScreenPos { x: spec_u16_plus(self.x, offset), y: self.y }),
    {
        Self { x: self.x.saturating_add(offset), y: self.y }
    }

    pub fn right(&self) -> (moved: Self)
        ensures
            moved == (ScreenPos { x: spec_u16_plus(self.x, 1), y: self.y }),
    {
        self.right_by(1)
    }

    pub fn up_by(&self, offset: u16) -> (moved: Self)
        ensures
            moved == (ScreenPos { x: self.x, y: spec_u16_minus(self.y, offset) }),
    {
        Self { x: self.x, y: self.y.saturating_sub(offset) }
    }

    pub fn up(&self) -> (moved: Self)
        ensures
            moved == (ScreenPos { x: self.x, y: spec_u16_minus(self.y, 1) }),
    {
        self.up_by(1)
    }

    pub fn down_by(&self, offset: u16) -> (moved: Self)
        ensures
            moved == (ScreenPos { x: self.x, y: spec_u16_plus(self.y, offset) }),
    {
        Self { x: self.x, y: self.y.saturating_add(offset) }
    }

    pub fn down(&self) -> (moved: Self)
        ensures
            moved == (ScreenPos { x: self.x, y: spec_u16_plus(self.y, 1) }),
    {
        self.down_by(1)
    }
}

/// Wrapping TextStyle simulating terminal screen styles.
#[derive(Debug, PartialEq, Clone, Copy, Eq, Structural)]
pub enum TextStyle {
    /// blinking text (not widely supported)
    Blink,
    /// (not widely supported)
    CrossedOut,
    /// framed text (not widely supported)
    Framed,
    /// Bold text.
    Bold,
    /// Inverted colors (negative mode).
    Invert,
    /// Italic text.
    Italic,
    /// Underlined text.
    Underline,
}

} // verus!
