//! Entity components (position, appearance, player tag) and the draw
//! command emitted toward the rendering sink.

use vstd::prelude::*;

verus! {

/// A 4-channel color; byte channels keep every value inside the
/// normalized range by construction.
#[derive(Clone, Copy, PartialEq, Eq, Structural, Debug)]
pub struct ColorRgba {
    pub r: u8,
    pub g: u8,
    pub b: u8,
    pub a: u8,
}

/// Integer cell coordinates of an entity; mutated by the movement system
/// only.
#[derive(Clone, Copy, PartialEq, Eq, Structural, Debug)]
pub struct Position {
    pub x: i32,
    pub y: i32,
}

/// How an entity is drawn: glyph index plus foreground and background
/// colors.
#[derive(Clone, Copy, PartialEq, Eq, Structural, Debug)]
pub struct Renderable {
    pub glyph: u16,
    pub fg: ColorRgba,
    pub bg: ColorRgba,
}

/// Zero-data marker tagging the controllable entity.
#[derive(Clone, Copy, PartialEq, Eq, Structural, Debug)]
pub struct Player {}

/// One cell-set instruction for the rendering sink: draw `glyph` at
/// `(x, y)` with the given colors.
#[derive(Clone, Copy, PartialEq, Eq, Structural, Debug)]
pub struct DrawCommand {
    pub x: i32,
    pub y: i32,
    pub glyph: u16,
    pub fg: ColorRgba,
    pub bg: ColorRgba,
}

} // verus!
