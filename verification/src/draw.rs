//! Abstract drawing commands.
//!
//! The core never touches a real window: it describes what to render as a
//! sequence of commands over grid cells, and the rendering collaborator turns
//! each command into pixels with whatever colors it assigns to each role.

use vstd::prelude::*;

verus! {

/// The role a drawn shape plays; the renderer maps each role to a color.
#[derive(Clone, Copy, PartialEq, Eq, Structural, Debug)]
pub enum DrawColor {
    Snake,
    Food,
    Border,
    GameOver,
}

/// One shape to render, in grid-cell units.
#[derive(Clone, Copy, PartialEq, Eq, Structural, Debug)]
pub enum DrawCommand {
    /// Fill the single grid cell at (x, y).
    Block { color: DrawColor, x: i32, y: i32 },
    /// Fill the axis-aligned rectangle of `w` by `h` cells whose corner is (x, y).
    Rect { color: DrawColor, x: i32, y: i32, w: i32, h: i32 },
}

} // verus!
