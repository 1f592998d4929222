//! Component value types: the data attached to entities, plus the palette of
//! tint colors that draw commands carry.

use vstd::prelude::*;

verus! {

/// The fixed palette used by tiles and entity renderables.
#[derive(Clone, Copy, Debug, PartialEq, Eq, Structural)]
pub enum Color {
    Black,
    White,
    Red,
    Blue,
    Purple,
}

/// Location of an entity, in whole grid-cell units.
///
/// Coordinates may leave the grid (nothing clamps movement); they are signed.
#[derive(Clone, Copy, Debug, PartialEq, Eq, Structural)]
pub struct Position {
    pub x: i32,
    pub y: i32,
}

/// How an entity is drawn: a glyph to look up in the loaded glyph table and a
/// tint color. An entity whose glyph is absent from the table is silently
/// skipped when drawn.
#[derive(Clone, Copy, Debug, PartialEq, Eq, Structural)]
pub struct Renderable {
    pub glyph: char,
    pub color: Color,
}

/// Hit points of an entity. Valid values keep `0 <= current <= max`.
#[derive(Clone, Copy, Debug, PartialEq, Eq, Structural)]
pub struct Health {
    pub max: i32,
    pub current: i32,
}

impl Health {
    /// The invariant every stored health value satisfies.
    pub open spec fn wf(self) -> bool {
        0 <= self.current <= self.max
    }

    /// A fresh health value at full hit points.
    pub fn new(value: i32) -> (h: Health)
        requires
            value >= 0,
        ensures
            h.max == value,
            h.current == value,
            h.wf(),
    {
        Health { max: value, current: value }
    }
}

} // verus!
