//! Shared value types: the fixed-point unit, integer vectors, facing
//! directions and the stacking rule for items.

use vstd::prelude::*;
use crate::item::Item;

verus! {

/// Milli-units per world unit. One block is exactly `UNIT` milli-units wide;
/// positions, velocities and sizes are whole numbers of milli-units.
pub const UNIT: i64 = 1000;

/// A pair of integer block coordinates (whole world cells).
#[derive(Clone, Copy, Debug, PartialEq, Eq, Structural)]
pub struct IVec2 {
    pub x: i64,
    pub y: i64,
}

impl IVec2 {
    pub fn new(x: i64, y: i64) -> (v: IVec2)
        ensures
            v.x == x,
            v.y == y,
    {
        IVec2 { x, y }
    }
}

/// A pair of fixed-point world coordinates, in milli-units.
#[derive(Clone, Copy, Debug, PartialEq, Eq, Structural)]
pub struct Vec2 {
    pub x: i64,
    pub y: i64,
}

impl Vec2 {
    pub fn new(x: i64, y: i64) -> (v: Vec2)
        ensures
            v.x == x,
            v.y == y,
    {
        Vec2 { x, y }
    }

    pub fn zero() -> (v: Vec2)
        ensures
            v.x == 0,
            v.y == 0,
    {
        Vec2 { x: 0, y: 0 }
    }
}

/// An RGB display colour.
#[derive(Clone, Copy, Debug, PartialEq, Eq, Structural)]
pub struct Color {
    pub r: u8,
    pub g: u8,
    pub b: u8,
}

impl Color {
    pub fn new(r: u8, g: u8, b: u8) -> (c: Color)
        ensures
            c == (Color { r, g, b }),
    {
        Color { r, g, b }
    }
}

/// The direction an actor is facing, or `Neutral` when it has no target.
#[derive(Clone, Copy, Debug, PartialEq, Eq, Structural)]
pub enum Direction {
    Up,
    Down,
    Left,
    Right,
    Neutral,
}

/// Two item stacks may merge exactly when identifier, rarity and variant
/// payload all agree.
pub open spec fn spec_can_stack(a: Item, b: Item) -> bool {
    a.name == b.name && a.rarity == b.rarity && a.props == b.props
}

pub fn can_stack(a: &Item, b: &Item) -> (r: bool)
    ensures
        r == spec_can_stack(*a, *b),
{
    a.name == b.name && a.rarity == b.rarity && a.props == b.props
}

} // verus!
