//! Spatial primitives: integer grid positions, fixed-point plane vectors,
//! and squared euclidean distance in the ground plane.

use vstd::prelude::*;

verus! {

/// Coordinates this library does arithmetic on stay within this bound,
/// so that offsets computed by the formation and combat rules never
/// leave `i32`.
pub const COORD_LIMIT: i32 = 1_000_000_000;

/// Whether a cell's plane coordinates are within the bound the library
/// does arithmetic on.
pub open spec fn center_ok(c: Position) -> bool {
    -COORD_LIMIT <= c.x <= COORD_LIMIT && -COORD_LIMIT <= c.y <= COORD_LIMIT
}

/// An integer grid cell. `z` is a layering / elevation value that is not
/// simulated physically: distances are measured in the `x`-`y` plane.
#[derive(Clone, Copy, PartialEq, Eq, Structural, Debug)]
pub struct Position {
    pub x: i32,
    pub y: i32,
    pub z: i32,
}

/// A plane vector in thousandths of a grid unit, the fixed-point carrier
/// for projectile velocities and relative formation offsets.
#[derive(Clone, Copy, PartialEq, Eq, Structural, Debug)]
pub struct Vec2Milli {
    pub x: i32,
    pub y: i32,
}

impl Vec2Milli {
    pub open spec fn zero_spec() -> Vec2Milli {
        Vec2Milli { x: 0, y: 0 }
    }

    pub fn zero() -> (v: Vec2Milli)
        ensures
            v == Vec2Milli::zero_spec(),
    {
        Vec2Milli { x: 0, y: 0 }
    }
}

/// Squared euclidean distance between two cells in the ground plane.
pub open spec fn dist_sq(a: Position, b: Position) -> int {
    (a.x - b.x) * (a.x - b.x) + (a.y - b.y) * (a.y - b.y)
}

pub broadcast proof fn lemma_dist_sq_nonneg(a: Position, b: Position)
    ensures
        #[trigger] dist_sq(a, b) >= 0,
{
    let dx = a.x - b.x;
    let dy = a.y - b.y;
    assert(dx * dx >= 0) by (nonlinear_arith);
    assert(dy * dy >= 0) by (nonlinear_arith);
}

/// Between in-bound cells the squared distance stays below `8 * 10^18`.
pub proof fn lemma_dist_sq_bound(a: Position, b: Position)
    requires
        center_ok(a),
        center_ok(b),
    ensures
        0 <= dist_sq(a, b) <= 8_000_000_000_000_000_000,
{
    let dx = a.x - b.x;
    let dy = a.y - b.y;
    assert(0 <= dx * dx <= 2_000_000_000 * 2_000_000_000) by (nonlinear_arith)
        requires -2_000_000_000 <= dx <= 2_000_000_000;
    assert(0 <= dy * dy <= 2_000_000_000 * 2_000_000_000) by (nonlinear_arith)
        requires -2_000_000_000 <= dy <= 2_000_000_000;
}

/// Squared distance, computed without any bound on the coordinates.
pub fn dist_sq_exec(a: &Position, b: &Position) -> (d: u128)
    ensures
        d == dist_sq(*a, *b),
{
    let dx: i128 = (a.x as i128) - (b.x as i128);
    let dy: i128 = (a.y as i128) - (b.y as i128);
    proof {
        assert(dx * dx >= 0 && dx * dx <= 0x1_0000_0000i128 * 0x1_0000_0000i128)
            by (nonlinear_arith)
            requires -0x1_0000_0000i128 <= dx <= 0x1_0000_0000i128;
        assert(dy * dy >= 0 && dy * dy <= 0x1_0000_0000i128 * 0x1_0000_0000i128)
            by (nonlinear_arith)
            requires -0x1_0000_0000i128 <= dy <= 0x1_0000_0000i128;
    }
    (dx * dx + dy * dy) as u128
}

} // verus!
