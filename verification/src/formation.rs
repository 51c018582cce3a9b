//! Formation geometry engine: pure placement rules mapping a formation
//! kind, a unit count and a center cell to an ordered list of target
//! positions, plus the stateless combat-modifier table keyed by
//! formation.
//!
//! Every placement rule is exact integer arithmetic; each deterministic
//! formation is pinned, slot by slot, to a spec function.

use vstd::prelude::*;
use crate::geom::{Position, center_ok};
use crate::num::{ceil_sqrt, grid_side, lemma_ceil_sqrt_bounds, lemma_div_below_square};
use crate::rng::rand_i32_between;
use crate::circle::{circle_slot, circle_formation};

verus! {

/// The geometric arrangement pattern assigned to a squad.
#[derive(Clone, Copy, PartialEq, Eq, Structural, Debug)]
pub enum FormationType {
    Line,
    Box,
    Column,
    Wedge,
    Circle,
    Scattered,
    Flank,
    Phalanx,
    Skirmish,
}

/// Behavioural stance of a squad.
#[derive(Clone, Copy, PartialEq, Eq, Structural, Debug)]
pub enum CombatStance {
    Aggressive,
    Defensive,
    StandGround,
    NoAttack,
    Patrol,
    Guard,
}

/// Unit counts the geometry engine accepts; keeps every offset well
/// inside `i32` together with `COORD_LIMIT`.
pub const MAX_FORMATION_UNITS: usize = 65536;

// ------------------------------------------------------------------
// Placement rules, one spec function per deterministic formation.
// ------------------------------------------------------------------

/// Line: a single row of width `n`, centered horizontally on the center.
pub open spec fn line_slot(n: int, c: Position, i: int) -> Position {
    Position { x: (c.x - n / 2 + i) as i32, y: c.y, z: c.z }
}

/// Column: a single vertical file of height `n`.
pub open spec fn column_slot(n: int, c: Position, i: int) -> Position {
    Position { x: c.x, y: (c.y - n / 2 + i) as i32, z: c.z }
}

/// Box: a near-square grid of side `ceil_sqrt(n)`, filled row by row.
pub open spec fn box_slot(n: nat, c: Position, i: int) -> Position {
    let s = ceil_sqrt(n) as int;
    Position {
        x: (c.x - s / 2 + i % s) as i32,
        y: (c.y - s / 2 + i / s) as i32,
        z: c.z,
    }
}

/// Skirmish: the box grid opened up with a spacing of 2 between cells.
pub open spec fn skirmish_slot(n: nat, c: Position, i: int) -> Position {
    let s = ceil_sqrt(n) as int;
    Position {
        x: (c.x - s + (i % s) * 2) as i32,
        y: (c.y - s + (i / s) * 2) as i32,
        z: c.z,
    }
}

/// Phalanx: a fixed width of 4 files, ranks stacked around the center.
pub open spec fn phalanx_slot(n: int, c: Position, i: int) -> Position {
    let ranks = (n + 3) / 4;
    Position {
        x: (c.x - 2 + i % 4) as i32,
        y: (c.y + i / 4 - ranks / 2) as i32,
        z: c.z,
    }
}

/// Flank: two wings of `n / 3` units offset left and right by 2, the
/// remainder stacked in the center, each group a vertical file.
pub open spec fn flank_slot(n: int, c: Position, i: int) -> Position {
    let wing = n / 3;
    if i < wing {
        Position { x: (c.x - 2) as i32, y: (c.y + i) as i32, z: c.z }
    } else if i < n - wing {
        Position { x: c.x, y: (c.y + (i - wing)) as i32, z: c.z }
    } else {
        Position { x: (c.x + 2) as i32, y: (c.y + (i - (n - wing))) as i32, z: c.z }
    }
}

/// Triangular number: slots in the first `r` wedge rows.
pub open spec fn tri(r: nat) -> nat
    decreases r,
{
    if r == 0 {
        0
    } else {
        tri((r - 1) as nat) + r
    }
}

/// The wedge row that slot `i` falls in: row `r` holds slots
/// `tri(r) .. tri(r + 1)`.
pub open spec fn wedge_row(i: nat) -> nat
    decreases i,
{
    if i == 0 {
        0
    } else {
        let p = wedge_row((i - 1) as nat);
        if tri(p + 1) <= i {
            p + 1
        } else {
            p
        }
    }
}

/// Wedge: triangular growth, row `r` holds `r + 1` slots and sits `r`
/// cells behind the tip; each row grows rightward from `c.x - r / 2`.
pub open spec fn wedge_slot(c: Position, i: nat) -> Position {
    let r = wedge_row(i) as int;
    let col = i - tri(wedge_row(i));
    Position { x: (c.x - r / 2 + col) as i32, y: (c.y - r) as i32, z: c.z }
}

proof fn lemma_wedge_row_char(i: nat, r: nat)
    requires
        tri(r) <= i < tri(r + 1),
    ensures
        wedge_row(i) == r,
    decreases i,
{
    if i == 0 {
        if r > 0 {
            assert(tri(r) >= tri(1)) by {
                lemma_tri_monotone(1, r);
            }
        }
    } else {
        if tri(r) <= i - 1 {
            lemma_wedge_row_char((i - 1) as nat, r);
        } else {
            // i is the first slot of row r, so slot i - 1 closed row r - 1.
            assert(r > 0) by {
                if r == 0 {
                    assert(tri(0) == 0);
                }
            }
            assert(tri((r - 1) as nat) <= i - 1) by {
                assert(tri(r) == tri((r - 1) as nat) + r);
            }
            lemma_wedge_row_char((i - 1) as nat, (r - 1) as nat);
        }
    }
}

proof fn lemma_tri_monotone(a: nat, b: nat)
    requires
        a <= b,
    ensures
        tri(a) <= tri(b),
    decreases b,
{
    if a < b {
        lemma_tri_monotone(a, (b - 1) as nat);
    }
}

// ------------------------------------------------------------------
// The calculator.
// ------------------------------------------------------------------

/// Computes target positions for the members of a formation.
pub struct FormationCalculator;

impl FormationCalculator {
    /// Maps a formation, a unit count and a center cell to `num_units`
    /// ordered target positions, all sharing the center's elevation.
    ///
    /// Every formation but Scattered is deterministic and pinned slot by
    /// slot; Scattered draws independent offsets in `[-3, 3]` on both
    /// axes from the random source.
    pub fn calculate_positions(
        formation: &FormationType,
        num_units: usize,
        center: &Position,
    ) -> (r: Vec<Position>)
        requires
            num_units <= MAX_FORMATION_UNITS,
            center_ok(*center),
        ensures
            r@.len() == num_units,
            forall|i: int| 0 <= i < num_units ==> (#[trigger] r@[i]).z == center.z,
            *formation != FormationType::Scattered ==> forall|i: int|
                0 <= i < num_units ==> r@[i] == formation_slot(
                    *formation,
                    num_units as int,
                    *center,
                    i,
                ),
            *formation == FormationType::Scattered ==> forall|i: int|
                0 <= i < num_units ==> scattered_near(*center, #[trigger] r@[i]),
    {
        match formation {
            FormationType::Line => Self::line_formation(num_units, center),
            FormationType::Box => Self::box_formation(num_units, center),
            FormationType::Column => Self::column_formation(num_units, center),
            FormationType::Wedge => Self::wedge_formation(num_units, center),
            FormationType::Circle => circle_formation(num_units, center),
            FormationType::Phalanx => Self::phalanx_formation(num_units, center),
            FormationType::Flank => Self::flank_formation(num_units, center),
            FormationType::Skirmish => Self::skirmish_formation(num_units, center),
            FormationType::Scattered => Self::scattered_formation(num_units, center),
        }
    }

    fn line_formation(num_units: usize, center: &Position) -> (r: Vec<Position>)
        requires
            num_units <= MAX_FORMATION_UNITS,
            center_ok(*center),
        ensures
            r@.len() == num_units,
            forall|i: int| 0 <= i < num_units ==> r@[i] == line_slot(
                num_units as int,
                *center,
                i,
            ),
    {
        let mut positions: Vec<Position> = Vec::new();
        let start_x = center.x - (num_units / 2) as i32;
        let mut i: usize = 0;
        while i < num_units
            invariant
                i <= num_units <= MAX_FORMATION_UNITS,
                center_ok(*center),
                start_x == center.x - (num_units as int) / 2,
                positions@.len() == i,
                forall|j: int| 0 <= j < i ==> positions@[j] == line_slot(
                    num_units as int,
                    *center,
                    j,
                ),
            decreases num_units - i,
        {
            positions.push(Position { x: start_x + i as i32, y: center.y, z: center.z });
            i = i + 1;
        }
        positions
    }

    fn column_formation(num_units: usize, center: &Position) -> (r: Vec<Position>)
        requires
            num_units <= MAX_FORMATION_UNITS,
            center_ok(*center),
        ensures
            r@.len() == num_units,
            forall|i: int| 0 <= i < num_units ==> r@[i] == column_slot(
                num_units as int,
                *center,
                i,
            ),
    {
        let mut positions: Vec<Position> = Vec::new();
        let start_y = center.y - (num_units / 2) as i32;
        let mut i: usize = 0;
        while i < num_units
            invariant
                i <= num_units <= MAX_FORMATION_UNITS,
                center_ok(*center),
                start_y == center.y - (num_units as int) / 2,
                positions@.len() == i,
                forall|j: int| 0 <= j < i ==> positions@[j] == column_slot(
                    num_units as int,
                    *center,
                    j,
                ),
            decreases num_units - i,
        {
            positions.push(Position { x: center.x, y: start_y + i as i32, z: center.z });
            i = i + 1;
        }
        positions
    }

    fn box_formation(num_units: usize, center: &Position) -> (r: Vec<Position>)
        requires
            num_units <= MAX_FORMATION_UNITS,
            center_ok(*center),
        ensures
            r@.len() == num_units,
            forall|i: int| 0 <= i < num_units ==> r@[i] == box_slot(
                num_units as nat,
                *center,
                i,
            ),
    {
        let mut positions: Vec<Position> = Vec::new();
        let side = grid_side(num_units);
        proof {
            lemma_side_small(num_units as nat);
        }
        let half = (side / 2) as i32;
        let mut i: usize = 0;
        while i < num_units
            invariant
                i <= num_units <= MAX_FORMATION_UNITS,
                center_ok(*center),
                side == ceil_sqrt(num_units as nat),
                num_units <= side * side,
                side <= 256,
                half == (side as int) / 2,
                positions@.len() == i,
                forall|j: int| 0 <= j < i ==> positions@[j] == box_slot(
                    num_units as nat,
                    *center,
                    j,
                ),
            decreases num_units - i,
        {
            let row = i / side;
            let col = i % side;
            proof {
                lemma_div_below_square(i as nat, side as nat);
            }
            positions.push(Position {
                x: center.x - half + col as i32,
                y: center.y - half + row as i32,
                z: center.z,
            });
            i = i + 1;
        }
        positions
    }

    fn skirmish_formation(num_units: usize, center: &Position) -> (r: Vec<Position>)
        requires
            num_units <= MAX_FORMATION_UNITS,
            center_ok(*center),
        ensures
            r@.len() == num_units,
            forall|i: int| 0 <= i < num_units ==> r@[i] == skirmish_slot(
                num_units as nat,
                *center,
                i,
            ),
    {
        let mut positions: Vec<Position> = Vec::new();
        let side = grid_side(num_units);
        proof {
            lemma_side_small(num_units as nat);
        }
        let mut i: usize = 0;
        while i < num_units
            invariant
                i <= num_units <= MAX_FORMATION_UNITS,
                center_ok(*center),
                side == ceil_sqrt(num_units as nat),
                num_units <= side * side,
                side <= 256,
                positions@.len() == i,
                forall|j: int| 0 <= j < i ==> positions@[j] == skirmish_slot(
                    num_units as nat,
                    *center,
                    j,
                ),
            decreases num_units - i,
        {
            let row = i / side;
            let col = i % side;
            proof {
                lemma_div_below_square(i as nat, side as nat);
            }
            positions.push(Position {
                x: center.x - side as i32 + (col as i32) * 2,
                y: center.y - side as i32 + (row as i32) * 2,
                z: center.z,
            });
            i = i + 1;
        }
        positions
    }

    fn phalanx_formation(num_units: usize, center: &Position) -> (r: Vec<Position>)
        requires
            num_units <= MAX_FORMATION_UNITS,
            center_ok(*center),
        ensures
            r@.len() == num_units,
            forall|i: int| 0 <= i < num_units ==> r@[i] == phalanx_slot(
                num_units as int,
                *center,
                i,
            ),
    {
        let mut positions: Vec<Position> = Vec::new();
        let ranks = (num_units + 3) / 4;
        let half_ranks = (ranks / 2) as i32;
        let mut i: usize = 0;
        while i < num_units
            invariant
                i <= num_units <= MAX_FORMATION_UNITS,
                center_ok(*center),
                ranks == (num_units as int + 3) / 4,
                half_ranks == (ranks as int) / 2,
                positions@.len() == i,
                forall|j: int| 0 <= j < i ==> positions@[j] == phalanx_slot(
                    num_units as int,
                    *center,
                    j,
                ),
            decreases num_units - i,
        {
            let rank = i / 4;
            let file = i % 4;
            positions.push(Position {
                x: center.x - 2 + file as i32,
                y: center.y + rank as i32 - half_ranks,
                z: center.z,
            });
            i = i + 1;
        }
        positions
    }

    fn flank_formation(num_units: usize, center: &Position) -> (r: Vec<Position>)
        requires
            num_units <= MAX_FORMATION_UNITS,
            center_ok(*center),
        ensures
            r@.len() == num_units,
            forall|i: int| 0 <= i < num_units ==> r@[i] == flank_slot(
                num_units as int,
                *center,
                i,
            ),
    {
        let mut positions: Vec<Position> = Vec::new();
        let wing = num_units / 3;
        let mut i: usize = 0;
        while i < num_units
            invariant
                i <= num_units <= MAX_FORMATION_UNITS,
                center_ok(*center),
                wing == (num_units as int) / 3,
                positions@.len() == i,
                forall|j: int| 0 <= j < i ==> positions@[j] == flank_slot(
                    num_units as int,
                    *center,
                    j,
                ),
            decreases num_units - i,
        {
            let p = if i < wing {
                Position { x: center.x - 2, y: center.y + i as i32, z: center.z }
            } else if i < num_units - wing {
                Position { x: center.x, y: center.y + (i - wing) as i32, z: center.z }
            } else {
                Position {
                    x: center.x + 2,
                    y: center.y + (i - (num_units - wing)) as i32,
                    z: center.z,
                }
            };
            positions.push(p);
            i = i + 1;
        }
        positions
    }

    fn wedge_formation(num_units: usize, center: &Position) -> (r: Vec<Position>)
        requires
            num_units <= MAX_FORMATION_UNITS,
            center_ok(*center),
        ensures
            r@.len() == num_units,
            forall|i: int| 0 <= i < num_units ==> r@[i] == wedge_slot(*center, i as nat),
    {
        let mut positions: Vec<Position> = Vec::new();
        let mut row: usize = 0;
        let mut placed: usize = 0;
        while placed < num_units
            invariant
                placed <= num_units <= MAX_FORMATION_UNITS,
                center_ok(*center),
                positions@.len() == placed,
                placed < num_units ==> placed == tri(row as nat) && row <= placed,
                forall|j: int| 0 <= j < placed ==> positions@[j] == wedge_slot(
                    *center,
                    j as nat,
                ),
            decreases num_units - placed,
        {
            let units_in_row = row + 1;
            let start_x = center.x - (row / 2) as i32;
            let mut col: usize = 0;
            while col < units_in_row && placed < num_units
                invariant
                    units_in_row == row + 1,
                    col <= units_in_row,
                    row <= placed,
                    placed <= num_units <= MAX_FORMATION_UNITS,
                    center_ok(*center),
                    start_x == center.x - (row as int) / 2,
                    positions@.len() == placed,
                    placed == tri(row as nat) + col,
                    forall|j: int| 0 <= j < placed ==> positions@[j] == wedge_slot(
                        *center,
                        j as nat,
                    ),
                decreases units_in_row - col,
            {
                proof {
                    assert(tri((row + 1) as nat) == tri(row as nat) + row + 1);
                    lemma_wedge_row_char(placed as nat, row as nat);
                }
                positions.push(Position {
                    x: start_x + col as i32,
                    y: center.y - row as i32,
                    z: center.z,
                });
                placed = placed + 1;
                col = col + 1;
            }
            proof {
                assert(tri((row + 1) as nat) == tri(row as nat) + row + 1);
            }
            row = row + 1;
        }
        positions
    }

    fn scattered_formation(num_units: usize, center: &Position) -> (r: Vec<Position>)
        requires
            num_units <= MAX_FORMATION_UNITS,
            center_ok(*center),
        ensures
            r@.len() == num_units,
            forall|i: int| 0 <= i < num_units ==> scattered_near(*center, #[trigger] r@[i]),
    {
        let mut positions: Vec<Position> = Vec::new();
        let mut i: usize = 0;
        while i < num_units
            invariant
                i <= num_units,
                center_ok(*center),
                positions@.len() == i,
                forall|j: int| 0 <= j < i ==> scattered_near(*center, #[trigger] positions@[j]),
            decreases num_units - i,
        {
            let dx = rand_i32_between(-3, 3);
            let dy = rand_i32_between(-3, 3);
            positions.push(Position { x: center.x + dx, y: center.y + dy, z: center.z });
            i = i + 1;
        }
        positions
    }
}

/// Where a scattered unit may land: within 3 cells of the center on both
/// axes, at the center's elevation.
pub open spec fn scattered_near(c: Position, p: Position) -> bool {
    c.x - 3 <= p.x <= c.x + 3 && c.y - 3 <= p.y <= c.y + 3 && p.z == c.z
}

/// The slot a deterministic formation assigns to unit `i` of `n`.
/// Scattered placements are random, so no contract consults this
/// function for them; its Scattered arm only keeps the match total.
pub open spec fn formation_slot(f: FormationType, n: int, c: Position, i: int) -> Position {
    match f {
        FormationType::Line => line_slot(n, c, i),
        FormationType::Box => box_slot(n as nat, c, i),
        FormationType::Column => column_slot(n, c, i),
        FormationType::Wedge => wedge_slot(c, i as nat),
        FormationType::Circle => circle_slot(n as nat, c, i as nat),
        FormationType::Phalanx => phalanx_slot(n, c, i),
        FormationType::Flank => flank_slot(n, c, i),
        FormationType::Skirmish => skirmish_slot(n as nat, c, i),
        FormationType::Scattered => c,
    }
}

/// The side of the grid formations stays small: `ceil_sqrt(n) <= 256`
/// for any accepted unit count.
proof fn lemma_side_small(n: nat)
    requires
        n <= MAX_FORMATION_UNITS,
    ensures
        ceil_sqrt(n) <= 256,
        n <= ceil_sqrt(n) * ceil_sqrt(n),
{
    lemma_ceil_sqrt_bounds(n);
    let s = ceil_sqrt(n);
    if s > 256 {
        assert((s - 1) * (s - 1) >= 256 * 256) by (nonlinear_arith)
            requires s - 1 >= 256;
    }
}

// ------------------------------------------------------------------
// Laws of the placement rules.
// ------------------------------------------------------------------

/// Every deterministic formation slot shares the center's elevation;
/// together with the length and the scattered bound in the ensures of
/// `calculate_positions`, every emitted position does.
pub proof fn lemma_slot_elevation(f: FormationType, n: int, c: Position, i: int)
    requires
        0 <= i < n <= MAX_FORMATION_UNITS,
    ensures
        formation_slot(f, n, c, i).z == c.z,
{
}

/// Line keeps every slot on the center's row; Column keeps every slot
/// on the center's file.
pub proof fn lemma_line_column_axes(n: int, c: Position, i: int)
    requires
        0 <= i < n,
    ensures
        line_slot(n, c, i).y == c.y,
        column_slot(n, c, i).x == c.x,
{
}

/// Box and Skirmish lay `n` units into a square grid of
/// `ceil_sqrt(n) * ceil_sqrt(n)` internal slots: only the first `n`
/// slots are emitted, and each lands on a row and column inside the
/// grid side.
pub proof fn lemma_grid_slots(n: nat, i: int)
    requires
        0 <= i < n <= MAX_FORMATION_UNITS,
    ensures
        n <= ceil_sqrt(n) * ceil_sqrt(n),
        i / (ceil_sqrt(n) as int) < ceil_sqrt(n),
        i % (ceil_sqrt(n) as int) < ceil_sqrt(n),
{
    lemma_ceil_sqrt_bounds(n);
    lemma_div_below_square(i as nat, ceil_sqrt(n));
}

/// Phalanx lays `n` units into its fixed-width grid of
/// `4 * ceil(n / 4)` internal slots the same way: only the first `n`
/// are emitted, each on a file below 4 and a rank below `ceil(n / 4)`.
pub proof fn lemma_phalanx_slots(n: int, i: int)
    requires
        0 <= i < n,
    ensures
        0 <= i % 4 < 4,
        0 <= i / 4 < (n + 3) / 4,
{
    vstd::arithmetic::div_mod::lemma_mod_division_less_than_divisor(i, 4);
    vstd::arithmetic::div_mod::lemma_div_pos_is_pos(i, 4);
    vstd::arithmetic::div_mod::lemma_div_is_ordered(i, n - 1, 4);
    vstd::arithmetic::div_mod::lemma_div_plus_one(n - 1, 4);
}

// ------------------------------------------------------------------
// Combat modifiers.
// ------------------------------------------------------------------

/// Attack multiplier of a formation, in hundredths (120 means x1.2).
pub open spec fn attack_bonus_spec(f: FormationType) -> u32 {
    match f {
        FormationType::Wedge => 120u32,
        FormationType::Phalanx => 90u32,
        FormationType::Flank => 115u32,
        _ => 100u32,
    }
}

/// Defense multiplier of a formation, in hundredths.
pub open spec fn defense_bonus_spec(f: FormationType) -> u32 {
    match f {
        FormationType::Phalanx => 130u32,
        FormationType::Circle => 120u32,
        FormationType::Box => 110u32,
        FormationType::Scattered => 90u32,
        _ => 100u32,
    }
}

/// Movement-speed multiplier of a formation, in hundredths.
pub open spec fn movement_speed_spec(f: FormationType) -> u32 {
    match f {
        FormationType::Column => 120u32,
        FormationType::Scattered => 115u32,
        FormationType::Phalanx => 80u32,
        FormationType::Box => 90u32,
        _ => 100u32,
    }
}

/// Stateless combat-modifier lookup keyed by formation; multipliers are
/// carried in hundredths.
pub struct FormationBonuses;

impl FormationBonuses {
    pub fn get_attack_bonus(formation: &FormationType) -> (r: u32)
        ensures
            r == attack_bonus_spec(*formation),
    {
        match formation {
            FormationType::Wedge => 120,
            FormationType::Phalanx => 90,
            FormationType::Flank => 115,
            _ => 100,
        }
    }

    pub fn get_defense_bonus(formation: &FormationType) -> (r: u32)
        ensures
            r == defense_bonus_spec(*formation),
    {
        match formation {
            FormationType::Phalanx => 130,
            FormationType::Circle => 120,
            FormationType::Box => 110,
            FormationType::Scattered => 90,
            _ => 100,
        }
    }

    pub fn get_movement_speed(formation: &FormationType) -> (r: u32)
        ensures
            r == movement_speed_spec(*formation),
    {
        match formation {
            FormationType::Column => 120,
            FormationType::Scattered => 115,
            FormationType::Phalanx => 80,
            FormationType::Box => 90,
            _ => 100,
        }
    }
}

/// The modifier lookup is total: every formation has a positive attack,
/// defense and speed multiplier (100 where the table lists none).
pub proof fn lemma_modifier_lookup_total()
    ensures
        forall|f: FormationType| #[trigger] attack_bonus_spec(f) > 0,
        forall|f: FormationType| #[trigger] defense_bonus_spec(f) > 0,
        forall|f: FormationType| #[trigger] movement_speed_spec(f) > 0,
{
}

} // verus!
