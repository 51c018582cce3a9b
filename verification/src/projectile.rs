//! Ranged weapons and the projectile engine: firing gates (ammunition,
//! range, a well-defined direction), projectile spawning with the
//! weapon-class velocity, per-tick motion, and lifetime expiry.
//!
//! Times are in milliseconds, velocities and ranges in thousandths of a
//! grid cell, so a weapon range of 8 cells is `8000` and the default
//! projectile lifetime of 5 seconds is `5000`.

use vstd::prelude::*;
use crate::geom::{Position, Vec2Milli, dist_sq, dist_sq_exec, center_ok};
use crate::num::{isqrt, isqrt_u128, div_trunc, div_trunc_i32, round_half_away,
    round_half_away_i64, lemma_isqrt_bounds, lemma_isqrt_monotone, lemma_isqrt_square};

verus! {

/// Kinds of ranged weapon.
#[derive(Clone, Copy, PartialEq, Eq, Structural, Debug)]
pub enum RangedWeaponType {
    Bow,
    Crossbow,
    Sling,
    Javelin,
    Gun,
    Cannon,
}

/// A ranged weapon's stats. `range`, `accuracy` and `projectile_speed`
/// are in thousandths (a range of `8000` reaches 8 cells; full accuracy
/// is `1000`); times are in milliseconds.
pub struct RangedWeapon {
    pub weapon_type: RangedWeaponType,
    pub damage: i32,
    pub range: u32,
    pub accuracy: u32,
    pub reload_time: u32,
    pub projectile_speed: u32,
    pub ammo_type: String,
    pub last_shot_time: u32,
}

/// A live projectile. `velocity` is in thousandths of a cell per
/// second, `lifetime` is the remaining time in milliseconds, and
/// `explosion_radius` is in thousandths of a cell.
pub struct Projectile {
    pub damage: i32,
    pub owner: u64,
    pub target: Option<u64>,
    pub velocity: Vec2Milli,
    pub lifetime: u32,
    pub piercing: bool,
    pub explosive: bool,
    pub explosion_radius: u32,
}

/// A stack of ammunition of one kind.
pub struct Ammo {
    pub ammo_type: String,
    pub count: u32,
}

// ------------------------------------------------------------------
// Direction and velocity.
// ------------------------------------------------------------------

/// One component of the projectile velocity: the unit direction toward
/// the target scaled by the weapon-class constant of 10 cells per
/// second, in thousandths. For an axis difference `d` and a squared
/// distance `dd`, this is `10000 * d / sqrt(dd)` truncated toward zero.
pub open spec fn vel_component(d: int, dd: int) -> int {
    if d >= 0 {
        isqrt(((10000 * d) * (10000 * d) / dd) as nat) as int
    } else {
        -(isqrt(((10000 * -d) * (10000 * -d) / dd) as nat) as int)
    }
}

/// One velocity component squares to its share of the squared speed,
/// up to the two floors taken (the division and the root).
proof fn lemma_vel_component_sq(d: int, dd: int)
    requires
        dd > 0,
        d * d <= dd,
    ensures
        ({
            let v = vel_component(d, dd);
            let q = 100_000_000 * (d * d) / dd;
            &&& v * v <= q
            &&& q < v * v + 2 * (if v >= 0 { v } else { -v }) + 1
            &&& -10000 <= v <= 10000
            &&& d >= 0 ==> v >= 0
            &&& d <= 0 ==> v <= 0
        }),
{
    let m = if d >= 0 { d } else { -d };
    assert((10000 * m) * (10000 * m) == 100_000_000 * (d * d) && d * d >= 0)
        by (nonlinear_arith)
        requires m == d || m == -d;
    let q = 100_000_000 * (d * d) / dd;
    vstd::arithmetic::div_mod::lemma_div_pos_is_pos(100_000_000 * (d * d), dd);
    lemma_isqrt_bounds(q as nat);
    let vm = isqrt(q as nat) as int;
    assert(vel_component(d, dd) == vm || vel_component(d, dd) == -vm);
    assert(vel_component(d, dd) * vel_component(d, dd) == vm * vm) by (nonlinear_arith)
        requires vel_component(d, dd) == vm || vel_component(d, dd) == -vm;
    // The component never exceeds the full speed: its share of the
    // squared speed is at most the whole.
    assert(100_000_000 * (d * d) <= 100_000_000 * dd);
    vstd::arithmetic::div_mod::lemma_div_is_ordered(100_000_000 * (d * d), 100_000_000 * dd, dd);
    vstd::arithmetic::div_mod::lemma_div_by_multiple(100_000_000, dd);
    lemma_isqrt_monotone(q as nat, 100_000_000);
    lemma_isqrt_square(10000);
    assert((vm + 1) * (vm + 1) == vm * vm + 2 * vm + 1) by (nonlinear_arith);
    assert(q < vm * vm + 2 * vm + 1);
}

/// A projectile flies at the weapon-class speed: the squared magnitude
/// of its fixed-point velocity lands within rounding of the squared
/// scaled speed, `10000^2` thousandths. Both floors taken per component
/// cost at most `2 * 10000 + 2` each, so the squared speed lies in
/// `(10^8 - 40004, 10^8]`.
pub proof fn lemma_velocity_speed(dx: int, dy: int, dd: int)
    requires
        dd == dx * dx + dy * dy,
        dd > 0,
    ensures
        ({
            let vx = vel_component(dx, dd);
            let vy = vel_component(dy, dd);
            &&& vx * vx + vy * vy <= 100_000_000
            &&& vx * vx + vy * vy > 100_000_000 - 40_004
        }),
{
    assert(dx * dx >= 0 && dy * dy >= 0) by (nonlinear_arith);
    lemma_vel_component_sq(dx, dd);
    lemma_vel_component_sq(dy, dd);
    let vx = vel_component(dx, dd);
    let vy = vel_component(dy, dd);
    let qx = 100_000_000 * (dx * dx) / dd;
    let qy = 100_000_000 * (dy * dy) / dd;
    // Upper bound: the two shares never sum past the whole.
    crate::num::lemma_div_superadd(100_000_000 * (dx * dx), 100_000_000 * (dy * dy), dd);
    assert(100_000_000 * (dx * dx) + 100_000_000 * (dy * dy) == 100_000_000 * dd)
        by (nonlinear_arith)
        requires dd == dx * dx + dy * dy;
    vstd::arithmetic::div_mod::lemma_div_by_multiple(100_000_000, dd);
    // Lower bound: each floored share loses less than one whole
    // divisor, so the shares sum past the whole minus two.
    vstd::arithmetic::div_mod::lemma_fundamental_div_mod(100_000_000 * (dx * dx), dd);
    vstd::arithmetic::div_mod::lemma_fundamental_div_mod(100_000_000 * (dy * dy), dd);
    vstd::arithmetic::div_mod::lemma_mod_division_less_than_divisor(100_000_000 * (dx * dx), dd);
    vstd::arithmetic::div_mod::lemma_mod_division_less_than_divisor(100_000_000 * (dy * dy), dd);
    assert(dd * qx + dd * qy > 100_000_000 * dd - 2 * dd);
    assert(qx + qy > 100_000_000 - 2) by (nonlinear_arith)
        requires dd * qx + dd * qy > 100_000_000 * dd - 2 * dd, dd > 0;
}

/// `vel_component`, executable. The component never exceeds the scaled
/// speed because `d * d <= dd`.
fn vel_component_exec(d: i64, dd: u128) -> (v: i64)
    requires
        dd > 0,
        -0x1_0000_0000 <= d <= 0x1_0000_0000,
        d * d <= dd,
    ensures
        v == vel_component(d as int, dd as int),
        -10000 <= v <= 10000,
{
    let mag = if d >= 0 {
        d as u128
    } else {
        (-d) as u128
    };
    let scaled = 10000 * mag;
    proof {
        assert(mag * mag == d * d) by (nonlinear_arith)
            requires mag == d || mag == -d;
        assert(scaled * scaled == 100_000_000 * (mag * mag)) by (nonlinear_arith)
            requires scaled == 10000 * mag;
        assert(scaled * scaled <= 100_000_000 * (dd as int));
        assert(scaled <= 42_949_672_960_000u128);
        assert(scaled * scaled <= 42_949_672_960_000u128 * 42_949_672_960_000u128)
            by (nonlinear_arith)
            requires scaled <= 42_949_672_960_000u128;
        vstd::arithmetic::div_mod::lemma_div_is_ordered(
            (scaled * scaled) as int,
            100_000_000 * (dd as int),
            dd as int,
        );
        vstd::arithmetic::div_mod::lemma_div_by_multiple(100_000_000, dd as int);
    }
    let q = (scaled * scaled) / dd;
    let r = isqrt_u128(q);
    proof {
        lemma_isqrt_monotone(q as nat, 100_000_000);
        lemma_isqrt_square(10000);
    }
    if d >= 0 {
        r as i64
    } else {
        -(r as i64)
    }
}

// ------------------------------------------------------------------
// Firing.
// ------------------------------------------------------------------

/// Whether a target cell is within a weapon's reach: the euclidean
/// distance (squared, against the squared range in cell-thousandths)
/// is at most the range.
pub open spec fn within_range(s: Position, t: Position, range: u32) -> bool {
    dist_sq(s, t) * 1_000_000 <= (range as int) * (range as int)
}

/// A successfully fired shot.
pub struct FiredShot {
    /// Ammunition left after the shot: exactly one unit less.
    pub ammo_remaining: u32,
    /// The spawned projectile.
    pub projectile: Projectile,
    /// Where the projectile enters the world: the shooter's cell, on
    /// the projectile layer.
    pub spawn_position: Position,
}

/// What a fire attempt came to.
pub enum FireOutcome {
    /// No ammunition of the weapon's kind: no shot, no state change.
    NoAmmo,
    /// The target is beyond weapon range: no shot, no state change.
    OutOfRange,
    /// Shooter and target share a cell, so the direction is undefined:
    /// the shot is skipped, no state change.
    NoDirection,
    /// A shot was fired and one unit of ammunition consumed.
    Fired(FiredShot),
}

/// The damage bonus from the attacker's strength: half, rounded toward
/// zero.
pub open spec fn strength_bonus(strength: int) -> int {
    div_trunc(strength, 2)
}

/// Layer where projectiles travel.
pub const PROJECTILE_LAYER: i32 = 5;

/// A fire attempt: gates on ammunition, then range, then a well-defined
/// direction; only a gated-through attempt consumes ammunition (exactly
/// one unit) and spawns a projectile. The projectile flies toward the
/// target at the weapon-class speed, carries the weapon damage plus
/// half the attacker's strength, and lives 5 seconds; piercing and
/// explosive behaviour come from the specialized builders instead.
pub fn ranged_attack(
    shooter: u64,
    shooter_pos: &Position,
    target: u64,
    target_pos: &Position,
    weapon: &RangedWeapon,
    ammo_count: u32,
    strength: i32,
) -> (r: FireOutcome)
    requires
        center_ok(*shooter_pos),
        center_ok(*target_pos),
        i32::MIN <= weapon.damage + strength_bonus(strength as int) <= i32::MAX,
    ensures
        r is NoAmmo <==> ammo_count == 0,
        r is OutOfRange <==> ammo_count >= 1 && !within_range(
            *shooter_pos,
            *target_pos,
            weapon.range,
        ),
        r is NoDirection <==> ammo_count >= 1 && within_range(
            *shooter_pos,
            *target_pos,
            weapon.range,
        ) && dist_sq(*shooter_pos, *target_pos) == 0,
        r is Fired <==> ammo_count >= 1 && within_range(*shooter_pos, *target_pos, weapon.range)
            && dist_sq(*shooter_pos, *target_pos) > 0,
        // Ammunition never grows: an attempt without ammunition fires
        // nothing, and a shot consumes exactly one unit.
        ammo_count == 0 ==> !(r is Fired),
        r matches FireOutcome::Fired(shot) ==> shot.ammo_remaining < ammo_count,
        r matches FireOutcome::Fired(shot) ==> {
            let dd = dist_sq(*shooter_pos, *target_pos);
            &&& shot.ammo_remaining == ammo_count - 1
            &&& shot.projectile.damage == weapon.damage + strength_bonus(strength as int)
            &&& shot.projectile.owner == shooter
            &&& shot.projectile.target == Option::Some(target)
            &&& shot.projectile.velocity.x == vel_component(target_pos.x - shooter_pos.x, dd)
            &&& shot.projectile.velocity.y == vel_component(target_pos.y - shooter_pos.y, dd)
            &&& shot.projectile.lifetime == 5000
            &&& !shot.projectile.piercing
            &&& !shot.projectile.explosive
            &&& shot.projectile.explosion_radius == 0
            &&& shot.spawn_position == (Position {
                x: shooter_pos.x,
                y: shooter_pos.y,
                z: PROJECTILE_LAYER,
            })
        },
{
    if ammo_count == 0 {
        return FireOutcome::NoAmmo;
    }
    let dd = dist_sq_exec(shooter_pos, target_pos);
    proof {
        crate::geom::lemma_dist_sq_nonneg(*shooter_pos, *target_pos);
        crate::geom::lemma_dist_sq_bound(*shooter_pos, *target_pos);
    }
    proof {
        assert((weapon.range as u128) * (weapon.range as u128)
            <= 0x1_0000_0000u128 * 0x1_0000_0000u128) by (nonlinear_arith)
            requires weapon.range as u128 <= 0x1_0000_0000u128;
    }
    let range_sq: u128 = (weapon.range as u128) * (weapon.range as u128);
    if dd * 1_000_000 > range_sq {
        return FireOutcome::OutOfRange;
    }
    if dd == 0 {
        return FireOutcome::NoDirection;
    }
    let dx = (target_pos.x as i64) - (shooter_pos.x as i64);
    let dy = (target_pos.y as i64) - (shooter_pos.y as i64);
    proof {
        assert(dx * dx == (shooter_pos.x - target_pos.x) * (shooter_pos.x - target_pos.x)
            && dx * dx >= 0) by (nonlinear_arith)
            requires dx == -((shooter_pos.x - target_pos.x) as int);
        assert(dy * dy == (shooter_pos.y - target_pos.y) * (shooter_pos.y - target_pos.y)
            && dy * dy >= 0) by (nonlinear_arith)
            requires dy == -((shooter_pos.y - target_pos.y) as int);
        assert(dx * dx <= dd && dy * dy <= dd);
    }
    let vx = vel_component_exec(dx, dd);
    let vy = vel_component_exec(dy, dd);
    let bonus = div_trunc_i32(strength, 2);
    let projectile = Projectile {
        damage: weapon.damage + bonus,
        owner: shooter,
        target: Some(target),
        velocity: Vec2Milli { x: vx as i32, y: vy as i32 },
        lifetime: 5000,
        piercing: false,
        explosive: false,
        explosion_radius: 0,
    };
    FireOutcome::Fired(FiredShot {
        ammo_remaining: ammo_count - 1,
        projectile,
        spawn_position: Position { x: shooter_pos.x, y: shooter_pos.y, z: PROJECTILE_LAYER },
    })
}

// ------------------------------------------------------------------
// Motion.
// ------------------------------------------------------------------

/// Projectiles advance 20 scaled velocity-steps per elapsed second.
pub const MOVE_SCALE: u32 = 20;

/// Clamping an out-of-range value into `i32`, as the saturating cast
/// from a float performs it.
pub open spec fn clamp_i32(v: int) -> int {
    if v < i32::MIN {
        i32::MIN as int
    } else if v > i32::MAX {
        i32::MAX as int
    } else {
        v
    }
}

/// Where one coordinate lands after `dt_ms` milliseconds at `v`
/// thousandths of a cell per second: the exact displacement added to
/// the coordinate and rounded to the nearest cell, halves away from
/// zero.
pub open spec fn next_coord(x: int, v: int, dt_ms: int) -> int {
    clamp_i32(round_half_away(x * 1_000_000 + v * dt_ms * 20, 1_000_000))
}

/// One tick of projectile motion: both coordinates advance by velocity
/// times elapsed time (times the motion scale), the elevation stays,
/// and the remaining lifetime shrinks by the elapsed time, hitting its
/// floor of zero. Returns whether the projectile's lifetime expired and
/// it must be destroyed.
pub fn projectile_movement(
    pos: &mut Position,
    projectile: &mut Projectile,
    dt_ms: u32,
) -> (expired: bool)
    requires
        dt_ms <= 86_400_000,
    ensures
        final(pos).x == next_coord(old(pos).x as int, old(projectile).velocity.x as int, dt_ms as int),
        final(pos).y == next_coord(old(pos).y as int, old(projectile).velocity.y as int, dt_ms as int),
        final(pos).z == old(pos).z,
        final(projectile).lifetime == if old(projectile).lifetime <= dt_ms {
            0u32
        } else {
            (old(projectile).lifetime - dt_ms) as u32
        },
        final(projectile).damage == old(projectile).damage,
        final(projectile).owner == old(projectile).owner,
        final(projectile).target == old(projectile).target,
        final(projectile).velocity == old(projectile).velocity,
        final(projectile).piercing == old(projectile).piercing,
        final(projectile).explosive == old(projectile).explosive,
        final(projectile).explosion_radius == old(projectile).explosion_radius,
        expired == (final(projectile).lifetime == 0),
{
    let nx = advance_coord(pos.x, projectile.velocity.x, dt_ms);
    let ny = advance_coord(pos.y, projectile.velocity.y, dt_ms);
    pos.x = nx;
    pos.y = ny;
    let remaining = if projectile.lifetime <= dt_ms {
        0
    } else {
        projectile.lifetime - dt_ms
    };
    projectile.lifetime = remaining;
    remaining == 0
}

/// One coordinate of projectile motion.
fn advance_coord(x: i32, v: i32, dt_ms: u32) -> (nx: i32)
    requires
        dt_ms <= 86_400_000,
    ensures
        nx == next_coord(x as int, v as int, dt_ms as int),
{
    proof {
        assert(
            -0x8000_0000i64 * 86_400_000 <= (v as i64) * (dt_ms as i64)
            <= 0x8000_0000i64 * 86_400_000
        ) by (nonlinear_arith)
            requires -0x8000_0000i64 <= v <= 0x8000_0000i64, 0 <= dt_ms <= 86_400_000;
    }
    let travel: i64 = (v as i64) * (dt_ms as i64) * 20;
    let total: i64 = (x as i64) * 1_000_000 + travel;
    let rounded = round_half_away_i64(total, 1_000_000);
    if rounded < i32::MIN as i64 {
        i32::MIN
    } else if rounded > i32::MAX as i64 {
        i32::MAX
    } else {
        rounded as i32
    }
}

// ------------------------------------------------------------------
// Specialized projectile constructors.
// ------------------------------------------------------------------

/// Builders for the projectile kinds each weapon class discharges.
pub struct ProjectileBuilder;

impl ProjectileBuilder {
    /// A plain arrow: short-lived, neither piercing nor explosive.
    pub fn arrow(owner: u64, position: Position, velocity: Vec2Milli, damage: i32) -> (r: (
        Projectile,
        Position,
    ))
        ensures
            r.0 == (Projectile {
                damage,
                owner,
                target: Option::None,
                velocity,
                lifetime: 3000,
                piercing: false,
                explosive: false,
                explosion_radius: 0,
            }),
            r.1 == position,
    {
        (
            Projectile {
                damage,
                owner,
                target: None,
                velocity,
                lifetime: 3000,
                piercing: false,
                explosive: false,
                explosion_radius: 0,
            },
            position,
        )
    }

    /// A crossbow bolt: two extra damage, pierces through targets.
    pub fn bolt(owner: u64, position: Position, velocity: Vec2Milli, damage: i32) -> (r: (
        Projectile,
        Position,
    ))
        requires
            damage + 2 <= i32::MAX,
        ensures
            r.0 == (Projectile {
                damage: (damage + 2) as i32,
                owner,
                target: Option::None,
                velocity,
                lifetime: 4000,
                piercing: true,
                explosive: false,
                explosion_radius: 0,
            }),
            r.1 == position,
    {
        (
            Projectile {
                damage: damage + 2,
                owner,
                target: None,
                velocity,
                lifetime: 4000,
                piercing: true,
                explosive: false,
                explosion_radius: 0,
            },
            position,
        )
    }

    /// A bullet: three times the velocity, pierces, burns out fast.
    pub fn bullet(owner: u64, position: Position, velocity: Vec2Milli, damage: i32) -> (r: (
        Projectile,
        Position,
    ))
        requires
            -715_827_882 <= velocity.x <= 715_827_882,
            -715_827_882 <= velocity.y <= 715_827_882,
        ensures
            r.0 == (Projectile {
                damage,
                owner,
                target: Option::None,
                velocity: Vec2Milli { x: (3 * velocity.x) as i32, y: (3 * velocity.y) as i32 },
                lifetime: 2000,
                piercing: true,
                explosive: false,
                explosion_radius: 0,
            }),
            r.1 == position,
    {
        (
            Projectile {
                damage,
                owner,
                target: None,
                velocity: Vec2Milli { x: 3 * velocity.x, y: 3 * velocity.y },
                lifetime: 2000,
                piercing: true,
                explosive: false,
                explosion_radius: 0,
            },
            position,
        )
    }

    /// An explosive arrow: detonates on impact with a 2-cell radius.
    pub fn explosive_arrow(owner: u64, position: Position, velocity: Vec2Milli, damage: i32) -> (r:
        (Projectile, Position))
        ensures
            r.0 == (Projectile {
                damage,
                owner,
                target: Option::None,
                velocity,
                lifetime: 3000,
                piercing: false,
                explosive: true,
                explosion_radius: 2000,
            }),
            r.1 == position,
    {
        (
            Projectile {
                damage,
                owner,
                target: None,
                velocity,
                lifetime: 3000,
                piercing: false,
                explosive: true,
                explosion_radius: 2000,
            },
            position,
        )
    }

    /// A cannonball: triple damage, half the velocity (truncated toward
    /// zero in thousandths), detonates with a 4-cell radius.
    pub fn cannonball(owner: u64, position: Position, velocity: Vec2Milli, damage: i32) -> (r: (
        Projectile,
        Position,
    ))
        requires
            -715_827_882 <= damage <= 715_827_882,
        ensures
            r.0 == (Projectile {
                damage: (3 * damage) as i32,
                owner,
                target: Option::None,
                velocity: Vec2Milli {
                    x: div_trunc(velocity.x as int, 2) as i32,
                    y: div_trunc(velocity.y as int, 2) as i32,
                },
                lifetime: 5000,
                piercing: false,
                explosive: true,
                explosion_radius: 4000,
            }),
            r.1 == position,
    {
        let vx = div_trunc_i32(velocity.x, 2);
        let vy = div_trunc_i32(velocity.y, 2);
        (
            Projectile {
                damage: 3 * damage,
                owner,
                target: None,
                velocity: Vec2Milli { x: vx, y: vy },
                lifetime: 5000,
                piercing: false,
                explosive: true,
                explosion_radius: 4000,
            },
            position,
        )
    }
}

} // verus!
