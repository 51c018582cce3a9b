//! Collision and damage resolution: projectile impacts against terrain
//! and combatants, direct damage, and the area-of-effect pass of
//! explosive projectiles with linear falloff.
//!
//! The falloff share for a combatant at euclidean distance `d` from the
//! impact, inside radius `r`, is `floor(half * (1 - d / r))` where
//! `half` is half the projectile damage. With the radius in thousandths
//! and the squared distance `dd` exact, that floor is computed without
//! rounding: writing `s = (1000 * half)^2 * dd`, so that `sqrt(s)` is
//! `1000 * half * d`, the share is `(half * r - sqrt(s)) / r` rounded
//! down, which integer arithmetic reaches through `isqrt(s)` — exactly
//! when `s` is a perfect square, and with a one-less numerator
//! otherwise, since then `sqrt(s)` lies strictly between `isqrt(s)` and
//! `isqrt(s) + 1`.

use vstd::prelude::*;
use crate::geom::{Position, dist_sq, dist_sq_exec, center_ok, lemma_dist_sq_nonneg,
    lemma_dist_sq_bound};
use crate::num::{isqrt, isqrt_u128, div_trunc, div_trunc_i32, lemma_isqrt_bounds,
    lemma_isqrt_monotone, lemma_isqrt_square};
use crate::projectile::Projectile;

verus! {

/// Combatants one resolution pass is willing to walk.
pub const MAX_COMBATANTS: usize = 65536;

/// Magnitude of the area-damage share for a half-damage of `h`, a
/// squared distance `dd` (in whole cells) and a radius `p` (in
/// thousandths), for a point inside the radius: the exact floor of
/// `h * (1 - sqrt(dd) * 1000 / p)`.
pub open spec fn falloff_mag(h: nat, dd: nat, p: nat) -> int {
    let s = ((1000 * h) * (1000 * h) * dd) as nat;
    let t = isqrt(s);
    let a = h * p;
    if s == t * t {
        (a - t) / (p as int)
    } else {
        (a - t - 1) / (p as int)
    }
}

/// Area damage dealt at squared distance `dd` from an explosion of
/// half-damage `h` and radius `radius` (thousandths of a cell): zero
/// outside the radius (exclusive of nothing: the boundary is inside,
/// and receives zero), the linear-falloff floor within, with the sign
/// of `h`.
pub open spec fn area_damage(h: int, dd: int, radius: u32) -> int {
    if radius == 0 || dd * 1_000_000 > (radius as int) * (radius as int) {
        0
    } else if h >= 0 {
        falloff_mag(h as nat, dd as nat, radius as nat)
    } else {
        -falloff_mag((-h) as nat, dd as nat, radius as nat)
    }
}

/// `falloff_mag`, executable. The half-damage is capped at `2^30` (half
/// of any `i32` damage fits) so the exact-root product stays in `u128`.
fn falloff_mag_exec(h: u32, dd: u128, p: u32) -> (m: u64)
    requires
        p > 0,
        h <= 0x4000_0000,
        1_000_000 * dd <= (p as int) * (p as int),
    ensures
        m == falloff_mag(h as nat, dd as nat, p as nat),
        m <= h,
{
    let b: u128 = 1000 * (h as u128);
    proof {
        assert((p as int) * (p as int) <= 0x1_0000_0000 * 0x1_0000_0000) by (nonlinear_arith)
            requires p as int <= 0x1_0000_0000;
        assert(dd <= 0x2000_0000_0000u128) by (nonlinear_arith)
            requires 1_000_000 * (dd as int) <= 0x1_0000_0000 * 0x1_0000_0000;
        assert(b * b <= 0x100_0000_0000u128 * 0x100_0000_0000u128) by (nonlinear_arith)
            requires b <= 0x100_0000_0000u128;
        assert((b * b) * dd <= (0x100_0000_0000u128 * 0x100_0000_0000u128)
            * 0x2000_0000_0000u128) by (nonlinear_arith)
            requires
                b * b <= 0x100_0000_0000u128 * 0x100_0000_0000u128,
                dd <= 0x2000_0000_0000u128,
        ;
    }
    let s = b * b * dd;
    let t = isqrt_u128(s);
    proof {
        assert((h as u128) * (p as u128) <= 0x4000_0000u128 * 0x1_0000_0000u128)
            by (nonlinear_arith)
            requires h as u128 <= 0x4000_0000u128, p as u128 <= 0x1_0000_0000u128;
    }
    let a: u128 = (h as u128) * (p as u128);
    proof {
        // Inside the radius the root never exceeds `h * p`.
        assert(s == ((h as int) * (h as int)) * (1_000_000 * dd)) by (nonlinear_arith)
            requires s == (1000 * (h as int)) * (1000 * (h as int)) * dd;
        assert(((h as int) * (h as int)) * (1_000_000 * dd) <= ((h as int) * (h as int)) * ((
        p as int) * (p as int))) by (nonlinear_arith)
            requires 1_000_000 * (dd as int) <= (p as int) * (p as int);
        assert(((h as int) * (h as int)) * ((p as int) * (p as int)) == a * a)
            by (nonlinear_arith)
            requires a == (h as int) * (p as int);
        lemma_isqrt_monotone(s as nat, (a * a) as nat);
        lemma_isqrt_square(a as nat);
    }
    let num = if s == t * t {
        a - t
    } else {
        proof {
            if t == a {
                lemma_isqrt_bounds(s as nat);
            }
        }
        a - t - 1
    };
    let m = num / (p as u128);
    proof {
        vstd::arithmetic::div_mod::lemma_div_is_ordered(num as int, a as int, p as int);
        vstd::arithmetic::mul::lemma_mul_is_commutative(h as int, p as int);
        vstd::arithmetic::div_mod::lemma_div_by_multiple(h as int, p as int);
        vstd::arithmetic::div_mod::lemma_div_pos_is_pos(num as int, p as int);
    }
    m as u64
}

/// `area_damage`, executable. The half-damage passed in is half of an
/// `i32` damage value, so its magnitude fits `2^30`.
pub fn area_damage_exec(h: i32, dd: u128, radius: u32) -> (r: i32)
    requires
        -0x4000_0000 <= h <= 0x4000_0000,
        dd <= 0x7000_0000_0000_0000_0000,
    ensures
        r == area_damage(h as int, dd as int, radius),
        h >= 0 ==> 0 <= r <= h,
        h < 0 ==> h <= r <= 0,
{
    if radius == 0 {
        return 0;
    }
    proof {
        assert((radius as u128) * (radius as u128) <= 0x1_0000_0000u128 * 0x1_0000_0000u128)
            by (nonlinear_arith)
            requires radius as u128 <= 0x1_0000_0000u128;
    }
    let r_sq = (radius as u128) * (radius as u128);
    if 1_000_000 * dd > r_sq {
        return 0;
    }
    if h >= 0 {
        let m = falloff_mag_exec(h as u32, dd, radius);
        m as i32
    } else {
        let m = falloff_mag_exec((-h) as u32, dd, radius);
        -(m as i32)
    }
}

/// Whether a projectile standing at `pos` hits combatant `t`: exact
/// cell match in the plane, and never the projectile's own shooter.
pub open spec fn is_hit(owner: u64, pos: Position, t: (u64, Position)) -> bool {
    t.0 != owner && t.1.x == pos.x && t.1.y == pos.y
}

/// How many combatants of `s` a projectile at `pos` hits.
pub open spec fn hit_count(owner: u64, pos: Position, s: Seq<(u64, Position)>) -> int
    decreases s.len(),
{
    if s.len() == 0 {
        0
    } else {
        hit_count(owner, pos, s.drop_last()) + if is_hit(owner, pos, s.last()) {
            1int
        } else {
            0int
        }
    }
}

/// Total damage combatant `j` takes from one resolution pass: the
/// direct projectile damage on an exact cell hit, plus — for explosive
/// projectiles — one area share per hit combatant, since every hit
/// detonates an area pass centered on the impact cell. The primary
/// target of an explosive hit therefore takes both the direct damage
/// and its own area share.
pub open spec fn impact_damage(
    proj: Projectile,
    pos: Position,
    s: Seq<(u64, Position)>,
    j: int,
) -> int {
    let direct: int = if is_hit(proj.owner, pos, s[j]) {
        proj.damage as int
    } else {
        0
    };
    let area: int = if proj.explosive {
        hit_count(proj.owner, pos, s) * area_damage(
            div_trunc(proj.damage as int, 2),
            dist_sq(pos, s[j].1),
            proj.explosion_radius,
        )
    } else {
        0
    };
    direct + area
}

/// What one resolution pass decides.
pub struct CollisionOutcome {
    /// Whether the projectile is destroyed: it struck a wall, or it hit
    /// a combatant and does not pierce.
    pub destroyed: bool,
    /// Damage per combatant, aligned with the input; empty when the
    /// projectile struck a wall, which preempts all combatant damage.
    pub damage: Vec<i64>,
}

/// One tick of collision resolution for one projectile. A wall at the
/// projectile's cell destroys it before any combatant check. Otherwise
/// every combatant on the projectile's cell (except its owner) takes
/// the direct damage; an explosive projectile additionally detonates
/// once per hit, each detonation dealing every combatant within the
/// explosion radius its linear-falloff share. The projectile survives
/// combatant hits only if it pierces.
pub fn projectile_collision(
    projectile: &Projectile,
    proj_pos: &Position,
    wall: bool,
    targets: &Vec<(u64, Position)>,
) -> (out: CollisionOutcome)
    requires
        targets@.len() <= MAX_COMBATANTS,
        center_ok(*proj_pos),
        forall|j: int| 0 <= j < targets@.len() ==> center_ok((#[trigger] targets@[j]).1),
    ensures
        wall ==> out.destroyed && out.damage@ =~= Seq::<i64>::empty(),
        !wall ==> {
            &&& out.damage@.len() == targets@.len()
            &&& forall|j: int| 0 <= j < targets@.len() ==> out.damage@[j] == impact_damage(
                *projectile,
                *proj_pos,
                targets@,
                j,
            )
            &&& out.destroyed == (hit_count(projectile.owner, *proj_pos, targets@) > 0
                && !projectile.piercing)
        },
{
    if wall {
        return CollisionOutcome { destroyed: true, damage: Vec::new() };
    }
    let hits = count_hits(projectile.owner, proj_pos, targets);
    let half = div_trunc_i32(projectile.damage, 2);
    let mut damage: Vec<i64> = Vec::new();
    let mut j: usize = 0;
    while j < targets.len()
        invariant
            j <= targets@.len() <= MAX_COMBATANTS,
            center_ok(*proj_pos),
            forall|k: int| 0 <= k < targets@.len() ==> center_ok((#[trigger] targets@[k]).1),
            hits == hit_count(projectile.owner, *proj_pos, targets@),
            0 <= hits <= targets@.len(),
            half == div_trunc(projectile.damage as int, 2),
            damage@.len() == j,
            forall|k: int| 0 <= k < j ==> damage@[k] == impact_damage(
                *projectile,
                *proj_pos,
                targets@,
                k,
            ),
        decreases targets@.len() - j,
    {
        let target = targets[j];
        let direct: i64 = if target.0 != projectile.owner && target.1.x == proj_pos.x
            && target.1.y == proj_pos.y {
            projectile.damage as i64
        } else {
            0
        };
        let area: i64 = if projectile.explosive {
            let dd = dist_sq_exec(proj_pos, &target.1);
            proof {
                lemma_dist_sq_nonneg(*proj_pos, target.1);
                lemma_dist_sq_bound(*proj_pos, target.1);
            }
            let share = area_damage_exec(half, dd, projectile.explosion_radius);
            proof {
                assert(
                    -(65536i64 * 0x8000_0000i64) <= (hits as i64) * (share as i64)
                    <= 65536i64 * 0x8000_0000i64
                ) by (nonlinear_arith)
                    requires
                        0 <= hits <= 65536int,
                        -0x8000_0000i64 <= share <= 0x8000_0000i64,
                ;
            }
            (hits as i64) * (share as i64)
        } else {
            0
        };
        damage.push(direct + area);
        j = j + 1;
    }
    CollisionOutcome {
        destroyed: hits > 0 && !projectile.piercing,
        damage,
    }
}

/// Counts the combatants on the projectile's cell, its owner excepted.
fn count_hits(owner: u64, pos: &Position, targets: &Vec<(u64, Position)>) -> (n: usize)
    requires
        targets@.len() <= MAX_COMBATANTS,
    ensures
        n == hit_count(owner, *pos, targets@),
        n <= targets@.len(),
{
    let mut n: usize = 0;
    let mut i: usize = 0;
    while i < targets.len()
        invariant
            i <= targets@.len() <= MAX_COMBATANTS,
            n == hit_count(owner, *pos, targets@.take(i as int)),
            n <= i,
        decreases targets@.len() - i,
    {
        proof {
            assert(targets@.take(i + 1).drop_last() =~= targets@.take(i as int));
            assert(targets@.take(i + 1).last() == targets@[i as int]);
        }
        let t = targets[i];
        if t.0 != owner && t.1.x == pos.x && t.1.y == pos.y {
            n = n + 1;
        }
        i = i + 1;
    }
    proof {
        assert(targets@.take(targets@.len() as int) =~= targets@);
    }
    n
}

// ------------------------------------------------------------------
// Laws of the damage rules.
// ------------------------------------------------------------------

/// At the epicenter the area share is the full half-damage:
/// `area_damage(h, 0, r) == h` for any positive radius.
pub proof fn lemma_area_damage_at_center(h: int, radius: u32)
    requires
        radius > 0,
        h >= 0,
    ensures
        area_damage(h, 0, radius) == h,
{
    let p = radius as nat;
    let hn = h as nat;
    assert((1000 * hn) * (1000 * hn) * 0 == 0) by (nonlinear_arith);
    assert(isqrt(0) == 0);
    vstd::arithmetic::mul::lemma_mul_is_commutative(h, radius as int);
    vstd::arithmetic::div_mod::lemma_div_by_multiple(h, radius as int);
}

/// On the radius boundary the area share vanishes:
/// `area_damage(h, dd, r) == 0` when `dd` is exactly the squared radius
/// in cells.
pub proof fn lemma_area_damage_at_edge(h: int, dd: int, radius: u32)
    requires
        radius > 0,
        h >= 0,
        dd >= 0,
        1_000_000 * dd == (radius as int) * (radius as int),
    ensures
        area_damage(h, dd, radius) == 0,
{
    let p = radius as int;
    let hn = h as nat;
    let ddn = dd as nat;
    let s = ((1000 * hn) * (1000 * hn) * ddn) as nat;
    let a = hn * (radius as nat);
    assert((1000 * hn) * (1000 * hn) * ddn == (hn * hn) * (1_000_000 * ddn))
        by (nonlinear_arith);
    assert((hn * hn) * (1_000_000 * ddn) == (hn * hn) * (p * p));
    assert((hn * hn) * (p * p) == a * a) by (nonlinear_arith)
        requires a == hn * p;
    lemma_isqrt_square(a as nat);
    assert(falloff_mag(hn, ddn, radius as nat) == (a - a) / p);
    vstd::arithmetic::div_mod::lemma_div_of0(p);
}

} // verus!
