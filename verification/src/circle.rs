//! Circle formation: units placed evenly around a ring whose radius
//! grows with the unit count.
//!
//! The ring lives on an integer grid, so each slot is the grid point
//! nearest the ideal ring position: the horizontal offset comes from a
//! rational approximation of the cosine (Bhaskara's `16x(1-x)` over
//! `5 - 4x(1-x)` on half-turns, accurate to about 0.002), and the
//! vertical offset is then read off the circle equation itself with an
//! integer square root. Pinning the second coordinate to the circle
//! equation keeps every emitted point within one cell of the ring
//! whatever the cosine approximation does.

use vstd::prelude::*;
use crate::geom::{Position, center_ok};
use crate::num::{isqrt, isqrt_u64, lemma_isqrt_bounds, lemma_isqrt_monotone, round_half_away,
    round_half_away_i64};
use crate::formation::MAX_FORMATION_UNITS;

verus! {

/// Cosine values are carried in millionths.
pub const COS_SCALE: u64 = 1_000_000;

/// Ring radius for `n` units, in thousandths of a grid unit:
/// `n / 6.28` cells, but never below 2 cells.
pub open spec fn radius_milli(n: nat) -> int {
    let grow = 25000 * n / 157;
    if grow > 2000 {
        grow as int
    } else {
        2000
    }
}

/// Squared ring radius in whole grid cells: `(radius / 1000)^2`,
/// carried as `radius_milli^2 / 10^6`.
pub open spec fn ring_sq(n: nat) -> int {
    radius_milli(n) * radius_milli(n) / 1_000_000
}

/// Bhaskara's sine approximation in millionths, for an angle of
/// `p / q` half-turns with `0 <= p <= q`.
pub open spec fn bhaskara_milli(p: nat, q: nat) -> int {
    let u = (p * ((q - p) as nat)) as int;
    16 * u * 1_000_000 / (5 * (q as int * q as int) - 4 * u)
}

/// Approximate cosine of `2 * pi * i / n` in millionths: the sine of the
/// angle shifted a quarter turn, negated on the second half-turn.
pub open spec fn circle_cos(n: nat, i: nat) -> int {
    let q = 2 * n;
    let p = (4 * i + n) % (4 * n);
    if p <= q {
        bhaskara_milli(p, q)
    } else {
        -bhaskara_milli((p - q) as nat, q)
    }
}

/// Horizontal ring offset of slot `i`: the cosine scaled to the radius,
/// rounded to the nearest cell and clamped into the ring's extent.
pub open spec fn circle_x(n: nat, i: nat) -> int {
    let g = isqrt(ring_sq(n) as nat) as int;
    let raw = round_half_away(radius_milli(n) * circle_cos(n, i), 1_000_000_000);
    if raw > g {
        g
    } else if raw < -g {
        -g
    } else {
        raw
    }
}

/// Vertical ring offset of slot `i`, read off the circle equation:
/// `sqrt(ring_sq - x^2)`, negative on the second half of the ring.
pub open spec fn circle_y(n: nat, i: nat) -> int {
    let x = circle_x(n, i);
    let s = isqrt((ring_sq(n) - x * x) as nat) as int;
    if 2 * i <= n {
        s
    } else {
        -s
    }
}

/// The ring slot for unit `i` of `n`, centered on `c`.
pub open spec fn circle_slot(n: nat, c: Position, i: nat) -> Position {
    Position {
        x: (c.x + circle_x(n, i)) as i32,
        y: (c.y + circle_y(n, i)) as i32,
        z: c.z,
    }
}

/// Ring radius in thousandths of a cell, executable.
fn radius_milli_exec(n: usize) -> (r: u64)
    requires
        n <= MAX_FORMATION_UNITS,
    ensures
        r == radius_milli(n as nat),
        2000 <= r <= 11_000_000,
{
    let grow = (25000u64 * n as u64) / 157;
    if grow > 2000 {
        grow
    } else {
        2000
    }
}

/// Bhaskara's sine approximation, executable. The result never exceeds
/// the scale: `16 p (q - p) <= 5 q^2 - 4 p (q - p)` because
/// `4 p (q - p) <= q^2`.
fn bhaskara_exec(p: u64, q: u64) -> (v: u64)
    requires
        0 < q <= 0x4_0000,
        p <= q,
    ensures
        v == bhaskara_milli(p as nat, q as nat),
        v <= COS_SCALE,
{
    proof {
        assert(p * (q - p) <= 0x4_0000u64 * 0x4_0000u64) by (nonlinear_arith)
            requires p <= 0x4_0000u64 && q - p <= 0x4_0000u64;
        assert(4 * (p * (q - p)) <= q * q) by (nonlinear_arith)
            requires p <= q;
        assert(q * q <= 0x4_0000u64 * 0x4_0000u64) by (nonlinear_arith)
            requires q <= 0x4_0000u64;
        assert(q * q > 0) by (nonlinear_arith)
            requires q > 0;
    }
    let u = p * (q - p);
    let num = 16 * u * 1_000_000;
    let den = 5 * (q * q) - 4 * u;
    let v = num / den;
    proof {
        // num <= COS_SCALE * den, so the quotient stays within scale.
        assert(16 * u <= den);
        vstd::arithmetic::div_mod::lemma_div_is_ordered(
            num as int,
            1_000_000 * (den as int),
            den as int,
        );
        vstd::arithmetic::div_mod::lemma_div_by_multiple(1_000_000, den as int);
    }
    v
}

/// Approximate cosine in millionths, executable.
fn circle_cos_exec(n: usize, i: usize) -> (c: i64)
    requires
        1 <= n <= MAX_FORMATION_UNITS,
        i < n,
    ensures
        c == circle_cos(n as nat, i as nat),
        -1_000_000 <= c <= 1_000_000,
{
    let q = 2 * (n as u64);
    let m = 4 * (n as u64);
    let p = (4 * (i as u64) + n as u64) % m;
    proof {
        vstd::arithmetic::div_mod::lemma_mod_division_less_than_divisor(
            (4 * (i as u64) + n as u64) as int,
            m as int,
        );
    }
    if p <= q {
        bhaskara_exec(p, q) as i64
    } else {
        -(bhaskara_exec(p - q, q) as i64)
    }
}

/// Ring offsets of slot `i` of `n` units, executable. Offsets stay
/// within 11000 cells of the center.
fn circle_offset(n: usize, i: usize) -> (o: (i32, i32))
    requires
        1 <= n <= MAX_FORMATION_UNITS,
        i < n,
    ensures
        o.0 == circle_x(n as nat, i as nat),
        o.1 == circle_y(n as nat, i as nat),
        -11000 <= o.0 <= 11000,
        -11000 <= o.1 <= 11000,
{
    let r_m = radius_milli_exec(n);
    proof {
        assert(r_m * r_m <= 11_000_000u64 * 11_000_000u64) by (nonlinear_arith)
            requires r_m <= 11_000_000u64;
    }
    let t = (r_m * r_m) / 1_000_000;
    proof {
        vstd::arithmetic::div_mod::lemma_div_is_ordered(
            (r_m * r_m) as int,
            (11_000_000u64 * 11_000_000u64) as int,
            1_000_000,
        );
    }
    let g = isqrt_u64(t);
    proof {
        assert(g * g <= t);
        assert(g <= 11000) by (nonlinear_arith)
            requires g * g <= 121_000_000u64;
    }
    let c = circle_cos_exec(n, i);
    proof {
        assert(
            (r_m as i64) * c <= 11_000_000i64 * 1_000_000i64
            && (r_m as i64) * c >= -(11_000_000i64 * 1_000_000i64)
        ) by (nonlinear_arith)
            requires 0 <= r_m <= 11_000_000u64 && -1_000_000 <= c <= 1_000_000i64;
    }
    let raw = round_half_away_i64((r_m as i64) * c, 1_000_000_000);
    let gi = g as i64;
    let x: i64 = if raw > gi {
        gi
    } else if raw < -gi {
        -gi
    } else {
        raw
    };
    proof {
        assert(0 <= x * x <= g * g) by (nonlinear_arith)
            requires -(g as i64) <= x <= g as i64;
    }
    let rest = t - ((x * x) as u64);
    let ys = isqrt_u64(rest);
    proof {
        lemma_isqrt_monotone(rest as nat, t as nat);
    }
    let y: i64 = if 2 * (i as u64) <= n as u64 {
        ys as i64
    } else {
        -(ys as i64)
    };
    (x as i32, y as i32)
}

/// Positions on a ring of radius `max(n / 6.28, 2)` cells around the
/// center, one per unit, evenly spread.
pub fn circle_formation(num_units: usize, center: &Position) -> (r: Vec<Position>)
    requires
        num_units <= MAX_FORMATION_UNITS,
        center_ok(*center),
    ensures
        r@.len() == num_units,
        forall|i: int| 0 <= i < num_units ==> r@[i] == circle_slot(
            num_units as nat,
            *center,
            i as nat,
        ),
{
    let mut positions: Vec<Position> = Vec::new();
    let mut i: usize = 0;
    while i < num_units
        invariant
            i <= num_units <= MAX_FORMATION_UNITS,
            center_ok(*center),
            positions@.len() == i,
            forall|j: int| 0 <= j < i ==> positions@[j] == circle_slot(
                num_units as nat,
                *center,
                j as nat,
            ),
        decreases num_units - i,
    {
        let off = circle_offset(num_units, i);
        positions.push(Position {
            x: center.x + off.0,
            y: center.y + off.1,
            z: center.z,
        });
        i = i + 1;
    }
    positions
}

/// Every circle slot lies on the ring up to grid rounding: its squared
/// distance from the center is at most the squared ring radius and
/// falls short of it by less than `2 * sqrt(ring_sq) + 1`, i.e. the
/// distance itself is within one cell of the ring radius.
pub proof fn lemma_circle_on_ring(n: nat, i: nat)
    requires
        1 <= n <= MAX_FORMATION_UNITS,
        i < n,
    ensures
        circle_x(n, i) * circle_x(n, i) + circle_y(n, i) * circle_y(n, i) <= ring_sq(n),
        circle_x(n, i) * circle_x(n, i) + circle_y(n, i) * circle_y(n, i)
            > ring_sq(n) - 2 * isqrt(ring_sq(n) as nat) - 1,
        ring_sq(n) >= 4,
{
    let t = ring_sq(n);
    let g = isqrt(t as nat) as int;
    let x = circle_x(n, i);
    let y = circle_y(n, i);
    assert(radius_milli(n) >= 2000);
    assert(t >= 4) by (nonlinear_arith)
        requires radius_milli(n) >= 2000, t == radius_milli(n) * radius_milli(n) / 1_000_000,
    ;
    lemma_isqrt_bounds(t as nat);
    assert(-g <= x <= g);
    assert(0 <= x * x <= g * g) by (nonlinear_arith)
        requires -g <= x <= g;
    let rest = (t - x * x) as nat;
    let s = isqrt(rest);
    lemma_isqrt_bounds(rest);
    lemma_isqrt_monotone(rest, t as nat);
    assert(y == s || y == -s);
    assert(y * y == s * s) by (nonlinear_arith)
        requires y == s || y == -s;
    assert(rest < (s + 1) * (s + 1));
    assert(rest <= s * s + 2 * s) by (nonlinear_arith)
        requires rest < (s + 1) * (s + 1);
}

} // verus!
