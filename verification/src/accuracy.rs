//! Accuracy of a ranged shot: the base weapon accuracy discounted for
//! distance (down to half at maximum range), boosted by the shooter's
//! skill (5% a level) and scaled by the weather, rolled against a
//! uniform draw.
//!
//! All factors are rationals over thousandths, so the roll comparison
//! clears its denominators instead of rounding: with a roll in
//! millionths of one, a hit is exactly
//! `roll * 2 * range * 1000 < base * (2 * range - distance)
//!  * (1000 + 50 * skill) * weather`.

use vstd::prelude::*;
use crate::rng::rand_i32_between;

verus! {

/// Whether a given roll (in millionths, uniform over `0..1_000_000`)
/// passes the accuracy check for the given shot parameters (all in
/// thousandths but the bare skill level).
pub open spec fn accuracy_hit_spec(
    roll: u32,
    base_accuracy: u32,
    distance: u32,
    max_range: u32,
    skill_level: i32,
    weather_modifier: u32,
) -> bool {
    (roll as int) * (2 * (max_range as int)) * 1000 < (base_accuracy as int) * (2 * (
    max_range as int) - distance) * (1000 + 50 * (skill_level as int)) * (weather_modifier as int)
}

/// The exact roll comparison, executable.
pub fn accuracy_hit(
    roll: u32,
    base_accuracy: u32,
    distance: u32,
    max_range: u32,
    skill_level: i32,
    weather_modifier: u32,
) -> (r: bool)
    requires
        base_accuracy <= 1000,
        weather_modifier <= 1_000_000,
        -1_000_000 <= skill_level <= 1_000_000,
    ensures
        r == accuracy_hit_spec(
            roll,
            base_accuracy,
            distance,
            max_range,
            skill_level,
            weather_modifier,
        ),
{
    let two_range: i128 = 2 * (max_range as i128);
    proof {
        assert(
            0 <= (roll as i128) * two_range <= 0x1_0000_0000i128 * 0x2_0000_0000i128
        ) by (nonlinear_arith)
            requires 0 <= roll as i128 <= 0x1_0000_0000i128, 0 <= two_range <= 0x2_0000_0000i128;
    }
    let lhs: i128 = (roll as i128) * two_range * 1000;
    let gap: i128 = two_range - (distance as i128);
    proof {
        assert(
            -(1000i128 * 0x2_0000_0000i128) <= (base_accuracy as i128) * gap
            <= 1000i128 * 0x2_0000_0000i128
        ) by (nonlinear_arith)
            requires
                0 <= base_accuracy as i128 <= 1000i128,
                -0x1_0000_0000i128 <= gap <= 0x2_0000_0000i128,
        ;
    }
    let m1: i128 = (base_accuracy as i128) * gap;
    let lift: i128 = 1000 + 50 * (skill_level as i128);
    proof {
        assert(
            -(0x2_0000_0000_0000i128 * 0x4_0000_0000i128) <= m1 * lift
            <= 0x2_0000_0000_0000i128 * 0x4_0000_0000i128
        ) by (nonlinear_arith)
            requires
                -0x2_0000_0000_0000i128 <= m1 <= 0x2_0000_0000_0000i128,
                -0x4_0000_0000i128 <= lift <= 0x4_0000_0000i128,
        ;
        assert(
            -(0x8_0000_0000_0000_0000_0000i128 * 0x10_0000i128) <= (m1 * lift) * (
            weather_modifier as i128) <= 0x8_0000_0000_0000_0000_0000i128 * 0x10_0000i128
        ) by (nonlinear_arith)
            requires
                -0x8_0000_0000_0000_0000_0000i128 <= m1 * lift
                    <= 0x8_0000_0000_0000_0000_0000i128,
                0 <= weather_modifier as i128 <= 0x10_0000i128,
        ;
    }
    let rhs: i128 = m1 * lift * (weather_modifier as i128);
    lhs < rhs
}

/// One accuracy roll for a shot: draws a uniform roll in millionths and
/// compares it against the shot's exact accuracy. The outcome depends
/// on the draw, but whatever comes back: a shot that not even a zero
/// roll would land always misses, and one that even the largest roll
/// lands always hits.
pub fn apply_accuracy(
    base_accuracy: u32,
    distance: u32,
    max_range: u32,
    skill_level: i32,
    weather_modifier: u32,
) -> (r: bool)
    requires
        base_accuracy <= 1000,
        weather_modifier <= 1_000_000,
        -1_000_000 <= skill_level <= 1_000_000,
    ensures
        !accuracy_hit_spec(0, base_accuracy, distance, max_range, skill_level, weather_modifier)
            ==> !r,
        accuracy_hit_spec(
            999_999,
            base_accuracy,
            distance,
            max_range,
            skill_level,
            weather_modifier,
        ) ==> r,
{
    let roll = rand_i32_between(0, 999_999) as u32;
    let hit = accuracy_hit(roll, base_accuracy, distance, max_range, skill_level,
        weather_modifier);
    proof {
        let rr = roll as int;
        let tr = 2 * (max_range as int);
        assert(0 <= rr * tr * 1000) by (nonlinear_arith)
            requires rr >= 0, tr >= 0;
        assert(rr * tr * 1000 <= 999_999 * tr * 1000) by (nonlinear_arith)
            requires 0 <= rr <= 999_999, tr >= 0;
    }
    hit
}

} // verus!
