//! Weapon targeting: a ranged attacker without a target scans the
//! attackable entities and picks the nearest one within weapon range.
//! Self-targeting is excluded, and ties go to the candidate encountered
//! first in scan order.

use vstd::prelude::*;
use crate::geom::{Position, dist_sq, dist_sq_exec, center_ok, lemma_dist_sq_nonneg,
    lemma_dist_sq_bound};
use crate::collision::MAX_COMBATANTS;

verus! {

/// Whether candidate `t` may be targeted by `shooter` standing at
/// `pos`: not the shooter itself, and within `range` (thousandths of a
/// cell, boundary included).
pub open spec fn targetable(shooter: u64, pos: Position, range: u32, t: (u64, Position)) -> bool {
    t.0 != shooter && dist_sq(pos, t.1) * 1_000_000 <= (range as int) * (range as int)
}

/// The nearest targetable candidate of `s` with its squared distance,
/// scanning left to right; a strictly closer candidate displaces the
/// incumbent, so among ties the earliest wins.
pub open spec fn nearest_target(
    shooter: u64,
    pos: Position,
    range: u32,
    s: Seq<(u64, Position)>,
) -> Option<(u64, int)>
    decreases s.len(),
{
    if s.len() == 0 {
        Option::None
    } else {
        let prev = nearest_target(shooter, pos, range, s.drop_last());
        let t = s.last();
        let dd = dist_sq(pos, t.1);
        if targetable(shooter, pos, range, t) {
            match prev {
                Option::None => Option::Some((t.0, dd)),
                Option::Some(b) => if dd < b.1 {
                    Option::Some((t.0, dd))
                } else {
                    prev
                },
            }
        } else {
            prev
        }
    }
}

/// The entity the targeting pass selects, if any.
pub open spec fn selected_target(
    shooter: u64,
    pos: Position,
    range: u32,
    s: Seq<(u64, Position)>,
) -> Option<u64> {
    match nearest_target(shooter, pos, range, s) {
        Option::Some(b) => Option::Some(b.0),
        Option::None => Option::None,
    }
}

/// What the targeting pass selects is sound: when nothing is returned,
/// no candidate was targetable; when a candidate is returned, it is a
/// targetable candidate and no targetable candidate is strictly nearer.
pub proof fn lemma_targeting_sound(shooter: u64, pos: Position, range: u32, s: Seq<(u64, Position)>)
    ensures
        nearest_target(shooter, pos, range, s) is None ==> forall|j: int|
            0 <= j < s.len() ==> !targetable(shooter, pos, range, #[trigger] s[j]),
        nearest_target(shooter, pos, range, s) matches Option::Some(b) ==> {
            &&& exists|i: int|
                0 <= i < s.len() && targetable(shooter, pos, range, #[trigger] s[i])
                    && s[i].0 == b.0 && dist_sq(pos, s[i].1) == b.1
            &&& forall|j: int|
                0 <= j < s.len() && targetable(shooter, pos, range, #[trigger] s[j])
                    ==> b.1 <= dist_sq(pos, s[j].1)
        },
    decreases s.len(),
{
    if s.len() > 0 {
        let rest = s.drop_last();
        lemma_targeting_sound(shooter, pos, range, rest);
        assert(forall|j: int| 0 <= j < s.len() - 1 ==> #[trigger] s[j] == rest[j]);
        let t = s.last();
        let dd = dist_sq(pos, t.1);
        let prev = nearest_target(shooter, pos, range, rest);
        let cur = nearest_target(shooter, pos, range, s);
        if targetable(shooter, pos, range, t) {
            match prev {
                Option::None => {
                    assert(cur == Option::Some((t.0, dd)));
                    assert(targetable(shooter, pos, range, s[s.len() - 1]));
                },
                Option::Some(p) => {
                    if dd < p.1 {
                        assert(cur == Option::Some((t.0, dd)));
                        assert(targetable(shooter, pos, range, s[s.len() - 1]));
                        assert(forall|j: int|
                            0 <= j < s.len() && targetable(shooter, pos, range, #[trigger] s[j])
                                ==> dd <= dist_sq(pos, s[j].1));
                    } else {
                        assert(cur == prev);
                        let i = choose|i: int|
                            0 <= i < rest.len() && targetable(shooter, pos, range,
                                #[trigger] rest[i]) && rest[i].0 == p.0
                                && dist_sq(pos, rest[i].1) == p.1;
                        assert(s[i] == rest[i]);
                        assert(targetable(shooter, pos, range, s[i]) && s[i].0 == p.0
                            && dist_sq(pos, s[i].1) == p.1);
                    }
                },
            }
        } else {
            assert(cur == prev);
            match prev {
                Option::None => {
                    assert(forall|j: int|
                        0 <= j < s.len() ==> !targetable(shooter, pos, range, #[trigger] s[j]));
                },
                Option::Some(p) => {
                    let i = choose|i: int|
                        0 <= i < rest.len() && targetable(shooter, pos, range, #[trigger] rest[i])
                            && rest[i].0 == p.0 && dist_sq(pos, rest[i].1) == p.1;
                    assert(s[i] == rest[i]);
                    assert(targetable(shooter, pos, range, s[i]) && s[i].0 == p.0
                        && dist_sq(pos, s[i].1) == p.1);
                },
            }
        }
    }
}

/// Scans the attackable candidates and selects the nearest one within
/// `range` of `pos`, the shooter itself excluded; among equally near
/// candidates the one encountered first is kept. Returns `None` when no
/// candidate qualifies; on success the caller attaches the targeting
/// relation and switches the attacker to its combat task.
pub fn ranged_targeting(
    shooter: u64,
    pos: &Position,
    range: u32,
    candidates: &Vec<(u64, Position)>,
) -> (r: Option<u64>)
    requires
        candidates@.len() <= MAX_COMBATANTS,
        center_ok(*pos),
        forall|j: int| 0 <= j < candidates@.len() ==> center_ok((#[trigger] candidates@[j]).1),
    ensures
        r == selected_target(shooter, *pos, range, candidates@),
{
    proof {
        assert((range as int) * (range as int) <= 0x1_0000_0000u128 * 0x1_0000_0000u128)
            by (nonlinear_arith)
            requires range as int <= 0x1_0000_0000;
    }
    let range_sq: u128 = (range as u128) * (range as u128);
    let mut best: Option<(u64, u128)> = None;
    let mut i: usize = 0;
    while i < candidates.len()
        invariant
            i <= candidates@.len() <= MAX_COMBATANTS,
            center_ok(*pos),
            forall|j: int| 0 <= j < candidates@.len() ==> center_ok(
                (#[trigger] candidates@[j]).1,
            ),
            range_sq == (range as int) * (range as int),
            match best {
                Option::Some(b) => nearest_target(shooter, *pos, range, candidates@.take(i as int))
                    == Option::Some((b.0, b.1 as int)),
                Option::None => nearest_target(shooter, *pos, range, candidates@.take(i as int))
                    is None,
            },
        decreases candidates@.len() - i,
    {
        proof {
            assert(candidates@.take(i + 1).drop_last() =~= candidates@.take(i as int));
            assert(candidates@.take(i + 1).last() == candidates@[i as int]);
            lemma_dist_sq_nonneg(*pos, candidates@[i as int].1);
            lemma_dist_sq_bound(*pos, candidates@[i as int].1);
        }
        let t = candidates[i];
        if t.0 != shooter {
            let dd = dist_sq_exec(pos, &t.1);
            if dd * 1_000_000 <= range_sq {
                best = match best {
                    None => Some((t.0, dd)),
                    Some(b) => if dd < b.1 {
                        Some((t.0, dd))
                    } else {
                        Some(b)
                    },
                };
            }
        }
        i = i + 1;
    }
    proof {
        assert(candidates@.take(candidates@.len() as int) =~= candidates@);
    }
    match best {
        Some(b) => Some(b.0),
        None => None,
    }
}

} // verus!
