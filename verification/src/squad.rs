//! Squad management: group membership, formation and stance state, the
//! per-tick cohesion sweep that prunes dead members and measures squad
//! spread, and the assignment of formation positions to members.
//!
//! Entities are referred to by stable numeric handles; resolving a
//! handle to a live position (or to nothing, for a dead entity) is the
//! caller's side of the bargain, so the sweep takes each member paired
//! with its resolved position.

use vstd::prelude::*;
use crate::geom::{Position, Vec2Milli, COORD_LIMIT, center_ok};
use crate::num::{div_trunc, div_trunc_i64};
use crate::formation::{FormationType, CombatStance, FormationCalculator, formation_slot,
    scattered_near, MAX_FORMATION_UNITS};

verus! {

/// A managed group of combat entities sharing a formation and a stance.
pub struct Squad {
    pub squad_id: u32,
    pub members: Vec<u64>,
    pub formation: FormationType,
    pub stance: CombatStance,
    pub rally_point: Option<Position>,
    pub leader: Option<u64>,
}

/// Per-member formation state: the owning squad, the offset from the
/// formation center, and the rank (0 = front line, higher = rear).
pub struct FormationPosition {
    pub squad_id: u32,
    pub relative_position: Vec2Milli,
    pub rank: i32,
}

/// Orders a squad can be given.
pub enum SquadCommand {
    MoveTo(Position),
    AttackMove(Position),
    AttackTarget(u64),
    Patrol(Vec<Position>),
    Hold,
    Follow(u64),
    SetFormation(FormationType),
    SetStance(CombatStance),
    Garrison(u64),
    Split,
    Merge(u32),
}

/// Builds a squad from an initial member list: Aggressive stance, no
/// rally point, the first member as leader, and one formation-position
/// record per member with rank `index / 4` (the four-wide phalanx
/// convention) and a zero offset, to be filled in by position
/// assignment.
pub fn create_squad(squad_id: u32, members: Vec<u64>, formation: FormationType) -> (r: (
    Squad,
    Vec<FormationPosition>,
))
    requires
        members@.len() <= MAX_FORMATION_UNITS,
    ensures
        r.0.squad_id == squad_id,
        r.0.members@ == members@,
        r.0.formation == formation,
        r.0.stance == CombatStance::Aggressive,
        r.0.rally_point is None,
        r.0.leader == if members@.len() == 0 {
            Option::<u64>::None
        } else {
            Option::Some(members@[0])
        },
        r.1@.len() == members@.len(),
        forall|i: int| 0 <= i < members@.len() ==> {
            &&& (#[trigger] r.1@[i]).squad_id == squad_id
            &&& r.1@[i].rank == i / 4
            &&& r.1@[i].relative_position == Vec2Milli::zero_spec()
        },
{
    let mut records: Vec<FormationPosition> = Vec::new();
    let mut i: usize = 0;
    while i < members.len()
        invariant
            i <= members@.len() <= MAX_FORMATION_UNITS,
            records@.len() == i,
            forall|j: int| 0 <= j < i ==> {
                &&& (#[trigger] records@[j]).squad_id == squad_id
                &&& records@[j].rank == j / 4
                &&& records@[j].relative_position == Vec2Milli::zero_spec()
            },
        decreases members@.len() - i,
    {
        records.push(FormationPosition {
            squad_id,
            relative_position: Vec2Milli::zero(),
            rank: (i / 4) as i32,
        });
        i = i + 1;
    }
    let leader = if members.len() == 0 {
        None
    } else {
        Some(members[0])
    };
    let squad = Squad {
        squad_id,
        members,
        formation,
        stance: CombatStance::Aggressive,
        rally_point: None,
        leader,
    };
    (squad, records)
}

// ------------------------------------------------------------------
// Cohesion sweep.
// ------------------------------------------------------------------

/// The members whose entities still resolve, in order, with their
/// positions.
pub open spec fn live_members(s: Seq<(u64, Option<Position>)>) -> Seq<(u64, Position)>
    decreases s.len(),
{
    if s.len() == 0 {
        Seq::empty()
    } else {
        let rest = live_members(s.drop_last());
        match s.last().1 {
            Option::Some(p) => rest.push((s.last().0, p)),
            Option::None => rest,
        }
    }
}

pub open spec fn sum_x(s: Seq<(u64, Position)>) -> int
    decreases s.len(),
{
    if s.len() == 0 {
        0
    } else {
        sum_x(s.drop_last()) + s.last().1.x
    }
}

pub open spec fn sum_y(s: Seq<(u64, Position)>) -> int
    decreases s.len(),
{
    if s.len() == 0 {
        0
    } else {
        sum_y(s.drop_last()) + s.last().1.y
    }
}

/// Arithmetic-mean center of the retained members, truncated toward
/// zero as the machine division does.
pub open spec fn sweep_center_x(s: Seq<(u64, Position)>) -> int {
    div_trunc(sum_x(s), s.len() as int)
}

pub open spec fn sweep_center_y(s: Seq<(u64, Position)>) -> int {
    div_trunc(sum_y(s), s.len() as int)
}

/// Squared distance of member `t` from the point `(cx, cy)`.
pub open spec fn off_center_sq(t: (u64, Position), cx: int, cy: int) -> int {
    (t.1.x - cx) * (t.1.x - cx) + (t.1.y - cy) * (t.1.y - cy)
}

/// Whether a squad of retained members is spread too far: some member
/// sits more than 10 cells (exclusive) from the mean center. Squads of
/// fewer than two members are never flagged.
pub open spec fn spread_exceeded(s: Seq<(u64, Position)>) -> bool {
    s.len() >= 2 && exists|i: int|
        0 <= i < s.len() && off_center_sq(
            #[trigger] s[i],
            sweep_center_x(s),
            sweep_center_y(s),
        ) > 100
}

/// Result of the per-tick cohesion sweep.
pub struct SweepOutcome {
    /// The members whose entities still resolve, with their positions.
    pub members: Vec<(u64, Position)>,
    /// Whether the squad must regroup: its spread exceeds 10 cells.
    pub needs_regroup: bool,
}

impl SweepOutcome {
    /// The retained member handles, in squad order.
    pub fn member_ids(&self) -> (r: Vec<u64>)
        ensures
            r@ == self.members@.map_values(|t: (u64, Position)| t.0),
    {
        let mut ids: Vec<u64> = Vec::new();
        let mut i: usize = 0;
        while i < self.members.len()
            invariant
                i <= self.members@.len(),
                ids@ == self.members@.take(i as int).map_values(|t: (u64, Position)| t.0),
            decreases self.members@.len() - i,
        {
            ids.push(self.members[i].0);
            proof {
                assert(self.members@.take(i + 1).map_values(|t: (u64, Position)| t.0)
                    =~= self.members@.take(i as int).map_values(
                        |t: (u64, Position)| t.0,
                    ).push(self.members@[i as int].0));
            }
            i = i + 1;
        }
        proof {
            assert(self.members@.take(self.members@.len() as int) =~= self.members@);
        }
        ids
    }
}

/// The per-tick cohesion sweep. Each entry pairs a squad member with
/// its resolved position, `None` where the entity died or despawned.
/// Members that no longer resolve are pruned, in order; if at least two
/// remain, the squad is flagged for regroup exactly when some member
/// sits more than 10 cells from the arithmetic-mean center.
pub fn squad_cohesion_sweep(entries: &Vec<(u64, Option<Position>)>) -> (out: SweepOutcome)
    requires
        entries@.len() <= MAX_FORMATION_UNITS,
        forall|i: int| 0 <= i < entries@.len() ==> ((#[trigger] entries@[i]).1 matches
            Option::Some(p) ==> center_ok(p)),
    ensures
        out.members@ == live_members(entries@),
        out.needs_regroup == spread_exceeded(live_members(entries@)),
{
    let ghost all = entries@;
    let mut live: Vec<(u64, Position)> = Vec::new();
    let mut i: usize = 0;
    while i < entries.len()
        invariant
            i <= all.len() <= MAX_FORMATION_UNITS,
            all == entries@,
            forall|j: int| 0 <= j < all.len() ==> ((#[trigger] all[j]).1 matches
                Option::Some(p) ==> center_ok(p)),
            live@ == live_members(all.take(i as int)),
            live@.len() <= i,
            forall|j: int| 0 <= j < live@.len() ==> center_ok((#[trigger] live@[j]).1),
        decreases all.len() - i,
    {
        proof {
            assert(all.take(i + 1).drop_last() =~= all.take(i as int));
            assert(all.take(i + 1).last() == all[i as int]);
        }
        match entries[i].1 {
            Some(p) => {
                live.push((entries[i].0, p));
            },
            None => {},
        }
        i = i + 1;
    }
    proof {
        assert(all.take(all.len() as int) =~= all);
    }
    let needs_regroup = if live.len() >= 2 {
        spread_check(&live)
    } else {
        false
    };
    SweepOutcome { members: live, needs_regroup }
}

/// Whether some member sits more than 10 cells from the mean center of
/// `live`, which must hold at least two members.
fn spread_check(live: &Vec<(u64, Position)>) -> (r: bool)
    requires
        2 <= live@.len() <= MAX_FORMATION_UNITS,
        forall|j: int| 0 <= j < live@.len() ==> center_ok((#[trigger] live@[j]).1),
    ensures
        r == spread_exceeded(live@),
{
    let mut sx: i64 = 0;
    let mut sy: i64 = 0;
    let mut i: usize = 0;
    while i < live.len()
        invariant
            i <= live@.len() <= MAX_FORMATION_UNITS,
            forall|j: int| 0 <= j < live@.len() ==> center_ok((#[trigger] live@[j]).1),
            sx == sum_x(live@.take(i as int)),
            sy == sum_y(live@.take(i as int)),
            -(i as int) * (COORD_LIMIT as int) <= sx <= (i as int) * (COORD_LIMIT as int),
            -(i as int) * (COORD_LIMIT as int) <= sy <= (i as int) * (COORD_LIMIT as int),
        decreases live@.len() - i,
    {
        proof {
            assert(live@.take(i + 1).drop_last() =~= live@.take(i as int));
            assert(live@.take(i + 1).last() == live@[i as int]);
        }
        sx = sx + live[i].1.x as i64;
        sy = sy + live[i].1.y as i64;
        i = i + 1;
    }
    proof {
        assert(live@.take(live@.len() as int) =~= live@);
    }
    let n = live.len() as i64;
    let cx = div_trunc_i64(sx, n);
    let cy = div_trunc_i64(sy, n);
    proof {
        crate::num::lemma_div_trunc_bound(sx as int, n as int, COORD_LIMIT as int);
        crate::num::lemma_div_trunc_bound(sy as int, n as int, COORD_LIMIT as int);
    }
    let mut exceeded = false;
    let mut k: usize = 0;
    while k < live.len()
        invariant
            k <= live@.len(),
            forall|j: int| 0 <= j < live@.len() ==> center_ok((#[trigger] live@[j]).1),
            -(COORD_LIMIT as int) <= cx <= COORD_LIMIT as int,
            -(COORD_LIMIT as int) <= cy <= COORD_LIMIT as int,
            cx == sweep_center_x(live@),
            cy == sweep_center_y(live@),
            exceeded == exists|j: int|
                0 <= j < k && off_center_sq(#[trigger] live@[j], cx as int, cy as int) > 100,
        decreases live@.len() - k,
    {
        let dx = live[k].1.x as i64 - cx;
        let dy = live[k].1.y as i64 - cy;
        proof {
            assert(dx * dx <= 2_000_000_000i64 * 2_000_000_000i64 && dx * dx >= 0)
                by (nonlinear_arith)
                requires -2_000_000_000i64 <= dx <= 2_000_000_000i64;
            assert(dy * dy <= 2_000_000_000i64 * 2_000_000_000i64 && dy * dy >= 0)
                by (nonlinear_arith)
                requires -2_000_000_000i64 <= dy <= 2_000_000_000i64;
        }
        if dx * dx + dy * dy > 100 {
            exceeded = true;
        }
        k = k + 1;
    }
    exceeded
}

/// Cohesion sweeps are idempotent: sweeping a squad whose members all
/// resolve (as the survivors of a sweep do, while nothing changes)
/// retains every member, so a second sweep yields the same member list
/// and the same regroup flag as the first.
pub proof fn lemma_sweep_idempotent(entries: Seq<(u64, Option<Position>)>)
    ensures
        live_members(
            live_members(entries).map_values(|t: (u64, Position)| (t.0, Option::Some(t.1))),
        ) == live_members(entries),
        spread_exceeded(
            live_members(
                live_members(entries).map_values(|t: (u64, Position)| (t.0, Option::Some(t.1))),
            ),
        ) == spread_exceeded(live_members(entries)),
{
    lemma_live_members_of_resolved(live_members(entries));
}

/// A member list whose entries all resolve survives a sweep unchanged.
proof fn lemma_live_members_of_resolved(s: Seq<(u64, Position)>)
    ensures
        live_members(s.map_values(|t: (u64, Position)| (t.0, Option::Some(t.1)))) == s,
    decreases s.len(),
{
    let f = |t: (u64, Position)| (t.0, Option::Some(t.1));
    if s.len() == 0 {
        assert(s.map_values(f) =~= Seq::<(u64, Option<Position>)>::empty());
        assert(live_members(s.map_values(f)) =~= s);
    } else {
        lemma_live_members_of_resolved(s.drop_last());
        assert(s.map_values(f).drop_last() =~= s.drop_last().map_values(f));
        assert(s.map_values(f).last() == f(s.last()));
        assert(live_members(s.map_values(f)) =~= s);
    }
}

// ------------------------------------------------------------------
// Position assignment.
// ------------------------------------------------------------------

/// Computes a movement destination for each member of a squad: the
/// anchor (by convention the first live member's position) becomes the
/// formation center, and member `i` is sent to slot `i` of the
/// formation's output. An empty member list yields no assignments.
pub fn assign_destinations(
    members: &Vec<u64>,
    formation: &FormationType,
    anchor: &Position,
) -> (r: Vec<(u64, Position)>)
    requires
        members@.len() <= MAX_FORMATION_UNITS,
        center_ok(*anchor),
    ensures
        r@.len() == members@.len(),
        forall|i: int| 0 <= i < members@.len() ==> (#[trigger] r@[i]).0 == members@[i],
        forall|i: int| 0 <= i < members@.len() ==> (#[trigger] r@[i]).1.z == anchor.z,
        *formation != FormationType::Scattered ==> forall|i: int|
            0 <= i < members@.len() ==> (#[trigger] r@[i]).1 == formation_slot(
                *formation,
                members@.len() as int,
                *anchor,
                i,
            ),
        *formation == FormationType::Scattered ==> forall|i: int|
            0 <= i < members@.len() ==> scattered_near(*anchor, (#[trigger] r@[i]).1),
{
    let positions = FormationCalculator::calculate_positions(formation, members.len(), anchor);
    let mut assignments: Vec<(u64, Position)> = Vec::new();
    let mut i: usize = 0;
    while i < members.len()
        invariant
            i <= members@.len(),
            positions@.len() == members@.len(),
            assignments@.len() == i,
            forall|j: int| 0 <= j < i ==> #[trigger] assignments@[j] == (
                members@[j],
                positions@[j],
            ),
        decreases members@.len() - i,
    {
        assignments.push((members[i], positions[i]));
        i = i + 1;
    }
    assignments
}

} // verus!
