use tactics::geom::Position;
use tactics::formation::{FormationType, CombatStance};
use tactics::squad::{create_squad, squad_cohesion_sweep, assign_destinations};

fn pos(x: i32, y: i32, z: i32) -> Position {
    Position { x, y, z }
}

#[test]
fn create_squad_sets_defaults_and_ranks() {
    let members = vec![10u64, 11, 12, 13, 14, 15];
    let (squad, records) = create_squad(7, members.clone(), FormationType::Wedge);
    assert_eq!(squad.squad_id, 7);
    assert_eq!(squad.members, members);
    assert_eq!(squad.formation, FormationType::Wedge);
    assert_eq!(squad.stance, CombatStance::Aggressive);
    assert!(squad.rally_point.is_none());
    assert_eq!(squad.leader, Some(10));
    let ranks: Vec<i32> = records.iter().map(|r| r.rank).collect();
    assert_eq!(ranks, vec![0, 0, 0, 0, 1, 1]);
    for r in &records {
        assert_eq!(r.squad_id, 7);
        assert_eq!(r.relative_position.x, 0);
        assert_eq!(r.relative_position.y, 0);
    }
}

#[test]
fn create_empty_squad_has_no_leader() {
    let (squad, records) = create_squad(1, vec![], FormationType::Line);
    assert_eq!(squad.leader, None);
    assert!(records.is_empty());
}

#[test]
fn sweep_prunes_dead_members_in_order() {
    let entries = vec![
        (1u64, Some(pos(0, 0, 0))),
        (2u64, None),
        (3u64, Some(pos(1, 0, 0))),
        (4u64, None),
    ];
    let out = squad_cohesion_sweep(&entries);
    let ids = out.member_ids();
    assert_eq!(ids, vec![1, 3]);
    assert!(!out.needs_regroup);
}

#[test]
fn sweep_twice_yields_the_same_member_set() {
    let entries = vec![
        (1u64, Some(pos(0, 0, 0))),
        (2u64, None),
        (3u64, Some(pos(4, 0, 0))),
        (4u64, Some(pos(0, 3, 0))),
    ];
    let first = squad_cohesion_sweep(&entries);
    let again: Vec<(u64, Option<Position>)> =
        first.members.iter().map(|&(id, p)| (id, Some(p))).collect();
    let second = squad_cohesion_sweep(&again);
    assert_eq!(first.members, second.members);
    assert_eq!(first.needs_regroup, second.needs_regroup);
}

#[test]
fn spread_of_twelve_flags_regroup_and_nine_does_not() {
    // Two members 24 cells apart: each sits 12 cells from the mean
    // center, past the threshold of 10.
    let spread_wide = vec![
        (1u64, Some(pos(0, 0, 0))),
        (2u64, Some(pos(24, 0, 0))),
    ];
    assert!(squad_cohesion_sweep(&spread_wide).needs_regroup);

    // 18 cells apart: 9 from the center, inside the threshold.
    let spread_close = vec![
        (1u64, Some(pos(0, 0, 0))),
        (2u64, Some(pos(18, 0, 0))),
    ];
    assert!(!squad_cohesion_sweep(&spread_close).needs_regroup);
}

#[test]
fn boundary_spread_of_ten_is_not_flagged() {
    // Exactly 10 cells from the center: the threshold is exclusive.
    let entries = vec![
        (1u64, Some(pos(0, 0, 0))),
        (2u64, Some(pos(20, 0, 0))),
    ];
    assert!(!squad_cohesion_sweep(&entries).needs_regroup);
}

#[test]
fn lone_member_is_never_flagged() {
    let entries = vec![(1u64, Some(pos(1000, 1000, 0)))];
    let out = squad_cohesion_sweep(&entries);
    assert_eq!(out.member_ids(), vec![1]);
    assert!(!out.needs_regroup);
}

#[test]
fn destinations_follow_squad_order() {
    let members = vec![21u64, 22, 23, 24, 25, 26];
    let anchor = pos(10, 10, 0);
    let assignments = assign_destinations(&members, &FormationType::Line, &anchor);
    assert_eq!(assignments.len(), 6);
    for (i, (member, destination)) in assignments.iter().enumerate() {
        assert_eq!(*member, members[i]);
        assert_eq!(*destination, pos(7 + i as i32, 10, 0));
    }
}

#[test]
fn no_members_means_no_assignments() {
    let members: Vec<u64> = vec![];
    let assignments = assign_destinations(&members, &FormationType::Box, &pos(0, 0, 0));
    assert!(assignments.is_empty());
}
