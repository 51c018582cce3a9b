use tactics::formation::{FormationCalculator, FormationBonuses, FormationType};
use tactics::geom::Position;

fn pos(x: i32, y: i32, z: i32) -> Position {
    Position { x, y, z }
}

fn all_formations() -> Vec<FormationType> {
    vec![
        FormationType::Line,
        FormationType::Box,
        FormationType::Column,
        FormationType::Wedge,
        FormationType::Circle,
        FormationType::Scattered,
        FormationType::Flank,
        FormationType::Phalanx,
        FormationType::Skirmish,
    ]
}

#[test]
fn every_formation_emits_unit_count_positions_sharing_z() {
    let center = pos(3, -2, 4);
    for formation in all_formations() {
        for n in [0usize, 1, 2, 5, 7, 16] {
            let positions = FormationCalculator::calculate_positions(&formation, n, &center);
            assert_eq!(positions.len(), n, "{formation:?} with {n} units");
            for p in &positions {
                assert_eq!(p.z, 4, "{formation:?} must keep the center elevation");
            }
        }
    }
}

#[test]
fn line_keeps_center_row() {
    let center = pos(100, 55, 1);
    let positions = FormationCalculator::calculate_positions(&FormationType::Line, 9, &center);
    for p in &positions {
        assert_eq!(p.y, 55);
    }
}

#[test]
fn column_keeps_center_file() {
    let center = pos(100, 55, 1);
    let positions = FormationCalculator::calculate_positions(&FormationType::Column, 9, &center);
    for p in &positions {
        assert_eq!(p.x, 100);
    }
    assert_eq!(positions[0], pos(100, 51, 1));
    assert_eq!(positions[8], pos(100, 59, 1));
}

#[test]
fn line_of_six_at_ten_ten() {
    let center = pos(10, 10, 0);
    let positions = FormationCalculator::calculate_positions(&FormationType::Line, 6, &center);
    let expected: Vec<Position> = (7..=12).map(|x| pos(x, 10, 0)).collect();
    assert_eq!(positions, expected);
}

#[test]
fn box_fills_first_n_slots_of_ceil_sqrt_grid() {
    // 5 units need a 3x3 grid (ceil(sqrt(5)) = 3); only the first 5
    // slots are emitted, row by row.
    let center = pos(0, 0, 0);
    let positions = FormationCalculator::calculate_positions(&FormationType::Box, 5, &center);
    let expected = vec![
        pos(-1, -1, 0),
        pos(0, -1, 0),
        pos(1, -1, 0),
        pos(-1, 0, 0),
        pos(0, 0, 0),
    ];
    assert_eq!(positions, expected);
}

#[test]
fn skirmish_spreads_box_slots_by_two() {
    let center = pos(0, 0, 0);
    let positions = FormationCalculator::calculate_positions(&FormationType::Skirmish, 5, &center);
    let expected = vec![
        pos(-3, -3, 0),
        pos(-1, -3, 0),
        pos(1, -3, 0),
        pos(-3, -1, 0),
        pos(-1, -1, 0),
    ];
    assert_eq!(positions, expected);
}

#[test]
fn grid_side_is_square_root_rounded_up() {
    for (n, side) in [(0usize, 0usize), (1, 1), (2, 2), (4, 2), (5, 3), (9, 3), (10, 4), (16, 4)] {
        assert_eq!(tactics::num::grid_side(n), side);
        assert!(n <= side * side);
    }
}

#[test]
fn wedge_grows_triangularly() {
    let center = pos(0, 0, 0);
    let positions = FormationCalculator::calculate_positions(&FormationType::Wedge, 4, &center);
    let expected = vec![pos(0, 0, 0), pos(0, -1, 0), pos(1, -1, 0), pos(-1, -2, 0)];
    assert_eq!(positions, expected);
}

#[test]
fn phalanx_is_four_wide() {
    let center = pos(0, 0, 0);
    let positions = FormationCalculator::calculate_positions(&FormationType::Phalanx, 6, &center);
    let expected = vec![
        pos(-2, -1, 0),
        pos(-1, -1, 0),
        pos(0, -1, 0),
        pos(1, -1, 0),
        pos(-2, 0, 0),
        pos(-1, 0, 0),
    ];
    assert_eq!(positions, expected);
}

#[test]
fn flank_splits_into_wings_and_center() {
    let center = pos(0, 0, 0);
    let positions = FormationCalculator::calculate_positions(&FormationType::Flank, 7, &center);
    let expected = vec![
        pos(-2, 0, 0),
        pos(-2, 1, 0),
        pos(0, 0, 0),
        pos(0, 1, 0),
        pos(0, 2, 0),
        pos(2, 0, 0),
        pos(2, 1, 0),
    ];
    assert_eq!(positions, expected);
}

#[test]
fn circle_positions_stay_on_the_ring() {
    // 100 units ring at radius 25000 * 100 / 157 = 15923 thousandths;
    // the squared ring radius in cells is 15923^2 / 10^6 = 253, and
    // every emitted cell's squared distance from the center lies in
    // (253 - 2 * isqrt(253) - 1, 253] = (222, 253].
    let center = pos(0, 0, 0);
    let positions = FormationCalculator::calculate_positions(&FormationType::Circle, 100, &center);
    assert_eq!(positions.len(), 100);
    for p in &positions {
        let d2 = (p.x as i64) * (p.x as i64) + (p.y as i64) * (p.y as i64);
        assert!(d2 <= 253, "too far out: {d2}");
        assert!(d2 > 222, "too far in: {d2}");
    }
}

#[test]
fn circle_of_four_uses_minimum_radius() {
    // Few units still stand on a ring of at least 2 cells: squared
    // ring radius 4, so squared distances lie in (4 - 2*2 - 1, 4].
    let center = pos(50, 50, 2);
    let positions = FormationCalculator::calculate_positions(&FormationType::Circle, 4, &center);
    for p in &positions {
        let dx = (p.x - 50) as i64;
        let dy = (p.y - 50) as i64;
        let d2 = dx * dx + dy * dy;
        assert!(d2 <= 4);
        assert!(d2 >= 0);
    }
}

#[test]
fn scattered_offsets_stay_within_three_cells() {
    let center = pos(-7, 9, 3);
    for _ in 0..20 {
        let positions =
            FormationCalculator::calculate_positions(&FormationType::Scattered, 12, &center);
        assert_eq!(positions.len(), 12);
        for p in &positions {
            assert!((p.x - -7).abs() <= 3);
            assert!((p.y - 9).abs() <= 3);
            assert_eq!(p.z, 3);
        }
    }
}

#[test]
fn modifier_table_is_total_and_exact() {
    for f in all_formations() {
        let attack = FormationBonuses::get_attack_bonus(&f);
        let defense = FormationBonuses::get_defense_bonus(&f);
        let speed = FormationBonuses::get_movement_speed(&f);
        assert!(attack > 0 && defense > 0 && speed > 0);
        let expected_attack = match f {
            FormationType::Wedge => 120,
            FormationType::Phalanx => 90,
            FormationType::Flank => 115,
            _ => 100,
        };
        let expected_defense = match f {
            FormationType::Phalanx => 130,
            FormationType::Circle => 120,
            FormationType::Box => 110,
            FormationType::Scattered => 90,
            _ => 100,
        };
        let expected_speed = match f {
            FormationType::Column => 120,
            FormationType::Scattered => 115,
            FormationType::Phalanx => 80,
            FormationType::Box => 90,
            _ => 100,
        };
        assert_eq!(attack, expected_attack);
        assert_eq!(defense, expected_defense);
        assert_eq!(speed, expected_speed);
    }
}

#[test]
fn circle_of_one_stands_east_of_center() {
    // A single unit sits at angle zero: two cells east on the minimum
    // ring.
    let center = pos(0, 0, 0);
    let positions = FormationCalculator::calculate_positions(&FormationType::Circle, 1, &center);
    assert_eq!(positions, vec![pos(2, 0, 0)]);
}

#[test]
fn zero_units_give_empty_formations() {
    let center = pos(5, 5, 5);
    for formation in all_formations() {
        let positions = FormationCalculator::calculate_positions(&formation, 0, &center);
        assert!(positions.is_empty());
    }
}
