use tactics::geom::{Position, Vec2Milli};
use tactics::projectile::{ranged_attack, projectile_movement, FireOutcome, Projectile,
    ProjectileBuilder, RangedWeapon, RangedWeaponType};
use tactics::collision::{projectile_collision, area_damage_exec};
use tactics::targeting::ranged_targeting;
use tactics::accuracy::{accuracy_hit, apply_accuracy};

fn pos(x: i32, y: i32, z: i32) -> Position {
    Position { x, y, z }
}

fn bow(damage: i32, range: u32) -> RangedWeapon {
    RangedWeapon {
        weapon_type: RangedWeaponType::Bow,
        damage,
        range,
        accuracy: 900,
        reload_time: 1500,
        projectile_speed: 10000,
        ammo_type: String::from("arrow"),
        last_shot_time: 0,
    }
}

fn plain_projectile(owner: u64, damage: i32) -> Projectile {
    Projectile {
        damage,
        owner,
        target: None,
        velocity: Vec2Milli { x: 0, y: 0 },
        lifetime: 5000,
        piercing: false,
        explosive: false,
        explosion_radius: 0,
    }
}

// ------------------------------------------------------------------
// Firing.
// ------------------------------------------------------------------

#[test]
fn fire_without_ammo_creates_no_projectile() {
    let weapon = bow(7, 8000);
    let outcome = ranged_attack(1, &pos(0, 0, 0), 2, &pos(5, 0, 0), &weapon, 0, 10);
    assert!(matches!(outcome, FireOutcome::NoAmmo));
}

#[test]
fn fire_consumes_exactly_one_unit_of_ammo() {
    let weapon = bow(7, 8000);
    let outcome = ranged_attack(1, &pos(0, 0, 0), 2, &pos(5, 0, 0), &weapon, 5, 10);
    match outcome {
        FireOutcome::Fired(shot) => assert_eq!(shot.ammo_remaining, 4),
        _ => panic!("expected a shot"),
    }
}

#[test]
fn fire_at_five_cells_with_one_arrow() {
    // Attacker at the origin, target 5 cells along x, range 8 cells,
    // one arrow: the shot flies, ammunition is spent, and the velocity
    // points in +x scaled to 10 cells per second.
    let weapon = bow(7, 8000);
    let outcome = ranged_attack(1, &pos(0, 0, 0), 2, &pos(5, 0, 0), &weapon, 1, 10);
    match outcome {
        FireOutcome::Fired(shot) => {
            assert_eq!(shot.ammo_remaining, 0);
            assert_eq!(shot.projectile.velocity, Vec2Milli { x: 10000, y: 0 });
            assert_eq!(shot.projectile.damage, 7 + 5);
            assert_eq!(shot.projectile.owner, 1);
            assert_eq!(shot.projectile.target, Some(2));
            assert_eq!(shot.projectile.lifetime, 5000);
            assert!(!shot.projectile.piercing);
            assert!(!shot.projectile.explosive);
            assert_eq!(shot.spawn_position, pos(0, 0, 5));
        },
        _ => panic!("expected a shot"),
    }
}

#[test]
fn fire_beyond_range_is_skipped() {
    let weapon = bow(7, 8000);
    let outcome = ranged_attack(1, &pos(0, 0, 0), 2, &pos(9, 0, 0), &weapon, 3, 10);
    assert!(matches!(outcome, FireOutcome::OutOfRange));
}

#[test]
fn range_boundary_is_inclusive() {
    let weapon = bow(7, 8000);
    let outcome = ranged_attack(1, &pos(0, 0, 0), 2, &pos(8, 0, 0), &weapon, 3, 0);
    assert!(matches!(outcome, FireOutcome::Fired(_)));
}

#[test]
fn fire_at_own_cell_is_skipped() {
    let weapon = bow(7, 8000);
    let outcome = ranged_attack(1, &pos(4, 4, 0), 2, &pos(4, 4, 0), &weapon, 3, 10);
    assert!(matches!(outcome, FireOutcome::NoDirection));
}

#[test]
fn strength_bonus_truncates_toward_zero() {
    let weapon = bow(10, 8000);
    match ranged_attack(1, &pos(0, 0, 0), 2, &pos(3, 0, 0), &weapon, 1, 5) {
        FireOutcome::Fired(shot) => assert_eq!(shot.projectile.damage, 12),
        _ => panic!("expected a shot"),
    }
    match ranged_attack(1, &pos(0, 0, 0), 2, &pos(3, 0, 0), &weapon, 1, -5) {
        FireOutcome::Fired(shot) => assert_eq!(shot.projectile.damage, 8),
        _ => panic!("expected a shot"),
    }
}

#[test]
fn diagonal_shot_splits_velocity() {
    // Target at (3, 4): distance 5, unit direction (0.6, 0.8), so the
    // velocity is (6, 8) cells per second in thousandths.
    let weapon = bow(1, 8000);
    match ranged_attack(1, &pos(0, 0, 0), 2, &pos(3, 4, 0), &weapon, 1, 0) {
        FireOutcome::Fired(shot) => {
            assert_eq!(shot.projectile.velocity, Vec2Milli { x: 6000, y: 8000 });
        },
        _ => panic!("expected a shot"),
    }
}

// ------------------------------------------------------------------
// Motion and lifetime.
// ------------------------------------------------------------------

#[test]
fn projectile_advances_by_scaled_velocity() {
    let mut p = pos(0, 0, 5);
    let mut proj = plain_projectile(1, 3);
    proj.velocity = Vec2Milli { x: 10000, y: -2500 };
    // 10 cells/s for 1 s at motion scale 20: 200 cells; -2.5 cells/s
    // gives -50 cells.
    let expired = projectile_movement(&mut p, &mut proj, 1000);
    assert!(!expired);
    assert_eq!(p, pos(200, -50, 5));
    assert_eq!(proj.lifetime, 4000);
}

#[test]
fn projectile_rounds_to_nearest_cell() {
    let mut p = pos(0, 0, 5);
    let mut proj = plain_projectile(1, 3);
    proj.velocity = Vec2Milli { x: 30, y: -30 };
    // 0.03 cells/s for 1 s at scale 20 travels 0.6 cells: rounds to 1.
    let expired = projectile_movement(&mut p, &mut proj, 1000);
    assert!(!expired);
    assert_eq!(p, pos(1, -1, 5));
}

#[test]
fn projectile_expires_when_lifetime_runs_out() {
    let mut p = pos(0, 0, 5);
    let mut proj = plain_projectile(1, 3);
    let expired = projectile_movement(&mut p, &mut proj, 5000);
    assert!(expired);
    assert_eq!(proj.lifetime, 0);
}

// ------------------------------------------------------------------
// Builders.
// ------------------------------------------------------------------

#[test]
fn builders_set_their_overrides() {
    let v = Vec2Milli { x: 4000, y: -6000 };
    let at = pos(1, 2, 5);

    let (arrow, _) = ProjectileBuilder::arrow(9, at, v, 10);
    assert_eq!((arrow.damage, arrow.lifetime, arrow.piercing, arrow.explosive), (10, 3000, false, false));

    let (bolt, _) = ProjectileBuilder::bolt(9, at, v, 10);
    assert_eq!((bolt.damage, bolt.lifetime, bolt.piercing), (12, 4000, true));

    let (bullet, _) = ProjectileBuilder::bullet(9, at, v, 10);
    assert_eq!(bullet.velocity, Vec2Milli { x: 12000, y: -18000 });
    assert_eq!((bullet.lifetime, bullet.piercing), (2000, true));

    let (xarrow, _) = ProjectileBuilder::explosive_arrow(9, at, v, 10);
    assert_eq!((xarrow.explosive, xarrow.explosion_radius, xarrow.lifetime), (true, 2000, 3000));

    let (ball, _) = ProjectileBuilder::cannonball(9, at, v, 10);
    assert_eq!(ball.damage, 30);
    assert_eq!(ball.velocity, Vec2Milli { x: 2000, y: -3000 });
    assert_eq!((ball.explosive, ball.explosion_radius, ball.lifetime), (true, 4000, 5000));
}

// ------------------------------------------------------------------
// Collision and damage.
// ------------------------------------------------------------------

#[test]
fn non_piercing_projectile_is_destroyed_by_one_hit() {
    let proj = plain_projectile(1, 9);
    let targets = vec![(2u64, pos(0, 0, 0))];
    let out = projectile_collision(&proj, &pos(0, 0, 5), false, &targets);
    assert!(out.destroyed);
    assert_eq!(out.damage, vec![9]);
}

#[test]
fn piercing_projectile_survives_a_hit() {
    let mut proj = plain_projectile(1, 9);
    proj.piercing = true;
    let targets = vec![(2u64, pos(0, 0, 0))];
    let out = projectile_collision(&proj, &pos(0, 0, 5), false, &targets);
    assert!(!out.destroyed);
    assert_eq!(out.damage, vec![9]);
}

#[test]
fn projectile_misses_its_owner_and_other_cells() {
    let proj = plain_projectile(1, 9);
    let targets = vec![(1u64, pos(0, 0, 0)), (2u64, pos(1, 0, 0))];
    let out = projectile_collision(&proj, &pos(0, 0, 5), false, &targets);
    assert!(!out.destroyed);
    assert_eq!(out.damage, vec![0, 0]);
}

#[test]
fn wall_destroys_projectile_before_any_damage() {
    let proj = plain_projectile(1, 9);
    let targets = vec![(2u64, pos(0, 0, 0))];
    let out = projectile_collision(&proj, &pos(0, 0, 5), true, &targets);
    assert!(out.destroyed);
    assert!(out.damage.is_empty());
}

#[test]
fn explosion_with_falloff_at_two_of_four_cells() {
    // An explosive projectile of damage 20 and radius 4 cells detonates
    // at the origin: the primary target takes the direct 20 plus its
    // own area share of floor(10 * (1 - 0/4)) = 10; a bystander 2 cells
    // out takes floor(10 * (1 - 2/4)) = 5.
    let mut proj = plain_projectile(1, 20);
    proj.explosive = true;
    proj.explosion_radius = 4000;
    let targets = vec![(2u64, pos(0, 0, 0)), (3u64, pos(2, 0, 0))];
    let out = projectile_collision(&proj, &pos(0, 0, 5), false, &targets);
    assert!(out.destroyed);
    assert_eq!(out.damage, vec![30, 5]);
}

#[test]
fn area_damage_is_full_at_center_and_zero_at_edge() {
    assert_eq!(area_damage_exec(10, 0, 4000), 10);
    // Distance exactly 4 cells: squared distance 16 against radius
    // 4000 thousandths.
    assert_eq!(area_damage_exec(10, 16, 4000), 0);
    // Beyond the radius: nothing.
    assert_eq!(area_damage_exec(10, 25, 4000), 0);
}

#[test]
fn area_damage_falls_off_linearly() {
    // Radius 4 cells, half-damage 10: shares at distances 0, 1, 2, 3
    // are 10, floor(10 * 3/4) = 7, 5, floor(10 * 1/4) = 2.
    assert_eq!(area_damage_exec(10, 0, 4000), 10);
    assert_eq!(area_damage_exec(10, 1, 4000), 7);
    assert_eq!(area_damage_exec(10, 4, 4000), 5);
    assert_eq!(area_damage_exec(10, 9, 4000), 2);
}

#[test]
fn every_hit_of_an_explosive_detonates() {
    // Two combatants on the impact cell: each takes the direct damage
    // and two area shares (one per detonation).
    let mut proj = plain_projectile(1, 20);
    proj.explosive = true;
    proj.explosion_radius = 4000;
    let targets = vec![(2u64, pos(0, 0, 0)), (3u64, pos(0, 0, 0))];
    let out = projectile_collision(&proj, &pos(0, 0, 5), false, &targets);
    assert_eq!(out.damage, vec![40, 40]);
}

// ------------------------------------------------------------------
// Targeting.
// ------------------------------------------------------------------

#[test]
fn targeting_picks_the_nearest_in_range() {
    let candidates = vec![
        (2u64, pos(6, 0, 0)),
        (3u64, pos(3, 0, 0)),
        (4u64, pos(5, 0, 0)),
    ];
    let picked = ranged_targeting(1, &pos(0, 0, 0), 8000, &candidates);
    assert_eq!(picked, Some(3));
}

#[test]
fn targeting_breaks_ties_by_scan_order() {
    let candidates = vec![
        (2u64, pos(0, 4, 0)),
        (3u64, pos(4, 0, 0)),
    ];
    let picked = ranged_targeting(1, &pos(0, 0, 0), 8000, &candidates);
    assert_eq!(picked, Some(2));
}

#[test]
fn targeting_excludes_self_and_out_of_range() {
    let candidates = vec![
        (1u64, pos(1, 0, 0)),
        (2u64, pos(20, 0, 0)),
    ];
    let picked = ranged_targeting(1, &pos(0, 0, 0), 8000, &candidates);
    assert_eq!(picked, None);
}

#[test]
fn targeting_range_boundary_is_inclusive() {
    let candidates = vec![(2u64, pos(8, 0, 0))];
    let picked = ranged_targeting(1, &pos(0, 0, 0), 8000, &candidates);
    assert_eq!(picked, Some(2));
}

// ------------------------------------------------------------------
// Accuracy.
// ------------------------------------------------------------------

#[test]
fn accuracy_roll_comparison_is_exact() {
    // Point-blank full accuracy in fair weather: even the largest roll
    // lands (999999 * 2000 * 1000 < 1000 * 2000 * 1000 * 1000).
    assert!(accuracy_hit(999_999, 1000, 0, 1000, 0, 1000));
    // Zero base accuracy never lands.
    assert!(!accuracy_hit(0, 0, 0, 1000, 0, 1000));
    // At maximum range the accuracy halves: base 600 gives 0.3, so a
    // roll of 0.29 lands and one of 0.31 misses.
    assert!(accuracy_hit(290_000, 600, 1000, 1000, 0, 1000));
    assert!(!accuracy_hit(310_000, 600, 1000, 1000, 0, 1000));
}

#[test]
fn guaranteed_hits_and_misses() {
    // Zero base accuracy always misses, whatever the roll.
    for _ in 0..50 {
        assert!(!apply_accuracy(0, 0, 1000, 0, 1000));
    }
    // Point-blank full accuracy in fair weather always hits.
    for _ in 0..50 {
        assert!(apply_accuracy(1000, 0, 1000, 0, 1000));
    }
}

#[test]
fn negative_damage_shares_truncate_toward_zero() {
    assert_eq!(area_damage_exec(-10, 0, 4000), -10);
    assert_eq!(area_damage_exec(-10, 4, 4000), -5);
    assert_eq!(area_damage_exec(-10, 16, 4000), 0);
}

#[test]
fn fired_velocity_magnitude_matches_weapon_speed() {
    // 10 cells per second in thousandths: the squared component sum
    // stays within rounding of 10000^2.
    let weapon = bow(1, 2_000_000);
    for (tx, ty) in [(5, 0), (3, 4), (-7, 2), (11, -13), (250, 999)] {
        match ranged_attack(1, &pos(0, 0, 0), 2, &pos(tx, ty, 0), &weapon, 1, 0) {
            FireOutcome::Fired(shot) => {
                let vx = shot.projectile.velocity.x as i64;
                let vy = shot.projectile.velocity.y as i64;
                let speed_sq = vx * vx + vy * vy;
                assert!(speed_sq <= 100_000_000, "too fast: {speed_sq}");
                assert!(speed_sq > 100_000_000 - 40_004, "too slow: {speed_sq}");
            },
            _ => panic!("expected a shot at ({tx}, {ty})"),
        }
    }
}
