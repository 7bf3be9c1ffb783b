// Tests of the grid, module targeting, particles, the random source and the
// fixed-point helpers.

use arcade_core::fixed::{clamp, cos_milli, div_floor, hypot, isqrt, sin_milli};
use arcade_core::grid::EnemyGrid;
use arcade_core::module_ai::{find_module_targets, find_nearest_enemy_target, should_module_shoot};
use arcade_core::particles::{update_particles, create_explosion_particles, Particle};
use arcade_core::rng::Rng;
use arcade_core::types::{Circle, EnemyState, EnemyType, ModuleTarget};

fn plain_enemy(x: i64, y: i64, is_zombie: bool) -> EnemyState {
    EnemyState {
        x,
        y,
        vx: 0,
        vy: 0,
        enemy_type: EnemyType::Basic,
        is_zombie,
        is_stealth: false,
        radius: 15000,
        hp: 100000,
        max_hp: 100000,
        shoot_cooldown: 0,
        angle: 0,
        bounce_boost_frames: 0,
        hit_cooldown: 0,
        charge_cooldown: 0,
        charge_frames: 0,
        aggression: 0,
        pulse_phase: 0,
        zombie_lifetime: 0,
        stealth_wave_phase: 0,
        split_level: 0,
    }
}

#[test]
fn isqrt_exact_values() {
    assert_eq!(isqrt(0), 0);
    assert_eq!(isqrt(1), 1);
    assert_eq!(isqrt(3), 1);
    assert_eq!(isqrt(4), 2);
    assert_eq!(isqrt(999999), 999);
    assert_eq!(isqrt(1000000), 1000);
}

#[test]
fn hypot_and_trig_values() {
    assert_eq!(hypot(3000, 4000), 5000);
    assert_eq!(hypot(0, -7000), 7000);
    assert_eq!(hypot(1, 1), 1);
    assert_eq!(sin_milli(0), 0);
    // the rational approximation peaks at 999 milli
    assert_eq!(sin_milli(1571), 999);
    assert_eq!(cos_milli(0), 999);
    // a half turn later the sine is mirrored negative
    assert!(sin_milli(1571 + 3142) <= -990);
    // wrapping by full turns preserves the value
    assert_eq!(sin_milli(700), sin_milli(700 + 6283));
}

#[test]
fn clamp_and_floor_division() {
    assert_eq!(clamp(5, 0, 10), 5);
    assert_eq!(clamp(-5, 0, 10), 0);
    assert_eq!(clamp(15, 0, 10), 10);
    assert_eq!(div_floor(7, 2), 3);
    assert_eq!(div_floor(-7, 2), -4);
    assert_eq!(div_floor(-128000, 128000), -1);
}

#[test]
fn grid_query_covers_neighbor_cells() {
    let mut grid = EnemyGrid::new(128000);
    let mut positions: Vec<(i64, i64)> = Vec::new();
    positions.push((100000, 100000));
    positions.push((100000 + 127000, 100000));
    positions.push((100000 - 120000, 100000 + 120000));
    positions.push((900000, 900000));
    grid.rebuild(&positions);
    let result = grid.query_neighbors(100000, 100000);
    // every entity within one cell width in each axis is returned
    assert!(result.contains(&0));
    assert!(result.contains(&1));
    assert!(result.contains(&2));
    // an entity cells away is not
    assert!(!result.contains(&3));
}

#[test]
fn grid_rebuild_replaces_contents() {
    let mut grid = EnemyGrid::new(128000);
    let mut first: Vec<(i64, i64)> = Vec::new();
    first.push((0, 0));
    grid.rebuild(&first);
    assert!(grid.query_neighbors(0, 0).contains(&0));
    let mut second: Vec<(i64, i64)> = Vec::new();
    second.push((1000000, 1000000));
    grid.rebuild(&second);
    assert!(!grid.query_neighbors(0, 0).contains(&0));
    assert!(grid.query_neighbors(1000000, 1000000).contains(&0));
}

#[test]
fn module_targeting_picks_nearest_non_zombie() {
    let mut enemies = Vec::new();
    enemies.push(plain_enemy(500000, 0, false));
    enemies.push(plain_enemy(100000, 0, true));
    enemies.push(plain_enemy(200000, 0, false));
    let t = find_nearest_enemy_target(0, 0, &enemies);
    assert!(t.has_target);
    assert_eq!(t.target_index, 2);
    assert_eq!(t.target_x, 200000);
    assert_eq!(t.target_y, 0);
}

#[test]
fn module_targeting_keeps_first_of_ties() {
    let mut enemies = Vec::new();
    enemies.push(plain_enemy(200000, 0, false));
    enemies.push(plain_enemy(-200000, 0, false));
    let t = find_nearest_enemy_target(0, 0, &enemies);
    assert_eq!(t.target_index, 0);
}

#[test]
fn module_targeting_sentinel_when_only_zombies() {
    let mut enemies = Vec::new();
    enemies.push(plain_enemy(100000, 0, true));
    let t = find_nearest_enemy_target(0, 0, &enemies);
    assert_eq!(t, ModuleTarget::none());
    assert!(!t.has_target);
    assert_eq!(t.target_x, 0);
    assert_eq!(t.target_y, 0);
    assert_eq!(t.target_index, -1);
}

#[test]
fn module_targets_one_per_module() {
    let mut modules = Vec::new();
    modules.push(Circle { x: 0, y: 0, radius: 10000 });
    modules.push(Circle { x: 400000, y: 0, radius: 10000 });
    let mut enemies = Vec::new();
    enemies.push(plain_enemy(100000, 0, false));
    enemies.push(plain_enemy(300000, 0, false));
    let ts = find_module_targets(&modules, &enemies);
    assert_eq!(ts.len(), 2);
    assert_eq!(ts[0].target_index, 0);
    assert_eq!(ts[1].target_index, 1);
}

#[test]
fn module_shoots_only_beyond_minimum_distance() {
    assert!(should_module_shoot(0, 0, 300000, 400000, 400000));
    assert!(!should_module_shoot(0, 0, 300000, 400000, 500000));
    assert!(!should_module_shoot(0, 0, 300000, 400000, 600000));
}

#[test]
fn particles_move_damp_and_expire() {
    let mut ps = Vec::new();
    ps.push(Particle { x: 1000, y: 2000, vx: 10000, vy: -4000, life: 5, hue: 42 });
    ps.push(Particle { x: 0, y: 0, vx: 1000, vy: 1000, life: 1, hue: 7 });
    ps.push(Particle { x: 0, y: 0, vx: 1000, vy: 1000, life: 0, hue: 9 });
    let out = update_particles(&ps);
    // the second dies this step and the third was already dead
    assert_eq!(out.len(), 1);
    assert_eq!(out[0].x, 11000);
    assert_eq!(out[0].y, -2000);
    assert_eq!(out[0].vx, 9500);
    assert_eq!(out[0].vy, -3800);
    assert_eq!(out[0].life, 4);
    assert_eq!(out[0].hue, 42);
}

#[test]
fn explosion_particles_within_bands() {
    let mut rng = Rng::new(12345);
    let normal = create_explosion_particles(1000, 2000, 40, false, &mut rng);
    assert_eq!(normal.len(), 40);
    for p in &normal {
        assert_eq!(p.x, 1000);
        assert_eq!(p.y, 2000);
        assert_eq!(p.life, 30);
        assert!(p.vx >= -5000 && p.vx <= 5000);
        assert!(p.vy >= -5000 && p.vy <= 5000);
        assert!(p.hue >= 0 && p.hue <= 60000);
    }
    let zombie = create_explosion_particles(0, 0, 10, true, &mut rng);
    for p in &zombie {
        assert!(p.hue >= 100000 && p.hue <= 140000);
    }
}

#[test]
fn rng_is_seed_deterministic() {
    let mut a = Rng::new(99);
    let mut b = Rng::new(99);
    for _ in 0..100 {
        let x = a.next_milli();
        let y = b.next_milli();
        assert_eq!(x, y);
        assert!(x >= 0 && x < 1000);
    }
    let mut c = Rng::new(100);
    let mut same = true;
    for _ in 0..16 {
        if a.next_milli() != c.next_milli() {
            same = false;
        }
    }
    assert!(!same);
}
