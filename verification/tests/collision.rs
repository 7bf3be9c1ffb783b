// Collision-engine tests: phases, first-hit priority, shield behavior and
// pickup collection, in fixed-point milli-units.

use arcade_core::collision::{CollisionState, Projectile, SimpleEnemy};
use arcade_core::types::{Circle, ProjOwner};

fn proj(x: i64, y: i64, owner: ProjOwner) -> Projectile {
    Projectile { x, y, radius: 5000, damage: 10000, owner }
}

fn foe(x: i64, y: i64, is_zombie: bool) -> SimpleEnemy {
    SimpleEnemy { x, y, radius: 15000, is_zombie }
}

fn run(
    projs: &Vec<Projectile>,
    enemies: &Vec<SimpleEnemy>,
    modules: &Vec<Circle>,
    powerups: &Vec<Circle>,
    stars: &Vec<Circle>,
    shield: bool,
) -> CollisionState {
    let mut st = CollisionState::new();
    st.check_collisions_shared(projs, enemies, 500000, 500000, 20000, modules, powerups, stars, shield);
    st
}

#[test]
fn two_projectiles_hit_the_same_enemy() {
    let mut projs = Vec::new();
    projs.push(proj(100000, 100000, ProjOwner::Player));
    projs.push(proj(110000, 100000, ProjOwner::Module));
    let mut enemies = Vec::new();
    enemies.push(foe(105000, 100000, false));
    let st = run(&projs, &enemies, &Vec::new(), &Vec::new(), &Vec::new(), false);
    // each projectile independently registers its hit on enemy zero
    assert_eq!(st.projectile_hits, vec![0usize, 1usize]);
    assert_eq!(st.enemy_hits, vec![(0usize, 10000i64), (0usize, 10000i64)]);
}

#[test]
fn first_hit_wins_by_enemy_index() {
    let mut projs = Vec::new();
    projs.push(proj(100000, 100000, ProjOwner::Player));
    let mut enemies = Vec::new();
    enemies.push(foe(900000, 900000, false));
    enemies.push(foe(101000, 100000, false));
    enemies.push(foe(99000, 100000, false));
    let st = run(&projs, &enemies, &Vec::new(), &Vec::new(), &Vec::new(), false);
    // the scan stops at the first overlapping enemy in index order
    assert_eq!(st.enemy_hits, vec![(1usize, 10000i64)]);
}

#[test]
fn zombie_projectile_skips_zombies() {
    let mut projs = Vec::new();
    projs.push(proj(100000, 100000, ProjOwner::Zombie));
    let mut enemies = Vec::new();
    enemies.push(foe(101000, 100000, true));
    enemies.push(foe(99000, 100000, false));
    let st = run(&projs, &enemies, &Vec::new(), &Vec::new(), &Vec::new(), false);
    assert_eq!(st.enemy_hits, vec![(1usize, 10000i64)]);
}

#[test]
fn shield_consumes_projectile_without_damage() {
    let mut projs = Vec::new();
    projs.push(proj(505000, 500000, ProjOwner::Enemy));
    let st = run(&projs, &Vec::new(), &Vec::new(), &Vec::new(), &Vec::new(), true);
    assert_eq!(st.projectile_hits, vec![0usize]);
    assert!(!st.ship_hit);
    assert_eq!(st.ship_damage, 0);
}

#[test]
fn enemy_projectile_damages_unshielded_ship() {
    let mut projs = Vec::new();
    projs.push(proj(505000, 500000, ProjOwner::Enemy));
    projs.push(proj(495000, 500000, ProjOwner::Enemy));
    let st = run(&projs, &Vec::new(), &Vec::new(), &Vec::new(), &Vec::new(), false);
    assert_eq!(st.projectile_hits, vec![0usize, 1usize]);
    assert!(st.ship_hit);
    assert_eq!(st.ship_damage, 20000);
}

#[test]
fn ship_takes_priority_then_modules_then_zombies() {
    // one enemy projectile overlapping a module and a zombie but not the
    // ship: the module consumes it and no damage pair is recorded
    let mut projs = Vec::new();
    projs.push(proj(100000, 100000, ProjOwner::Enemy));
    let mut enemies = Vec::new();
    enemies.push(foe(101000, 100000, true));
    let mut modules = Vec::new();
    modules.push(Circle { x: 99000, y: 100000, radius: 10000 });
    let st = run(&projs, &enemies, &modules, &Vec::new(), &Vec::new(), false);
    assert_eq!(st.projectile_hits, vec![0usize]);
    assert_eq!(st.enemy_hits, vec![]);
}

#[test]
fn enemy_projectile_hits_zombie_and_records_damage() {
    let mut projs = Vec::new();
    projs.push(proj(100000, 100000, ProjOwner::Enemy));
    let mut enemies = Vec::new();
    enemies.push(foe(120000, 300000, false));
    enemies.push(foe(101000, 100000, true));
    let st = run(&projs, &enemies, &Vec::new(), &Vec::new(), &Vec::new(), false);
    assert_eq!(st.projectile_hits, vec![0usize]);
    assert_eq!(st.enemy_hits, vec![(1usize, 10000i64)]);
}

#[test]
fn player_projectile_misses_everything() {
    let mut projs = Vec::new();
    projs.push(proj(100000, 100000, ProjOwner::Player));
    let mut enemies = Vec::new();
    enemies.push(foe(900000, 900000, false));
    let st = run(&projs, &enemies, &Vec::new(), &Vec::new(), &Vec::new(), false);
    assert_eq!(st.projectile_hits, vec![]);
    assert_eq!(st.enemy_hits, vec![]);
    assert_eq!(st.get_projectile_hits_len(), 0);
    assert_eq!(st.get_enemy_hits_len(), 0);
}

#[test]
fn pickups_collected_by_overlap() {
    let mut powerups = Vec::new();
    powerups.push(Circle { x: 510000, y: 500000, radius: 8000 });
    powerups.push(Circle { x: 900000, y: 900000, radius: 8000 });
    let mut stars = Vec::new();
    stars.push(Circle { x: 100000, y: 100000, radius: 8000 });
    stars.push(Circle { x: 495000, y: 505000, radius: 8000 });
    let st = run(&Vec::new(), &Vec::new(), &Vec::new(), &powerups, &stars, false);
    assert_eq!(st.powerup_collected, vec![0usize]);
    assert_eq!(st.modulestar_collected, vec![1usize]);
    assert_eq!(st.get_powerup_collected_len(), 1);
    assert_eq!(st.get_modulestar_collected_len(), 1);
    assert!(!st.get_ship_hit());
    assert_eq!(st.get_ship_damage(), 0);
}

#[test]
fn exact_overlap_boundary_is_exclusive() {
    // centers exactly radius-sum apart do not overlap (strict inequality)
    let mut projs = Vec::new();
    projs.push(proj(100000, 100000, ProjOwner::Player));
    let mut enemies = Vec::new();
    enemies.push(foe(120000, 100000, false));
    let st = run(&projs, &enemies, &Vec::new(), &Vec::new(), &Vec::new(), false);
    assert_eq!(st.projectile_hits, vec![]);
}
