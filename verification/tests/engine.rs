// Behavior-engine tests over fixed-point milli-unit records: one world unit
// is 1000.

use arcade_core::enemy_ai::{
    update_basic, update_elite, update_exploder, update_rammer, update_single_enemy,
    update_enemies, update_enemies_with_rng, find_nearest_hostile,
};
use arcade_core::rng::Rng;
use arcade_core::fixed::{cos_milli, sin_milli};
use arcade_core::types::{AiProjectile, Circle, EnemyState, EnemyType, ProjOwner};

fn enemy(kind: EnemyType, x: i64, y: i64) -> EnemyState {
    EnemyState {
        x,
        y,
        vx: 0,
        vy: 0,
        enemy_type: kind,
        is_zombie: false,
        is_stealth: false,
        radius: 15000,
        hp: 100000,
        max_hp: 100000,
        shoot_cooldown: 0,
        angle: 0,
        bounce_boost_frames: 0,
        hit_cooldown: 0,
        charge_cooldown: 0,
        charge_frames: 0,
        aggression: 0,
        pulse_phase: 0,
        zombie_lifetime: 0,
        stealth_wave_phase: 0,
        split_level: 0,
    }
}

fn no_modules() -> Vec<Circle> {
    Vec::new()
}

fn no_projectiles() -> Vec<AiProjectile> {
    Vec::new()
}

#[test]
fn zombie_expiry_freezes_record() {
    let mut e = enemy(EnemyType::Rammer, 100000, 100000);
    e.is_zombie = true;
    e.zombie_lifetime = 1;
    e.vx = 5000;
    e.vy = -3000;
    let out = update_single_enemy(
        e,
        500000,
        500000,
        20000,
        &no_modules(),
        &no_projectiles(),
        &Vec::new(),
        1000000,
        1000000,
        false,
        999,
        0,
    );
    assert_eq!(out.hp, 0);
    assert_eq!(out.zombie_lifetime, 0);
    assert_eq!(out.x, e.x);
    assert_eq!(out.y, e.y);
    assert_eq!(out.vx, e.vx);
    assert_eq!(out.vy, e.vy);
    assert_eq!(out.angle, e.angle);
}

#[test]
fn basic_angle_and_step() {
    let mut e = enemy(EnemyType::Basic, 100000, 200000);
    e.angle = -20;
    let out = update_basic(e);
    assert_eq!(out.angle, 0);
    // cos of angle zero is 999 milli under the rational approximation; the
    // wander step is cos * 133 * radius / 1000000
    assert_eq!(cos_milli(0), 999);
    assert_eq!(sin_milli(0), 0);
    assert_eq!(out.x, 100000 + 999 * 133 * 15000 / 1000000);
    assert_eq!(out.y, 200000);
}

#[test]
fn basic_angle_strictly_increases() {
    let mut e = enemy(EnemyType::Basic, 0, 0);
    for _ in 0..50 {
        let next = update_basic(e);
        assert_eq!(next.angle, e.angle + 20);
        assert!(next.angle > e.angle);
        e = next;
    }
}

#[test]
fn elite_closes_when_far() {
    let mut e = enemy(EnemyType::Elite, 0, 0);
    e.radius = 25000;
    let out = update_elite(e, 300000, 0, &Vec::new());
    // dist 300000 > 200000: speed is radius * 40 / 1000 = 1000 toward target
    assert_eq!(out.x, 1000);
    assert_eq!(out.y, 0);
}

#[test]
fn elite_holds_when_near() {
    let e = enemy(EnemyType::Elite, 0, 0);
    let out = update_elite(e, 150000, 0, &Vec::new());
    assert_eq!(out.x, 0);
    assert_eq!(out.y, 0);
}

#[test]
fn elite_zombie_retargets_nearest_hostile() {
    let mut e = enemy(EnemyType::Elite, 0, 0);
    e.is_zombie = true;
    e.radius = 25000;
    let mut others = Vec::new();
    let mut far = enemy(EnemyType::Basic, 600000, 0);
    far.is_zombie = false;
    let mut near = enemy(EnemyType::Basic, 0, 300000);
    near.is_zombie = false;
    let mut z = enemy(EnemyType::Basic, 10000, 0);
    z.is_zombie = true;
    others.push(far);
    others.push(near);
    others.push(z);
    // the zombie at (10000, 0) is skipped; (0, 300000) is nearest
    assert_eq!(find_nearest_hostile(0, 0, &others), Some((0, 300000)));
    let out = update_elite(e, 900000, 900000, &others);
    assert_eq!(out.x, 0);
    assert_eq!(out.y, 1000);
}

#[test]
fn exploder_pulses_and_homes() {
    let mut e = enemy(EnemyType::Exploder, 0, 0);
    e.radius = 55000;
    e.pulse_phase = 7;
    let out = update_exploder(e, 100000, 0, &Vec::new());
    assert_eq!(out.pulse_phase, 107);
    // speed is radius * 145 / 10000 = 797 milli toward the ship
    assert_eq!(out.x, 797);
    assert_eq!(out.y, 0);
}

#[test]
fn exploder_zombie_without_target_only_pulses() {
    let mut e = enemy(EnemyType::Exploder, 5000, 6000);
    e.is_zombie = true;
    e.zombie_lifetime = 100;
    let mut others = Vec::new();
    let mut z = enemy(EnemyType::Basic, 90000, 0);
    z.is_zombie = true;
    others.push(z);
    let out = update_exploder(e, 100000, 0, &others);
    assert_eq!(out.x, 5000);
    assert_eq!(out.y, 6000);
    assert_eq!(out.pulse_phase, 100);
}

#[test]
fn rammer_speed_capped_under_adversarial_charges() {
    let mut e = enemy(EnemyType::Rammer, 500000, 500000);
    e.radius = 12000;
    for frame in 0..200 {
        // always roll a winning charge trigger
        let out = update_rammer(e, 520000, 520000, &no_projectiles(), &Vec::new(), 1000000, 1000000, 0, frame % 1000);
        let sq = out.vx * out.vx + out.vy * out.vy;
        let boosted = out.bounce_boost_frames > 0 || out.charge_frames > 0;
        let cap: i64 = if boosted { 28000 } else { 9000 };
        assert!(sq <= cap * cap, "frame {}: speed {} over cap {}", frame, sq, cap);
        e = out;
    }
}

#[test]
fn rammer_bounce_repositions_and_reflects() {
    let mut e = enemy(EnemyType::Rammer, 500000, 500000);
    e.radius = 12000;
    // drive it into the left wall: place it just inside with leftward speed
    e.x = 12500;
    e.vx = -8000;
    e.vy = 0;
    let mut bounced = false;
    let mut cur = e;
    for _ in 0..20 {
        let out = update_rammer(
            cur,
            900000,
            500000,
            &no_projectiles(),
            &Vec::new(),
            1000000,
            1000000,
            999,
            0,
        );
        if out.x == out.radius && out.bounce_boost_frames == 14 && out.hit_cooldown == 4 {
            // repositioned exactly to the edge; the horizontal velocity now
            // points right (sign flipped by the restitution bounce)
            assert!(out.vx >= 0);
            bounced = true;
            break;
        }
        cur = out;
    }
    assert!(bounced, "never reached the wall");
}

#[test]
fn rammer_scenario_closes_on_ship() {
    // one rammer at (100, 100), ship at (100, 300), no projectiles, shield
    // off, no charge trigger: its y climbs toward the ship and the speed
    // stays at the base cap once inside the orbit-break radius
    let mut e = enemy(EnemyType::Rammer, 100000, 100000);
    e.radius = 12000;
    for frame in 0..30 {
        let out = update_rammer(
            e,
            100000,
            300000,
            &no_projectiles(),
            &Vec::new(),
            1000000,
            1000000,
            999,
            0,
        );
        assert!(out.y > e.y, "frame {}: y did not increase", frame);
        let dist_sq = (out.x - 100000) * (out.x - 100000) + (out.y - 300000) * (out.y - 300000);
        if dist_sq < 140000i64 * 140000 && out.bounce_boost_frames == 0 && out.charge_frames == 0 {
            assert!(out.vx * out.vx + out.vy * out.vy <= 9000 * 9000);
        }
        e = out;
    }
    assert!(e.y > 100000);
}

#[test]
fn rammer_dodges_incoming_fire() {
    let mut e = enemy(EnemyType::Rammer, 500000, 500000);
    e.radius = 12000;
    // a player projectile closing in from the right, inside dodge range,
    // while the rammer is far from the ship
    let proj = AiProjectile { x: 560000, y: 500000, vx: -20000, vy: 0, owner: ProjOwner::Player };
    let mut projs = Vec::new();
    projs.push(proj);
    let with_dodge = update_rammer(e, 900000, 900000, &projs, &Vec::new(), 1000000, 1000000, 999, 0);
    let without = update_rammer(e, 900000, 900000, &no_projectiles(), &Vec::new(), 1000000, 1000000, 999, 0);
    // the dodge impulse pushes opposite the projectile's heading: +x
    assert!(with_dodge.vx > without.vx);
}

#[test]
fn update_enemies_is_one_to_one_and_deterministic() {
    let mut list = Vec::new();
    list.push(enemy(EnemyType::Basic, 100000, 100000));
    list.push(enemy(EnemyType::Elite, 400000, 100000));
    let mut r = enemy(EnemyType::Rammer, 600000, 600000);
    r.radius = 12000;
    list.push(r);
    let mut rolls = Vec::new();
    rolls.push((999i64, 0i64));
    rolls.push((999i64, 0i64));
    rolls.push((999i64, 0i64));
    let a = update_enemies(
        &list,
        500000,
        500000,
        20000,
        &no_modules(),
        &no_projectiles(),
        1000000,
        1000000,
        false,
        &rolls,
    );
    let b = update_enemies(
        &list,
        500000,
        500000,
        20000,
        &no_modules(),
        &no_projectiles(),
        1000000,
        1000000,
        false,
        &rolls,
    );
    assert_eq!(a.len(), 3);
    assert_eq!(a, b);
}

#[test]
fn seeded_frames_replay_identically() {
    let mut list = Vec::new();
    let mut r = enemy(EnemyType::Rammer, 600000, 600000);
    r.radius = 12000;
    list.push(r);
    list.push(enemy(EnemyType::Basic, 100000, 100000));
    let mut rng_a = Rng::new(4242);
    let mut rng_b = Rng::new(4242);
    let a = update_enemies_with_rng(
        &list,
        500000,
        500000,
        20000,
        &no_modules(),
        &no_projectiles(),
        1000000,
        1000000,
        false,
        &mut rng_a,
    );
    let b = update_enemies_with_rng(
        &list,
        500000,
        500000,
        20000,
        &no_modules(),
        &no_projectiles(),
        1000000,
        1000000,
        false,
        &mut rng_b,
    );
    assert_eq!(a, b);
    assert_eq!(rng_a.state, rng_b.state);
}

#[test]
fn unknown_archetype_tag_falls_back_to_basic() {
    assert_eq!(EnemyType::from_tag(7), EnemyType::Basic);
    assert_eq!(EnemyType::from_tag(-1), EnemyType::Basic);
    assert_eq!(EnemyType::from_tag(2), EnemyType::Rammer);
}

#[test]
fn enemy_record_roundtrip() {
    let mut e = enemy(EnemyType::Exploder, 123, -456);
    e.is_zombie = true;
    e.zombie_lifetime = 77;
    let encoded = e.to_vec();
    assert_eq!(encoded.len(), 21);
    let decoded = EnemyState::from_slice(&encoded);
    assert_eq!(decoded, e);
}
