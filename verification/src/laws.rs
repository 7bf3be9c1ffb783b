//! Engine-wide laws, proved once over the spec-level mirrors that the
//! executable functions are verified against.

use vstd::prelude::*;
use crate::fixed::{
    sdiv, iabs, hypot_spec, sq_norm, isqrt_spec, isqrt_ceil_spec, lemma_isqrt_bounds,
    lemma_isqrt_unique, lemma_isqrt_monotone, lemma_sdiv_mag_le, lemma_sdiv_le_dividend,
};
use crate::types::{EnemyState, AiProjectile, wf_enemy, wf_coord};
use crate::enemy_ai::{
    dist_sq, lemma_sq_bound, spec_update_elite, spec_bounce, spec_update_single_enemy,
};
use crate::collision::{
    Projectile, SimpleEnemy, is_offensive, first_enemy_hit_from, phase1_removed_seq,
    phase1_pairs_seq, ship_damage_total, ship_was_hit,
};

verus! {

/// A squared speed within the squared cap means the ceiling length is
/// within the cap, so the clamp leaves the velocity untouched.
pub proof fn lemma_ceil_within_cap(n: int, cap: int)
    requires
        0 <= n,
        0 <= cap,
        n <= cap * cap,
    ensures
        isqrt_ceil_spec(n) <= cap,
{
    lemma_isqrt_bounds(n);
    let r = isqrt_spec(n);
    if r * r == n {
        assert(r <= cap) by (nonlinear_arith)
            requires
                r >= 0,
                cap >= 0,
                r * r <= cap * cap,
        ;
    } else {
        assert(r < cap || n > cap * cap) by (nonlinear_arith)
            requires
                r >= 0,
                cap >= 0,
                r * r <= n,
                n < (r + 1) * (r + 1),
                r * r != n,
        ;
    }
}

/// Boundary bounce at the left arena edge: an entity that crossed
/// `x < radius` is repositioned to exactly `x = radius`, and its horizontal
/// velocity flips sign with magnitude scaled by the restitution factor,
/// provided the scaled velocity is still inside the boosted cap (a faster
/// entity is additionally clamped) and the other edges are not crossed.
pub proof fn lemma_boundary_bounce_left(e: EnemyState, w: int, h: int)
    requires
        (e.x as int) < e.radius as int,
        e.radius as int <= w - e.radius as int,
        e.radius as int <= e.y as int <= h - e.radius as int,
        -12000 <= e.vx <= 12000,
        -12000 <= e.vy <= 12000,
    ensures
        spec_bounce(e, w, h).x == e.radius,
        spec_bounce(e, w, h).vx as int == -sdiv(e.vx as int * 1600, 1000),
        spec_bounce(e, w, h).vy == e.vy,
        spec_bounce(e, w, h).bounce_boost_frames == 14,
        spec_bounce(e, w, h).hit_cooldown == 4,
{
    let vx1 = -sdiv(e.vx as int * 1600, 1000);
    lemma_sdiv_mag_le(e.vx as int * 1600, 1000, 19200);
    assert(-(1000 * 19200) <= e.vx as int * 1600 <= 1000 * 19200) by (nonlinear_arith)
        requires
            -12000 <= e.vx as int <= 12000,
    ;
    lemma_sq_bound(vx1, 19200);
    lemma_sq_bound(e.vy as int, 12000);
    lemma_ceil_within_cap(sq_norm(vx1, e.vy as int), 28000);
}

/// Elite pursuit makes strict progress: while the target is farther than
/// the engagement threshold and the unit's radius is in the working band
/// (at least one twentieth of a unit, at most the threshold's worth, so the
/// step is nonzero and cannot overshoot), the stepped position is strictly
/// closer to the target.  A radius below the band gives a zero-length step
/// on far targets, so such inputs are left out.
pub proof fn lemma_elite_moves_closer(
    e: EnemyState,
    ship_x: int,
    ship_y: int,
    enemies: Seq<EnemyState>,
)
    requires
        wf_enemy(e),
        wf_coord(ship_x),
        wf_coord(ship_y),
        !e.is_zombie,
        50 <= e.radius <= 5000000,
        hypot_spec(ship_x - e.x as int, ship_y - e.y as int) > 200000,
    ensures
        dist_sq(
            spec_update_elite(e, ship_x, ship_y, enemies).x as int,
            spec_update_elite(e, ship_x, ship_y, enemies).y as int,
            ship_x,
            ship_y,
        ) < dist_sq(e.x as int, e.y as int, ship_x, ship_y),
{
    let dx = ship_x - e.x as int;
    let dy = ship_y - e.y as int;
    let n = sq_norm(dx, dy);
    assert(n == dx * dx + dy * dy);
    assert(n >= 0) by (nonlinear_arith)
        requires
            n == dx * dx + dy * dy,
    ;
    lemma_isqrt_bounds(n);
    let dist = hypot_spec(dx, dy);
    let speed = sdiv(e.radius as int * 40, 1000);
    assert(2 <= speed <= 200000) by {
        lemma_sdiv_mag_le(e.radius as int * 40, 1000, 200000);
        vstd::arithmetic::div_mod::lemma_div_is_ordered(2000, e.radius as int * 40, 1000);
        assert(2000int / 1000int == 2int);
        vstd::arithmetic::div_mod::lemma_div_pos_is_pos(e.radius as int * 40, 1000);
    }
    let qx = sdiv(dx * speed, dist);
    let qy = sdiv(dy * speed, dist);
    crate::fixed::lemma_component_le_hypot(dx, dy);
    // no overshoot on either axis: the quotient keeps the sign of the delta
    // and its magnitude stays within the delta
    assert(-(dist * iabs(dx)) <= dx * speed <= dist * iabs(dx)) by (nonlinear_arith)
        requires
            0 <= speed <= dist,
            -iabs(dx) <= dx <= iabs(dx),
            0 <= iabs(dx),
    ;
    lemma_sdiv_mag_le(dx * speed, dist, iabs(dx));
    assert(-(dist * iabs(dy)) <= dy * speed <= dist * iabs(dy)) by (nonlinear_arith)
        requires
            0 <= speed <= dist,
            -iabs(dy) <= dy <= iabs(dy),
            0 <= iabs(dy),
    ;
    lemma_sdiv_mag_le(dy * speed, dist, iabs(dy));
    // signs: qx keeps the sign of dx, qy of dy
    lemma_sdiv_le_dividend(dx * speed, dist);
    lemma_sdiv_le_dividend(dy * speed, dist);
    if dx >= 0 {
        assert(dx * speed >= 0) by (nonlinear_arith)
            requires
                speed >= 0,
                dx >= 0,
        ;
    } else {
        assert(dx * speed <= 0) by (nonlinear_arith)
            requires
                speed >= 0,
                dx < 0,
        ;
    }
    if dy >= 0 {
        assert(dy * speed >= 0) by (nonlinear_arith)
            requires
                speed >= 0,
                dy >= 0,
        ;
    } else {
        assert(dy * speed <= 0) by (nonlinear_arith)
            requires
                speed >= 0,
                dy < 0,
        ;
    }
    // the longer axis moves at least one milli-unit
    assert(dist <= iabs(dx) + iabs(dy)) by {
        let s = iabs(dx) + iabs(dy);
        assert(n <= s * s) by (nonlinear_arith)
            requires
                n == dx * dx + dy * dy,
                s == iabs(dx) + iabs(dy),
                -iabs(dx) <= dx <= iabs(dx),
                -iabs(dy) <= dy <= iabs(dy),
                0 <= iabs(dx),
                0 <= iabs(dy),
        ;
        assert(0 <= s * s && s * s < (s + 1) * (s + 1)) by (nonlinear_arith)
            requires
                s >= 0,
        ;
        lemma_isqrt_monotone(n, s * s);
        lemma_isqrt_unique(s * s, s);
    }
    if iabs(dx) >= iabs(dy) {
        assert(iabs(dx) * speed >= dist) by (nonlinear_arith)
            requires
                speed >= 2,
                2 * iabs(dx) >= dist,
                iabs(dx) >= 0,
        ;
        assert(iabs(qx) >= 1) by {
            if dx >= 0 {
                assert(iabs(dx * speed) == iabs(dx) * speed);
            } else {
                assert((-dx) * speed == -(dx * speed)) by (nonlinear_arith);
                assert(iabs(dx * speed) == iabs(dx) * speed);
            }
            vstd::arithmetic::div_mod::lemma_div_non_zero(iabs(dx * speed), dist);
        }
    } else {
        assert(iabs(dy) * speed >= dist) by (nonlinear_arith)
            requires
                speed >= 2,
                2 * iabs(dy) >= dist,
                iabs(dy) >= 0,
        ;
        assert(iabs(qy) >= 1) by {
            if dy >= 0 {
                assert(iabs(dy * speed) == iabs(dy) * speed);
            } else {
                assert((-dy) * speed == -(dy * speed)) by (nonlinear_arith);
                assert(iabs(dy * speed) == iabs(dy) * speed);
            }
            vstd::arithmetic::div_mod::lemma_div_non_zero(iabs(dy * speed), dist);
        }
    }
    // strict decrease of the squared distance
    let nx = dx - qx;
    let ny = dy - qy;
    assert(nx * nx + ny * ny < dx * dx + dy * dy) by (nonlinear_arith)
        requires
            nx == dx - qx,
            ny == dy - qy,
            -iabs(dx) <= qx <= iabs(dx),
            -iabs(dy) <= qy <= iabs(dy),
            dx >= 0 ==> qx >= 0,
            dx < 0 ==> qx <= 0,
            dy >= 0 ==> qy >= 0,
            dy < 0 ==> qy <= 0,
            iabs(dx) == if dx < 0 {
                -dx
            } else {
                dx
            },
            iabs(dy) == if dy < 0 {
                -dy
            } else {
                dy
            },
            iabs(qx) >= 1 || iabs(qy) >= 1,
            iabs(qx) == if qx < 0 {
                -qx
            } else {
                qx
            },
            iabs(qy) == if qy < 0 {
                -qy
            } else {
                qy
            },
    ;
    let r = spec_update_elite(e, ship_x, ship_y, enemies);
    assert(r.x as int == e.x as int + qx && r.y as int == e.y as int + qy);
    assert(dist_sq(e.x as int, e.y as int, ship_x, ship_y) == dx * dx + dy * dy)
        by (nonlinear_arith)
        requires
            dx == ship_x - e.x as int,
            dy == ship_y - e.y as int,
            dist_sq(e.x as int, e.y as int, ship_x, ship_y) == (e.x as int - ship_x) * (
            e.x as int - ship_x) + (e.y as int - ship_y) * (e.y as int - ship_y),
    ;
    assert(dist_sq(e.x as int + qx, e.y as int + qy, ship_x, ship_y) == nx * nx + ny * ny)
        by (nonlinear_arith)
        requires
            nx == ship_x - (e.x as int + qx),
            ny == ship_y - (e.y as int + qy),
            dist_sq(e.x as int + qx, e.y as int + qy, ship_x, ship_y) == (e.x as int + qx - ship_x)
                * (e.x as int + qx - ship_x) + (e.y as int + qy - ship_y) * (e.y as int + qy
                - ship_y),
    ;
}

/// Offensive-phase independence: whether a projectile registers a hit
/// depends on its own geometry alone.  Every offensive projectile
/// overlapping an eligible enemy appears in the removal list, whatever the
/// other projectiles did.
pub proof fn lemma_phase1_registers(projs: Seq<Projectile>, enemies: Seq<SimpleEnemy>, i: int)
    requires
        0 <= i < projs.len(),
        is_offensive(projs[i].owner),
        first_enemy_hit_from(projs[i], enemies, 0) is Some,
    ensures
        phase1_removed_seq(projs, enemies).contains(i as usize),
        phase1_pairs_seq(projs, enemies).contains(
            (first_enemy_hit_from(projs[i], enemies, 0).unwrap() as usize, projs[i].damage),
        ),
    decreases projs.len(),
{
    let removed = phase1_removed_seq(projs, enemies);
    let pairs = phase1_pairs_seq(projs, enemies);
    let j = first_enemy_hit_from(projs[i], enemies, 0).unwrap();
    if i == projs.len() - 1 {
        assert(projs.last() == projs[i]);
        assert(removed.last() == i as usize);
        assert(removed.contains(i as usize));
        assert(pairs.last() == (j as usize, projs[i].damage));
        assert(pairs.contains((j as usize, projs[i].damage)));
    } else {
        lemma_phase1_registers(projs.drop_last(), enemies, i);
        let prev_r = phase1_removed_seq(projs.drop_last(), enemies);
        let prev_p = phase1_pairs_seq(projs.drop_last(), enemies);
        assert(projs.drop_last()[i] == projs[i]);
        lemma_push_keeps_contains_usize(prev_r, removed, i as usize);
        lemma_push_keeps_contains_pair(prev_p, pairs, (j as usize, projs[i].damage));
    }
}

/// Two projectiles overlapping the same enemy in the same call each
/// independently register: first-hit priority is per projectile, not a
/// shared lock on the enemy.
pub proof fn lemma_phase1_both_register(
    projs: Seq<Projectile>,
    enemies: Seq<SimpleEnemy>,
    i1: int,
    i2: int,
    j: int,
)
    requires
        0 <= i1 < projs.len(),
        0 <= i2 < projs.len(),
        i1 != i2,
        is_offensive(projs[i1].owner),
        is_offensive(projs[i2].owner),
        first_enemy_hit_from(projs[i1], enemies, 0) == Some(j),
        first_enemy_hit_from(projs[i2], enemies, 0) == Some(j),
    ensures
        phase1_removed_seq(projs, enemies).contains(i1 as usize),
        phase1_removed_seq(projs, enemies).contains(i2 as usize),
        phase1_pairs_seq(projs, enemies).contains((j as usize, projs[i1].damage)),
        phase1_pairs_seq(projs, enemies).contains((j as usize, projs[i2].damage)),
{
    lemma_phase1_registers(projs, enemies, i1);
    lemma_phase1_registers(projs, enemies, i2);
}

/// A sequence that either was pushed onto or left alone keeps every
/// element it contained.
proof fn lemma_push_keeps_contains_usize(prev: Seq<usize>, cur: Seq<usize>, v: usize)
    requires
        prev.contains(v),
        cur == prev || exists|w: usize| cur == prev.push(w),
    ensures
        cur.contains(v),
{
    if cur != prev {
        let w = choose|w: usize| cur == prev.push(w);
        let p = choose|p: int| 0 <= p < prev.len() && prev[p] == v;
        assert(cur[p] == v);
    }
}

/// A pair sequence that either was pushed onto or left alone keeps every
/// pair it contained.
proof fn lemma_push_keeps_contains_pair(
    prev: Seq<(usize, i64)>,
    cur: Seq<(usize, i64)>,
    v: (usize, i64),
)
    requires
        prev.contains(v),
        cur == prev || exists|w: (usize, i64)| cur == prev.push(w),
    ensures
        cur.contains(v),
{
    if cur != prev {
        let w = choose|w: (usize, i64)| cur == prev.push(w);
        let p = choose|p: int| 0 <= p < prev.len() && prev[p] == v;
        assert(cur[p] == v);
    }
}

/// Shield law: with the shield up, no enemy projectile contributes ship
/// damage and the ship-hit flag stays down.  The removal list takes no
/// shield input at all, so an overlapping projectile is still consumed.
pub proof fn lemma_shield_blocks_damage(projs: Seq<Projectile>, sx: int, sy: int, sr: int)
    ensures
        ship_damage_total(projs, sx, sy, sr, true) == 0,
        !ship_was_hit(projs, sx, sy, sr, true),
    decreases projs.len(),
{
    if projs.len() > 0 {
        lemma_shield_blocks_damage(projs.drop_last(), sx, sy, sr);
    }
}

/// Determinism: one behavior frame is a function of the input record, the
/// frame inputs and the injected rolls alone.  Two calls over identical
/// buffers and identical rolls yield identical records; with no pending
/// randomized trigger there is no other source of variation.
pub proof fn lemma_update_deterministic(
    a: EnemyState,
    b: EnemyState,
    ship_x: int,
    ship_y: int,
    projs: Seq<AiProjectile>,
    enemies: Seq<EnemyState>,
    w: int,
    h: int,
    charge_roll: int,
    cooldown_roll: int,
)
    requires
        a == b,
    ensures
        spec_update_single_enemy(a, ship_x, ship_y, projs, enemies, w, h, charge_roll, cooldown_roll)
            == spec_update_single_enemy(
            b,
            ship_x,
            ship_y,
            projs,
            enemies,
            w,
            h,
            charge_roll,
            cooldown_roll,
        ),
{
}

} // verus!
