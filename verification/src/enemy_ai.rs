//! Enemy behavior engine.
//!
//! Each frame, one enemy record is advanced by its archetype's rules: the
//! wandering `Basic`, the pursuing `Elite`, the charging `Rammer` state
//! machine, and the homing `Exploder`.  Every function's result is pinned
//! down exactly by a spec-level mirror of its arithmetic, so the properties
//! of the engine (death on zombie expiry, speed caps, bounce repositioning)
//! are proved rather than sampled.

use vstd::prelude::*;
use crate::fixed::{
    sdiv, iabs, max_i, hypot_spec, hypot, sq_norm, isqrt_ceil_spec, hypot_ceil, clamp_spec, clamp,
    sin_milli_spec, cos_milli_spec, sin_milli, cos_milli, div_trunc, mul_milli, dot_milli,
    scale_toward, imax, lemma_component_le_hypot, lemma_sdiv_le_dividend,
    lemma_scaled_speed_capped,
};
use crate::types::{
    EnemyState, EnemyType, AiProjectile, ProjOwner, Circle, wf_enemy, wf_coord, wf_vel, wf_radius,
    wf_scalar, wf_ai_projectile,
};

verus! {

/// Squared distance between two points.
pub open spec fn dist_sq(ax: int, ay: int, bx: int, by: int) -> int {
    (ax - bx) * (ax - bx) + (ay - by) * (ay - by)
}

/// A square of a bounded value is bounded by the squared bound.
pub proof fn lemma_sq_bound(a: int, m: int)
    requires
        0 <= m,
        -m <= a <= m,
    ensures
        0 <= a * a <= m * m,
{
    assert(0 <= a * a <= m * m) by (nonlinear_arith)
        requires
            0 <= m,
            -m <= a <= m,
    ;
}

/// The nearest non-zombie enemy position, scanning in index order and
/// keeping the first of equally near candidates; `None` when every enemy is
/// a zombie.
pub open spec fn nearest_hostile_spec(s: Seq<EnemyState>, x: int, y: int) -> Option<(i64, i64)>
    decreases s.len(),
{
    if s.len() == 0 {
        None::<(i64, i64)>
    } else {
        let prev = nearest_hostile_spec(s.drop_last(), x, y);
        let e = s.last();
        if !e.is_zombie {
            match prev {
                None => Some((e.x, e.y)),
                Some(p) => if dist_sq(e.x as int, e.y as int, x, y) < dist_sq(
                    p.0 as int,
                    p.1 as int,
                    x,
                    y,
                ) {
                    Some((e.x, e.y))
                } else {
                    prev
                },
            }
        } else {
            prev
        }
    }
}

/// Finds the nearest non-zombie enemy to `(x, y)`, the retarget rule of
/// zombified units.
pub fn find_nearest_hostile(x: i64, y: i64, enemies: &Vec<EnemyState>) -> (r: Option<(i64, i64)>)
    requires
        wf_coord(x as int),
        wf_coord(y as int),
        forall|i: int| 0 <= i < enemies@.len() ==> wf_enemy(#[trigger] enemies@[i]),
    ensures
        r == nearest_hostile_spec(enemies@, x as int, y as int),
{
    let mut best: Option<(i64, i64)> = None;
    let mut i: usize = 0;
    while i < enemies.len()
        invariant
            0 <= i <= enemies@.len(),
            wf_coord(x as int),
            wf_coord(y as int),
            forall|k: int| 0 <= k < enemies@.len() ==> wf_enemy(#[trigger] enemies@[k]),
            best == nearest_hostile_spec(enemies@.take(i as int), x as int, y as int),
            best matches Some(p) ==> wf_coord(p.0 as int) && wf_coord(p.1 as int),
        decreases enemies@.len() - i,
    {
        let e = enemies[i];
        if !e.is_zombie {
            best = match best {
                None => Some((e.x, e.y)),
                Some(p) => {
                    let edx: i128 = (e.x as i128) - (x as i128);
                    let edy: i128 = (e.y as i128) - (y as i128);
                    let pdx: i128 = (p.0 as i128) - (x as i128);
                    let pdy: i128 = (p.1 as i128) - (y as i128);
                    proof {
                        assert(iabs(edx as int) <= 2000000000000 && iabs(edy as int)
                            <= 2000000000000 && iabs(pdx as int) <= 2000000000000 && iabs(
                            pdy as int,
                        ) <= 2000000000000);
                        lemma_sq_bound(edx as int, 2000000000000);
                        lemma_sq_bound(edy as int, 2000000000000);
                        lemma_sq_bound(pdx as int, 2000000000000);
                        lemma_sq_bound(pdy as int, 2000000000000);
                    }
                    if edx * edx + edy * edy < pdx * pdx + pdy * pdy {
                        Some((e.x, e.y))
                    } else {
                        Some(p)
                    }
                },
            };
        }
        proof {
            assert(enemies@.take(i + 1).drop_last() =~= enemies@.take(i as int));
            assert(enemies@.take(i + 1).last() == enemies@[i as int]);
        }
        i = i + 1;
    }
    proof {
        assert(enemies@.take(enemies@.len() as int) =~= enemies@);
    }
    best
}

/// The record after one `Basic` wander step: the angle grows by a fixed
/// increment and the position advances along the new angle at a speed
/// proportional to the radius.
pub open spec fn spec_update_basic(e: EnemyState) -> EnemyState {
    let angle = e.angle + 20;
    let sx = sdiv(cos_milli_spec(angle) * 133 * e.radius, 1000000);
    let sy = sdiv(sin_milli_spec(angle) * 133 * e.radius, 1000000);
    EnemyState { angle: angle as i64, x: (e.x + sx) as i64, y: (e.y + sy) as i64, ..e }
}

/// One `Basic` wander step.
pub fn update_basic(e: EnemyState) -> (r: EnemyState)
    requires
        wf_enemy(e),
    ensures
        r == spec_update_basic(e),
        r.angle == e.angle + 20,
        -2000000000000 <= r.x <= 2000000000000,
        -2000000000000 <= r.y <= 2000000000000,
{
    let angle: i64 = e.angle + 20;
    let c: i64 = cos_milli(angle);
    let s: i64 = sin_milli(angle);
    proof {
        assert(-1330000000000 <= (c as int * 133) * (e.radius as int) <= 1330000000000
            && (c as int) * 133 * (e.radius as int) == (c as int * 133) * (e.radius as int))
            by (nonlinear_arith)
            requires
                -1000 <= c as int <= 1000,
                0 <= e.radius as int <= 10000000,
        ;
        assert(-1330000000000 <= (s as int * 133) * (e.radius as int) <= 1330000000000
            && (s as int) * 133 * (e.radius as int) == (s as int * 133) * (e.radius as int))
            by (nonlinear_arith)
            requires
                -1000 <= s as int <= 1000,
                0 <= e.radius as int <= 10000000,
        ;
        lemma_sdiv_le_dividend((c as int) * 133 * (e.radius as int), 1000000);
        lemma_sdiv_le_dividend((s as int) * 133 * (e.radius as int), 1000000);
    }
    let sx: i64 = div_trunc(c * 133 * e.radius, 1000000);
    let sy: i64 = div_trunc(s * 133 * e.radius, 1000000);
    EnemyState { angle, x: e.x + sx, y: e.y + sy, ..e }
}

/// Pursuit target of a zombified unit: the nearest non-zombie enemy, or the
/// fallback position when none exists.
pub open spec fn zombie_target_or(
    s: Seq<EnemyState>,
    x: int,
    y: int,
    fx: int,
    fy: int,
) -> (int, int) {
    match nearest_hostile_spec(s, x, y) {
        Some(p) => (p.0 as int, p.1 as int),
        None => (fx, fy),
    }
}

/// The record after one `Elite` pursuit step: while farther than the
/// engagement threshold from its target it closes at `radius * 0.04` a tick,
/// within the threshold it holds position.
pub open spec fn spec_update_elite(
    e: EnemyState,
    ship_x: int,
    ship_y: int,
    enemies: Seq<EnemyState>,
) -> EnemyState {
    let t = if e.is_zombie {
        zombie_target_or(enemies, e.x as int, e.y as int, ship_x, ship_y)
    } else {
        (ship_x, ship_y)
    };
    let dx = t.0 - e.x;
    let dy = t.1 - e.y;
    let dist = hypot_spec(dx, dy);
    if dist > 200000 {
        let speed = sdiv(e.radius * 40, 1000);
        EnemyState {
            x: (e.x + sdiv(dx * speed, dist)) as i64,
            y: (e.y + sdiv(dy * speed, dist)) as i64,
            ..e
        }
    } else {
        e
    }
}

/// One `Elite` pursuit step.
pub fn update_elite(e: EnemyState, ship_x: i64, ship_y: i64, enemies: &Vec<EnemyState>) -> (r:
    EnemyState)
    requires
        wf_enemy(e),
        wf_coord(ship_x as int),
        wf_coord(ship_y as int),
        forall|i: int| 0 <= i < enemies@.len() ==> wf_enemy(#[trigger] enemies@[i]),
    ensures
        r == spec_update_elite(e, ship_x as int, ship_y as int, enemies@),
        wf_enemy(r) || (-2000000000000 <= r.x <= 2000000000000 && -2000000000000 <= r.y
            <= 2000000000000),
{
    let (tx, ty): (i64, i64) = if e.is_zombie {
        match find_nearest_hostile(e.x, e.y, enemies) {
            Some(p) => p,
            None => (ship_x, ship_y),
        }
    } else {
        (ship_x, ship_y)
    };
    proof {
        lemma_nearest_hostile_wf(enemies@, e.x as int, e.y as int);
    }
    let dx: i64 = tx - e.x;
    let dy: i64 = ty - e.y;
    let dist: i64 = hypot(dx, dy);
    if dist > 200000 {
        let speed: i64 = div_trunc(e.radius * 40, 1000);
        proof {
            lemma_component_le_hypot(dx as int, dy as int);
            lemma_sdiv_le_dividend(e.radius as int * 40, 1000);
        }
        let sx: i64 = scale_toward(dx, speed, dist);
        let sy: i64 = scale_toward(dy, speed, dist);
        EnemyState { x: e.x + sx, y: e.y + sy, ..e }
    } else {
        e
    }
}

/// Every position the nearest-hostile scan returns comes from a well-formed
/// record, so its coordinates are in range.
pub proof fn lemma_nearest_hostile_wf(s: Seq<EnemyState>, x: int, y: int)
    requires
        forall|i: int| 0 <= i < s.len() ==> wf_enemy(#[trigger] s[i]),
    ensures
        nearest_hostile_spec(s, x, y) matches Some(p) ==> wf_coord(p.0 as int) && wf_coord(
            p.1 as int,
        ),
    decreases s.len(),
{
    if s.len() > 0 {
        lemma_nearest_hostile_wf(s.drop_last(), x, y);
    }
}

/// The record after one `Exploder` homing step: the pulse phase advances,
/// then the unit closes on its target at `radius * 0.0145` a tick whenever
/// the distance is positive; a zombified unit with no hostile target takes
/// no step beyond the pulse advance.
pub open spec fn spec_update_exploder(
    e: EnemyState,
    ship_x: int,
    ship_y: int,
    enemies: Seq<EnemyState>,
) -> EnemyState {
    let e1 = EnemyState { pulse_phase: (e.pulse_phase + 100) as i64, ..e };
    let target = if e.is_zombie {
        match nearest_hostile_spec(enemies, e.x as int, e.y as int) {
            Some(p) => Some((p.0 as int, p.1 as int)),
            None => None,
        }
    } else {
        Some((ship_x, ship_y))
    };
    match target {
        None => e1,
        Some(t) => {
            let dx = t.0 - e1.x;
            let dy = t.1 - e1.y;
            let dist = hypot_spec(dx, dy);
            if dist > 0 {
                let speed = sdiv(e1.radius * 145, 10000);
                EnemyState {
                    x: (e1.x + sdiv(dx * speed, dist)) as i64,
                    y: (e1.y + sdiv(dy * speed, dist)) as i64,
                    ..e1
                }
            } else {
                e1
            }
        },
    }
}

/// One `Exploder` homing step.
pub fn update_exploder(e: EnemyState, ship_x: i64, ship_y: i64, enemies: &Vec<EnemyState>) -> (r:
    EnemyState)
    requires
        wf_enemy(e),
        wf_coord(ship_x as int),
        wf_coord(ship_y as int),
        forall|i: int| 0 <= i < enemies@.len() ==> wf_enemy(#[trigger] enemies@[i]),
    ensures
        r == spec_update_exploder(e, ship_x as int, ship_y as int, enemies@),
        -2000000000000 <= r.x <= 2000000000000,
        -2000000000000 <= r.y <= 2000000000000,
{
    let e1 = EnemyState { pulse_phase: e.pulse_phase + 100, ..e };
    let target: Option<(i64, i64)> = if e.is_zombie {
        find_nearest_hostile(e.x, e.y, enemies)
    } else {
        Some((ship_x, ship_y))
    };
    proof {
        lemma_nearest_hostile_wf(enemies@, e.x as int, e.y as int);
    }
    match target {
        None => e1,
        Some((tx, ty)) => {
            let dx: i64 = tx - e1.x;
            let dy: i64 = ty - e1.y;
            let dist: i64 = hypot(dx, dy);
            if dist > 0 {
                let speed: i64 = div_trunc(e1.radius * 145, 10000);
                proof {
                    lemma_component_le_hypot(dx as int, dy as int);
                    lemma_sdiv_le_dividend(e1.radius as int * 145, 10000);
                }
                let sx: i64 = scale_toward(dx, speed, dist);
                let sy: i64 = scale_toward(dy, speed, dist);
                EnemyState { x: e1.x + sx, y: e1.y + sy, ..e1 }
            } else {
                e1
            }
        },
    }
}

/// A tick off each of the four rammer timers that is still running.
pub open spec fn spec_rammer_tick(e: EnemyState) -> EnemyState {
    EnemyState {
        hit_cooldown: if e.hit_cooldown > 0 {
            (e.hit_cooldown - 1) as i64
        } else {
            e.hit_cooldown
        },
        charge_cooldown: if e.charge_cooldown > 0 {
            (e.charge_cooldown - 1) as i64
        } else {
            e.charge_cooldown
        },
        charge_frames: if e.charge_frames > 0 {
            (e.charge_frames - 1) as i64
        } else {
            e.charge_frames
        },
        bounce_boost_frames: if e.bounce_boost_frames > 0 {
            (e.bounce_boost_frames - 1) as i64
        } else {
            e.bounce_boost_frames
        },
        ..e
    }
}

/// Milli unit vector along `(x, y)`, the zero vector kept short of one unit
/// (lengths under one unit are not scaled up).
pub open spec fn unit_of_spec(x: int, y: int) -> (int, int) {
    let l = max_i(hypot_spec(x, y), 1000);
    (sdiv(x * 1000, l), sdiv(y * 1000, l))
}

/// Milli unit vector along `(x, y)`.
pub fn unit_of(x: i64, y: i64) -> (r: (i64, i64))
    requires
        -0x800000000000 <= x <= 0x800000000000,
        -0x800000000000 <= y <= 0x800000000000,
    ensures
        (r.0 as int, r.1 as int) == unit_of_spec(x as int, y as int),
        -1000 <= r.0 <= 1000,
        -1000 <= r.1 <= 1000,
{
    let l: i64 = imax(hypot(x, y), 1000);
    proof {
        lemma_component_le_hypot(x as int, y as int);
    }
    (scale_toward(x, 1000, l), scale_toward(y, 1000, l))
}

/// Blend of two milli unit vectors with weight `w` on the second, truncated
/// back to at most one unit.
pub open spec fn blend_unit_spec(ax: int, ay: int, bx: int, by: int, w: int) -> (int, int) {
    let px = sdiv(ax * (1000 - w) + bx * w, 1000);
    let py = sdiv(ay * (1000 - w) + by * w, 1000);
    let l = max_i(hypot_spec(px, py), 1000);
    (sdiv(px * 1000, l), sdiv(py * 1000, l))
}

/// Blend of two milli unit vectors with weight `w` on the second.
pub fn blend_unit(ax: i64, ay: i64, bx: i64, by: i64, w: i64) -> (r: (i64, i64))
    requires
        -1000 <= ax <= 1000,
        -1000 <= ay <= 1000,
        -1000 <= bx <= 1000,
        -1000 <= by <= 1000,
        0 <= w <= 1000,
    ensures
        (r.0 as int, r.1 as int) == blend_unit_spec(ax as int, ay as int, bx as int, by as int, w as int),
        -1000 <= r.0 <= 1000,
        -1000 <= r.1 <= 1000,
{
    proof {
        assert(-1000000 <= (ax as int) * (1000 - w as int) + (bx as int) * (w as int) <= 1000000
            && -1000000 <= (ay as int) * (1000 - w as int) + (by as int) * (w as int) <= 1000000
            && -1000000 <= (ax as int) * (1000 - w as int) <= 1000000 && -1000000 <= (bx as int)
            * (w as int) <= 1000000 && -1000000 <= (ay as int) * (1000 - w as int) <= 1000000
            && -1000000 <= (by as int) * (w as int) <= 1000000) by (nonlinear_arith)
            requires
                -1000 <= ax as int <= 1000,
                -1000 <= ay as int <= 1000,
                -1000 <= bx as int <= 1000,
                -1000 <= by as int <= 1000,
                0 <= w as int <= 1000,
        ;
        crate::fixed::lemma_sdiv_mag_le(
            (ax as int) * (1000 - w as int) + (bx as int) * (w as int),
            1000,
            1000,
        );
        crate::fixed::lemma_sdiv_mag_le(
            (ay as int) * (1000 - w as int) + (by as int) * (w as int),
            1000,
            1000,
        );
    }
    let px: i64 = div_trunc(ax * (1000 - w) + bx * w, 1000);
    let py: i64 = div_trunc(ay * (1000 - w) + by * w, 1000);
    unit_of(px, py)
}

/// Velocity after one incoming projectile is considered for a dodge: a
/// player or module projectile close enough, while the rammer is outside the
/// orbit-break radius and the projectile is not closing fast, pushes the
/// velocity opposite the projectile's heading.
pub open spec fn dodge_one_spec(
    p: AiProjectile,
    ex: int,
    ey: int,
    dist_ship: int,
    vx: int,
    vy: int,
) -> (int, int) {
    if p.owner == ProjOwner::Player || p.owner == ProjOwner::Module {
        let pdx = p.x - ex;
        let pdy = p.y - ey;
        let pdist = hypot_spec(pdx, pdy);
        if pdist < 120000 && dist_ship >= 140000 {
            let n = unit_of_spec(p.vx as int, p.vy as int);
            let approach = sdiv(pdx * n.0 + pdy * n.1, 1000);
            if approach < 80000 {
                (vx - sdiv(n.0 * 2200, 1000), vy - sdiv(n.1 * 2200, 1000))
            } else {
                (vx, vy)
            }
        } else {
            (vx, vy)
        }
    } else {
        (vx, vy)
    }
}

/// Velocity after the whole dodge pass, in projectile index order.
pub open spec fn dodge_all_spec(
    projs: Seq<AiProjectile>,
    ex: int,
    ey: int,
    dist_ship: int,
    vx: int,
    vy: int,
) -> (int, int)
    decreases projs.len(),
{
    if projs.len() == 0 {
        (vx, vy)
    } else {
        let prev = dodge_all_spec(projs.drop_last(), ex, ey, dist_ship, vx, vy);
        dodge_one_spec(projs.last(), ex, ey, dist_ship, prev.0, prev.1)
    }
}

/// Velocity pair after the speed clamp: scaled down by its own ceiling
/// length when that length exceeds the cap, untouched otherwise.
pub open spec fn clamp_vel_spec(vx: int, vy: int, cap: int) -> (int, int) {
    let v = isqrt_ceil_spec(sq_norm(vx, vy));
    if v > cap {
        (sdiv(vx * cap, v), sdiv(vy * cap, v))
    } else {
        (vx, vy)
    }
}

/// Clamps a velocity to `cap`: afterwards the squared speed is at most
/// `cap^2`, however large the input was.
pub fn clamp_vel(vx: i64, vy: i64, cap: i64) -> (r: (i64, i64))
    requires
        -0x800000000000 <= vx <= 0x800000000000,
        -0x800000000000 <= vy <= 0x800000000000,
        1 <= cap <= 1000000,
    ensures
        (r.0 as int, r.1 as int) == clamp_vel_spec(vx as int, vy as int, cap as int),
        sq_norm(r.0 as int, r.1 as int) <= (cap as int) * (cap as int),
        -cap <= r.0 <= cap,
        -cap <= r.1 <= cap,
{
    let v: i64 = hypot_ceil(vx, vy);
    if v > cap {
        let wx: i64 = scale_toward(vx, cap, v);
        let wy: i64 = scale_toward(vy, cap, v);
        proof {
            lemma_scaled_speed_capped(vx as int, vy as int, cap as int, v as int, wx as int, wy as int);
        }
        (wx, wy)
    } else {
        proof {
            assert(sq_norm(vx as int, vy as int) <= (cap as int) * (cap as int)) by (nonlinear_arith)
                requires
                    sq_norm(vx as int, vy as int) <= (v as int) * (v as int),
                    0 <= v as int <= cap as int,
                    sq_norm(vx as int, vy as int) == (vx as int) * (vx as int) + (vy as int) * (vy as int),
            ;
        }
        (vx, vy)
    }
}

/// The rammer's pursuit point: a zombified rammer chases the nearest
/// non-zombie enemy (its own position when none exists); otherwise it leads
/// the ship by the fixed predictive factor.
pub open spec fn rammer_target_spec(
    e: EnemyState,
    ship_x: int,
    ship_y: int,
    enemies: Seq<EnemyState>,
) -> (int, int) {
    if e.is_zombie {
        zombie_target_or(enemies, e.x as int, e.y as int, e.x as int, e.y as int)
    } else {
        (sdiv(ship_x * 1400, 1000), sdiv(ship_y * 1400, 1000))
    }
}

/// State and steering after the charge step: an active charge thrusts
/// harder and keeps the boost window open; otherwise base thrust applies
/// and, off cooldown, near the ship, on a winning roll, a new charge starts
/// with an instantaneous speed bonus and a randomized cooldown.
pub open spec fn spec_rammer_charge(
    e: EnemyState,
    dirx: int,
    diry: int,
    dist_ship: int,
    charge_roll: int,
    cooldown_roll: int,
) -> EnemyState {
    if e.charge_frames > 0 {
        EnemyState {
            vx: (e.vx + sdiv(dirx * 2160, 1000)) as i64,
            vy: (e.vy + sdiv(diry * 2160, 1000)) as i64,
            bounce_boost_frames: max_i(e.bounce_boost_frames as int, 26) as i64,
            ..e
        }
    } else {
        let vx1 = e.vx + sdiv(dirx * 1200, 1000);
        let vy1 = e.vy + sdiv(diry * 1200, 1000);
        if e.charge_cooldown <= 0 && dist_ship < 300000 && charge_roll < 20 {
            EnemyState {
                vx: (vx1 + sdiv(dirx * 6000, 1000)) as i64,
                vy: (vy1 + sdiv(diry * 6000, 1000)) as i64,
                charge_frames: 26 as i64,
                charge_cooldown: (220 + sdiv(cooldown_roll * 120, 1000)) as i64,
                ..e
            }
        } else {
            EnemyState { vx: vx1 as i64, vy: vy1 as i64, ..e }
        }
    }
}

/// State and steering after the anti-orbit step: inside the orbit-break
/// radius the tangential velocity is damped, an inward radial nudge is
/// added, and the steering is biased toward the ship.
pub open spec fn spec_rammer_orbit(
    e: EnemyState,
    ship_x: int,
    ship_y: int,
    dist_ship: int,
    dirx: int,
    diry: int,
) -> (EnemyState, int, int) {
    if dist_ship < 140000 {
        let n = unit_of_spec(ship_x - e.x as int, ship_y - e.y as int);
        let vdotn = sdiv(e.vx as int * n.0 + e.vy as int * n.1, 1000);
        let vrx = sdiv(n.0 * vdotn, 1000);
        let vry = sdiv(n.1 * vdotn, 1000);
        let vtx = e.vx - vrx;
        let vty = e.vy - vry;
        let vx1 = vrx + sdiv(vtx * 900, 1000) + sdiv(n.0 * 800, 1000);
        let vy1 = vry + sdiv(vty * 900, 1000) + sdiv(n.1 * 800, 1000);
        let d = blend_unit_spec(dirx, diry, n.0, n.1, 750);
        (EnemyState { vx: vx1 as i64, vy: vy1 as i64, ..e }, d.0, d.1)
    } else {
        (e, dirx, diry)
    }
}

/// The speed cap the rammer is under: boosted while a bounce boost or a
/// charge is active, base otherwise.
pub open spec fn rammer_cap(e: EnemyState) -> int {
    if e.bounce_boost_frames > 0 || e.charge_frames > 0 {
        28000
    } else {
        9000
    }
}

/// Velocity after global damping and the speed clamp.
pub open spec fn spec_rammer_damp_clamp(e: EnemyState) -> EnemyState {
    let vx = sdiv(e.vx as int * 985, 1000);
    let vy = sdiv(e.vy as int * 985, 1000);
    let c = clamp_vel_spec(vx, vy, rammer_cap(e));
    EnemyState { vx: c.0 as i64, vy: c.1 as i64, ..e }
}

/// Velocity after the minimum-forward-speed floor: near the ship a stalled
/// rammer is pushed along its steering direction up to the floor.
pub open spec fn spec_rammer_min_fwd(e: EnemyState, dirx: int, diry: int, dist_ship: int) -> EnemyState {
    if dist_ship < 220000 {
        let v2 = hypot_spec(e.vx as int, e.vy as int);
        if v2 < 800 {
            EnemyState {
                vx: (e.vx + sdiv(dirx * (800 - v2), 1000)) as i64,
                vy: (e.vy + sdiv(diry * (800 - v2), 1000)) as i64,
                ..e
            }
        } else {
            e
        }
    } else {
        e
    }
}

/// The record after the boundary bounce: a position past an arena edge is
/// clamped to the edge and the corresponding velocity component is inverted
/// with the restitution gain; any bounce starts the boost and hit-cooldown
/// windows and re-clamps the speed to the boosted cap.
pub open spec fn spec_bounce(e: EnemyState, w: int, h: int) -> EnemyState {
    let b1 = (e.x as int) < e.radius as int;
    let x1 = if b1 {
        e.radius as int
    } else {
        e.x as int
    };
    let vx1 = if b1 {
        -sdiv(e.vx as int * 1600, 1000)
    } else {
        e.vx as int
    };
    let b2 = x1 > w - e.radius as int;
    let x2 = if b2 {
        w - e.radius as int
    } else {
        x1
    };
    let vx2 = if b2 {
        -sdiv(vx1 * 1600, 1000)
    } else {
        vx1
    };
    let b3 = (e.y as int) < e.radius as int;
    let y1 = if b3 {
        e.radius as int
    } else {
        e.y as int
    };
    let vy1 = if b3 {
        -sdiv(e.vy as int * 1600, 1000)
    } else {
        e.vy as int
    };
    let b4 = y1 > h - e.radius as int;
    let y2 = if b4 {
        h - e.radius as int
    } else {
        y1
    };
    let vy2 = if b4 {
        -sdiv(vy1 * 1600, 1000)
    } else {
        vy1
    };
    if b1 || b2 || b3 || b4 {
        let c = clamp_vel_spec(vx2, vy2, 28000);
        EnemyState {
            x: x2 as i64,
            y: y2 as i64,
            vx: c.0 as i64,
            vy: c.1 as i64,
            bounce_boost_frames: 14 as i64,
            hit_cooldown: 4 as i64,
            ..e
        }
    } else {
        e
    }
}

/// The record after one full rammer step, the ordered composition of the
/// timer tick, dodge, steering, charge, anti-orbit, damping and clamping,
/// forward-speed floor, integration, and boundary bounce.
pub open spec fn spec_update_rammer(
    e: EnemyState,
    ship_x: int,
    ship_y: int,
    projs: Seq<AiProjectile>,
    enemies: Seq<EnemyState>,
    w: int,
    h: int,
    charge_roll: int,
    cooldown_roll: int,
) -> EnemyState {
    let e1 = spec_rammer_tick(e);
    let fv = if iabs(e1.vx as int) + iabs(e1.vy as int) < 1 {
        (1000, 0)
    } else {
        (e1.vx as int, e1.vy as int)
    };
    let f = unit_of_spec(fv.0, fv.1);
    let t = rammer_target_spec(e1, ship_x, ship_y, enemies);
    let d = unit_of_spec(t.0 - e1.x as int, t.1 - e1.y as int);
    let dist_ship = hypot_spec(ship_x - e1.x as int, ship_y - e1.y as int);
    let v = dodge_all_spec(projs, e1.x as int, e1.y as int, dist_ship, e1.vx as int, e1.vy as int);
    let e2 = EnemyState { vx: v.0 as i64, vy: v.1 as i64, ..e1 };
    let s = blend_unit_spec(f.0, f.1, d.0, d.1, 500);
    let e3 = spec_rammer_charge(e2, s.0, s.1, dist_ship, charge_roll, cooldown_roll);
    let o = spec_rammer_orbit(e3, ship_x, ship_y, dist_ship, s.0, s.1);
    let e4 = spec_rammer_damp_clamp(o.0);
    let e5 = spec_rammer_min_fwd(e4, o.1, o.2, dist_ship);
    let e6 = EnemyState { x: (e5.x + e5.vx) as i64, y: (e5.y + e5.vy) as i64, ..e5 };
    spec_bounce(e6, w, h)
}

/// Clamps a crossed arena edge back to the edge and inverts the velocity
/// component with the restitution gain; a bounce starts the boost and
/// hit-cooldown windows and re-clamps the speed to the boosted cap.
pub fn handle_boundary_bounce(e: EnemyState, canvas_width: i64, canvas_height: i64) -> (r:
    EnemyState)
    requires
        -2000000000000 <= e.x <= 2000000000000,
        -2000000000000 <= e.y <= 2000000000000,
        -100000 <= e.vx <= 100000,
        -100000 <= e.vy <= 100000,
        wf_radius(e.radius as int),
        0 < canvas_width <= 1000000000000,
        0 < canvas_height <= 1000000000000,
    ensures
        r == spec_bounce(e, canvas_width as int, canvas_height as int),
        r == e || (sq_norm(r.vx as int, r.vy as int) <= 28000 * 28000 && r.bounce_boost_frames
            == 14 && r.hit_cooldown == 4),
        -2000000000000 <= r.x <= 2000000000000,
        -2000000000000 <= r.y <= 2000000000000,
        -256000 <= r.vx <= 256000,
        -256000 <= r.vy <= 256000,
{
    let mut x: i64 = e.x;
    let mut y: i64 = e.y;
    let mut vx: i64 = e.vx;
    let mut vy: i64 = e.vy;
    let mut bounced: bool = false;
    if x < e.radius {
        x = e.radius;
        vx = -mul_milli(vx, 1600, Ghost(100000), Ghost(1600));
        bounced = true;
    }
    if x > canvas_width - e.radius {
        x = canvas_width - e.radius;
        vx = -mul_milli(vx, 1600, Ghost(160000), Ghost(1600));
        bounced = true;
    }
    if y < e.radius {
        y = e.radius;
        vy = -mul_milli(vy, 1600, Ghost(100000), Ghost(1600));
        bounced = true;
    }
    if y > canvas_height - e.radius {
        y = canvas_height - e.radius;
        vy = -mul_milli(vy, 1600, Ghost(160000), Ghost(1600));
        bounced = true;
    }
    if bounced {
        let c: (i64, i64) = clamp_vel(vx, vy, 28000);
        EnemyState {
            x,
            y,
            vx: c.0,
            vy: c.1,
            bounce_boost_frames: 14,
            hit_cooldown: 4,
            ..e
        }
    } else {
        EnemyState { x, y, vx, vy, ..e }
    }
}

/// The dodge pass: every incoming player or module projectile in range
/// while the rammer is outside the orbit-break radius and not closing fast
/// adds a lateral impulse, in projectile index order.
pub fn dodge_pass(
    ex: i64,
    ey: i64,
    vx0: i64,
    vy0: i64,
    dist_ship: i64,
    projectiles: &Vec<AiProjectile>,
) -> (r: (i64, i64))
    requires
        wf_coord(ex as int),
        wf_coord(ey as int),
        wf_vel(vx0 as int),
        wf_vel(vy0 as int),
        projectiles@.len() <= 100000,
        forall|i: int| 0 <= i < projectiles@.len() ==> wf_ai_projectile(
            #[trigger] projectiles@[i],
        ),
    ensures
        (r.0 as int, r.1 as int) == dodge_all_spec(
            projectiles@,
            ex as int,
            ey as int,
            dist_ship as int,
            vx0 as int,
            vy0 as int,
        ),
        -1220000000 <= r.0 <= 1220000000,
        -1220000000 <= r.1 <= 1220000000,
{
    let mut vx: i64 = vx0;
    let mut vy: i64 = vy0;
    let mut i: usize = 0;
    while i < projectiles.len()
        invariant
            0 <= i <= projectiles@.len(),
            projectiles@.len() <= 100000,
            forall|k: int| 0 <= k < projectiles@.len() ==> wf_ai_projectile(
                #[trigger] projectiles@[k],
            ),
            wf_coord(ex as int),
            wf_coord(ey as int),
            (vx as int, vy as int) == dodge_all_spec(
                projectiles@.take(i as int),
                ex as int,
                ey as int,
                dist_ship as int,
                vx0 as int,
                vy0 as int,
            ),
            -(1000000000 + 2200 * i) <= vx as int <= 1000000000 + 2200 * i,
            -(1000000000 + 2200 * i) <= vy as int <= 1000000000 + 2200 * i,
        decreases projectiles@.len() - i,
    {
        let p = projectiles[i];
        if p.owner == ProjOwner::Player || p.owner == ProjOwner::Module {
            let pdx: i64 = p.x - ex;
            let pdy: i64 = p.y - ey;
            let pdist: i64 = hypot(pdx, pdy);
            if pdist < 120000 && dist_ship >= 140000 {
                let n: (i64, i64) = unit_of(p.vx, p.vy);
                let approach: i64 = dot_milli(pdx, pdy, n.0, n.1);
                if approach < 80000 {
                    let ix: i64 = mul_milli(n.0, 2200, Ghost(1000), Ghost(2200));
                    let iy: i64 = mul_milli(n.1, 2200, Ghost(1000), Ghost(2200));
                    vx = vx - ix;
                    vy = vy - iy;
                }
            }
        }
        proof {
            assert(projectiles@.take(i + 1).drop_last() =~= projectiles@.take(i as int));
            assert(projectiles@.take(i + 1).last() == projectiles@[i as int]);
        }
        i = i + 1;
    }
    proof {
        assert(projectiles@.take(projectiles@.len() as int) =~= projectiles@);
    }
    (vx, vy)
}

/// The charge step on a dodged record.
fn charge_step(
    e2: EnemyState,
    sx: i64,
    sy: i64,
    dist_ship: i64,
    charge_roll: i64,
    cooldown_roll: i64,
) -> (r: EnemyState)
    requires
        -1220000000 <= e2.vx <= 1220000000,
        -1220000000 <= e2.vy <= 1220000000,
        -1000 <= sx <= 1000,
        -1000 <= sy <= 1000,
        wf_scalar(e2.bounce_boost_frames as int),
        wf_scalar(e2.charge_cooldown as int),
        0 <= cooldown_roll < 1000,
    ensures
        r == spec_rammer_charge(
            e2,
            sx as int,
            sy as int,
            dist_ship as int,
            charge_roll as int,
            cooldown_roll as int,
        ),
        -1230000000 <= r.vx <= 1230000000,
        -1230000000 <= r.vy <= 1230000000,
        r.x == e2.x && r.y == e2.y,
{
    if e2.charge_frames > 0 {
        let tix: i64 = mul_milli(sx, 2160, Ghost(1000), Ghost(2160));
        let tiy: i64 = mul_milli(sy, 2160, Ghost(1000), Ghost(2160));
        EnemyState {
            vx: e2.vx + tix,
            vy: e2.vy + tiy,
            bounce_boost_frames: imax(e2.bounce_boost_frames, 26),
            ..e2
        }
    } else {
        let tix: i64 = mul_milli(sx, 1200, Ghost(1000), Ghost(1200));
        let tiy: i64 = mul_milli(sy, 1200, Ghost(1000), Ghost(1200));
        let vx1: i64 = e2.vx + tix;
        let vy1: i64 = e2.vy + tiy;
        if e2.charge_cooldown <= 0 && dist_ship < 300000 && charge_roll < 20 {
            let bx: i64 = mul_milli(sx, 6000, Ghost(1000), Ghost(6000));
            let by: i64 = mul_milli(sy, 6000, Ghost(1000), Ghost(6000));
            proof {
                crate::fixed::lemma_sdiv_mag_le(cooldown_roll as int * 120, 1000, 120);
            }
            EnemyState {
                vx: vx1 + bx,
                vy: vy1 + by,
                charge_frames: 26,
                charge_cooldown: 220 + div_trunc(cooldown_roll * 120, 1000),
                ..e2
            }
        } else {
            EnemyState { vx: vx1, vy: vy1, ..e2 }
        }
    }
}

/// The anti-orbit step on a thrusted record.
fn orbit_step(e3: EnemyState, ship_x: i64, ship_y: i64, dist_ship: i64, sx: i64, sy: i64) -> (r: (EnemyState, i64, i64))
    requires
        wf_coord(e3.x as int),
        wf_coord(e3.y as int),
        -1230000000 <= e3.vx <= 1230000000,
        -1230000000 <= e3.vy <= 1230000000,
        wf_coord(ship_x as int),
        wf_coord(ship_y as int),
        -1000 <= sx <= 1000,
        -1000 <= sy <= 1000,
    ensures
        (r.0, r.1 as int, r.2 as int) == spec_rammer_orbit(
            e3,
            ship_x as int,
            ship_y as int,
            dist_ship as int,
            sx as int,
            sy as int,
        ),
        -6000000000 <= r.0.vx <= 6000000000,
        -6000000000 <= r.0.vy <= 6000000000,
        -1000 <= r.1 <= 1000,
        -1000 <= r.2 <= 1000,
        r.0 == (EnemyState { vx: r.0.vx, vy: r.0.vy, ..e3 }),
{
    if dist_ship < 140000 {
        let n: (i64, i64) = unit_of(ship_x - e3.x, ship_y - e3.y);
        let vdotn: i64 = dot_milli(e3.vx, e3.vy, n.0, n.1);
        let vrx: i64 = mul_milli(n.0, vdotn, Ghost(1000), Ghost(2460000000));
        let vry: i64 = mul_milli(n.1, vdotn, Ghost(1000), Ghost(2460000000));
        let vtx: i64 = e3.vx - vrx;
        let vty: i64 = e3.vy - vry;
        let tx9: i64 = mul_milli(vtx, 900, Ghost(3690000000), Ghost(900));
        let ty9: i64 = mul_milli(vty, 900, Ghost(3690000000), Ghost(900));
        let nx8: i64 = mul_milli(n.0, 800, Ghost(1000), Ghost(800));
        let ny8: i64 = mul_milli(n.1, 800, Ghost(1000), Ghost(800));
        let vx1: i64 = vrx + tx9 + nx8;
        let vy1: i64 = vry + ty9 + ny8;
        let dd: (i64, i64) = blend_unit(sx, sy, n.0, n.1, 750);
        (EnemyState { vx: vx1, vy: vy1, ..e3 }, dd.0, dd.1)
    } else {
        (e3, sx, sy)
    }
}

/// Damping, the speed clamp, and the minimum-forward-speed floor: the
/// returned velocity satisfies the cap of the returned boost state.
fn damp_clamp_min_fwd(e4pre: EnemyState, dirx: i64, diry: i64, dist_ship: i64) -> (r: EnemyState)
    requires
        -6000000000 <= e4pre.vx <= 6000000000,
        -6000000000 <= e4pre.vy <= 6000000000,
        -1000 <= dirx <= 1000,
        -1000 <= diry <= 1000,
    ensures
        r == spec_rammer_min_fwd(
            spec_rammer_damp_clamp(e4pre),
            dirx as int,
            diry as int,
            dist_ship as int,
        ),
        sq_norm(r.vx as int, r.vy as int) <= rammer_cap(r) * rammer_cap(r),
        -28800 <= r.vx <= 28800,
        -28800 <= r.vy <= 28800,
        r == (EnemyState { vx: r.vx, vy: r.vy, ..e4pre }),
{
    let dvx: i64 = mul_milli(e4pre.vx, 985, Ghost(6000000000), Ghost(985));
    let dvy: i64 = mul_milli(e4pre.vy, 985, Ghost(6000000000), Ghost(985));
    let cap: i64 = if e4pre.bounce_boost_frames > 0 || e4pre.charge_frames > 0 {
        28000
    } else {
        9000
    };
    let c: (i64, i64) = clamp_vel(dvx, dvy, cap);
    let e4 = EnemyState { vx: c.0, vy: c.1, ..e4pre };
    proof {
        assert(e4 == spec_rammer_damp_clamp(e4pre));
    }
    if dist_ship < 220000 {
        let v2: i64 = hypot(e4.vx, e4.vy);
        if v2 < 800 {
            proof {
                lemma_component_le_hypot(e4.vx as int, e4.vy as int);
            }
            let ax2: i64 = mul_milli(dirx, 800 - v2, Ghost(1000), Ghost((800 - v2) as int));
            let ay2: i64 = mul_milli(diry, 800 - v2, Ghost(1000), Ghost((800 - v2) as int));
            proof {
                vstd::arithmetic::div_mod::lemma_div_multiples_vanish(800 - v2 as int, 1000);
                assert(sdiv(1000 * (800 - v2 as int), 1000) == 800 - v2 as int);
            }
            let e5 = EnemyState { vx: e4.vx + ax2, vy: e4.vy + ay2, ..e4 };
            proof {
                lemma_sq_bound(e5.vx as int, 800);
                lemma_sq_bound(e5.vy as int, 800);
            }
            e5
        } else {
            e4
        }
    } else {
        e4
    }
}

/// One full rammer step: timers tick down, incoming fire is dodged, steering
/// blends the current heading with the (predictively led) target, a charge
/// may fire on the injected roll, anti-orbit corrections apply near the
/// ship, the velocity is damped and clamped, a stall near the ship is topped
/// up, the position integrates, and arena edges bounce.  The returned
/// velocity always satisfies the cap of the returned boost state.
#[verifier::rlimit(100)]
pub fn update_rammer(
    e: EnemyState,
    ship_x: i64,
    ship_y: i64,
    projectiles: &Vec<AiProjectile>,
    enemies: &Vec<EnemyState>,
    canvas_width: i64,
    canvas_height: i64,
    charge_roll: i64,
    cooldown_roll: i64,
) -> (r: EnemyState)
    requires
        wf_enemy(e),
        wf_coord(ship_x as int),
        wf_coord(ship_y as int),
        0 < canvas_width <= 1000000000000,
        0 < canvas_height <= 1000000000000,
        projectiles@.len() <= 100000,
        forall|i: int| 0 <= i < projectiles@.len() ==> wf_ai_projectile(
            #[trigger] projectiles@[i],
        ),
        forall|i: int| 0 <= i < enemies@.len() ==> wf_enemy(#[trigger] enemies@[i]),
        0 <= charge_roll < 1000,
        0 <= cooldown_roll < 1000,
    ensures
        r == spec_update_rammer(
            e,
            ship_x as int,
            ship_y as int,
            projectiles@,
            enemies@,
            canvas_width as int,
            canvas_height as int,
            charge_roll as int,
            cooldown_roll as int,
        ),
        sq_norm(r.vx as int, r.vy as int) <= rammer_cap(r) * rammer_cap(r),
        -2000000000000 <= r.x <= 2000000000000,
        -2000000000000 <= r.y <= 2000000000000,
{
    let e1 = EnemyState {
        hit_cooldown: if e.hit_cooldown > 0 {
            e.hit_cooldown - 1
        } else {
            e.hit_cooldown
        },
        charge_cooldown: if e.charge_cooldown > 0 {
            e.charge_cooldown - 1
        } else {
            e.charge_cooldown
        },
        charge_frames: if e.charge_frames > 0 {
            e.charge_frames - 1
        } else {
            e.charge_frames
        },
        bounce_boost_frames: if e.bounce_boost_frames > 0 {
            e.bounce_boost_frames - 1
        } else {
            e.bounce_boost_frames
        },
        ..e
    };
    proof {
        assert(e1 == spec_rammer_tick(e));
    }
    let avx: i64 = if e1.vx < 0 {
        -e1.vx
    } else {
        e1.vx
    };
    let avy: i64 = if e1.vy < 0 {
        -e1.vy
    } else {
        e1.vy
    };
    let (fvx, fvy): (i64, i64) = if avx + avy < 1 {
        (1000, 0)
    } else {
        (e1.vx, e1.vy)
    };
    let f: (i64, i64) = unit_of(fvx, fvy);
    let (tx, ty): (i64, i64) = if e1.is_zombie {
        match find_nearest_hostile(e1.x, e1.y, enemies) {
            Some(p) => p,
            None => (e1.x, e1.y),
        }
    } else {
        proof {
            crate::fixed::lemma_sdiv_mag_le(ship_x as int * 1400, 1000, 1400000000000);
            crate::fixed::lemma_sdiv_mag_le(ship_y as int * 1400, 1000, 1400000000000);
        }
        (div_trunc(ship_x * 1400, 1000), div_trunc(ship_y * 1400, 1000))
    };
    proof {
        lemma_nearest_hostile_wf(enemies@, e1.x as int, e1.y as int);
    }
    let d: (i64, i64) = unit_of(tx - e1.x, ty - e1.y);
    let dist_ship: i64 = hypot(ship_x - e1.x, ship_y - e1.y);
    let v: (i64, i64) = dodge_pass(e1.x, e1.y, e1.vx, e1.vy, dist_ship, projectiles);
    let e2 = EnemyState { vx: v.0, vy: v.1, ..e1 };
    let s: (i64, i64) = blend_unit(f.0, f.1, d.0, d.1, 500);
    let e3: EnemyState = charge_step(e2, s.0, s.1, dist_ship, charge_roll, cooldown_roll);
    let o: (EnemyState, i64, i64) = orbit_step(e3, ship_x, ship_y, dist_ship, s.0, s.1);
    let e5: EnemyState = damp_clamp_min_fwd(o.0, o.1, o.2, dist_ship);
    let e6 = EnemyState { x: e5.x + e5.vx, y: e5.y + e5.vy, ..e5 };
    let out = handle_boundary_bounce(e6, canvas_width, canvas_height);
    proof {
        if out != e6 {
            assert(out.bounce_boost_frames == 14);
        }
        assert(sq_norm(out.vx as int, out.vy as int) <= rammer_cap(out) * rammer_cap(out));
    }
    out
}

/// The record after one full behavior frame: the zombie lifetime counts
/// down and freezes the record dead on expiry; otherwise the archetype's
/// step runs, non-rammer, non-exploder units reflect their facing angle at
/// arena edges, exploders are clamped into the arena, and the shoot cooldown
/// counts down.
pub open spec fn spec_update_single_enemy(
    e: EnemyState,
    ship_x: int,
    ship_y: int,
    projs: Seq<AiProjectile>,
    enemies: Seq<EnemyState>,
    w: int,
    h: int,
    charge_roll: int,
    cooldown_roll: int,
) -> EnemyState {
    if e.is_zombie && e.zombie_lifetime - 1 <= 0 {
        EnemyState { zombie_lifetime: (e.zombie_lifetime - 1) as i64, hp: 0 as i64, ..e }
    } else {
        let e0 = if e.is_zombie {
            EnemyState { zombie_lifetime: (e.zombie_lifetime - 1) as i64, ..e }
        } else {
            e
        };
        let e1 = match e0.enemy_type {
            EnemyType::Basic => spec_update_basic(e0),
            EnemyType::Elite => spec_update_elite(e0, ship_x, ship_y, enemies),
            EnemyType::Rammer => spec_update_rammer(
                e0,
                ship_x,
                ship_y,
                projs,
                enemies,
                w,
                h,
                charge_roll,
                cooldown_roll,
            ),
            EnemyType::Exploder => spec_update_exploder(e0, ship_x, ship_y, enemies),
        };
        let e2 = if e1.enemy_type != EnemyType::Rammer && e1.enemy_type != EnemyType::Exploder {
            let a1 = if e1.x < e1.radius || (e1.x as int) > w - e1.radius as int {
                3141 - e1.angle as int
            } else {
                e1.angle as int
            };
            let a2 = if e1.y < e1.radius || (e1.y as int) > h - e1.radius as int {
                -a1
            } else {
                a1
            };
            EnemyState { angle: a2 as i64, ..e1 }
        } else {
            e1
        };
        let e3 = if e2.enemy_type == EnemyType::Exploder {
            EnemyState {
                x: clamp_spec(e2.x as int, e2.radius as int, w - e2.radius as int) as i64,
                y: clamp_spec(e2.y as int, e2.radius as int, h - e2.radius as int) as i64,
                ..e2
            }
        } else {
            e2
        };
        if e3.shoot_cooldown > 0 {
            EnemyState { shoot_cooldown: (e3.shoot_cooldown - 1) as i64, ..e3 }
        } else {
            e3
        }
    }
}

/// One full behavior frame for one enemy.  `ship_radius`, `module_data` and
/// `shield_active` belong to the frame interface and do not influence any
/// archetype's step.  A zombified record whose lifetime expires this frame
/// comes back dead (`hp == 0`) and otherwise untouched: no movement happens
/// after the expiry check.
pub fn update_single_enemy(
    enemy: EnemyState,
    ship_x: i64,
    ship_y: i64,
    ship_radius: i64,
    module_data: &Vec<Circle>,
    projectile_data: &Vec<AiProjectile>,
    enemy_data: &Vec<EnemyState>,
    canvas_width: i64,
    canvas_height: i64,
    shield_active: bool,
    charge_roll: i64,
    cooldown_roll: i64,
) -> (r: EnemyState)
    requires
        wf_enemy(enemy),
        wf_coord(ship_x as int),
        wf_coord(ship_y as int),
        0 < canvas_width <= 1000000000000,
        0 < canvas_height <= 1000000000000,
        projectile_data@.len() <= 100000,
        forall|i: int| 0 <= i < projectile_data@.len() ==> wf_ai_projectile(
            #[trigger] projectile_data@[i],
        ),
        forall|i: int| 0 <= i < enemy_data@.len() ==> wf_enemy(#[trigger] enemy_data@[i]),
        0 <= charge_roll < 1000,
        0 <= cooldown_roll < 1000,
    ensures
        r == spec_update_single_enemy(
            enemy,
            ship_x as int,
            ship_y as int,
            projectile_data@,
            enemy_data@,
            canvas_width as int,
            canvas_height as int,
            charge_roll as int,
            cooldown_roll as int,
        ),
        enemy.is_zombie && enemy.zombie_lifetime <= 1 ==> r.hp == 0 && r.x == enemy.x && r.y
            == enemy.y && r.vx == enemy.vx && r.vy == enemy.vy && r.angle == enemy.angle,
        enemy.hp >= 0 ==> r.hp <= enemy.hp,
{
    if enemy.is_zombie && enemy.zombie_lifetime - 1 <= 0 {
        return EnemyState { zombie_lifetime: enemy.zombie_lifetime - 1, hp: 0, ..enemy };
    }
    let e0 = if enemy.is_zombie {
        EnemyState { zombie_lifetime: enemy.zombie_lifetime - 1, ..enemy }
    } else {
        enemy
    };
    let e1: EnemyState = match e0.enemy_type {
        EnemyType::Basic => update_basic(e0),
        EnemyType::Elite => update_elite(e0, ship_x, ship_y, enemy_data),
        EnemyType::Rammer => update_rammer(
            e0,
            ship_x,
            ship_y,
            projectile_data,
            enemy_data,
            canvas_width,
            canvas_height,
            charge_roll,
            cooldown_roll,
        ),
        EnemyType::Exploder => update_exploder(e0, ship_x, ship_y, enemy_data),
    };
    let e2: EnemyState = if e1.enemy_type != EnemyType::Rammer && e1.enemy_type
        != EnemyType::Exploder {
        let a1: i64 = if e1.x < e1.radius || e1.x > canvas_width - e1.radius {
            3141 - e1.angle
        } else {
            e1.angle
        };
        let a2: i64 = if e1.y < e1.radius || e1.y > canvas_height - e1.radius {
            -a1
        } else {
            a1
        };
        EnemyState { angle: a2, ..e1 }
    } else {
        e1
    };
    let e3: EnemyState = if e2.enemy_type == EnemyType::Exploder {
        EnemyState {
            x: clamp(e2.x, e2.radius, canvas_width - e2.radius),
            y: clamp(e2.y, e2.radius, canvas_height - e2.radius),
            ..e2
        }
    } else {
        e2
    };
    if e3.shoot_cooldown > 0 {
        EnemyState { shoot_cooldown: e3.shoot_cooldown - 1, ..e3 }
    } else {
        e3
    }
}

/// One full behavior frame over a whole enemy list, with explicit charge and
/// cooldown rolls per enemy: output record `i` is the update of input record
/// `i`, in order, and nothing else is consulted.  Two calls on identical
/// buffers and identical rolls return identical outputs.
pub fn update_enemies(
    enemy_data: &Vec<EnemyState>,
    ship_x: i64,
    ship_y: i64,
    ship_radius: i64,
    module_data: &Vec<Circle>,
    projectile_data: &Vec<AiProjectile>,
    canvas_width: i64,
    canvas_height: i64,
    shield_active: bool,
    rolls: &Vec<(i64, i64)>,
) -> (r: Vec<EnemyState>)
    requires
        wf_coord(ship_x as int),
        wf_coord(ship_y as int),
        0 < canvas_width <= 1000000000000,
        0 < canvas_height <= 1000000000000,
        projectile_data@.len() <= 100000,
        forall|i: int| 0 <= i < projectile_data@.len() ==> wf_ai_projectile(
            #[trigger] projectile_data@[i],
        ),
        forall|i: int| 0 <= i < enemy_data@.len() ==> wf_enemy(#[trigger] enemy_data@[i]),
        rolls@.len() == enemy_data@.len(),
        forall|i: int| 0 <= i < rolls@.len() ==> 0 <= #[trigger] rolls@[i].0 < 1000 && 0
            <= rolls@[i].1 < 1000,
    ensures
        r@.len() == enemy_data@.len(),
        forall|i: int| 0 <= i < r@.len() ==> #[trigger] r@[i] == spec_update_single_enemy(
            enemy_data@[i],
            ship_x as int,
            ship_y as int,
            projectile_data@,
            enemy_data@,
            canvas_width as int,
            canvas_height as int,
            rolls@[i].0 as int,
            rolls@[i].1 as int,
        ),
{
    let mut out: Vec<EnemyState> = Vec::new();
    let mut i: usize = 0;
    while i < enemy_data.len()
        invariant
            0 <= i <= enemy_data@.len(),
            out@.len() == i,
            wf_coord(ship_x as int),
            wf_coord(ship_y as int),
            0 < canvas_width <= 1000000000000,
            0 < canvas_height <= 1000000000000,
            projectile_data@.len() <= 100000,
            forall|k: int| 0 <= k < projectile_data@.len() ==> wf_ai_projectile(
                #[trigger] projectile_data@[k],
            ),
            forall|k: int| 0 <= k < enemy_data@.len() ==> wf_enemy(#[trigger] enemy_data@[k]),
            rolls@.len() == enemy_data@.len(),
            forall|k: int| 0 <= k < rolls@.len() ==> 0 <= #[trigger] rolls@[k].0 < 1000 && 0
                <= rolls@[k].1 < 1000,
            forall|k: int| 0 <= k < i ==> #[trigger] out@[k] == spec_update_single_enemy(
                enemy_data@[k],
                ship_x as int,
                ship_y as int,
                projectile_data@,
                enemy_data@,
                canvas_width as int,
                canvas_height as int,
                rolls@[k].0 as int,
                rolls@[k].1 as int,
            ),
        decreases enemy_data@.len() - i,
    {
        let roll = rolls[i];
        let updated = update_single_enemy(
            enemy_data[i],
            ship_x,
            ship_y,
            ship_radius,
            module_data,
            projectile_data,
            enemy_data,
            canvas_width,
            canvas_height,
            shield_active,
            roll.0,
            roll.1,
        );
        out.push(updated);
        i = i + 1;
    }
    out
}

/// One full behavior frame drawing two rolls per enemy from the seeded
/// source, in enemy order: output record `i` is the update of input record
/// `i` under the rolls of draws `2i` and `2i + 1`, and the source advances
/// by exactly two draws per enemy, so a frame is a function of the buffers
/// and the seed.
pub fn update_enemies_with_rng(
    enemy_data: &Vec<EnemyState>,
    ship_x: i64,
    ship_y: i64,
    ship_radius: i64,
    module_data: &Vec<Circle>,
    projectile_data: &Vec<AiProjectile>,
    canvas_width: i64,
    canvas_height: i64,
    shield_active: bool,
    rng: &mut crate::rng::Rng,
) -> (r: Vec<EnemyState>)
    requires
        wf_coord(ship_x as int),
        wf_coord(ship_y as int),
        0 < canvas_width <= 1000000000000,
        0 < canvas_height <= 1000000000000,
        projectile_data@.len() <= 100000,
        forall|i: int| 0 <= i < projectile_data@.len() ==> wf_ai_projectile(
            #[trigger] projectile_data@[i],
        ),
        forall|i: int| 0 <= i < enemy_data@.len() ==> wf_enemy(#[trigger] enemy_data@[i]),
    ensures
        r@.len() == enemy_data@.len(),
        final(rng).state == crate::rng::lcg_state(
            old(rng).state,
            (2 * enemy_data@.len()) as nat,
        ),
        forall|i: int| 0 <= i < r@.len() ==> #[trigger] r@[i] == spec_update_single_enemy(
            enemy_data@[i],
            ship_x as int,
            ship_y as int,
            projectile_data@,
            enemy_data@,
            canvas_width as int,
            canvas_height as int,
            crate::rng::roll_of(crate::rng::lcg_state(old(rng).state, (2 * i) as nat)),
            crate::rng::roll_of(crate::rng::lcg_state(old(rng).state, (2 * i + 1) as nat)),
        ),
{
    let ghost s0 = rng.state;
    let mut rolls: Vec<(i64, i64)> = Vec::new();
    let mut i: usize = 0;
    while i < enemy_data.len()
        invariant
            0 <= i <= enemy_data@.len(),
            rolls@.len() == i,
            rng.state == crate::rng::lcg_state(s0, (2 * i) as nat),
            forall|k: int| 0 <= k < i ==> #[trigger] rolls@[k] == (
                crate::rng::roll_of(crate::rng::lcg_state(s0, (2 * k) as nat)) as i64,
                crate::rng::roll_of(crate::rng::lcg_state(s0, (2 * k + 1) as nat)) as i64,
            ),
            forall|k: int| 0 <= k < i ==> 0 <= #[trigger] rolls@[k].0 < 1000 && 0 <= rolls@[k].1
                < 1000,
        decreases enemy_data@.len() - i,
    {
        let a: i64 = rng.next_milli();
        let b: i64 = rng.next_milli();
        proof {
            assert(crate::rng::lcg_state(s0, (2 * i + 1) as nat) == crate::rng::lcg_next(
                crate::rng::lcg_state(s0, (2 * i) as nat),
            ));
            assert(crate::rng::lcg_state(s0, (2 * i + 2) as nat) == crate::rng::lcg_next(
                crate::rng::lcg_state(s0, (2 * i + 1) as nat),
            ));
        }
        rolls.push((a, b));
        i = i + 1;
    }
    update_enemies(
        enemy_data,
        ship_x,
        ship_y,
        ship_radius,
        module_data,
        projectile_data,
        canvas_width,
        canvas_height,
        shield_active,
        &rolls,
    )
}

} // verus!
