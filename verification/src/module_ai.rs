//! Module targeting: each defensive module picks the nearest non-zombie
//! enemy, and shoots only when the target keeps a minimum distance.

use vstd::prelude::*;
use crate::fixed::{hypot_spec, hypot};
use crate::types::{EnemyState, ModuleTarget, Circle, wf_enemy, wf_coord, wf_circle};
use crate::enemy_ai::{dist_sq, lemma_sq_bound};

verus! {

/// The nearest non-zombie enemy with its index, scanning in index order and
/// keeping the first of equally near candidates; `None` when every enemy is
/// a zombie.
pub open spec fn nearest_target_spec(s: Seq<EnemyState>, x: int, y: int) -> Option<
    (usize, i64, i64),
>
    decreases s.len(),
{
    if s.len() == 0 {
        None::<(usize, i64, i64)>
    } else {
        let prev = nearest_target_spec(s.drop_last(), x, y);
        let e = s.last();
        if !e.is_zombie {
            match prev {
                None => Some(((s.len() - 1) as usize, e.x, e.y)),
                Some(p) => if dist_sq(e.x as int, e.y as int, x, y) < dist_sq(
                    p.1 as int,
                    p.2 as int,
                    x,
                    y,
                ) {
                    Some(((s.len() - 1) as usize, e.x, e.y))
                } else {
                    prev
                },
            }
        } else {
            prev
        }
    }
}

/// The report [`find_nearest_enemy_target`] encodes for one module: the
/// nearest non-zombie enemy, or the "no target" sentinel value.
pub open spec fn module_target_spec(s: Seq<EnemyState>, x: int, y: int) -> ModuleTarget {
    match nearest_target_spec(s, x, y) {
        Some(p) => ModuleTarget::spec_some(p.1 as int, p.2 as int, p.0 as int),
        None => ModuleTarget::spec_none(),
    }
}

/// Finds the nearest non-zombie enemy to a module at `(mx, my)`; the report
/// carries `has_target = false` and the sentinels exactly when every enemy
/// is a zombie.
pub fn find_nearest_enemy_target(mx: i64, my: i64, enemy_data: &Vec<EnemyState>) -> (r:
    ModuleTarget)
    requires
        wf_coord(mx as int),
        wf_coord(my as int),
        forall|i: int| 0 <= i < enemy_data@.len() ==> wf_enemy(#[trigger] enemy_data@[i]),
        enemy_data@.len() <= 1000000,
    ensures
        r == module_target_spec(enemy_data@, mx as int, my as int),
{
    let mut best: Option<(usize, i64, i64)> = None;
    let mut i: usize = 0;
    while i < enemy_data.len()
        invariant
            0 <= i <= enemy_data@.len(),
            enemy_data@.len() <= 1000000,
            wf_coord(mx as int),
            wf_coord(my as int),
            forall|k: int| 0 <= k < enemy_data@.len() ==> wf_enemy(#[trigger] enemy_data@[k]),
            best == nearest_target_spec(enemy_data@.take(i as int), mx as int, my as int),
            best matches Some(p) ==> wf_coord(p.1 as int) && wf_coord(p.2 as int) && p.0 < i,
        decreases enemy_data@.len() - i,
    {
        let e = enemy_data[i];
        if !e.is_zombie {
            best = match best {
                None => Some((i, e.x, e.y)),
                Some(p) => {
                    let edx: i128 = (e.x as i128) - (mx as i128);
                    let edy: i128 = (e.y as i128) - (my as i128);
                    let pdx: i128 = (p.1 as i128) - (mx as i128);
                    let pdy: i128 = (p.2 as i128) - (my as i128);
                    proof {
                        lemma_sq_bound(edx as int, 2000000000000);
                        lemma_sq_bound(edy as int, 2000000000000);
                        lemma_sq_bound(pdx as int, 2000000000000);
                        lemma_sq_bound(pdy as int, 2000000000000);
                    }
                    if edx * edx + edy * edy < pdx * pdx + pdy * pdy {
                        Some((i, e.x, e.y))
                    } else {
                        Some(p)
                    }
                },
            };
        }
        proof {
            assert(enemy_data@.take(i + 1).drop_last() =~= enemy_data@.take(i as int));
            assert(enemy_data@.take(i + 1).last() == enemy_data@[i as int]);
        }
        i = i + 1;
    }
    proof {
        assert(enemy_data@.take(enemy_data@.len() as int) =~= enemy_data@);
    }
    match best {
        Some(p) => ModuleTarget::some(p.1, p.2, p.0),
        None => ModuleTarget::none(),
    }
}

/// One target report per module, in module order.
pub fn find_module_targets(module_data: &Vec<Circle>, enemy_data: &Vec<EnemyState>) -> (r: Vec<
    ModuleTarget,
>)
    requires
        forall|i: int| 0 <= i < module_data@.len() ==> wf_circle(#[trigger] module_data@[i]),
        forall|i: int| 0 <= i < enemy_data@.len() ==> wf_enemy(#[trigger] enemy_data@[i]),
        enemy_data@.len() <= 1000000,
    ensures
        r@.len() == module_data@.len(),
        forall|i: int| 0 <= i < r@.len() ==> #[trigger] r@[i] == module_target_spec(
            enemy_data@,
            module_data@[i].x as int,
            module_data@[i].y as int,
        ),
{
    let mut out: Vec<ModuleTarget> = Vec::new();
    let mut i: usize = 0;
    while i < module_data.len()
        invariant
            0 <= i <= module_data@.len(),
            out@.len() == i,
            forall|k: int| 0 <= k < module_data@.len() ==> wf_circle(#[trigger] module_data@[k]),
            forall|k: int| 0 <= k < enemy_data@.len() ==> wf_enemy(#[trigger] enemy_data@[k]),
            enemy_data@.len() <= 1000000,
            forall|k: int| 0 <= k < i ==> #[trigger] out@[k] == module_target_spec(
                enemy_data@,
                module_data@[k].x as int,
                module_data@[k].y as int,
            ),
        decreases module_data@.len() - i,
    {
        let m = module_data[i];
        out.push(find_nearest_enemy_target(m.x, m.y, enemy_data));
        i = i + 1;
    }
    out
}

/// Whether a module should shoot: only when the target keeps more than
/// `min_dist` away.
pub fn should_module_shoot(
    module_x: i64,
    module_y: i64,
    target_x: i64,
    target_y: i64,
    min_dist: i64,
) -> (r: bool)
    requires
        wf_coord(module_x as int),
        wf_coord(module_y as int),
        wf_coord(target_x as int),
        wf_coord(target_y as int),
    ensures
        r == (hypot_spec(target_x - module_x, target_y - module_y) > min_dist),
{
    let dx: i64 = target_x - module_x;
    let dy: i64 = target_y - module_y;
    let dist: i64 = hypot(dx, dy);
    dist > min_dist
}

} // verus!
