//! Batched collision engine.
//!
//! One invocation scans the frame's projectiles, enemies, modules and
//! pickups and fills the result lists: projectiles to remove, (enemy index,
//! damage) pairs, the ship-hit flag with its accumulated damage, and the
//! collected pickup indices.  Resolution runs in four fixed phases —
//! offensive projectiles against enemies, enemy projectiles against ship
//! then modules then zombies, powerup collection, star collection — with
//! first-match semantics inside a phase and no projectile resolved twice.

use vstd::prelude::*;
use crate::types::{Circle, ProjOwner, wf_coord, wf_radius, wf_scalar, wf_circle};
use crate::enemy_ai::{dist_sq, lemma_sq_bound};

verus! {

/// Projectile as the collision engine sees it: position, radius, damage and
/// owner.
#[derive(Clone, Copy, Debug, PartialEq, Eq, Structural)]
pub struct Projectile {
    pub x: i64,
    pub y: i64,
    pub radius: i64,
    pub damage: i64,
    pub owner: ProjOwner,
}

/// Bounds under which overlap tests on the projectile cannot overflow.
pub open spec fn wf_projectile(p: Projectile) -> bool {
    &&& wf_coord(p.x as int)
    &&& wf_coord(p.y as int)
    &&& wf_radius(p.radius as int)
    &&& wf_scalar(p.damage as int)
}

/// Enemy as the collision engine sees it: a narrower projection of the full
/// behavior record.
#[derive(Clone, Copy, Debug, PartialEq, Eq, Structural)]
pub struct SimpleEnemy {
    pub x: i64,
    pub y: i64,
    pub radius: i64,
    pub is_zombie: bool,
}

/// Bounds under which overlap tests on the enemy cannot overflow.
pub open spec fn wf_simple_enemy(e: SimpleEnemy) -> bool {
    &&& wf_coord(e.x as int)
    &&& wf_coord(e.y as int)
    &&& wf_radius(e.radius as int)
}

/// Geometric overlap: squared center distance strictly below the squared
/// radius sum.
pub open spec fn overlaps(ax: int, ay: int, ar: int, bx: int, by: int, br: int) -> bool {
    dist_sq(ax, ay, bx, by) < (ar + br) * (ar + br)
}

/// The overlap test.
pub fn overlaps_exec(ax: i64, ay: i64, ar: i64, bx: i64, by: i64, br: i64) -> (r: bool)
    requires
        wf_coord(ax as int),
        wf_coord(ay as int),
        wf_radius(ar as int),
        wf_coord(bx as int),
        wf_coord(by as int),
        wf_radius(br as int),
    ensures
        r == overlaps(ax as int, ay as int, ar as int, bx as int, by as int, br as int),
{
    let dx: i128 = (ax as i128) - (bx as i128);
    let dy: i128 = (ay as i128) - (by as i128);
    let rs: i128 = (ar as i128) + (br as i128);
    proof {
        lemma_sq_bound(dx as int, 2000000000000);
        lemma_sq_bound(dy as int, 2000000000000);
        lemma_sq_bound(rs as int, 20000000);
    }
    dx * dx + dy * dy < rs * rs
}

/// Whether a projectile of this owner takes part in the offensive phase.
pub open spec fn is_offensive(o: ProjOwner) -> bool {
    o == ProjOwner::Player || o == ProjOwner::Module || o == ProjOwner::Zombie
}

/// Whether the projectile may hit this enemy in the offensive phase: zombie
/// projectiles never hit zombies.
pub open spec fn eligible_enemy(p: Projectile, e: SimpleEnemy) -> bool {
    !(p.owner == ProjOwner::Zombie && e.is_zombie)
}

/// Index of the first enemy at or past `j` that the projectile overlaps and
/// may hit; `None` when there is none.
pub open spec fn first_enemy_hit_from(p: Projectile, enemies: Seq<SimpleEnemy>, j: int) -> Option<
    int,
>
    decreases enemies.len() - j when 0 <= j <= enemies.len()
{
    if j >= enemies.len() {
        None
    } else if eligible_enemy(p, enemies[j]) && overlaps(
        p.x as int,
        p.y as int,
        p.radius as int,
        enemies[j].x as int,
        enemies[j].y as int,
        enemies[j].radius as int,
    ) {
        Some(j)
    } else {
        first_enemy_hit_from(p, enemies, j + 1)
    }
}

/// Index of the first module at or past `j` that the projectile overlaps.
pub open spec fn first_module_hit_from(p: Projectile, modules: Seq<Circle>, j: int) -> Option<int>
    decreases modules.len() - j when 0 <= j <= modules.len()
{
    if j >= modules.len() {
        None
    } else if overlaps(
        p.x as int,
        p.y as int,
        p.radius as int,
        modules[j].x as int,
        modules[j].y as int,
        modules[j].radius as int,
    ) {
        Some(j)
    } else {
        first_module_hit_from(p, modules, j + 1)
    }
}

/// Index of the first zombie enemy at or past `j` that the projectile
/// overlaps.
pub open spec fn first_zombie_hit_from(p: Projectile, enemies: Seq<SimpleEnemy>, j: int) -> Option<
    int,
>
    decreases enemies.len() - j when 0 <= j <= enemies.len()
{
    if j >= enemies.len() {
        None
    } else if enemies[j].is_zombie && overlaps(
        p.x as int,
        p.y as int,
        p.radius as int,
        enemies[j].x as int,
        enemies[j].y as int,
        enemies[j].radius as int,
    ) {
        Some(j)
    } else {
        first_zombie_hit_from(p, enemies, j + 1)
    }
}

/// Whether an enemy projectile overlaps the ship.
pub open spec fn hits_ship(p: Projectile, sx: int, sy: int, sr: int) -> bool {
    overlaps(p.x as int, p.y as int, p.radius as int, sx, sy, sr)
}

/// Removed projectile indices of the offensive phase, in index order: each
/// player, module or zombie projectile overlapping some eligible enemy.
pub open spec fn phase1_removed_seq(projs: Seq<Projectile>, enemies: Seq<SimpleEnemy>) -> Seq<
    usize,
>
    decreases projs.len(),
{
    if projs.len() == 0 {
        Seq::empty()
    } else {
        let prev = phase1_removed_seq(projs.drop_last(), enemies);
        let p = projs.last();
        if is_offensive(p.owner) && first_enemy_hit_from(p, enemies, 0) is Some {
            prev.push((projs.len() - 1) as usize)
        } else {
            prev
        }
    }
}

/// (enemy index, damage) pairs of the offensive phase, in projectile index
/// order: the first overlapping eligible enemy takes the hit.
pub open spec fn phase1_pairs_seq(projs: Seq<Projectile>, enemies: Seq<SimpleEnemy>) -> Seq<
    (usize, i64),
>
    decreases projs.len(),
{
    if projs.len() == 0 {
        Seq::empty()
    } else {
        let prev = phase1_pairs_seq(projs.drop_last(), enemies);
        let p = projs.last();
        if is_offensive(p.owner) {
            match first_enemy_hit_from(p, enemies, 0) {
                Some(j) => prev.push((j as usize, p.damage)),
                None => prev,
            }
        } else {
            prev
        }
    }
}

/// Removed projectile indices of the enemy-projectile phase, in index order:
/// an enemy projectile is consumed by the ship, else the first overlapping
/// module, else the first overlapping zombie.
pub open spec fn phase2_removed_seq(
    projs: Seq<Projectile>,
    sx: int,
    sy: int,
    sr: int,
    modules: Seq<Circle>,
    enemies: Seq<SimpleEnemy>,
) -> Seq<usize>
    decreases projs.len(),
{
    if projs.len() == 0 {
        Seq::empty()
    } else {
        let prev = phase2_removed_seq(projs.drop_last(), sx, sy, sr, modules, enemies);
        let p = projs.last();
        if p.owner == ProjOwner::Enemy && (hits_ship(p, sx, sy, sr) || first_module_hit_from(
            p,
            modules,
            0,
        ) is Some || first_zombie_hit_from(p, enemies, 0) is Some) {
            prev.push((projs.len() - 1) as usize)
        } else {
            prev
        }
    }
}

/// (zombie index, damage) pairs of the enemy-projectile phase: recorded only
/// when neither the ship nor a module resolved the projectile first.
pub open spec fn phase2_pairs_seq(
    projs: Seq<Projectile>,
    sx: int,
    sy: int,
    sr: int,
    modules: Seq<Circle>,
    enemies: Seq<SimpleEnemy>,
) -> Seq<(usize, i64)>
    decreases projs.len(),
{
    if projs.len() == 0 {
        Seq::empty()
    } else {
        let prev = phase2_pairs_seq(projs.drop_last(), sx, sy, sr, modules, enemies);
        let p = projs.last();
        if p.owner == ProjOwner::Enemy && !hits_ship(p, sx, sy, sr) && first_module_hit_from(
            p,
            modules,
            0,
        ) is None {
            match first_zombie_hit_from(p, enemies, 0) {
                Some(j) => prev.push((j as usize, p.damage)),
                None => prev,
            }
        } else {
            prev
        }
    }
}

/// Total ship damage: the damage of every enemy projectile overlapping the
/// ship, zero with the shield up.
pub open spec fn ship_damage_total(
    projs: Seq<Projectile>,
    sx: int,
    sy: int,
    sr: int,
    shield_active: bool,
) -> int
    decreases projs.len(),
{
    if projs.len() == 0 {
        0
    } else {
        let prev = ship_damage_total(projs.drop_last(), sx, sy, sr, shield_active);
        let p = projs.last();
        if p.owner == ProjOwner::Enemy && hits_ship(p, sx, sy, sr) && !shield_active {
            prev + p.damage
        } else {
            prev
        }
    }
}

/// Whether any enemy projectile hit the ship through a down shield.
pub open spec fn ship_was_hit(
    projs: Seq<Projectile>,
    sx: int,
    sy: int,
    sr: int,
    shield_active: bool,
) -> bool
    decreases projs.len(),
{
    if projs.len() == 0 {
        false
    } else {
        let prev = ship_was_hit(projs.drop_last(), sx, sy, sr, shield_active);
        let p = projs.last();
        prev || (p.owner == ProjOwner::Enemy && hits_ship(p, sx, sy, sr) && !shield_active)
    }
}

/// Indices of the pickups the ship overlaps, in index order.
pub open spec fn collected_seq(items: Seq<Circle>, sx: int, sy: int, sr: int) -> Seq<usize>
    decreases items.len(),
{
    if items.len() == 0 {
        Seq::empty()
    } else {
        let prev = collected_seq(items.drop_last(), sx, sy, sr);
        let it = items.last();
        if overlaps(sx, sy, sr, it.x as int, it.y as int, it.radius as int) {
            prev.push((items.len() - 1) as usize)
        } else {
            prev
        }
    }
}

/// Every item of a frame's buffers inside the bounds the engine accepts.
pub open spec fn wf_collision_inputs(
    projs: Seq<Projectile>,
    enemies: Seq<SimpleEnemy>,
    modules: Seq<Circle>,
    powerups: Seq<Circle>,
    stars: Seq<Circle>,
) -> bool {
    &&& projs.len() <= 100000
    &&& forall|i: int| 0 <= i < projs.len() ==> wf_projectile(#[trigger] projs[i])
    &&& forall|i: int| 0 <= i < enemies.len() ==> wf_simple_enemy(#[trigger] enemies[i])
    &&& forall|i: int| 0 <= i < modules.len() ==> wf_circle(#[trigger] modules[i])
    &&& forall|i: int| 0 <= i < powerups.len() ==> wf_circle(#[trigger] powerups[i])
    &&& forall|i: int| 0 <= i < stars.len() ==> wf_circle(#[trigger] stars[i])
}

/// First eligible enemy the projectile overlaps, scanned in index order.
fn find_first_enemy_hit(p: Projectile, enemies: &Vec<SimpleEnemy>) -> (r: Option<usize>)
    requires
        wf_projectile(p),
        forall|i: int| 0 <= i < enemies@.len() ==> wf_simple_enemy(#[trigger] enemies@[i]),
    ensures
        r is Some ==> first_enemy_hit_from(p, enemies@, 0) == Some(r.unwrap() as int),
        r is None ==> first_enemy_hit_from(p, enemies@, 0) is None,
{
    let mut j: usize = 0;
    while j < enemies.len()
        invariant
            0 <= j <= enemies@.len(),
            wf_projectile(p),
            forall|k: int| 0 <= k < enemies@.len() ==> wf_simple_enemy(#[trigger] enemies@[k]),
            first_enemy_hit_from(p, enemies@, 0) == first_enemy_hit_from(p, enemies@, j as int),
        decreases enemies@.len() - j,
    {
        let e = enemies[j];
        let zombie_skip: bool = p.owner == ProjOwner::Zombie && e.is_zombie;
        if !zombie_skip && overlaps_exec(p.x, p.y, p.radius, e.x, e.y, e.radius) {
            return Some(j);
        }
        j = j + 1;
    }
    None
}

/// First module the projectile overlaps, scanned in index order.
fn find_first_module_hit(p: Projectile, modules: &Vec<Circle>) -> (r: Option<usize>)
    requires
        wf_projectile(p),
        forall|i: int| 0 <= i < modules@.len() ==> wf_circle(#[trigger] modules@[i]),
    ensures
        r is Some ==> first_module_hit_from(p, modules@, 0) == Some(r.unwrap() as int),
        r is None ==> first_module_hit_from(p, modules@, 0) is None,
{
    let mut j: usize = 0;
    while j < modules.len()
        invariant
            0 <= j <= modules@.len(),
            wf_projectile(p),
            forall|k: int| 0 <= k < modules@.len() ==> wf_circle(#[trigger] modules@[k]),
            first_module_hit_from(p, modules@, 0) == first_module_hit_from(p, modules@, j as int),
        decreases modules@.len() - j,
    {
        let m = modules[j];
        if overlaps_exec(p.x, p.y, p.radius, m.x, m.y, m.radius) {
            return Some(j);
        }
        j = j + 1;
    }
    None
}

/// First zombie enemy the projectile overlaps, scanned in index order.
fn find_first_zombie_hit(p: Projectile, enemies: &Vec<SimpleEnemy>) -> (r: Option<usize>)
    requires
        wf_projectile(p),
        forall|i: int| 0 <= i < enemies@.len() ==> wf_simple_enemy(#[trigger] enemies@[i]),
    ensures
        r is Some ==> first_zombie_hit_from(p, enemies@, 0) == Some(r.unwrap() as int),
        r is None ==> first_zombie_hit_from(p, enemies@, 0) is None,
{
    let mut j: usize = 0;
    while j < enemies.len()
        invariant
            0 <= j <= enemies@.len(),
            wf_projectile(p),
            forall|k: int| 0 <= k < enemies@.len() ==> wf_simple_enemy(#[trigger] enemies@[k]),
            first_zombie_hit_from(p, enemies@, 0) == first_zombie_hit_from(p, enemies@, j as int),
        decreases enemies@.len() - j,
    {
        let e = enemies[j];
        if e.is_zombie && overlaps_exec(p.x, p.y, p.radius, e.x, e.y, e.radius) {
            return Some(j);
        }
        j = j + 1;
    }
    None
}

/// Reusable collision results; one invocation of
/// [`CollisionState::check_collisions_shared`] clears and refills every
/// list.
pub struct CollisionState {
    pub projectile_hits: Vec<usize>,
    pub enemy_hits: Vec<(usize, i64)>,
    pub ship_hit: bool,
    pub ship_damage: i64,
    pub powerup_collected: Vec<usize>,
    pub modulestar_collected: Vec<usize>,
}

impl CollisionState {
    /// Empty result buffers.
    pub fn new() -> (r: CollisionState)
        ensures
            r.projectile_hits@.len() == 0,
            r.enemy_hits@.len() == 0,
            !r.ship_hit,
            r.ship_damage == 0,
            r.powerup_collected@.len() == 0,
            r.modulestar_collected@.len() == 0,
    {
        CollisionState {
            projectile_hits: Vec::new(),
            enemy_hits: Vec::new(),
            ship_hit: false,
            ship_damage: 0,
            powerup_collected: Vec::new(),
            modulestar_collected: Vec::new(),
        }
    }

    /// Runs the four collision phases over the frame's buffers, replacing
    /// every result list.  Each projectile's outcome depends on its own
    /// geometry alone, never on another projectile's: removal lists are the
    /// in-order concatenation of the two phases, damage pairs name the first
    /// matching target, the ship-hit flag and damage ignore overlaps while
    /// the shield is up, and the collection lists name exactly the pickups
    /// the ship overlaps.
    pub fn check_collisions_shared(
        &mut self,
        projs: &Vec<Projectile>,
        enemies: &Vec<SimpleEnemy>,
        ship_x: i64,
        ship_y: i64,
        ship_radius: i64,
        modules: &Vec<Circle>,
        powerups: &Vec<Circle>,
        stars: &Vec<Circle>,
        shield_active: bool,
    )
        requires
            wf_collision_inputs(projs@, enemies@, modules@, powerups@, stars@),
            wf_coord(ship_x as int),
            wf_coord(ship_y as int),
            wf_radius(ship_radius as int),
        ensures
            final(self).projectile_hits@ == phase1_removed_seq(projs@, enemies@)
                + phase2_removed_seq(
                projs@,
                ship_x as int,
                ship_y as int,
                ship_radius as int,
                modules@,
                enemies@,
            ),
            final(self).enemy_hits@ == phase1_pairs_seq(projs@, enemies@) + phase2_pairs_seq(
                projs@,
                ship_x as int,
                ship_y as int,
                ship_radius as int,
                modules@,
                enemies@,
            ),
            final(self).ship_hit == ship_was_hit(
                projs@,
                ship_x as int,
                ship_y as int,
                ship_radius as int,
                shield_active,
            ),
            final(self).ship_damage as int == ship_damage_total(
                projs@,
                ship_x as int,
                ship_y as int,
                ship_radius as int,
                shield_active,
            ),
            final(self).powerup_collected@ == collected_seq(
                powerups@,
                ship_x as int,
                ship_y as int,
                ship_radius as int,
            ),
            final(self).modulestar_collected@ == collected_seq(
                stars@,
                ship_x as int,
                ship_y as int,
                ship_radius as int,
            ),
    {
        let p1 = phase1_pass(projs, enemies);
        let p2 = phase2_pass(projs, enemies, ship_x, ship_y, ship_radius, modules, shield_active);
        let mut removed: Vec<usize> = p1.0;
        let mut pairs: Vec<(usize, i64)> = p1.1;
        let mut removed2: Vec<usize> = p2.0;
        let mut pairs2: Vec<(usize, i64)> = p2.1;
        removed.append(&mut removed2);
        pairs.append(&mut pairs2);
        self.projectile_hits = removed;
        self.enemy_hits = pairs;
        self.ship_hit = p2.2;
        self.ship_damage = p2.3;
        self.powerup_collected = collect_pass(powerups, ship_x, ship_y, ship_radius);
        self.modulestar_collected = collect_pass(stars, ship_x, ship_y, ship_radius);
    }

    /// Number of projectiles to remove.
    pub fn get_projectile_hits_len(&self) -> (r: usize)
        ensures
            r == self.projectile_hits@.len(),
    {
        self.projectile_hits.len()
    }

    /// Number of (enemy index, damage) pairs.
    pub fn get_enemy_hits_len(&self) -> (r: usize)
        ensures
            r == self.enemy_hits@.len(),
    {
        self.enemy_hits.len()
    }

    /// Whether an enemy projectile hit the ship through a down shield.
    pub fn get_ship_hit(&self) -> (r: bool)
        ensures
            r == self.ship_hit,
    {
        self.ship_hit
    }

    /// Accumulated ship damage of this invocation.
    pub fn get_ship_damage(&self) -> (r: i64)
        ensures
            r == self.ship_damage,
    {
        self.ship_damage
    }

    /// Number of powerups collected.
    pub fn get_powerup_collected_len(&self) -> (r: usize)
        ensures
            r == self.powerup_collected@.len(),
    {
        self.powerup_collected.len()
    }

    /// Number of stars collected.
    pub fn get_modulestar_collected_len(&self) -> (r: usize)
        ensures
            r == self.modulestar_collected@.len(),
    {
        self.modulestar_collected.len()
    }
}

/// The offensive phase: player, module and zombie projectiles against
/// enemies, first overlap wins per projectile.
fn phase1_pass(projs: &Vec<Projectile>, enemies: &Vec<SimpleEnemy>) -> (r: (
    Vec<usize>,
    Vec<(usize, i64)>,
))
    requires
        forall|i: int| 0 <= i < projs@.len() ==> wf_projectile(#[trigger] projs@[i]),
        forall|i: int| 0 <= i < enemies@.len() ==> wf_simple_enemy(#[trigger] enemies@[i]),
    ensures
        r.0@ == phase1_removed_seq(projs@, enemies@),
        r.1@ == phase1_pairs_seq(projs@, enemies@),
{
    let mut removed: Vec<usize> = Vec::new();
    let mut pairs: Vec<(usize, i64)> = Vec::new();
    let mut i: usize = 0;
    while i < projs.len()
        invariant
            0 <= i <= projs@.len(),
            forall|k: int| 0 <= k < projs@.len() ==> wf_projectile(#[trigger] projs@[k]),
            forall|k: int| 0 <= k < enemies@.len() ==> wf_simple_enemy(#[trigger] enemies@[k]),
            removed@ == phase1_removed_seq(projs@.take(i as int), enemies@),
            pairs@ == phase1_pairs_seq(projs@.take(i as int), enemies@),
        decreases projs@.len() - i,
    {
        let p = projs[i];
        let offensive: bool = p.owner == ProjOwner::Player || p.owner == ProjOwner::Module
            || p.owner == ProjOwner::Zombie;
        if offensive {
            match find_first_enemy_hit(p, enemies) {
                Some(j) => {
                    removed.push(i);
                    pairs.push((j, p.damage));
                },
                None => {},
            }
        }
        proof {
            assert(projs@.take(i + 1).drop_last() =~= projs@.take(i as int));
            assert(projs@.take(i + 1).last() == projs@[i as int]);
        }
        i = i + 1;
    }
    proof {
        assert(projs@.take(projs@.len() as int) =~= projs@);
    }
    (removed, pairs)
}

/// The enemy-projectile phase: ship first, then modules, then zombies; a
/// shielded ship still consumes the projectile but takes no damage.
fn phase2_pass(
    projs: &Vec<Projectile>,
    enemies: &Vec<SimpleEnemy>,
    ship_x: i64,
    ship_y: i64,
    ship_radius: i64,
    modules: &Vec<Circle>,
    shield_active: bool,
) -> (r: (Vec<usize>, Vec<(usize, i64)>, bool, i64))
    requires
        projs@.len() <= 100000,
        forall|i: int| 0 <= i < projs@.len() ==> wf_projectile(#[trigger] projs@[i]),
        forall|i: int| 0 <= i < enemies@.len() ==> wf_simple_enemy(#[trigger] enemies@[i]),
        forall|i: int| 0 <= i < modules@.len() ==> wf_circle(#[trigger] modules@[i]),
        wf_coord(ship_x as int),
        wf_coord(ship_y as int),
        wf_radius(ship_radius as int),
    ensures
        r.0@ == phase2_removed_seq(
            projs@,
            ship_x as int,
            ship_y as int,
            ship_radius as int,
            modules@,
            enemies@,
        ),
        r.1@ == phase2_pairs_seq(
            projs@,
            ship_x as int,
            ship_y as int,
            ship_radius as int,
            modules@,
            enemies@,
        ),
        r.2 == ship_was_hit(projs@, ship_x as int, ship_y as int, ship_radius as int, shield_active),
        r.3 as int == ship_damage_total(
            projs@,
            ship_x as int,
            ship_y as int,
            ship_radius as int,
            shield_active,
        ),
{
    let mut removed: Vec<usize> = Vec::new();
    let mut pairs: Vec<(usize, i64)> = Vec::new();
    let mut ship_hit: bool = false;
    let mut ship_damage: i64 = 0;
    let mut i: usize = 0;
    while i < projs.len()
        invariant
            0 <= i <= projs@.len(),
            projs@.len() <= 100000,
            forall|k: int| 0 <= k < projs@.len() ==> wf_projectile(#[trigger] projs@[k]),
            forall|k: int| 0 <= k < enemies@.len() ==> wf_simple_enemy(#[trigger] enemies@[k]),
            forall|k: int| 0 <= k < modules@.len() ==> wf_circle(#[trigger] modules@[k]),
            wf_coord(ship_x as int),
            wf_coord(ship_y as int),
            wf_radius(ship_radius as int),
            removed@ == phase2_removed_seq(
                projs@.take(i as int),
                ship_x as int,
                ship_y as int,
                ship_radius as int,
                modules@,
                enemies@,
            ),
            pairs@ == phase2_pairs_seq(
                projs@.take(i as int),
                ship_x as int,
                ship_y as int,
                ship_radius as int,
                modules@,
                enemies@,
            ),
            ship_hit == ship_was_hit(
                projs@.take(i as int),
                ship_x as int,
                ship_y as int,
                ship_radius as int,
                shield_active,
            ),
            ship_damage as int == ship_damage_total(
                projs@.take(i as int),
                ship_x as int,
                ship_y as int,
                ship_radius as int,
                shield_active,
            ),
            -1000000000000 * (i as int) <= ship_damage as int <= 1000000000000 * (i as int),
        decreases projs@.len() - i,
    {
        let p = projs[i];
        if p.owner == ProjOwner::Enemy {
            if overlaps_exec(p.x, p.y, p.radius, ship_x, ship_y, ship_radius) {
                if !shield_active {
                    ship_hit = true;
                    ship_damage = ship_damage + p.damage;
                }
                removed.push(i);
            } else {
                match find_first_module_hit(p, modules) {
                    Some(_m) => {
                        removed.push(i);
                    },
                    None => {
                        match find_first_zombie_hit(p, enemies) {
                            Some(j) => {
                                removed.push(i);
                                pairs.push((j, p.damage));
                            },
                            None => {},
                        }
                    },
                }
            }
        }
        proof {
            assert(projs@.take(i + 1).drop_last() =~= projs@.take(i as int));
            assert(projs@.take(i + 1).last() == projs@[i as int]);
        }
        i = i + 1;
    }
    proof {
        assert(projs@.take(projs@.len() as int) =~= projs@);
    }
    (removed, pairs, ship_hit, ship_damage)
}

/// A collection phase: pickups within the ship's reach, in index order.
fn collect_pass(items: &Vec<Circle>, ship_x: i64, ship_y: i64, ship_radius: i64) -> (r: Vec<usize>)
    requires
        forall|i: int| 0 <= i < items@.len() ==> wf_circle(#[trigger] items@[i]),
        wf_coord(ship_x as int),
        wf_coord(ship_y as int),
        wf_radius(ship_radius as int),
    ensures
        r@ == collected_seq(items@, ship_x as int, ship_y as int, ship_radius as int),
{
    let mut out: Vec<usize> = Vec::new();
    let mut i: usize = 0;
    while i < items.len()
        invariant
            0 <= i <= items@.len(),
            forall|k: int| 0 <= k < items@.len() ==> wf_circle(#[trigger] items@[k]),
            wf_coord(ship_x as int),
            wf_coord(ship_y as int),
            wf_radius(ship_radius as int),
            out@ == collected_seq(
                items@.take(i as int),
                ship_x as int,
                ship_y as int,
                ship_radius as int,
            ),
        decreases items@.len() - i,
    {
        let it = items[i];
        if overlaps_exec(ship_x, ship_y, ship_radius, it.x, it.y, it.radius) {
            out.push(i);
        }
        proof {
            assert(items@.take(i + 1).drop_last() =~= items@.take(i as int));
            assert(items@.take(i + 1).last() == items@[i as int]);
        }
        i = i + 1;
    }
    proof {
        assert(items@.take(items@.len() as int) =~= items@);
    }
    out
}

} // verus!
