//! Record types of the simulation core.
//!
//! Every entity is a named-field record over fixed-point milli-unit scalars
//! (see [`crate::fixed`]).  The host's flat numeric buffers are decoded into
//! these records at the boundary and encoded back after the frame.

use vstd::prelude::*;

verus! {

/// Number of scalar fields in a flat enemy record.
pub const ENEMY_STRIDE: usize = 21;

/// The four enemy behavior classes.  An unknown tag falls back to `Basic`.
#[derive(Clone, Copy, Debug, PartialEq, Eq, Structural)]
pub enum EnemyType {
    Basic,
    Elite,
    Rammer,
    Exploder,
}

impl EnemyType {
    /// The class a numeric archetype tag selects; out-of-range tags select
    /// the wandering `Basic` class rather than failing.
    pub fn from_tag(tag: i64) -> (t: EnemyType)
        ensures
            t == EnemyType::spec_from_tag(tag as int),
    {
        if tag == 1 {
            EnemyType::Elite
        } else if tag == 2 {
            EnemyType::Rammer
        } else if tag == 3 {
            EnemyType::Exploder
        } else {
            EnemyType::Basic
        }
    }

    /// The value of [`EnemyType::from_tag`].
    pub open spec fn spec_from_tag(tag: int) -> EnemyType {
        if tag == 1 {
            EnemyType::Elite
        } else if tag == 2 {
            EnemyType::Rammer
        } else if tag == 3 {
            EnemyType::Exploder
        } else {
            EnemyType::Basic
        }
    }

    /// The numeric tag of a class.
    pub fn to_tag(self) -> (tag: i64)
        ensures
            tag == self.spec_to_tag(),
            EnemyType::spec_from_tag(tag as int) == self,
    {
        match self {
            EnemyType::Basic => 0,
            EnemyType::Elite => 1,
            EnemyType::Rammer => 2,
            EnemyType::Exploder => 3,
        }
    }

    /// The value of [`EnemyType::to_tag`].
    pub open spec fn spec_to_tag(self) -> int {
        match self {
            EnemyType::Basic => 0,
            EnemyType::Elite => 1,
            EnemyType::Rammer => 2,
            EnemyType::Exploder => 3,
        }
    }
}

/// Full per-enemy record as the behavior engine sees it.  Positions,
/// velocities, radii, hit points and the aggression scalar are milli-units;
/// the angle and the wave phases are milliradians; the timers are whole
/// ticks.
#[derive(Clone, Copy, Debug, PartialEq, Eq, Structural)]
pub struct EnemyState {
    pub x: i64,
    pub y: i64,
    pub vx: i64,
    pub vy: i64,
    pub enemy_type: EnemyType,
    pub is_zombie: bool,
    pub is_stealth: bool,
    pub radius: i64,
    pub hp: i64,
    pub max_hp: i64,
    pub shoot_cooldown: i64,
    pub angle: i64,
    pub bounce_boost_frames: i64,
    pub hit_cooldown: i64,
    pub charge_cooldown: i64,
    pub charge_frames: i64,
    pub aggression: i64,
    pub pulse_phase: i64,
    pub zombie_lifetime: i64,
    pub stealth_wave_phase: i64,
    pub split_level: i64,
}

/// A coordinate the core accepts: one million world units in magnitude.
pub open spec fn wf_coord(c: int) -> bool {
    -1000000000000 <= c <= 1000000000000
}

/// A velocity component the core accepts: one thousand world units a tick.
pub open spec fn wf_vel(v: int) -> bool {
    -1000000000 <= v <= 1000000000
}

/// A collision radius the core accepts: at most ten thousand world units.
pub open spec fn wf_radius(r: int) -> bool {
    0 <= r <= 10000000
}

/// A timer, counter or other scalar the core accepts.
pub open spec fn wf_scalar(t: int) -> bool {
    -1000000000000 <= t <= 1000000000000
}

/// Bounds under which one frame of the behavior engine cannot overflow.
pub open spec fn wf_enemy(e: EnemyState) -> bool {
    &&& wf_coord(e.x as int)
    &&& wf_coord(e.y as int)
    &&& wf_vel(e.vx as int)
    &&& wf_vel(e.vy as int)
    &&& wf_radius(e.radius as int)
    &&& wf_scalar(e.hp as int)
    &&& wf_scalar(e.max_hp as int)
    &&& wf_scalar(e.shoot_cooldown as int)
    &&& wf_scalar(e.angle as int)
    &&& wf_scalar(e.bounce_boost_frames as int)
    &&& wf_scalar(e.hit_cooldown as int)
    &&& wf_scalar(e.charge_cooldown as int)
    &&& wf_scalar(e.charge_frames as int)
    &&& wf_scalar(e.aggression as int)
    &&& wf_scalar(e.pulse_phase as int)
    &&& wf_scalar(e.zombie_lifetime as int)
    &&& wf_scalar(e.stealth_wave_phase as int)
    &&& wf_scalar(e.split_level as int)
}

impl EnemyState {
    /// Decodes one flat record of [`ENEMY_STRIDE`] scalars.  Booleans are
    /// threshold-over-half encoded (here, over 500 milli-units); the
    /// archetype tag falls back to `Basic` when out of range.
    pub fn from_slice(data: &[i64]) -> (e: EnemyState)
        requires
            data@.len() >= 21,
        ensures
            e == EnemyState::spec_from_seq(data@),
    {
        EnemyState {
            x: data[0],
            y: data[1],
            vx: data[2],
            vy: data[3],
            enemy_type: EnemyType::from_tag(data[4]),
            is_zombie: data[5] > 500,
            is_stealth: data[6] > 500,
            radius: data[7],
            hp: data[8],
            max_hp: data[9],
            shoot_cooldown: data[10],
            angle: data[11],
            bounce_boost_frames: data[12],
            hit_cooldown: data[13],
            charge_cooldown: data[14],
            charge_frames: data[15],
            aggression: data[16],
            pulse_phase: data[17],
            zombie_lifetime: data[18],
            stealth_wave_phase: data[19],
            split_level: data[20],
        }
    }

    /// The record that [`EnemyState::from_slice`] decodes.
    pub open spec fn spec_from_seq(data: Seq<i64>) -> EnemyState
        recommends
            data.len() >= 21,
    {
        EnemyState {
            x: data[0],
            y: data[1],
            vx: data[2],
            vy: data[3],
            enemy_type: EnemyType::spec_from_tag(data[4] as int),
            is_zombie: data[5] > 500,
            is_stealth: data[6] > 500,
            radius: data[7],
            hp: data[8],
            max_hp: data[9],
            shoot_cooldown: data[10],
            angle: data[11],
            bounce_boost_frames: data[12],
            hit_cooldown: data[13],
            charge_cooldown: data[14],
            charge_frames: data[15],
            aggression: data[16],
            pulse_phase: data[17],
            zombie_lifetime: data[18],
            stealth_wave_phase: data[19],
            split_level: data[20],
        }
    }

    /// Encodes the record back into [`ENEMY_STRIDE`] scalars, the inverse of
    /// [`EnemyState::from_slice`] on records whose booleans and tag are
    /// canonical.
    pub fn to_vec(&self) -> (data: Vec<i64>)
        ensures
            data@.len() == 21,
            data@[0] == self.x,
            data@[1] == self.y,
            data@[2] == self.vx,
            data@[3] == self.vy,
            data@[4] == self.enemy_type.spec_to_tag(),
            data@[5] == if self.is_zombie { 1000 as i64 } else { 0 as i64 },
            data@[6] == if self.is_stealth { 1000 as i64 } else { 0 as i64 },
            data@[7] == self.radius,
            data@[8] == self.hp,
            data@[9] == self.max_hp,
            data@[10] == self.shoot_cooldown,
            data@[11] == self.angle,
            data@[12] == self.bounce_boost_frames,
            data@[13] == self.hit_cooldown,
            data@[14] == self.charge_cooldown,
            data@[15] == self.charge_frames,
            data@[16] == self.aggression,
            data@[17] == self.pulse_phase,
            data@[18] == self.zombie_lifetime,
            data@[19] == self.stealth_wave_phase,
            data@[20] == self.split_level,
    {
        let mut data: Vec<i64> = Vec::new();
        data.push(self.x);
        data.push(self.y);
        data.push(self.vx);
        data.push(self.vy);
        data.push(self.enemy_type.to_tag());
        data.push(if self.is_zombie {
            1000
        } else {
            0
        });
        data.push(if self.is_stealth {
            1000
        } else {
            0
        });
        data.push(self.radius);
        data.push(self.hp);
        data.push(self.max_hp);
        data.push(self.shoot_cooldown);
        data.push(self.angle);
        data.push(self.bounce_boost_frames);
        data.push(self.hit_cooldown);
        data.push(self.charge_cooldown);
        data.push(self.charge_frames);
        data.push(self.aggression);
        data.push(self.pulse_phase);
        data.push(self.zombie_lifetime);
        data.push(self.stealth_wave_phase);
        data.push(self.split_level);
        data
    }
}

/// Projectile as the behavior engine sees it: position, velocity and the
/// owner tag (player and module projectiles trigger dodging).
#[derive(Clone, Copy, Debug, PartialEq, Eq, Structural)]
pub struct AiProjectile {
    pub x: i64,
    pub y: i64,
    pub vx: i64,
    pub vy: i64,
    pub owner: ProjOwner,
}

/// Bounds under which the dodge pass cannot overflow.
pub open spec fn wf_ai_projectile(p: AiProjectile) -> bool {
    &&& wf_coord(p.x as int)
    &&& wf_coord(p.y as int)
    &&& wf_vel(p.vx as int)
    &&& wf_vel(p.vy as int)
}

/// Who fired a projectile.  Ownership decides which targets it can damage:
/// player, module and zombie projectiles harm enemies (zombie projectiles
/// never harm zombies); enemy projectiles harm the ship, modules and zombies.
#[derive(Clone, Copy, Debug, PartialEq, Eq, Structural)]
pub enum ProjOwner {
    Player,
    Module,
    Zombie,
    Enemy,
}

impl ProjOwner {
    /// The owner a numeric tag selects, `None` for an unknown tag (such a
    /// projectile takes part in no phase).
    pub fn from_tag(tag: i64) -> (o: Option<ProjOwner>)
        ensures
            o == ProjOwner::spec_from_tag(tag as int),
    {
        if tag == 0 {
            Some(ProjOwner::Player)
        } else if tag == 1 {
            Some(ProjOwner::Module)
        } else if tag == 2 {
            Some(ProjOwner::Zombie)
        } else if tag == 3 {
            Some(ProjOwner::Enemy)
        } else {
            None
        }
    }

    /// The value of [`ProjOwner::from_tag`].
    pub open spec fn spec_from_tag(tag: int) -> Option<ProjOwner> {
        if tag == 0 {
            Some(ProjOwner::Player)
        } else if tag == 1 {
            Some(ProjOwner::Module)
        } else if tag == 2 {
            Some(ProjOwner::Zombie)
        } else if tag == 3 {
            Some(ProjOwner::Enemy)
        } else {
            None
        }
    }
}

/// Target report for one module: either an enemy position and index, or the
/// explicit "no target" value encoded with the interface sentinels.
#[derive(Clone, Copy, Debug, PartialEq, Eq, Structural)]
pub struct ModuleTarget {
    pub has_target: bool,
    pub target_x: i64,
    pub target_y: i64,
    pub target_index: i64,
}

impl ModuleTarget {
    /// The "no target" value: zeroed coordinates and index -1.
    pub fn none() -> (t: ModuleTarget)
        ensures
            t == ModuleTarget::spec_none(),
    {
        ModuleTarget { has_target: false, target_x: 0, target_y: 0, target_index: -1 }
    }

    /// The value of [`ModuleTarget::none`].
    pub open spec fn spec_none() -> ModuleTarget {
        ModuleTarget { has_target: false, target_x: 0, target_y: 0, target_index: (-1) as i64 }
    }

    /// A found target at `(x, y)` with its enemy index.
    pub fn some(x: i64, y: i64, index: usize) -> (t: ModuleTarget)
        requires
            index <= i64::MAX,
        ensures
            t == ModuleTarget::spec_some(x as int, y as int, index as int),
    {
        ModuleTarget { has_target: true, target_x: x, target_y: y, target_index: index as i64 }
    }

    /// The value of [`ModuleTarget::some`].
    pub open spec fn spec_some(x: int, y: int, index: int) -> ModuleTarget {
        ModuleTarget {
            has_target: true,
            target_x: x as i64,
            target_y: y as i64,
            target_index: index as i64,
        }
    }
}

/// A plain collision body: modules, powerups and stars carry no behavior
/// state, only a position and radius.
#[derive(Clone, Copy, Debug, PartialEq, Eq, Structural)]
pub struct Circle {
    pub x: i64,
    pub y: i64,
    pub radius: i64,
}

/// Bounds under which collision tests on the body cannot overflow.
pub open spec fn wf_circle(c: Circle) -> bool {
    &&& wf_coord(c.x as int)
    &&& wf_coord(c.y as int)
    &&& wf_radius(c.radius as int)
}

/// Rammer steering and physics constants, in milli-units where the quantity
/// is a length, speed or thrust, in milli-factors where it scales another
/// quantity, and in ticks where it is a duration.
pub struct RammerConfig;

impl RammerConfig {
    /// Speed cap without an active boost or charge.
    pub const BASE_MAX: i64 = 9000;

    /// Speed cap while a boost or charge is active.
    pub const BOOST_MAX: i64 = 28000;

    /// Restitution factor of a boundary bounce (energy-gaining).
    pub const REST: i64 = 1600;

    /// Global per-tick velocity damping factor.
    pub const DAMP: i64 = 985;

    /// Boost duration granted by a boundary bounce.
    pub const BOOST_FRAMES: i64 = 14;

    /// Hit cooldown set by a boundary bounce.
    pub const HIT_CD: i64 = 4;

    /// Blend weight of the target direction in steering.
    pub const STEER: i64 = 500;

    /// Base thrust along the steering direction.
    pub const THRUST: i64 = 1200;

    /// Maximum distance to the ship at which a charge can trigger.
    pub const CHARGE_DIST: i64 = 300000;

    /// Charge trigger probability per tick, in milli.
    pub const CHARGE_PROB: i64 = 20;

    /// Duration of a charge.
    pub const CHARGE_FRAMES: i64 = 26;

    /// Instantaneous speed added when a charge triggers.
    pub const CHARGE_SPEED_BONUS: i64 = 6000;

    /// Distance within which incoming projectiles are dodged.
    pub const DODGE_DIST: i64 = 120000;

    /// Lateral impulse applied by a dodge.
    pub const DODGE_FORCE: i64 = 2200;

    /// Distance to the ship below which anti-orbit steering engages.
    pub const ORBIT_BREAK_RADIUS: i64 = 140000;

    /// Damping of the tangential velocity component near the ship.
    pub const ORBIT_TANGENT_DAMP: i64 = 900;

    /// Blend weight toward the ship inside the orbit-break radius.
    pub const CLOSE_STEER: i64 = 750;

    /// Minimum forward speed kept up near the ship.
    pub const MIN_FWD: i64 = 800;
}

} // verus!
