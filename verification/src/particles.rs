//! Particle motion: per-particle linear motion, velocity damping and
//! lifetime decay, dropping particles whose life has run out.

use vstd::prelude::*;
use crate::fixed::{sdiv, mul_milli};
use crate::types::{wf_coord, wf_vel, wf_scalar};

verus! {

/// One effect particle: position, velocity, remaining life in ticks, and a
/// color hue carried through untouched.
#[derive(Clone, Copy, Debug, PartialEq, Eq, Structural)]
pub struct Particle {
    pub x: i64,
    pub y: i64,
    pub vx: i64,
    pub vy: i64,
    pub life: i64,
    pub hue: i64,
}

/// Bounds under which one particle step cannot overflow.
pub open spec fn wf_particle(p: Particle) -> bool {
    &&& wf_coord(p.x as int)
    &&& wf_coord(p.y as int)
    &&& wf_vel(p.vx as int)
    &&& wf_vel(p.vy as int)
    &&& wf_scalar(p.life as int)
}

/// One step of a live particle: position advances by the velocity, the
/// velocity is damped, the life decreases one tick.
pub open spec fn step_particle(p: Particle) -> Particle {
    Particle {
        x: (p.x + p.vx) as i64,
        y: (p.y + p.vy) as i64,
        vx: sdiv(p.vx as int * 950, 1000) as i64,
        vy: sdiv(p.vy as int * 950, 1000) as i64,
        life: (p.life - 1) as i64,
        hue: p.hue,
    }
}

/// The live particles after one step, in order: dead input particles are
/// skipped, and a particle whose life runs out this step is dropped.
pub open spec fn spec_update_particles(ps: Seq<Particle>) -> Seq<Particle>
    decreases ps.len(),
{
    if ps.len() == 0 {
        Seq::empty()
    } else {
        let prev = spec_update_particles(ps.drop_last());
        let p = ps.last();
        if p.life > 0 && step_particle(p).life > 0 {
            prev.push(step_particle(p))
        } else {
            prev
        }
    }
}

/// Advances every live particle one tick and returns only those still alive,
/// in input order.
pub fn update_particles(particle_data: &Vec<Particle>) -> (r: Vec<Particle>)
    requires
        forall|i: int| 0 <= i < particle_data@.len() ==> wf_particle(#[trigger] particle_data@[i]),
    ensures
        r@ == spec_update_particles(particle_data@),
{
    let mut out: Vec<Particle> = Vec::new();
    let mut i: usize = 0;
    while i < particle_data.len()
        invariant
            0 <= i <= particle_data@.len(),
            forall|k: int| 0 <= k < particle_data@.len() ==> wf_particle(
                #[trigger] particle_data@[k],
            ),
            out@ == spec_update_particles(particle_data@.take(i as int)),
        decreases particle_data@.len() - i,
    {
        let p = particle_data[i];
        if p.life > 0 {
            let stepped = Particle {
                x: p.x + p.vx,
                y: p.y + p.vy,
                vx: mul_milli(p.vx, 950, Ghost(1000000000), Ghost(950)),
                vy: mul_milli(p.vy, 950, Ghost(1000000000), Ghost(950)),
                life: p.life - 1,
                hue: p.hue,
            };
            if stepped.life > 0 {
                out.push(stepped);
            }
        }
        proof {
            assert(particle_data@.take(i + 1).drop_last() =~= particle_data@.take(i as int));
            assert(particle_data@.take(i + 1).last() == particle_data@[i as int]);
        }
        i = i + 1;
    }
    proof {
        assert(particle_data@.take(particle_data@.len() as int) =~= particle_data@);
    }
    out
}

/// Explosion particles at `(x, y)`: each gets a velocity component drawn
/// from `[-5, 5)` whole units, a hue in the zombie green band or the normal
/// red-yellow band, and a fixed starting life.
pub fn create_explosion_particles(
    x: i64,
    y: i64,
    count: usize,
    is_zombie: bool,
    rng: &mut crate::rng::Rng,
) -> (r: Vec<Particle>)
    requires
        wf_coord(x as int),
        wf_coord(y as int),
        count <= 100000,
    ensures
        r@.len() == count,
        forall|i: int| 0 <= i < r@.len() ==> (#[trigger] r@[i]).x == x && r@[i].y == y && r@[i].life
            == 30 && -5000 <= r@[i].vx <= 5000 && -5000 <= r@[i].vy <= 5000 && (if is_zombie {
            100000 <= r@[i].hue <= 140000
        } else {
            0 <= r@[i].hue <= 60000
        }),
{
    let mut out: Vec<Particle> = Vec::new();
    let mut i: usize = 0;
    while i < count
        invariant
            0 <= i <= count,
            count <= 100000,
            out@.len() == i,
            wf_coord(x as int),
            wf_coord(y as int),
            forall|k: int| 0 <= k < out@.len() ==> (#[trigger] out@[k]).x == x && out@[k].y == y
                && out@[k].life == 30 && -5000 <= out@[k].vx <= 5000 && -5000 <= out@[k].vy <= 5000
                && (if is_zombie {
                100000 <= out@[k].hue <= 140000
            } else {
                0 <= out@[k].hue <= 60000
            }),
        decreases count - i,
    {
        let rvx: i64 = rng.next_milli();
        let rvy: i64 = rng.next_milli();
        let rhue: i64 = rng.next_milli();
        let vx: i64 = (rvx - 500) * 10;
        let vy: i64 = (rvy - 500) * 10;
        let hue: i64 = if is_zombie {
            100000 + rhue * 40
        } else {
            rhue * 60
        };
        out.push(Particle { x, y, vx, vy, life: 30, hue });
        i = i + 1;
    }
    out
}

} // verus!
