//! The live population and its growth: at most one agent is created per
//! frame, and never beyond the configured cap.

use vstd::prelude::*;
use crate::config::{DEFAULT_MAX_BOID_COUNT, MAX_FORCE, MAX_SPEED, POP_CAP};
use crate::rng::RandomGenerator;
use crate::steering::{gb_wf, gview, flock_wf, Boid, BoidState, GBoid};
use crate::vec2::{in_box, norm_sq, spec_scale_to, v2_zero, Gv2, Vec2};

verus! {

/// The live agents, in spawn order.
pub struct Boids(pub Vec<BoidState>);

impl View for Boids {
    type V = Seq<GBoid>;

    open spec fn view(&self) -> Seq<GBoid> {
        gview(self.0@)
    }
}

impl Boids {
    /// Every agent well-formed, the length within the machine cap.
    pub open spec fn wf(&self) -> bool {
        flock_wf(self@)
    }
}

impl Default for Boids {
    /// The empty population.
    fn default() -> (r: Boids)
        ensures
            r@.len() == 0,
            r.wf(),
    {
        Boids(Vec::new())
    }
}

/// The population length after one spawn attempt against `cap`.
pub open spec fn spec_spawn_len(len: int, cap: int) -> int {
    if len < cap {
        len + 1
    } else {
        len
    }
}

/// Population monotonicity: one spawn attempt never shrinks the
/// population, grows it by at most one, and keeps it within the cap once
/// it is within the cap.
pub proof fn lemma_population_monotone(len: int, cap: int)
    requires
        0 <= len,
        0 <= cap,
    ensures
        len <= spec_spawn_len(len, cap) <= len + 1,
        len <= cap ==> spec_spawn_len(len, cap) <= cap,
{
}

impl Boids {
    /// Create at most one agent: if the population is below
    /// `max_boid_count`, append one agent at the origin with zero
    /// acceleration, default parameters, and a velocity of length (at
    /// most) `MAX_SPEED / 2` in a direction drawn from `rng`; otherwise
    /// leave the population unchanged.
    pub fn try_spawn(&mut self, max_boid_count: u32, rng: &mut RandomGenerator)
        requires
            old(self).wf(),
        ensures
            final(self).wf(),
            final(self)@.len() == spec_spawn_len(old(self)@.len() as int, max_boid_count as int),
            old(self)@.len() >= max_boid_count ==> final(self)@ == old(self)@,
            old(self)@.len() < max_boid_count ==> {
                let b = final(self)@[old(self)@.len() as int];
                &&& final(self)@ == old(self)@.push(b)
                &&& b.position == v2_zero()
                &&& b.acceleration == v2_zero()
                &&& b.max_force == MAX_FORCE as int
                &&& b.max_speed == MAX_SPEED as int
                &&& norm_sq(b.velocity) <= (MAX_SPEED as int / 2) * (MAX_SPEED as int / 2)
                &&& exists|d: Gv2|
                    #[trigger] spec_scale_to(d, MAX_SPEED as int / 2) == b.velocity && in_box(
                    d, 1000) && !(d.x == 0 && d.y == 0)
            },
    {
        if (self.0.len() as u64) < (max_boid_count as u64) {
            let ghost s0 = self@;
            let dx = rng.random_in(-1000, 1001);
            let dy = rng.random_in(-1000, 1001);
            let dir = if dx == 0 && dy == 0 {
                Vec2 { x: 1000, y: 0 }
            } else {
                Vec2 { x: dx, y: dy }
            };
            let velocity = dir.scale_to(MAX_SPEED / 2);
            let b = BoidState {
                boid: Boid::default(),
                position: Vec2 { x: 0, y: 0 },
                velocity,
                acceleration: Vec2 { x: 0, y: 0 },
            };
            self.0.push(b);
            proof {
                assert(self@ =~= s0.push(b@));
                assert(spec_scale_to(dir@, 150_000) == b@.velocity && in_box(dir@, 1000) && !(
                dir@.x == 0 && dir@.y == 0));
                assert(150_000int * 150_000int <= 300_000int * 300_000int) by (nonlinear_arith);
                assert(gb_wf(b@));
            }
        }
    }
}

/// Configuration handed to the application shell: the population cap.
pub struct BoidsPlugin {
    pub max_boid_count: u32,
}

impl BoidsPlugin {
    /// A configuration with the given population cap.
    pub fn new(max_boid_count: u32) -> (r: BoidsPlugin)
        ensures
            r.max_boid_count == max_boid_count,
    {
        BoidsPlugin { max_boid_count }
    }

    /// The standard configuration: a cap of `DEFAULT_MAX_BOID_COUNT`.
    pub fn default() -> (r: BoidsPlugin)
        ensures
            r.max_boid_count == DEFAULT_MAX_BOID_COUNT,
    {
        BoidsPlugin { max_boid_count: DEFAULT_MAX_BOID_COUNT }
    }
}

} // verus!
