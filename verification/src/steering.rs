//! Per-agent state and the three steering behaviours: separation,
//! alignment and cohesion, each an exhaustive scan over the population
//! snapshot, built on a shared `seek`-style primitive.

use vstd::prelude::*;
use crate::config::{
    BOUND_CAP, DESIRED_SEPARATION, FORCE_CAP, MAX_FORCE, MAX_SPEED, NEIGHBOUR_RADIUS, POP_CAP,
    SCALE, SPEED_CAP, ACC_CAP,
};
use crate::intmath::{
    sdiv, sqrt_floor, lemma_sqrt_floor_pos, lemma_div_nonneg_props, lemma_sdiv_bound,
    lemma_sq_bound, lemma_norm_component, isqrt64, div_to_zero,
};
use crate::vec2::{
    Vec2, Gv2, v2_zero, v2_add, v2_sub, v2_sdiv, v2_scale, norm_sq, dist_sq, in_box,
    spec_scale_to, spec_limit, lemma_norm_sq_zero, lemma_spec_limit_bounds,
};

verus! {

/// Immutable per-agent steering parameters.
#[derive(Clone, Copy, PartialEq, Eq, Structural, Debug)]
pub struct Boid {
    pub max_force: i64,
    pub max_speed: i64,
}

impl Boid {
    /// Parameters the arithmetic bounds ask for.
    pub open spec fn wf(&self) -> bool {
        0 <= self.max_force <= FORCE_CAP && 0 <= self.max_speed <= SPEED_CAP
    }
}

impl Default for Boid {
    /// The standard tuning: `MAX_FORCE` and `MAX_SPEED`.
    fn default() -> (r: Boid)
        ensures
            r.max_force == MAX_FORCE,
            r.max_speed == MAX_SPEED,
            r.wf(),
    {
        Boid { max_force: MAX_FORCE, max_speed: MAX_SPEED }
    }
}

/// One live agent: steering parameters, position, velocity, and the
/// per-frame force accumulator.
#[derive(Clone, Copy, PartialEq, Eq, Structural, Debug)]
pub struct BoidState {
    pub boid: Boid,
    pub position: Vec2,
    pub velocity: Vec2,
    pub acceleration: Vec2,
}

/// The mathematical model of one agent.
pub ghost struct GBoid {
    pub max_force: int,
    pub max_speed: int,
    pub position: Gv2,
    pub velocity: Gv2,
    pub acceleration: Gv2,
}

impl View for BoidState {
    type V = GBoid;

    open spec fn view(&self) -> GBoid {
        GBoid {
            max_force: self.boid.max_force as int,
            max_speed: self.boid.max_speed as int,
            position: self.position@,
            velocity: self.velocity@,
            acceleration: self.acceleration@,
        }
    }
}

/// The model of a population snapshot.
pub open spec fn gview(s: Seq<BoidState>) -> Seq<GBoid> {
    s.map_values(|b: BoidState| b@)
}

/// Well-formed agent: parameters in range, position inside the wrap box,
/// speed within the agent's `max_speed`, accumulator bounded.
pub open spec fn gb_wf(g: GBoid) -> bool {
    &&& 0 <= g.max_force <= FORCE_CAP
    &&& 0 <= g.max_speed <= SPEED_CAP
    &&& in_box(g.position, BOUND_CAP as int)
    &&& norm_sq(g.velocity) <= g.max_speed * g.max_speed
    &&& in_box(g.acceleration, ACC_CAP as int)
}

/// Well-formed population: bounded length, every agent well-formed.
pub open spec fn flock_wf(s: Seq<GBoid>) -> bool {
    &&& s.len() <= POP_CAP
    &&& forall|i: int| 0 <= i < s.len() ==> gb_wf(s[i])
}

/// `q` is a neighbour of the agent at `p` within `radius`: strictly closer
/// than the radius, strictly farther than zero (which excludes the agent
/// itself).
pub open spec fn is_neighbor(p: Gv2, q: Gv2, radius: int) -> bool {
    0 < dist_sq(p, q) && dist_sq(p, q) < radius * radius
}

/// How many agents of `s` are neighbours of `p` within `radius`.
pub open spec fn neighbor_count(p: Gv2, s: Seq<GBoid>, radius: int) -> int
    decreases s.len(),
{
    if s.len() == 0 {
        0
    } else {
        neighbor_count(p, s.drop_last(), radius) + if is_neighbor(
            p,
            s.last().position,
            radius,
        ) {
            1int
        } else {
            0int
        }
    }
}

/// Repulsion contributed by one neighbour at `q`: the difference `p - q`
/// rescaled to length `SCALE^2 / dist` — a unit vector weighted inversely
/// by proximity, in fixed point.
pub open spec fn sep_term(p: Gv2, q: Gv2) -> Gv2 {
    spec_scale_to(v2_sub(p, q), sdiv(SCALE * SCALE, sqrt_floor(dist_sq(p, q))))
}

/// Sum of the separation repulsions over the neighbours within
/// `DESIRED_SEPARATION`.
pub open spec fn sep_sum(p: Gv2, s: Seq<GBoid>) -> Gv2
    decreases s.len(),
{
    if s.len() == 0 {
        v2_zero()
    } else {
        v2_add(
            sep_sum(p, s.drop_last()),
            if is_neighbor(p, s.last().position, DESIRED_SEPARATION as int) {
                sep_term(p, s.last().position)
            } else {
                v2_zero()
            },
        )
    }
}

/// Sum of the velocities of the neighbours within `NEIGHBOUR_RADIUS`.
pub open spec fn vel_sum(p: Gv2, s: Seq<GBoid>) -> Gv2
    decreases s.len(),
{
    if s.len() == 0 {
        v2_zero()
    } else {
        v2_add(
            vel_sum(p, s.drop_last()),
            if is_neighbor(p, s.last().position, NEIGHBOUR_RADIUS as int) {
                s.last().velocity
            } else {
                v2_zero()
            },
        )
    }
}

/// Sum of the positions of the neighbours within `NEIGHBOUR_RADIUS`.
pub open spec fn pos_sum(p: Gv2, s: Seq<GBoid>) -> Gv2
    decreases s.len(),
{
    if s.len() == 0 {
        v2_zero()
    } else {
        v2_add(
            pos_sum(p, s.drop_last()),
            if is_neighbor(p, s.last().position, NEIGHBOUR_RADIUS as int) {
                s.last().position
            } else {
                v2_zero()
            },
        )
    }
}

/// Steer toward `target`: desired velocity of length `max_speed` toward the
/// target, minus the current velocity, clamped to `max_force`. A target
/// coincident with the position gives the zero vector.
pub open spec fn spec_seek(target: Gv2, p: Gv2, vel: Gv2, mf: int, ms: int) -> Gv2 {
    if target.x == p.x && target.y == p.y {
        v2_zero()
    } else {
        spec_limit(v2_sub(spec_scale_to(v2_sub(target, p), ms), vel), mf)
    }
}

/// The separation steering output: average the repulsions of the neighbours
/// within `DESIRED_SEPARATION`; a non-zero average is rescaled to
/// `max_speed`, the velocity subtracted, and the result clamped to
/// `max_force`. No neighbours, or a zero average, give the zero vector.
pub open spec fn spec_separate(p: Gv2, vel: Gv2, mf: int, ms: int, s: Seq<GBoid>) -> Gv2 {
    let c = neighbor_count(p, s, DESIRED_SEPARATION as int);
    if c > 0 {
        let avg = v2_sdiv(sep_sum(p, s), c);
        if !(avg.x == 0 && avg.y == 0) {
            spec_limit(v2_sub(spec_scale_to(avg, ms), vel), mf)
        } else {
            v2_zero()
        }
    } else {
        v2_zero()
    }
}

/// The alignment steering output: average the velocities of the neighbours
/// within `NEIGHBOUR_RADIUS`; a non-zero average is rescaled to `max_speed`,
/// the velocity subtracted, and the result clamped to `max_force`.
pub open spec fn spec_align(p: Gv2, vel: Gv2, mf: int, ms: int, s: Seq<GBoid>) -> Gv2 {
    let c = neighbor_count(p, s, NEIGHBOUR_RADIUS as int);
    if c > 0 {
        let avg = v2_sdiv(vel_sum(p, s), c);
        if !(avg.x == 0 && avg.y == 0) {
            spec_limit(v2_sub(spec_scale_to(avg, ms), vel), mf)
        } else {
            v2_zero()
        }
    } else {
        v2_zero()
    }
}

/// The cohesion steering output: seek the centroid of the neighbours within
/// `NEIGHBOUR_RADIUS`.
pub open spec fn spec_cohesion(p: Gv2, vel: Gv2, mf: int, ms: int, s: Seq<GBoid>) -> Gv2 {
    let c = neighbor_count(p, s, NEIGHBOUR_RADIUS as int);
    if c > 0 {
        spec_seek(v2_sdiv(pos_sum(p, s), c), p, vel, mf, ms)
    } else {
        v2_zero()
    }
}

/// Force bound: each steering output, before weighting, has a squared
/// magnitude within the square of `max_force`.
pub proof fn lemma_force_bound(p: Gv2, vel: Gv2, mf: int, ms: int, s: Seq<GBoid>)
    requires
        mf >= 0,
    ensures
        norm_sq(spec_separate(p, vel, mf, ms, s)) <= mf * mf,
        norm_sq(spec_align(p, vel, mf, ms, s)) <= mf * mf,
        norm_sq(spec_cohesion(p, vel, mf, ms, s)) <= mf * mf,
{
    lemma_norm_sq_zero();
    lemma_sq_bound(mf, mf);
    let cs = neighbor_count(p, s, DESIRED_SEPARATION as int);
    if cs > 0 {
        let avg = v2_sdiv(sep_sum(p, s), cs);
        if !(avg.x == 0 && avg.y == 0) {
            lemma_spec_limit_bounds(v2_sub(spec_scale_to(avg, ms), vel), mf);
        }
    }
    let cn = neighbor_count(p, s, NEIGHBOUR_RADIUS as int);
    if cn > 0 {
        let avg = v2_sdiv(vel_sum(p, s), cn);
        if !(avg.x == 0 && avg.y == 0) {
            lemma_spec_limit_bounds(v2_sub(spec_scale_to(avg, ms), vel), mf);
        }
    }
    let target = v2_sdiv(pos_sum(p, s), cn);
    if !(target.x == p.x && target.y == p.y) {
        lemma_spec_limit_bounds(v2_sub(spec_scale_to(v2_sub(target, p), ms), vel), mf);
    }
}

/// Zero-neighbour degeneracy: an agent with no neighbours within either
/// scan radius gets the zero vector from all three behaviours.
pub proof fn lemma_zero_neighbor_degeneracy(p: Gv2, vel: Gv2, mf: int, ms: int, s: Seq<GBoid>)
    requires
        neighbor_count(p, s, DESIRED_SEPARATION as int) == 0,
        neighbor_count(p, s, NEIGHBOUR_RADIUS as int) == 0,
    ensures
        spec_separate(p, vel, mf, ms, s) == v2_zero(),
        spec_align(p, vel, mf, ms, s) == v2_zero(),
        spec_cohesion(p, vel, mf, ms, s) == v2_zero(),
{
}

impl Boid {
    /// Steer toward `target`; a target coincident with the position gives
    /// the zero vector instead of an undefined direction.
    pub fn seek(&self, target: Vec2, position: Vec2, velocity: Vec2) -> (r: Vec2)
        requires
            self.wf(),
            in_box(target@, BOUND_CAP as int),
            in_box(position@, BOUND_CAP as int),
            norm_sq(velocity@) <= (self.max_speed as int) * (self.max_speed as int),
        ensures
            r@ == spec_seek(
                target@,
                position@,
                velocity@,
                self.max_force as int,
                self.max_speed as int,
            ),
            norm_sq(r@) <= (self.max_force as int) * (self.max_force as int),
    {
        if target.x == position.x && target.y == position.y {
            proof {
                lemma_sq_bound(self.max_force as int, self.max_force as int);
            }
            Vec2 { x: 0, y: 0 }
        } else {
            proof {
                lemma_norm_component(velocity@.x, velocity@.y, self.max_speed as int);
            }
            let diff = target.sub(position);
            let desired = diff.scale_to(self.max_speed);
            let steer = desired.sub(velocity);
            steer.limit(self.max_force)
        }
    }

    /// Shared tail of separation and alignment: a non-zero average is
    /// rescaled to `max_speed`, the velocity subtracted, and the result
    /// clamped to `max_force`.
    fn steer_from_avg(&self, avg: Vec2, velocity: Vec2) -> (r: Vec2)
        requires
            self.wf(),
            in_box(avg@, 1_000_000),
            norm_sq(velocity@) <= (self.max_speed as int) * (self.max_speed as int),
        ensures
            r@ == if !(avg@.x == 0 && avg@.y == 0) {
                spec_limit(
                    v2_sub(spec_scale_to(avg@, self.max_speed as int), velocity@),
                    self.max_force as int,
                )
            } else {
                v2_zero()
            },
            norm_sq(r@) <= (self.max_force as int) * (self.max_force as int),
    {
        if avg.x != 0 || avg.y != 0 {
            proof {
                lemma_norm_component(velocity@.x, velocity@.y, self.max_speed as int);
            }
            let desired = avg.scale_to(self.max_speed);
            let steer = desired.sub(velocity);
            steer.limit(self.max_force)
        } else {
            proof {
                lemma_sq_bound(self.max_force as int, self.max_force as int);
            }
            Vec2 { x: 0, y: 0 }
        }
    }

    /// The separation behaviour: steer away from the neighbours within
    /// `DESIRED_SEPARATION`, each weighted inversely by its distance.
    pub fn separate(&self, position: Vec2, velocity: Vec2, boids: &Vec<BoidState>) -> (r: Vec2)
        requires
            self.wf(),
            in_box(position@, BOUND_CAP as int),
            norm_sq(velocity@) <= (self.max_speed as int) * (self.max_speed as int),
            flock_wf(gview(boids@)),
        ensures
            r@ == spec_separate(
                position@,
                velocity@,
                self.max_force as int,
                self.max_speed as int,
                gview(boids@),
            ),
            norm_sq(r@) <= (self.max_force as int) * (self.max_force as int),
            neighbor_count(position@, gview(boids@), DESIRED_SEPARATION as int) == 0 ==> r@
                == v2_zero(),
    {
        let ghost s = gview(boids@);
        let n = boids.len();
        let mut steer = Vec2 { x: 0, y: 0 };
        let mut count: u64 = 0;
        let mut i: usize = 0;
        proof {
            assert(s.subrange(0, 0) =~= Seq::<GBoid>::empty());
        }
        while i < n
            invariant
                self.wf(),
                in_box(position@, BOUND_CAP as int),
                flock_wf(s),
                s == gview(boids@),
                n == boids@.len(),
                s.len() == n,
                i <= n,
                count <= i,
                count as int == neighbor_count(
                    position@,
                    s.subrange(0, i as int),
                    DESIRED_SEPARATION as int,
                ),
                steer@ == sep_sum(position@, s.subrange(0, i as int)),
                in_box(steer@, (count as int) * 1_000_000),
            decreases n - i,
        {
            proof {
                assert(s[i as int] == boids@[i as int]@);
                assert(gb_wf(s[i as int]));
            }
            let b = boids[i];
            let dx = position.x - b.position.x;
            let dy = position.y - b.position.y;
            let diff = Vec2 { x: dx, y: dy };
            let ds = diff.norm_sq64();
            let rr = (DESIRED_SEPARATION as u64) * (DESIRED_SEPARATION as u64);
            let ghost is_n = is_neighbor(position@, s[i as int].position, DESIRED_SEPARATION as int);
            let mut term = Vec2 { x: 0, y: 0 };
            if ds > 0 && ds < rr {
                let d = isqrt64(ds);
                proof {
                    lemma_sqrt_floor_pos(ds as int);
                    lemma_div_nonneg_props(1_000_000, d as int);
                }
                let t = 1_000_000u64 / d;
                term = diff.scale_to(t as i64);
                count = count + 1;
            }
            proof {
                assert(term@ == if is_n {
                    sep_term(position@, s[i as int].position)
                } else {
                    v2_zero()
                });
            }
            steer = steer.add(term);
            i = i + 1;
            proof {
                assert(s.subrange(0, i as int).drop_last() =~= s.subrange(0, i as int - 1));
                assert(s.subrange(0, i as int).last() == s[i as int - 1]);
            }
        }
        proof {
            assert(s.subrange(0, n as int) =~= s);
        }
        let r = if count > 0 {
            let c = count as i64;
            proof {
                lemma_sdiv_bound(steer@.x, c as int, 1_000_000);
                lemma_sdiv_bound(steer@.y, c as int, 1_000_000);
            }
            let avg = Vec2 { x: div_to_zero(steer.x, c), y: div_to_zero(steer.y, c) };
            self.steer_from_avg(avg, velocity)
        } else {
            Vec2 { x: 0, y: 0 }
        };
        proof {
            lemma_sq_bound(self.max_force as int, self.max_force as int);
            lemma_norm_sq_zero();
            assert(norm_sq(r@) <= (self.max_force as int) * (self.max_force as int));
        }
        r
    }

    /// The alignment behaviour: steer toward the average velocity of the
    /// neighbours within `NEIGHBOUR_RADIUS`.
    pub fn align(&self, position: Vec2, velocity: Vec2, boids: &Vec<BoidState>) -> (r: Vec2)
        requires
            self.wf(),
            in_box(position@, BOUND_CAP as int),
            norm_sq(velocity@) <= (self.max_speed as int) * (self.max_speed as int),
            flock_wf(gview(boids@)),
        ensures
            r@ == spec_align(
                position@,
                velocity@,
                self.max_force as int,
                self.max_speed as int,
                gview(boids@),
            ),
            norm_sq(r@) <= (self.max_force as int) * (self.max_force as int),
            neighbor_count(position@, gview(boids@), NEIGHBOUR_RADIUS as int) == 0 ==> r@
                == v2_zero(),
    {
        let ghost s = gview(boids@);
        let n = boids.len();
        let mut sum = Vec2 { x: 0, y: 0 };
        let mut count: u64 = 0;
        let mut i: usize = 0;
        proof {
            assert(s.subrange(0, 0) =~= Seq::<GBoid>::empty());
        }
        while i < n
            invariant
                self.wf(),
                in_box(position@, BOUND_CAP as int),
                flock_wf(s),
                s == gview(boids@),
                n == boids@.len(),
                s.len() == n,
                i <= n,
                count <= i,
                count as int == neighbor_count(
                    position@,
                    s.subrange(0, i as int),
                    NEIGHBOUR_RADIUS as int,
                ),
                sum@ == vel_sum(position@, s.subrange(0, i as int)),
                in_box(sum@, (count as int) * 1_000_000),
            decreases n - i,
        {
            proof {
                assert(s[i as int] == boids@[i as int]@);
                assert(gb_wf(s[i as int]));
                lemma_norm_component(
                    s[i as int].velocity.x,
                    s[i as int].velocity.y,
                    s[i as int].max_speed,
                );
            }
            let b = boids[i];
            let dx = position.x - b.position.x;
            let dy = position.y - b.position.y;
            let diff = Vec2 { x: dx, y: dy };
            let ds = diff.norm_sq64();
            let rr = (NEIGHBOUR_RADIUS as u64) * (NEIGHBOUR_RADIUS as u64);
            let ghost is_n = is_neighbor(position@, s[i as int].position, NEIGHBOUR_RADIUS as int);
            let mut term = Vec2 { x: 0, y: 0 };
            if ds > 0 && ds < rr {
                term = b.velocity;
                count = count + 1;
            }
            proof {
                assert(term@ == if is_n {
                    s[i as int].velocity
                } else {
                    v2_zero()
                });
            }
            sum = sum.add(term);
            i = i + 1;
            proof {
                assert(s.subrange(0, i as int).drop_last() =~= s.subrange(0, i as int - 1));
                assert(s.subrange(0, i as int).last() == s[i as int - 1]);
            }
        }
        proof {
            assert(s.subrange(0, n as int) =~= s);
        }
        let r = if count > 0 {
            let c = count as i64;
            proof {
                lemma_sdiv_bound(sum@.x, c as int, 1_000_000);
                lemma_sdiv_bound(sum@.y, c as int, 1_000_000);
            }
            let avg = Vec2 { x: div_to_zero(sum.x, c), y: div_to_zero(sum.y, c) };
            self.steer_from_avg(avg, velocity)
        } else {
            Vec2 { x: 0, y: 0 }
        };
        proof {
            lemma_sq_bound(self.max_force as int, self.max_force as int);
            lemma_norm_sq_zero();
            assert(norm_sq(r@) <= (self.max_force as int) * (self.max_force as int));
        }
        r
    }

    /// The cohesion behaviour: seek the centroid of the neighbours within
    /// `NEIGHBOUR_RADIUS`.
    pub fn cohesion(&self, position: Vec2, velocity: Vec2, boids: &Vec<BoidState>) -> (r: Vec2)
        requires
            self.wf(),
            in_box(position@, BOUND_CAP as int),
            norm_sq(velocity@) <= (self.max_speed as int) * (self.max_speed as int),
            flock_wf(gview(boids@)),
        ensures
            r@ == spec_cohesion(
                position@,
                velocity@,
                self.max_force as int,
                self.max_speed as int,
                gview(boids@),
            ),
            norm_sq(r@) <= (self.max_force as int) * (self.max_force as int),
            neighbor_count(position@, gview(boids@), NEIGHBOUR_RADIUS as int) == 0 ==> r@
                == v2_zero(),
    {
        let ghost s = gview(boids@);
        let n = boids.len();
        let mut sum = Vec2 { x: 0, y: 0 };
        let mut count: u64 = 0;
        let mut i: usize = 0;
        proof {
            assert(s.subrange(0, 0) =~= Seq::<GBoid>::empty());
        }
        while i < n
            invariant
                self.wf(),
                in_box(position@, BOUND_CAP as int),
                flock_wf(s),
                s == gview(boids@),
                n == boids@.len(),
                s.len() == n,
                i <= n,
                count <= i,
                count as int == neighbor_count(
                    position@,
                    s.subrange(0, i as int),
                    NEIGHBOUR_RADIUS as int,
                ),
                sum@ == pos_sum(position@, s.subrange(0, i as int)),
                in_box(sum@, (count as int) * 100_000_000),
            decreases n - i,
        {
            proof {
                assert(s[i as int] == boids@[i as int]@);
                assert(gb_wf(s[i as int]));
            }
            let b = boids[i];
            let dx = position.x - b.position.x;
            let dy = position.y - b.position.y;
            let diff = Vec2 { x: dx, y: dy };
            let ds = diff.norm_sq64();
            let rr = (NEIGHBOUR_RADIUS as u64) * (NEIGHBOUR_RADIUS as u64);
            let ghost is_n = is_neighbor(position@, s[i as int].position, NEIGHBOUR_RADIUS as int);
            let mut term = Vec2 { x: 0, y: 0 };
            if ds > 0 && ds < rr {
                term = b.position;
                count = count + 1;
            }
            proof {
                assert(term@ == if is_n {
                    s[i as int].position
                } else {
                    v2_zero()
                });
            }
            sum = sum.add(term);
            i = i + 1;
            proof {
                assert(s.subrange(0, i as int).drop_last() =~= s.subrange(0, i as int - 1));
                assert(s.subrange(0, i as int).last() == s[i as int - 1]);
            }
        }
        proof {
            assert(s.subrange(0, n as int) =~= s);
        }
        let r = if count > 0 {
            let c = count as i64;
            proof {
                lemma_sdiv_bound(sum@.x, c as int, 100_000_000);
                lemma_sdiv_bound(sum@.y, c as int, 100_000_000);
            }
            let centroid = Vec2 { x: div_to_zero(sum.x, c), y: div_to_zero(sum.y, c) };
            self.seek(centroid, position, velocity)
        } else {
            Vec2 { x: 0, y: 0 }
        };
        proof {
            lemma_sq_bound(self.max_force as int, self.max_force as int);
            lemma_norm_sq_zero();
            assert(norm_sq(r@) <= (self.max_force as int) * (self.max_force as int));
        }
        r
    }
}

} // verus!
