//! The per-frame update, in two passes over the population: force
//! accumulation over a snapshot, then integration with a speed clamp and
//! toroidal wrap-around.

use vstd::prelude::*;
use crate::config::{
    ALIGN_MULTIPLIER, COHESION_MULTIPLIER, DT_CAP, R_MARGIN, SCALE, SEPARATION_MULTIPLIER_DEN,
    SEPARATION_MULTIPLIER_NUM, BOUND_CAP,
};
use crate::intmath::{div_to_zero, lemma_norm_component, lemma_sdiv_bound};
use crate::population::Boids;
use crate::steering::{
    gb_wf, gview, flock_wf, spec_align, spec_cohesion, spec_separate, BoidState, GBoid,
};
use crate::vec2::{
    in_box, norm_sq, spec_limit, lemma_spec_limit_bounds, v2_add, v2_scale, v2_sdiv, v2_zero, Gv2,
    Vec2,
};

verus! {

/// The acceleration accumulated for the agent at index `i` of the
/// snapshot `s`: its previous accumulator plus the three weighted
/// steering outputs.
pub open spec fn spec_accel(s: Seq<GBoid>, i: int) -> Gv2 {
    let me = s[i];
    let sep = v2_sdiv(
        v2_scale(
            spec_separate(me.position, me.velocity, me.max_force, me.max_speed, s),
            SEPARATION_MULTIPLIER_NUM as int,
        ),
        SEPARATION_MULTIPLIER_DEN as int,
    );
    let ali = v2_scale(
        spec_align(me.position, me.velocity, me.max_force, me.max_speed, s),
        ALIGN_MULTIPLIER as int,
    );
    let coh = v2_scale(
        spec_cohesion(me.position, me.velocity, me.max_force, me.max_speed, s),
        COHESION_MULTIPLIER as int,
    );
    v2_add(v2_add(v2_add(me.acceleration, sep), ali), coh)
}

/// The agent at index `i` after the force-accumulation pass: only the
/// accumulator changes.
pub open spec fn spec_flock_one(s: Seq<GBoid>, i: int) -> GBoid {
    GBoid { acceleration: spec_accel(s, i), ..s[i] }
}

/// Toroidal wrap of one coordinate against the half-extent `b`: a
/// coordinate strictly beyond either edge re-enters at the opposite edge;
/// anything within `[-b, b]` is untouched.
pub open spec fn spec_wrap1(x: int, b: int) -> int {
    if x < -b {
        b
    } else if x > b {
        -b
    } else {
        x
    }
}

/// One integration step for one agent: add the accumulator to the
/// velocity, clamp the speed, advance the position by `velocity * dt`,
/// wrap it, and clear the accumulator.
pub open spec fn spec_integrate(g: GBoid, dt: int, hw: int, hh: int) -> GBoid {
    let vl = spec_limit(v2_add(g.velocity, g.acceleration), g.max_speed);
    let p1 = v2_add(g.position, v2_sdiv(v2_scale(vl, dt), SCALE as int));
    let p2 = Gv2 {
        x: spec_wrap1(p1.x, hw + R_MARGIN as int),
        y: spec_wrap1(p1.y, hh + R_MARGIN as int),
    };
    GBoid { position: p2, velocity: vl, acceleration: v2_zero(), ..g }
}

/// The full-frame model: accumulate forces over the snapshot, then
/// integrate every agent.
pub open spec fn spec_frame(s: Seq<GBoid>, dt: int, hw: int, hh: int) -> Seq<GBoid> {
    Seq::new(s.len(), |i: int| spec_integrate(spec_flock_one(s, i), dt, hw, hh))
}

/// Toroidal wrap of one coordinate, executable.
pub fn wrap_coord(x: i64, b: i64) -> (r: i64)
    requires
        0 <= b,
    ensures
        r as int == spec_wrap1(x as int, b as int),
        -b <= r <= b,
{
    if x < -b {
        b
    } else if x > b {
        -b
    } else {
        x
    }
}

/// Wrap-around: a coordinate strictly beyond the half-extent re-enters at
/// the opposite edge; every coordinate within `[-b, b]` — the edges
/// included — is left exactly where it is.
pub proof fn lemma_wrap_props(x: int, b: int)
    requires
        0 <= b,
    ensures
        x > b ==> spec_wrap1(x, b) == -b,
        x < -b ==> spec_wrap1(x, b) == b,
        -b <= x <= b ==> spec_wrap1(x, b) == x,
{
}

/// Speed bound: after integration an agent's squared speed is within the
/// square of its `max_speed`.
pub proof fn lemma_speed_bound(g: GBoid, dt: int, hw: int, hh: int)
    requires
        g.max_speed >= 0,
    ensures
        norm_sq(spec_integrate(g, dt, hw, hh).velocity) <= g.max_speed * g.max_speed,
{
    lemma_spec_limit_bounds(v2_add(g.velocity, g.acceleration), g.max_speed);
}

/// Determinism: the frame update is a function of the snapshot, the frame
/// time and the bounds alone, so equal states under the same inputs step
/// to equal states.
pub proof fn lemma_frame_deterministic(a: Seq<GBoid>, b: Seq<GBoid>, dt: int, hw: int, hh: int)
    requires
        a == b,
    ensures
        spec_frame(a, dt, hw, hh) == spec_frame(b, dt, hw, hh),
{
}

/// Running the two verified passes in order — `flock`, then
/// `update_boids` — realises the full-frame model.
pub proof fn lemma_two_pass_frame(
    s: Seq<GBoid>,
    mid: Seq<GBoid>,
    fin: Seq<GBoid>,
    dt: int,
    hw: int,
    hh: int,
)
    requires
        mid.len() == s.len(),
        forall|i: int| 0 <= i < s.len() ==> mid[i] == spec_flock_one(s, i),
        fin.len() == mid.len(),
        forall|i: int| 0 <= i < mid.len() ==> fin[i] == spec_integrate(mid[i], dt, hw, hh),
    ensures
        fin =~= spec_frame(s, dt, hw, hh),
{
}

impl Boids {
    /// The force-accumulation pass: every agent's accumulator is filled
    /// from the three steering behaviours, computed over the population
    /// snapshot as it stood at the start of the pass; positions and
    /// velocities are untouched. The pass expects the accumulators clear,
    /// as the integration pass leaves them.
    pub fn flock(&mut self)
        requires
            old(self).wf(),
            forall|i: int|
                0 <= i < old(self)@.len() ==> old(self)@[i].acceleration == v2_zero(),
        ensures
            final(self).wf(),
            final(self)@.len() == old(self)@.len(),
            forall|i: int|
                0 <= i < final(self)@.len() ==> final(self)@[i] == spec_flock_one(old(self)@, i),
    {
        let ghost s0 = self@;
        let n = self.0.len();
        let mut out: Vec<BoidState> = Vec::new();
        let mut i: usize = 0;
        while i < n
            invariant
                s0 == gview(self.0@),
                flock_wf(s0),
                forall|j: int| 0 <= j < s0.len() ==> s0[j].acceleration == v2_zero(),
                n == self.0@.len(),
                s0.len() == n,
                i <= n,
                out@.len() == i,
                forall|j: int| 0 <= j < i ==> (#[trigger] out@[j])@ == spec_flock_one(s0, j),
                forall|j: int| 0 <= j < i ==> gb_wf(out@[j]@),
            decreases n - i,
        {
            proof {
                assert(s0[i as int] == self.0@[i as int]@);
                assert(gb_wf(s0[i as int]));
            }
            let b = self.0[i];
            let boid = b.boid;
            let sep = boid.separate(b.position, b.velocity, &self.0);
            let ali = boid.align(b.position, b.velocity, &self.0);
            let coh = boid.cohesion(b.position, b.velocity, &self.0);
            proof {
                lemma_norm_component(sep@.x, sep@.y, boid.max_force as int);
                lemma_norm_component(ali@.x, ali@.y, boid.max_force as int);
                lemma_norm_component(coh@.x, coh@.y, boid.max_force as int);
                lemma_sdiv_bound(
                    sep@.x * (SEPARATION_MULTIPLIER_NUM as int),
                    SEPARATION_MULTIPLIER_DEN as int,
                    1_200_000,
                );
                lemma_sdiv_bound(
                    sep@.y * (SEPARATION_MULTIPLIER_NUM as int),
                    SEPARATION_MULTIPLIER_DEN as int,
                    1_200_000,
                );
            }
            let sep_w = Vec2 {
                x: div_to_zero(sep.x * SEPARATION_MULTIPLIER_NUM, SEPARATION_MULTIPLIER_DEN),
                y: div_to_zero(sep.y * SEPARATION_MULTIPLIER_NUM, SEPARATION_MULTIPLIER_DEN),
            };
            let ali_w = Vec2 { x: ali.x * ALIGN_MULTIPLIER, y: ali.y * ALIGN_MULTIPLIER };
            let coh_w = Vec2 { x: coh.x * COHESION_MULTIPLIER, y: coh.y * COHESION_MULTIPLIER };
            let acc = b.acceleration.add(sep_w).add(ali_w).add(coh_w);
            let nb = BoidState { acceleration: acc, ..b };
            out.push(nb);
            i = i + 1;
            proof {
                assert(nb@ == spec_flock_one(s0, i - 1));
                assert(gb_wf(nb@));
            }
        }
        proof {
            assert(forall|k: int| 0 <= k < out@.len() ==> gview(out@)[k] == (#[trigger] out@[k])@);
        }
        self.0 = out;
    }

    /// The integration pass: for every agent, add the accumulator to the
    /// velocity, clamp the speed to the agent's `max_speed`, advance the
    /// position by `velocity * dt` (with `dt_ms` milliseconds of frame
    /// time), wrap it across the viewport edges widened by `R_MARGIN`,
    /// and clear the accumulator.
    pub fn update_boids(&mut self, dt_ms: i64, half_width: i64, half_height: i64)
        requires
            old(self).wf(),
            0 <= dt_ms <= DT_CAP,
            0 <= half_width,
            half_width + R_MARGIN <= BOUND_CAP,
            0 <= half_height,
            half_height + R_MARGIN <= BOUND_CAP,
        ensures
            final(self).wf(),
            final(self)@.len() == old(self)@.len(),
            forall|i: int|
                0 <= i < final(self)@.len() ==> final(self)@[i] == spec_integrate(
                    old(self)@[i],
                    dt_ms as int,
                    half_width as int,
                    half_height as int,
                ),
            forall|i: int|
                0 <= i < final(self)@.len() ==> norm_sq(final(self)@[i].velocity)
                    <= final(self)@[i].max_speed * final(self)@[i].max_speed,
            forall|i: int|
                0 <= i < final(self)@.len() ==> final(self)@[i].acceleration == v2_zero(),
    {
        let ghost s0 = self@;
        let n = self.0.len();
        let bx = half_width + R_MARGIN;
        let by = half_height + R_MARGIN;
        let mut out: Vec<BoidState> = Vec::new();
        let mut i: usize = 0;
        while i < n
            invariant
                s0 == gview(self.0@),
                flock_wf(s0),
                n == self.0@.len(),
                s0.len() == n,
                i <= n,
                out@.len() == i,
                bx == half_width + R_MARGIN,
                by == half_height + R_MARGIN,
                0 <= bx <= BOUND_CAP,
                0 <= by <= BOUND_CAP,
                0 <= dt_ms <= DT_CAP,
                forall|j: int|
                    0 <= j < i ==> (#[trigger] out@[j])@ == spec_integrate(
                        s0[j],
                        dt_ms as int,
                        half_width as int,
                        half_height as int,
                    ),
                forall|j: int| 0 <= j < i ==> gb_wf(out@[j]@),
            decreases n - i,
        {
            proof {
                assert(s0[i as int] == self.0@[i as int]@);
                assert(gb_wf(s0[i as int]));
                lemma_norm_component(
                    s0[i as int].velocity.x,
                    s0[i as int].velocity.y,
                    s0[i as int].max_speed,
                );
            }
            let b = self.0[i];
            let v1 = b.velocity.add(b.acceleration);
            let vl = v1.limit(b.boid.max_speed);
            proof {
                assert(-1_000_000_000_000 <= vl@.x * (dt_ms as int) <= 1_000_000_000_000)
                    by (nonlinear_arith)
                    requires
                        -1_000_000 <= vl@.x <= 1_000_000,
                        0 <= dt_ms as int <= 1_000_000,
                ;
                assert(-1_000_000_000_000 <= vl@.y * (dt_ms as int) <= 1_000_000_000_000)
                    by (nonlinear_arith)
                    requires
                        -1_000_000 <= vl@.y <= 1_000_000,
                        0 <= dt_ms as int <= 1_000_000,
                ;
                lemma_sdiv_bound(vl@.x * (dt_ms as int), SCALE as int, 1_000_000_000);
                lemma_sdiv_bound(vl@.y * (dt_ms as int), SCALE as int, 1_000_000_000);
            }
            let disp = Vec2 {
                x: div_to_zero(vl.x * dt_ms, SCALE),
                y: div_to_zero(vl.y * dt_ms, SCALE),
            };
            let p1 = b.position.add(disp);
            let pos = Vec2 { x: wrap_coord(p1.x, bx), y: wrap_coord(p1.y, by) };
            let nb = BoidState {
                position: pos,
                velocity: vl,
                acceleration: Vec2 { x: 0, y: 0 },
                ..b
            };
            out.push(nb);
            i = i + 1;
            proof {
                assert(nb@ == spec_integrate(
                    s0[i - 1],
                    dt_ms as int,
                    half_width as int,
                    half_height as int,
                ));
                assert(gb_wf(nb@));
            }
        }
        proof {
            assert(forall|k: int| 0 <= k < out@.len() ==> gview(out@)[k] == (#[trigger] out@[k])@);
        }
        self.0 = out;
    }
}

} // verus!
