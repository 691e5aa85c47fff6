//! End-to-end tests of the flocking core on concrete fixed-point values.

use boids::config::{DEFAULT_MAX_BOID_COUNT, MAX_FORCE, MAX_SPEED};
use boids::frame::wrap_coord;
use boids::intmath::{div_to_zero, isqrt64, isqrt64_ceil};
use boids::population::{Boids, BoidsPlugin};
use boids::rng::RandomGenerator;
use boids::steering::{Boid, BoidState};
use boids::vec2::Vec2;

fn agent(x: i64, y: i64, vx: i64, vy: i64) -> BoidState {
    BoidState {
        boid: Boid::default(),
        position: Vec2 { x, y },
        velocity: Vec2 { x: vx, y: vy },
        acceleration: Vec2 { x: 0, y: 0 },
    }
}

#[test]
fn isqrt_small_values() {
    assert_eq!(isqrt64(0), 0);
    assert_eq!(isqrt64(1), 1);
    assert_eq!(isqrt64(2), 1);
    assert_eq!(isqrt64(3), 1);
    assert_eq!(isqrt64(4), 2);
    assert_eq!(isqrt64(24), 4);
    assert_eq!(isqrt64(25), 5);
}

#[test]
fn isqrt_large_values() {
    assert_eq!(isqrt64(u64::MAX), 4_294_967_295);
    assert_eq!(isqrt64(90_000_000_000), 300_000);
    assert_eq!(isqrt64_ceil(90_000_000_000), 300_000);
    assert_eq!(isqrt64_ceil(90_000_000_001), 300_001);
    assert_eq!(isqrt64_ceil(2), 2);
    assert_eq!(isqrt64_ceil(4), 2);
}

#[test]
fn division_truncates_toward_zero() {
    assert_eq!(div_to_zero(7, 2), 3);
    assert_eq!(div_to_zero(-7, 2), -3);
    assert_eq!(div_to_zero(0, 5), 0);
    assert_eq!(div_to_zero(-1, 1000), 0);
}

#[test]
fn scale_to_sets_the_length() {
    let v = Vec2 { x: 3000, y: 4000 };
    let r = v.scale_to(1000);
    assert_eq!(r, Vec2 { x: 600, y: 800 });
    let z = Vec2 { x: 0, y: 0 }.scale_to(1000);
    assert_eq!(z, Vec2 { x: 0, y: 0 });
}

#[test]
fn limit_clamps_only_beyond_the_bound() {
    let fast = Vec2 { x: 300_000, y: 0 };
    assert_eq!(fast.limit(5000), Vec2 { x: 5000, y: 0 });
    let exact = Vec2 { x: 3000, y: 4000 };
    assert_eq!(exact.limit(5000), exact);
    let above = Vec2 { x: 3000, y: 4000 };
    assert_eq!(above.limit(4999), Vec2 { x: 2999, y: 3999 });
}

#[test]
fn wrap_keeps_the_edges_and_flips_beyond_them() {
    let b = 105_000;
    assert_eq!(wrap_coord(b, b), b);
    assert_eq!(wrap_coord(-b, b), -b);
    assert_eq!(wrap_coord(b + 1, b), -b);
    assert_eq!(wrap_coord(-b - 1, b), b);
    assert_eq!(wrap_coord(12_345, b), 12_345);
    assert_eq!(wrap_coord(0, b), 0);
}

#[test]
fn seek_of_coincident_target_is_zero() {
    let b = Boid::default();
    let p = Vec2 { x: 7000, y: -3000 };
    let v = Vec2 { x: 100, y: 200 };
    assert_eq!(b.seek(p, p, v), Vec2 { x: 0, y: 0 });
}

#[test]
fn seek_is_clamped_to_max_force() {
    let b = Boid::default();
    let target = Vec2 { x: 10_000, y: 0 };
    let pos = Vec2 { x: 0, y: 0 };
    let vel = Vec2 { x: 0, y: 0 };
    assert_eq!(b.seek(target, pos, vel), Vec2 { x: 5000, y: 0 });
}

#[test]
fn lone_agent_gets_zero_steering() {
    let b = Boid::default();
    let flock = vec![agent(0, 0, 0, 0)];
    let p = Vec2 { x: 0, y: 0 };
    let v = Vec2 { x: 0, y: 0 };
    assert_eq!(b.separate(p, v, &flock), Vec2 { x: 0, y: 0 });
    assert_eq!(b.align(p, v, &flock), Vec2 { x: 0, y: 0 });
    assert_eq!(b.cohesion(p, v, &flock), Vec2 { x: 0, y: 0 });
}

#[test]
fn distant_agents_get_zero_steering() {
    let b = Boid::default();
    // the second agent sits 200 units away: outside both scan radii
    let flock = vec![agent(0, 0, 0, 0), agent(200_000, 0, 0, 0)];
    let p = Vec2 { x: 0, y: 0 };
    let v = Vec2 { x: 0, y: 0 };
    assert_eq!(b.separate(p, v, &flock), Vec2 { x: 0, y: 0 });
    assert_eq!(b.align(p, v, &flock), Vec2 { x: 0, y: 0 });
    assert_eq!(b.cohesion(p, v, &flock), Vec2 { x: 0, y: 0 });
}

#[test]
fn two_close_agents_repel_each_other() {
    // two agents 10 units apart, zero velocity, one force pass
    let mut pop = Boids(vec![agent(0, 0, 0, 0), agent(10_000, 0, 0, 0)]);
    pop.flock();
    let a0 = pop.0[0].acceleration;
    let a1 = pop.0[1].acceleration;
    // separation (-5000, 0) * 1.2 plus cohesion (5000, 0); alignment is
    // zero because every neighbour's velocity is zero
    assert_eq!(a0, Vec2 { x: -1000, y: 0 });
    assert_eq!(a1, Vec2 { x: 1000, y: 0 });
    // the net force pushes the pair apart
    assert!(a0.x < 0 && a1.x > 0);
    // positions and velocities are untouched by the force pass
    assert_eq!(pop.0[0].position, Vec2 { x: 0, y: 0 });
    assert_eq!(pop.0[1].position, Vec2 { x: 10_000, y: 0 });
    assert_eq!(pop.0[0].velocity, Vec2 { x: 0, y: 0 });
}

#[test]
fn two_close_agents_have_nonzero_separation_and_cohesion() {
    let b = Boid::default();
    let flock = vec![agent(0, 0, 0, 0), agent(10_000, 0, 0, 0)];
    let p = Vec2 { x: 0, y: 0 };
    let v = Vec2 { x: 0, y: 0 };
    assert_eq!(b.separate(p, v, &flock), Vec2 { x: -5000, y: 0 });
    assert_eq!(b.cohesion(p, v, &flock), Vec2 { x: 5000, y: 0 });
    assert_eq!(b.align(p, v, &flock), Vec2 { x: 0, y: 0 });
}

#[test]
fn integration_clamps_speed_and_advances_position() {
    let mut pop = Boids(vec![BoidState {
        boid: Boid::default(),
        position: Vec2 { x: 0, y: 0 },
        velocity: Vec2 { x: 299_999, y: 0 },
        acceleration: Vec2 { x: 4000, y: 0 },
    }]);
    pop.update_boids(16, 400_000, 300_000);
    let b = pop.0[0];
    // 299999 + 4000 exceeds MAX_SPEED and is clamped to exactly 300000
    assert_eq!(b.velocity, Vec2 { x: 300_000, y: 0 });
    assert_eq!(b.position, Vec2 { x: 4800, y: 0 });
    assert_eq!(b.acceleration, Vec2 { x: 0, y: 0 });
    let speed_sq = (b.velocity.x as i128) * (b.velocity.x as i128)
        + (b.velocity.y as i128) * (b.velocity.y as i128);
    assert!(speed_sq <= (MAX_SPEED as i128) * (MAX_SPEED as i128));
}

#[test]
fn integration_wraps_across_the_edge() {
    let mut pop = Boids(vec![BoidState {
        boid: Boid::default(),
        position: Vec2 { x: 404_999, y: 0 },
        velocity: Vec2 { x: 300_000, y: 0 },
        acceleration: Vec2 { x: 0, y: 0 },
    }]);
    // one second of frame time: the agent crosses the right edge
    pop.update_boids(1000, 400_000, 300_000);
    let b = pop.0[0];
    assert_eq!(b.position, Vec2 { x: -405_000, y: 0 });
    // the velocity is preserved across the wrap
    assert_eq!(b.velocity, Vec2 { x: 300_000, y: 0 });
}

#[test]
fn spawn_creates_an_agent_at_the_origin() {
    let mut rng = RandomGenerator::new([7u8; 32]);
    let mut pop = Boids::default();
    assert_eq!(pop.0.len(), 0);
    pop.try_spawn(10, &mut rng);
    assert_eq!(pop.0.len(), 1);
    let b = pop.0[0];
    assert_eq!(b.position, Vec2 { x: 0, y: 0 });
    assert_eq!(b.acceleration, Vec2 { x: 0, y: 0 });
    assert_eq!(b.boid.max_force, MAX_FORCE);
    assert_eq!(b.boid.max_speed, MAX_SPEED);
    // the initial velocity points somewhere: never the zero vector, and
    // its length is at most MAX_SPEED / 2
    assert!(b.velocity != Vec2 { x: 0, y: 0 });
    let speed_sq =
        (b.velocity.x as i128) * (b.velocity.x as i128) + (b.velocity.y as i128) * (b.velocity.y as i128);
    assert!(speed_sq <= 150_000i128 * 150_000i128);
}

#[test]
fn spawn_stops_at_the_cap() {
    // population cap of one: the second attempt is a no-op
    let mut rng = RandomGenerator::new([0u8; 32]);
    let mut pop = Boids::default();
    pop.try_spawn(1, &mut rng);
    assert_eq!(pop.0.len(), 1);
    let first = pop.0[0];
    pop.try_spawn(1, &mut rng);
    assert_eq!(pop.0.len(), 1);
    assert_eq!(pop.0[0], first);
}

#[test]
fn population_grows_by_one_per_frame_up_to_the_cap() {
    let mut rng = RandomGenerator::new([1u8; 32]);
    let mut pop = Boids::default();
    let mut last = 0;
    for _ in 0..5 {
        pop.try_spawn(3, &mut rng);
        let len = pop.0.len();
        assert!(len == last || len == last + 1);
        assert!(len >= last);
        assert!(len <= 3);
        last = len;
    }
    assert_eq!(pop.0.len(), 3);
}

#[test]
fn identical_seeds_give_identical_runs() {
    let mut rng_a = RandomGenerator::new([42u8; 32]);
    let mut rng_b = RandomGenerator::new([42u8; 32]);
    let mut pop_a = Boids::default();
    let mut pop_b = Boids::default();
    for _ in 0..8 {
        pop_a.try_spawn(6, &mut rng_a);
        pop_a.flock();
        pop_a.update_boids(16, 640_000, 360_000);
        pop_b.try_spawn(6, &mut rng_b);
        pop_b.flock();
        pop_b.update_boids(16, 640_000, 360_000);
    }
    assert_eq!(pop_a.0, pop_b.0);
    assert_eq!(pop_a.0.len(), 6);
}

#[test]
fn speed_stays_bounded_over_many_frames() {
    let mut rng = RandomGenerator::new([9u8; 32]);
    let mut pop = Boids::default();
    for _ in 0..40 {
        pop.try_spawn(12, &mut rng);
        pop.flock();
        pop.update_boids(16, 200_000, 150_000);
        for b in &pop.0 {
            let speed_sq = (b.velocity.x as i128) * (b.velocity.x as i128)
                + (b.velocity.y as i128) * (b.velocity.y as i128);
            assert!(speed_sq <= (MAX_SPEED as i128) * (MAX_SPEED as i128));
            assert!(b.position.x.abs() <= 205_000);
            assert!(b.position.y.abs() <= 155_000);
            assert_eq!(b.acceleration, Vec2 { x: 0, y: 0 });
        }
    }
}

#[test]
fn flock_handles_an_empty_population() {
    let mut pop = Boids::default();
    pop.flock();
    pop.update_boids(16, 400_000, 300_000);
    assert_eq!(pop.0.len(), 0);
}

#[test]
fn random_in_stays_in_range() {
    let mut rng = RandomGenerator::new([3u8; 32]);
    for _ in 0..100 {
        let r = rng.random_in(0, 10);
        assert!((0..10).contains(&r));
    }
    assert_eq!(rng.random_in(5, 6), 5);
    let d = rng.random_in(-1000, 1001);
    assert!((-1000..1001).contains(&d));
}

#[test]
fn plugin_carries_the_cap() {
    assert_eq!(BoidsPlugin::new(5).max_boid_count, 5);
    assert_eq!(BoidsPlugin::default().max_boid_count, DEFAULT_MAX_BOID_COUNT);
    assert_eq!(DEFAULT_MAX_BOID_COUNT, 600);
}
