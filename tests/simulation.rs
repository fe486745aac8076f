use macroquad::color::{BLUE, RED};
use particle_sim::fixed::{isqrt, SCALE};
use particle_sim::particle::{Particle, POS_MAX};
use particle_sim::sampling::grid_point;
use particle_sim::system::ParticleSystem;

const S: i64 = SCALE;

fn charged(x: i64, y: i64, mass: i64, charge: i64) -> Particle {
    Particle::new(x, y, 0, 0, mass, charge, RED, false)
}

fn system_of(ps: Vec<Particle>, k: i64, friction: i64) -> ParticleSystem {
    let mut sys = ParticleSystem::new();
    sys.k = k;
    sys.friction_coef = friction;
    for p in ps {
        assert!(sys.spawn(p));
    }
    sys
}

#[test]
fn force_falls_with_square_of_distance() {
    let a = charged(0, 0, S, S);
    let mut last = i128::MAX;
    for (d, expected) in [(S, -(S as i128)), (2 * S, -16384), (4 * S, -4096), (8 * S, -1024)] {
        let b = charged(d, 0, S, -S);
        let (fx, fy) = a.force(&b);
        assert_eq!(fx, expected);
        assert_eq!(fy, 0);
        assert!(fx.abs() < last);
        last = fx.abs();
    }
    let b = charged(0, 3 * S, S, -S);
    let (fx, fy) = a.force(&b);
    assert_eq!((fx, fy), (0, -(S as i128) / 9));
}

#[test]
fn force_along_a_diagonal() {
    // offset (3, 4): distance 5, so the force is 3/125 and 4/125 units
    let a = charged(0, 0, S, S);
    let b = charged(3 * S, 4 * S, S, S);
    let (fx, fy) = a.force(&b);
    assert_eq!(fx, 3 * (S as i128) / 125);
    assert_eq!(fy, 4 * (S as i128) / 125);
}

#[test]
fn forces_are_equal_and_opposite() {
    let sys = system_of(
        vec![charged(S, 2 * S, S, 3 * S), charged(-4 * S, 7 * S, 2 * S, -S)],
        -10 * S,
        S,
    );
    let (fx, fy) = sys.force(0, 1);
    let (gx, gy) = sys.force(1, 0);
    assert_eq!((fx, fy), (-gx, -gy));
    assert!(fx != 0 || fy != 0);
}

#[test]
fn velocity_pass_pushes_a_pair_apart_equally() {
    let mut sys = system_of(vec![charged(0, 0, S, S), charged(3 * S, 0, S, S)], -S, S);
    let (fx, _) = sys.force(0, 1);
    sys.update_vel();
    let a = sys.particles[0];
    let b = sys.particles[1];
    assert_eq!(a.vx, -b.vx);
    assert_eq!(a.vy, -b.vy);
    assert_eq!(a.vx as i128, fx);
    assert_eq!(fx, -(S as i128) / 9);
}

#[test]
fn coincident_particles_exert_no_force() {
    for (qa, qb, m) in [(S, S, S), (-7 * S, 3 * S, 1), (0, S, 100 * S)] {
        let a = charged(5 * S, -2 * S, m, qa);
        let b = charged(5 * S, -2 * S, 2 * m, qb);
        assert_eq!(a.force(&b), (0, 0));
        assert_eq!(b.force(&a), (0, 0));
    }
}

#[test]
fn velocity_increment_is_clamped() {
    let mut p = charged(0, 0, S, S);
    p.update_vel(1_000_000_000_000_000_000_000_000_000, -1_000_000_000_000_000_000_000_000_000);
    assert_eq!((p.vx, p.vy), (S, -S));
    p.update_vel(1_000_000_000_000_000_000_000_000_000, 0);
    assert_eq!((p.vx, p.vy), (2 * S, -S));
    // a small force is not clamped: 1/4 unit of force on mass 2 gives 1/8
    let mut q = charged(0, 0, 2 * S, S);
    q.update_vel((S / 4) as i128, -(S / 4) as i128);
    assert_eq!((q.vx, q.vy), (S / 8, -S / 8));
}

#[test]
fn velocity_saturates_at_the_integer_range() {
    let mut p = Particle::new(0, 0, i64::MAX - 1, i64::MIN + 1, S, S, RED, false);
    p.update_vel(1_000_000_000_000, -1_000_000_000_000);
    assert_eq!((p.vx, p.vy), (i64::MAX, i64::MIN));
}

#[test]
fn right_wall_reflects_and_halves() {
    let xmax = 100 * S;
    let mut sys = system_of(vec![Particle::new(xmax - S, 50 * S, 5 * S, 0, S, S, RED, false)], -10 * S, S);
    sys.update_pos(0, xmax, 0, 100 * S);
    let p = sys.particles[0];
    assert_eq!(p.x, xmax);
    assert_eq!(p.vx, -5 * S / 2);
    assert_eq!(p.y, 50 * S);
    assert_eq!(p.vy, 0);
}

#[test]
fn corner_hit_applies_both_reflections() {
    let mut sys = system_of(vec![Particle::new(S, S, -4 * S, -8 * S, S, S, RED, false)], -10 * S, S);
    sys.update_pos(0, 100 * S, 0, 100 * S);
    let p = sys.particles[0];
    assert_eq!((p.x, p.y), (0, 0));
    // x wall: vx = 2, vy = -4; then y wall: vy = 2, vx = 1
    assert_eq!((p.vx, p.vy), (S, 2 * S));
}

#[test]
fn friction_scales_velocity() {
    let mut sys = system_of(vec![Particle::new(0, 0, 4 * S, -2 * S, S, S, RED, false)], -10 * S, S / 2);
    sys.update_pos(-POS_MAX, POS_MAX, -POS_MAX, POS_MAX);
    let p = sys.particles[0];
    assert_eq!((p.x, p.y), (4 * S, -2 * S));
    assert_eq!((p.vx, p.vy), (2 * S, -S));
}

#[test]
fn stationary_particle_never_moves() {
    let fixed = Particle::new(10 * S, 10 * S, 3 * S, 0, S, 5 * S, BLUE, true);
    let mut sys = system_of(vec![fixed, charged(12 * S, 10 * S, S, -5 * S)], -10 * S, S);
    for _ in 0..50 {
        sys.update_vel();
        sys.update_pos(0, 100 * S, 0, 100 * S);
        assert_eq!((sys.particles[0].x, sys.particles[0].y), (10 * S, 10 * S));
        assert!(sys.particles[0].stationary);
    }
    assert!(sys.particles[0].vx != 3 * S);
}

#[test]
fn removing_from_empty_system() {
    let mut sys = ParticleSystem::new();
    assert!(sys.remove_last().is_none());
    assert_eq!(sys.particles.len(), 0);
}

#[test]
fn removing_returns_the_last_particle() {
    let mut sys = system_of(vec![charged(0, 0, S, S), charged(S, 0, S, -S)], -10 * S, S);
    let p = sys.remove_last().unwrap();
    assert!(p.charge < 0);
    assert_eq!(sys.particles.len(), 1);
    sys.clear();
    assert_eq!(sys.particles.len(), 0);
}

#[test]
fn spawn_refuses_invalid_particles() {
    let mut sys = ParticleSystem::new();
    assert!(!sys.spawn(charged(0, 0, 0, S)));
    assert!(!sys.spawn(charged(POS_MAX + 1, 0, S, S)));
    assert_eq!(sys.particles.len(), 0);
    assert!(sys.spawn(charged(POS_MAX, -POS_MAX, S, S)));
    assert_eq!(sys.particles.len(), 1);
}

#[test]
fn new_system_defaults_and_flip() {
    let mut sys = ParticleSystem::new();
    assert_eq!(sys.k, -10 * S);
    assert_eq!(sys.friction_coef, S);
    sys.flip_k();
    assert_eq!(sys.k, 10 * S);
}

#[test]
fn two_opposite_charges_attract_then_move_by_their_velocities() {
    let mut sys = system_of(
        vec![charged(0, 0, 10 * S, S), charged(10 * S, 0, 10 * S, -S)],
        -10 * S,
        S,
    );
    sys.update_vel();
    let a = sys.particles[0];
    let b = sys.particles[1];
    // attraction of 0.1 on mass 10: about 0.01 units per frame
    assert!(a.vx > 0 && b.vx < 0);
    assert_eq!(a.vx, 655);
    assert_eq!(b.vx, -655);
    assert_eq!((a.vy, b.vy), (0, 0));
    sys.update_pos(-POS_MAX, POS_MAX, -POS_MAX, POS_MAX);
    assert_eq!(sys.particles[0].x, a.x + a.vx);
    assert_eq!(sys.particles[1].x, b.x + b.vx);
    assert_eq!(sys.particles[0].y, a.y + a.vy);
    assert_eq!(sys.particles[1].y, b.y + b.vy);
}

#[test]
fn field_of_one_charge() {
    let sys = system_of(vec![charged(S, 0, S, S)], -10 * S, S);
    assert_eq!(sys.get_field(0, 0), (S as i128, 0));
    assert_eq!(sys.get_field(-S, 0), ((S / 4) as i128, 0));
    // a particle at the sample point itself is left out
    assert_eq!(sys.get_field(S, 0), (0, 0));
}

#[test]
fn potential_of_two_charges() {
    let sys = system_of(vec![charged(2 * S, 0, S, S), charged(0, 4 * S, S, -S)], -10 * S, S);
    assert_eq!(sys.get_potential(0, 0), (S / 2 - S / 4) as i128);
    assert_eq!(sys.get_potential(2 * S, 4 * S), -(S as i128) / 4);
}

#[test]
fn grid_points_leave_out_the_edges() {
    assert_eq!(grid_point(0, 1, 100), 50);
    assert_eq!(grid_point(0, 3, 100), 25);
    assert_eq!(grid_point(2, 3, 100), 75);
    assert_eq!(grid_point(0, 2, 100), 33);
}

#[test]
fn field_samples_cover_the_grid() {
    let sys = system_of(vec![charged(50 * S, 50 * S, S, S)], -10 * S, S);
    let grid = sys.field_samples(3, 2, 100 * S, 90 * S);
    assert_eq!(grid.len(), 3);
    assert!(grid.iter().all(|c| c.len() == 2));
    let s = &grid[1][0];
    assert_eq!((s.x, s.y), (50 * S, 30 * S));
    assert_eq!((s.fx, s.fy), sys.get_field(50 * S, 30 * S));
    assert_eq!(s.fx, 0);
    assert!(s.fy > 0);
    let pots = sys.potential_samples(1, 1, 100 * S, 100 * S);
    assert_eq!(pots[0][0].potential, 0);
}

#[test]
fn integer_square_root() {
    assert_eq!(isqrt(0), 0);
    assert_eq!(isqrt(10), 3);
    assert_eq!(isqrt(16), 4);
    assert_eq!(isqrt(u64::MAX), 0xffff_ffff);
}
