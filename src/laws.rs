//! Properties that hold of the simulation for all inputs.
use vstd::prelude::*;
use vstd::arithmetic::div_mod::lemma_div_multiples_vanish_quotient;
use crate::fixed::{SCALE, tdiv, lemma_root_of_square};
use crate::particle::{Particle, force_of, inverse_cube, accelerated};
use crate::system::{
    scaled_force,
    pair_step,
    velocity_pass,
    position_pass,
    moved,
    same_bodies,
    lemma_velocity_pass_bodies,
};

verus! {

/// Rounding toward zero commutes with negation.
proof fn lemma_tdiv_neg(a: int, b: int)
    requires
        b >= 1,
    ensures
        tdiv(-a, b) == -tdiv(a, b),
{
}

/// Swapping the two ends of an offset negates the inverse-cube vector.
proof fn lemma_inverse_cube_neg(q: int, dx: int, dy: int)
    ensures
        inverse_cube(q, -dx, -dy) == ((-inverse_cube(q, dx, dy).0) as int, (-inverse_cube(q, dx, dy).1) as int),
{
    assert((-dx) * (-dx) == dx * dx) by (nonlinear_arith);
    assert((-dy) * (-dy) == dy * dy) by (nonlinear_arith);
    assert(q * (-dx) == -(q * dx)) by (nonlinear_arith);
    assert(q * (-dy) == -(q * dy)) by (nonlinear_arith);
    if dx != 0 || dy != 0 {
        let d2 = dx * dx + dy * dy;
        assert(d2 >= 1) by (nonlinear_arith)
            requires
                d2 == dx * dx + dy * dy,
                dx != 0 || dy != 0,
        ;
        crate::fixed::lemma_root_positive(d2);
        let d3 = d2 * crate::fixed::sqrt_floor(d2);
        assert(d3 >= 1) by (nonlinear_arith)
            requires
                d3 == d2 * crate::fixed::sqrt_floor(d2),
                d2 >= 1,
                crate::fixed::sqrt_floor(d2) >= 1,
        ;
        lemma_tdiv_neg(q * dx, d3);
        lemma_tdiv_neg(q * dy, d3);
    }
}

/// Inverse-square law: two particles with opposite unit charges a distance
/// `d` apart along the x axis pull on each other with magnitude `1 / d^2`,
/// which in raw units is `SCALE^3 / d^2`.
pub proof fn law_inverse_square(a: Particle, b: Particle, d: int)
    requires
        d > 0,
        b.x == a.x + d,
        b.y == a.y,
        a.charge == SCALE,
        b.charge == -SCALE,
    ensures
        force_of(a, b) == (-(0x1_0000_0000_0000int / (d * d)), 0int),
{
    let s3: int = 0x1_0000_0000_0000;
    assert(SCALE * (a.charge * b.charge) == -s3);
    lemma_root_of_square(d);
    assert(d * d + 0 * 0 == d * d);
    assert(d * d >= 1) by (nonlinear_arith)
        requires
            d > 0,
    ;
    assert(-s3 * d == -(s3 * d)) by (nonlinear_arith);
    assert(d * s3 == s3 * d) by (nonlinear_arith);
    assert(d * (d * d) == (d * d) * d) by (nonlinear_arith);
    lemma_div_multiples_vanish_quotient(d, s3, d * d);
    assert(-s3 * 0 == 0);
}

/// Coincident particles exert no force on each other, whatever their charges
/// and masses.
pub proof fn law_coincident_zero(a: Particle, b: Particle)
    requires
        a.x == b.x,
        a.y == b.y,
    ensures
        force_of(a, b) == (0int, 0int),
{
}

/// Newton's third law: the force on particle `i` from `j` is the negation of
/// the force on `j` from `i`, and a step of the velocity pass pushes `i` by
/// that force and `j` by its negation.
pub proof fn law_equal_and_opposite(s: Seq<Particle>, k: int, i: int, j: int)
    requires
        0 <= i < s.len(),
        0 <= j < s.len(),
        i != j,
    ensures
        scaled_force(s, k, i, j) == ((-scaled_force(s, k, j, i).0) as int, (-scaled_force(s, k, j, i).1) as int),
        pair_step(s, k, i, j)[i] == accelerated(s[i], scaled_force(s, k, i, j).0, scaled_force(s, k, i, j).1),
        pair_step(s, k, i, j)[j] == accelerated(s[j], -scaled_force(s, k, i, j).0, -scaled_force(s, k, i, j).1),
{
    let a = s[i];
    let b = s[j];
    assert(a.charge * b.charge == b.charge * a.charge) by (nonlinear_arith);
    assert(b.x - a.x == -(a.x - b.x) && b.y - a.y == -(a.y - b.y));
    lemma_inverse_cube_neg(SCALE * (b.charge * a.charge), a.x - b.x, a.y - b.y);
    let f = force_of(b, a);
    assert(k * (-f.0) == -(k * f.0)) by (nonlinear_arith);
    assert(k * (-f.1) == -(k * f.1)) by (nonlinear_arith);
    lemma_tdiv_neg(k * f.0, SCALE as int);
    lemma_tdiv_neg(k * f.1, SCALE as int);
}

/// A single velocity update changes each velocity component by at most one
/// unit, however large the force.
pub proof fn law_bounded_increment(p: Particle, fx: int, fy: int)
    requires
        p.mass >= 1,
    ensures
        -SCALE <= accelerated(p, fx, fy).vx - p.vx <= SCALE,
        -SCALE <= accelerated(p, fx, fy).vy - p.vy <= SCALE,
{
}

/// The system after `n` frames, each a velocity pass and then a position pass.
pub open spec fn frames(
    s: Seq<Particle>,
    k: int,
    friction: int,
    xmin: int,
    xmax: int,
    ymin: int,
    ymax: int,
    n: nat,
) -> Seq<Particle>
    decreases n,
{
    if n == 0 {
        s
    } else {
        position_pass(
            velocity_pass(frames(s, k, friction, xmin, xmax, ymin, ymax, (n - 1) as nat), k),
            friction,
            xmin,
            xmax,
            ymin,
            ymax,
        )
    }
}

/// A stationary particle keeps its position, and stays stationary, through
/// any number of frames, whatever velocity the velocity passes give it.
pub proof fn law_stationary_fixed(
    s: Seq<Particle>,
    k: int,
    friction: int,
    xmin: int,
    xmax: int,
    ymin: int,
    ymax: int,
    n: nat,
    i: int,
)
    requires
        0 <= i < s.len(),
        s[i].stationary,
    ensures
        frames(s, k, friction, xmin, xmax, ymin, ymax, n).len() == s.len(),
        frames(s, k, friction, xmin, xmax, ymin, ymax, n)[i].x == s[i].x,
        frames(s, k, friction, xmin, xmax, ymin, ymax, n)[i].y == s[i].y,
        frames(s, k, friction, xmin, xmax, ymin, ymax, n)[i].stationary,
    decreases n,
{
    if n > 0 {
        law_stationary_fixed(s, k, friction, xmin, xmax, ymin, ymax, (n - 1) as nat, i);
        let prev = frames(s, k, friction, xmin, xmax, ymin, ymax, (n - 1) as nat);
        let v = velocity_pass(prev, k);
        lemma_velocity_pass_bodies(prev, k);
        assert(same_bodies(prev, v));
        assert(v[i].x == prev[i].x);
        assert(moved(v[i], friction, xmin, xmax, ymin, ymax) == v[i]);
    }
}

} // verus!
