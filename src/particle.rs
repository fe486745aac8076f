//! A single charged point particle: pairwise force and velocity update.
use vstd::prelude::*;
use crate::fixed::{SCALE, tdiv, clamp, saturate, sqrt_floor, isqrt, div_toward_zero,
    lemma_root_positive, lemma_tdiv_bound};

verus! {

/// Largest coordinate magnitude, in raw units (16384 real units).
pub const POS_MAX: i64 = 0x4000_0000;

/// Largest charge magnitude, in raw units (256 real units).
pub const CHARGE_MAX: i64 = 0x100_0000;

/// Largest force magnitude that a velocity update takes.
pub const FORCE_MAX: i128 = 0x4000_0000_0000_0000_0000_0000_0000;

/// Bound on the force that one particle exerts on another.
pub const PAIR_FORCE_MAX: i128 = 0x1_0000_0000_0000_0000_0000_0000;

/// The display colour of a particle, from macroquad. The simulation carries it
/// and never reads it.
#[verifier::external_type_specification]
#[verifier::external_body]
pub struct ExColor(macroquad::color::Color);

/// A point mass and charge. All numbers are fixed-point, scaled by `SCALE`.
#[derive(Clone, Copy)]
pub struct Particle {
    pub x: i64,
    pub y: i64,
    pub vx: i64,
    pub vy: i64,
    pub mass: i64,
    pub charge: i64,
    pub color: macroquad::color::Color,
    pub stationary: bool,
}

/// The vector `q * (dx, dy) / d^3`, where `d` is the length of `(dx, dy)`
/// rounded down; the zero vector when `(dx, dy)` is.
pub open spec fn inverse_cube(q: int, dx: int, dy: int) -> (int, int) {
    let d2 = dx * dx + dy * dy;
    let d3 = d2 * sqrt_floor(d2);
    if dx == 0 && dy == 0 {
        (0, 0)
    } else {
        (tdiv(q * dx, d3), tdiv(q * dy, d3))
    }
}

/// Force on `a` from `b`, before the system coefficient: the product of the
/// charges times the offset, over the cube of the distance. Coincident
/// particles exert no force on each other.
pub open spec fn force_of(a: Particle, b: Particle) -> (int, int) {
    inverse_cube(SCALE * (a.charge * b.charge), b.x - a.x, b.y - a.y)
}

/// Velocity change along one axis from force `f` on mass `mass`: the
/// acceleration, held within one unit.
pub open spec fn vel_increment(f: int, mass: int) -> int {
    clamp(tdiv(f * SCALE, mass), -SCALE as int, SCALE as int)
}

/// `p` after a velocity update by the force `(fx, fy)`.
pub open spec fn accelerated(p: Particle, fx: int, fy: int) -> Particle {
    Particle {
        vx: saturate(p.vx + vel_increment(fx, p.mass as int)) as i64,
        vy: saturate(p.vy + vel_increment(fy, p.mass as int)) as i64,
        ..p
    }
}

impl Particle {
    /// Position and charge lie within the supported range, and the mass is
    /// positive.
    pub open spec fn wf(&self) -> bool {
        -POS_MAX <= self.x <= POS_MAX && -POS_MAX <= self.y <= POS_MAX && -CHARGE_MAX
            <= self.charge <= CHARGE_MAX && self.mass >= 1
    }

    pub fn new(
        x: i64,
        y: i64,
        vx: i64,
        vy: i64,
        mass: i64,
        charge: i64,
        color: macroquad::color::Color,
        stationary: bool,
    ) -> (r: Self)
        ensures
            r.x == x && r.y == y && r.vx == vx && r.vy == vy,
            r.mass == mass && r.charge == charge && r.color == color,
            r.stationary == stationary,
    {
        Particle { x, y, vx, vy, mass, charge, color, stationary }
    }

    /// Whether `self` is well formed.
    pub fn is_valid(&self) -> (r: bool)
        ensures
            r == self.wf(),
    {
        -POS_MAX <= self.x && self.x <= POS_MAX && -POS_MAX <= self.y && self.y <= POS_MAX
            && -CHARGE_MAX <= self.charge && self.charge <= CHARGE_MAX && self.mass >= 1
    }

    /// Force exerted on `self` by `other`, before the system coefficient.
    pub fn force(&self, other: &Particle) -> (r: (i128, i128))
        requires
            self.wf(),
            other.wf(),
        ensures
            (r.0 as int, r.1 as int) == force_of(*self, *other),
            -PAIR_FORCE_MAX <= r.0 <= PAIR_FORCE_MAX,
            -PAIR_FORCE_MAX <= r.1 <= PAIR_FORCE_MAX,
    {
        let dx: i64 = other.x - self.x;
        let dy: i64 = other.y - self.y;
        assert(-0x1_0000_0000_0000 <= self.charge * other.charge <= 0x1_0000_0000_0000)
            by (nonlinear_arith)
            requires
                -0x100_0000 <= self.charge <= 0x100_0000,
                -0x100_0000 <= other.charge <= 0x100_0000,
        ;
        let q: i128 = SCALE as i128 * (self.charge as i128 * other.charge as i128);
        inverse_cube_of(q, dx, dy)
    }

    /// Adds to each velocity component the acceleration `f / mass`, held
    /// within one unit. The velocity saturates at the range of `i64`.
    pub fn update_vel(&mut self, fx: i128, fy: i128)
        requires
            old(self).mass >= 1,
            -FORCE_MAX <= fx <= FORCE_MAX,
            -FORCE_MAX <= fy <= FORCE_MAX,
        ensures
            *final(self) == accelerated(*old(self), fx as int, fy as int),
            -SCALE <= final(self).vx - old(self).vx <= SCALE,
            -SCALE <= final(self).vy - old(self).vy <= SCALE,
    {
        let ax: i128 = clamped_accel(fx, self.mass);
        let ay: i128 = clamped_accel(fy, self.mass);
        self.vx = saturating(self.vx as i128 + ax);
        self.vy = saturating(self.vy as i128 + ay);
    }
}

proof fn lemma_product_bound(q: int, d: int)
    requires
        -0x1_0000_0000_0000_0000 <= q <= 0x1_0000_0000_0000_0000,
        -0x8000_0000 <= d <= 0x8000_0000,
    ensures
        -0x8000_0000_0000_0000_0000_0000 <= q * d <= 0x8000_0000_0000_0000_0000_0000,
{
    assert(-0x8000_0000_0000_0000_0000_0000 <= q * d <= 0x8000_0000_0000_0000_0000_0000)
        by (nonlinear_arith)
        requires
            -0x1_0000_0000_0000_0000 <= q <= 0x1_0000_0000_0000_0000,
            -0x8000_0000 <= d <= 0x8000_0000,
    ;
}

/// `q * (dx, dy) / d^3` (see `inverse_cube`).
pub fn inverse_cube_of(q: i128, dx: i64, dy: i64) -> (r: (i128, i128))
    requires
        -0x1_0000_0000_0000_0000 <= q <= 0x1_0000_0000_0000_0000,
        -0x8000_0000 <= dx <= 0x8000_0000,
        -0x8000_0000 <= dy <= 0x8000_0000,
    ensures
        (r.0 as int, r.1 as int) == inverse_cube(q as int, dx as int, dy as int),
        -PAIR_FORCE_MAX <= r.0 <= PAIR_FORCE_MAX,
        -PAIR_FORCE_MAX <= r.1 <= PAIR_FORCE_MAX,
{
    if dx == 0 && dy == 0 {
        return (0, 0);
    }
    assert(0 <= dx * dx <= 0x4000_0000_0000_0000 && 0 <= dy * dy <= 0x4000_0000_0000_0000)
        by (nonlinear_arith)
        requires
            -0x8000_0000 <= dx <= 0x8000_0000,
            -0x8000_0000 <= dy <= 0x8000_0000,
    ;
    let d2: u64 = (dx as i128 * dx as i128 + dy as i128 * dy as i128) as u64;
    let root: u64 = isqrt(d2);
    proof {
        assert(dx * dx >= 1 || dy * dy >= 1) by (nonlinear_arith)
            requires
                dx != 0 || dy != 0,
        ;
        lemma_root_positive(d2 as int);
    }
    assert(d2 * root <= 0x8000_0000_0000_0000 * 0x1_0000_0000) by (nonlinear_arith)
        requires
            d2 <= 0x8000_0000_0000_0000,
            root <= 0x1_0000_0000,
    ;
    let d3: i128 = d2 as i128 * root as i128;
    assert(d3 >= 1) by (nonlinear_arith)
        requires
            d3 == d2 * root,
            d2 >= 1,
            root >= 1,
    ;
    proof {
        lemma_product_bound(q as int, dx as int);
        lemma_product_bound(q as int, dy as int);
        lemma_tdiv_bound(q * dx, d3 as int);
        lemma_tdiv_bound(q * dy, d3 as int);
    }
    let fx: i128 = div_toward_zero(q * dx as i128, d3);
    let fy: i128 = div_toward_zero(q * dy as i128, d3);
    (fx, fy)
}

fn clamped_accel(f: i128, mass: i64) -> (r: i128)
    requires
        mass >= 1,
        -FORCE_MAX <= f <= FORCE_MAX,
    ensures
        r == vel_increment(f as int, mass as int),
        -SCALE <= r <= SCALE,
{
    assert(f * SCALE == f * 65536);
    let a: i128 = div_toward_zero(f * SCALE as i128, mass as i128);
    if a < -(SCALE as i128) {
        -(SCALE as i128)
    } else if a > SCALE as i128 {
        SCALE as i128
    } else {
        a
    }
}

fn saturating(v: i128) -> (r: i64)
    ensures
        r == saturate(v as int),
{
    if v < i64::MIN as i128 {
        i64::MIN
    } else if v > i64::MAX as i128 {
        i64::MAX
    } else {
        v as i64
    }
}

} // verus!
