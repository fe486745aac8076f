//! The particle system: storage, the pairwise velocity pass, position
//! integration with boundary reflection, and field sampling.
use vstd::prelude::*;
use crate::fixed::{SCALE, tdiv, clamp, sqrt_floor, isqrt, lemma_tdiv_bound, lemma_root_positive,
    div_toward_zero};
use crate::particle::{Particle, force_of, accelerated, inverse_cube, inverse_cube_of, PAIR_FORCE_MAX,
    FORCE_MAX, POS_MAX};

verus! {

/// Largest magnitude of the interaction coefficient, in raw units.
pub const K_MAX: i64 = 0x100_0000;

/// Largest number of particles a system holds.
pub const MAX_PARTICLES: usize = 0x10_0000;

/// Default interaction coefficient: -10.
pub const DEFAULT_K: i64 = -655360;

/// Default friction coefficient: 1, no decay.
pub const DEFAULT_FRICTION: i64 = 65536;

pub struct ParticleSystem {
    pub particles: Vec<Particle>,
    pub k: i64,
    pub friction_coef: i64,
}

/// Force on particle `i` from particle `j`, scaled by the coefficient `k`.
pub open spec fn scaled_force(s: Seq<Particle>, k: int, i: int, j: int) -> (int, int) {
    let f = force_of(s[i], s[j]);
    (tdiv(k * f.0, SCALE as int), tdiv(k * f.1, SCALE as int))
}

/// One pair of the velocity pass: particle `i` is pushed by the force from
/// `j`, then particle `j` by its negation.
pub open spec fn pair_step(s: Seq<Particle>, k: int, i: int, j: int) -> Seq<Particle> {
    let f = scaled_force(s, k, i, j);
    let s1 = s.update(i, accelerated(s[i], f.0, f.1));
    s1.update(j, accelerated(s1[j], -f.0, -f.1))
}

/// The pairs `(i, 1)`, ..., `(i, j - 1)` applied in order.
pub open spec fn row(s: Seq<Particle>, k: int, i: int, j: int) -> Seq<Particle>
    decreases j,
{
    if j <= 1 {
        s
    } else {
        pair_step(row(s, k, i, j - 1), k, i, j - 1)
    }
}

/// The rows `0`, ..., `i - 1` applied in order, each over `1..n`.
pub open spec fn rows(s: Seq<Particle>, k: int, i: int, n: int) -> Seq<Particle>
    decreases i,
{
    if i <= 0 {
        s
    } else {
        row(rows(s, k, i - 1, n), k, i - 1, n)
    }
}

/// One velocity pass over `s`: for `i` in `0..n-1` and `j` in `1..n`, the pair
/// `(i, j)`.
pub open spec fn velocity_pass(s: Seq<Particle>, k: int) -> Seq<Particle> {
    if s.len() == 0 {
        s
    } else {
        rows(s, k, s.len() - 1, s.len() as int)
    }
}

/// `p` after one frame of motion: a stationary particle is left as it is.
/// Otherwise the position moves by the velocity, the velocity is multiplied by
/// `friction`, and a coordinate that left `[min, max]` is clamped back, with
/// that axis's velocity negated and halved and the other axis's halved; the x
/// check comes first.
pub open spec fn moved(p: Particle, friction: int, xmin: int, xmax: int, ymin: int, ymax: int) -> Particle {
    if p.stationary {
        p
    } else {
        let nx = p.x + p.vx;
        let ny = p.y + p.vy;
        let vx1 = tdiv(p.vx * friction, SCALE as int);
        let vy1 = tdiv(p.vy * friction, SCALE as int);
        let xout = nx < xmin || nx > xmax;
        let vx2 = if xout { -tdiv(vx1, 2) } else { vx1 };
        let vy2 = if xout { tdiv(vy1, 2) } else { vy1 };
        let yout = ny < ymin || ny > ymax;
        let vy3 = if yout { -tdiv(vy2, 2) } else { vy2 };
        let vx3 = if yout { tdiv(vx2, 2) } else { vx2 };
        Particle {
            x: clamp(nx, xmin, xmax) as i64,
            y: clamp(ny, ymin, ymax) as i64,
            vx: vx3 as i64,
            vy: vy3 as i64,
            ..p
        }
    }
}

/// Field at `(x, y)` from `p`: what a unit charge there would feel, before
/// the system coefficient. A particle at `(x, y)` itself contributes nothing.
pub open spec fn field_term(p: Particle, x: int, y: int) -> (int, int) {
    inverse_cube(SCALE * SCALE * p.charge, p.x - x, p.y - y)
}

/// Sum of the field of the first `n` particles of `s` at `(x, y)`.
pub open spec fn field_sum(s: Seq<Particle>, x: int, y: int, n: int) -> (int, int)
    decreases n,
{
    if n <= 0 {
        (0, 0)
    } else {
        let a = field_sum(s, x, y, n - 1);
        let t = field_term(s[n - 1], x, y);
        (a.0 + t.0, a.1 + t.1)
    }
}

/// Potential at `(x, y)` from `p`: its charge over the distance, rounded
/// down. A particle at `(x, y)` itself contributes nothing.
pub open spec fn potential_term(p: Particle, x: int, y: int) -> int {
    let dx = p.x - x;
    let dy = p.y - y;
    if dx == 0 && dy == 0 {
        0
    } else {
        tdiv(SCALE * p.charge, sqrt_floor(dx * dx + dy * dy))
    }
}

/// Sum of the potential of the first `n` particles of `s` at `(x, y)`.
pub open spec fn potential_sum(s: Seq<Particle>, x: int, y: int, n: int) -> int
    decreases n,
{
    if n <= 0 {
        0
    } else {
        potential_sum(s, x, y, n - 1) + potential_term(s[n - 1], x, y)
    }
}

/// Every particle of `s` after one frame of motion (see `moved`).
pub open spec fn position_pass(s: Seq<Particle>, friction: int, xmin: int, xmax: int, ymin: int, ymax: int) -> Seq<Particle> {
    s.map_values(|p: Particle| moved(p, friction, xmin, xmax, ymin, ymax))
}

/// `a` and `b` hold the same particles up to their velocities.
pub open spec fn same_bodies(a: Seq<Particle>, b: Seq<Particle>) -> bool {
    &&& a.len() == b.len()
    &&& forall|i: int|
        0 <= i < a.len() ==> {
            &&& #[trigger] a[i].x == b[i].x
            &&& a[i].y == b[i].y
            &&& a[i].mass == b[i].mass
            &&& a[i].charge == b[i].charge
            &&& a[i].stationary == b[i].stationary
            &&& a[i].color == b[i].color
        }
}

pub proof fn lemma_pair_step_bodies(s: Seq<Particle>, k: int, i: int, j: int)
    requires
        0 <= i < s.len(),
        0 <= j < s.len(),
    ensures
        same_bodies(s, pair_step(s, k, i, j)),
{
}

pub proof fn lemma_row_bodies(s: Seq<Particle>, k: int, i: int, j: int)
    requires
        0 <= i < s.len(),
        j <= s.len(),
    ensures
        same_bodies(s, row(s, k, i, j)),
    decreases j,
{
    if j > 1 {
        lemma_row_bodies(s, k, i, j - 1);
        lemma_pair_step_bodies(row(s, k, i, j - 1), k, i, j - 1);
    }
}

pub proof fn lemma_rows_bodies(s: Seq<Particle>, k: int, i: int, n: int)
    requires
        i <= n,
        n == s.len(),
    ensures
        same_bodies(s, rows(s, k, i, n)),
    decreases i,
{
    if i > 0 {
        lemma_rows_bodies(s, k, i - 1, n);
        lemma_row_bodies(rows(s, k, i - 1, n), k, i - 1, n);
    }
}

/// A velocity pass changes velocities only.
pub proof fn lemma_velocity_pass_bodies(s: Seq<Particle>, k: int)
    ensures
        same_bodies(s, velocity_pass(s, k)),
{
    if s.len() > 0 {
        lemma_rows_bodies(s, k, s.len() - 1, s.len() as int);
    }
}

impl ParticleSystem {
    /// Every particle is well formed, the count is bounded, `k` lies within
    /// `K_MAX` and friction within `[0, 1]`.
    pub open spec fn wf(&self) -> bool {
        &&& self.particles@.len() <= MAX_PARTICLES
        &&& forall|i: int| 0 <= i < self.particles@.len() ==> #[trigger] self.particles@[i].wf()
        &&& -K_MAX <= self.k <= K_MAX
        &&& 0 <= self.friction_coef <= SCALE
    }

    /// An empty system with `k = -10` and friction 1.
    pub fn new() -> (r: Self)
        ensures
            r.wf(),
            r.particles@.len() == 0,
            r.k == DEFAULT_K,
            r.friction_coef == DEFAULT_FRICTION,
    {
        ParticleSystem { particles: Vec::new(), k: DEFAULT_K, friction_coef: DEFAULT_FRICTION }
    }

    /// Force on particle `i` from particle `j`, scaled by `k`.
    pub fn force(&self, i: usize, j: usize) -> (r: (i128, i128))
        requires
            self.wf(),
            i < self.particles@.len(),
            j < self.particles@.len(),
        ensures
            (r.0 as int, r.1 as int) == scaled_force(self.particles@, self.k as int, i as int, j as int),
            -FORCE_MAX <= r.0 <= FORCE_MAX,
            -FORCE_MAX <= r.1 <= FORCE_MAX,
    {
        assert(self.particles@[i as int].wf());
        assert(self.particles@[j as int].wf());
        let (fx, fy) = self.particles[i].force(&self.particles[j]);
        let k: i128 = self.k as i128;
        proof {
            lemma_scaled_bound(k as int, fx as int);
            lemma_scaled_bound(k as int, fy as int);
        }
        let sx: i128 = div_toward_zero(k * fx, SCALE as i128);
        let sy: i128 = div_toward_zero(k * fy, SCALE as i128);
        (sx, sy)
    }

    /// Appends `p` when it is well formed and the system has room for it;
    /// returns whether it did.
    pub fn spawn(&mut self, p: Particle) -> (r: bool)
        requires
            old(self).wf(),
        ensures
            final(self).wf(),
            final(self).k == old(self).k,
            final(self).friction_coef == old(self).friction_coef,
            r == (p.wf() && old(self).particles@.len() < MAX_PARTICLES),
            r ==> final(self).particles@ == old(self).particles@.push(p),
            !r ==> final(self).particles@ == old(self).particles@,
    {
        if !p.is_valid() || self.particles.len() >= MAX_PARTICLES {
            return false;
        }
        self.particles.push(p);
        assert(forall|i: int|
            0 <= i < self.particles@.len() ==> #[trigger] self.particles@[i] == (if i
                < old(self).particles@.len() {
                old(self).particles@[i]
            } else {
                p
            }));
        true
    }

    /// Removes the most recently added particle and hands it back; `None`
    /// when there is none.
    pub fn remove_last(&mut self) -> (r: Option<Particle>)
        requires
            old(self).wf(),
        ensures
            final(self).wf(),
            final(self).k == old(self).k,
            final(self).friction_coef == old(self).friction_coef,
            old(self).particles@.len() == 0 ==> r is None && final(self).particles@.len() == 0,
            old(self).particles@.len() > 0 ==> r == Some(old(self).particles@.last())
                && final(self).particles@ == old(self).particles@.drop_last(),
    {
        let r = self.particles.pop();
        assert(forall|i: int|
            0 <= i < self.particles@.len() ==> #[trigger] self.particles@[i]
                == old(self).particles@[i]);
        r
    }

    /// Removes every particle.
    pub fn clear(&mut self)
        requires
            old(self).wf(),
        ensures
            final(self).wf(),
            final(self).k == old(self).k,
            final(self).friction_coef == old(self).friction_coef,
            final(self).particles@.len() == 0,
    {
        self.particles.clear();
    }

    /// Flips the sign of the interaction coefficient, swapping attraction and
    /// repulsion.
    pub fn flip_k(&mut self)
        requires
            old(self).wf(),
        ensures
            final(self).wf(),
            final(self).k == -old(self).k,
            final(self).friction_coef == old(self).friction_coef,
            final(self).particles@ == old(self).particles@,
    {
        self.k = -self.k;
    }

    /// The field at `(x, y)`: the sum over all particles of charge times
    /// offset over distance cubed. Particles at `(x, y)` itself are left out.
    pub fn get_field(&self, x: i64, y: i64) -> (r: (i128, i128))
        requires
            self.wf(),
            -POS_MAX <= x <= POS_MAX,
            -POS_MAX <= y <= POS_MAX,
        ensures
            (r.0 as int, r.1 as int) == field_sum(
                self.particles@,
                x as int,
                y as int,
                self.particles@.len() as int,
            ),
    {
        let len: usize = self.particles.len();
        let mut fx: i128 = 0;
        let mut fy: i128 = 0;
        let mut i: usize = 0;
        while i < len
            invariant
                self.wf(),
                len == self.particles@.len(),
                i <= len,
                -POS_MAX <= x <= POS_MAX,
                -POS_MAX <= y <= POS_MAX,
                (fx as int, fy as int) == field_sum(self.particles@, x as int, y as int, i as int),
                -i * PAIR_FORCE_MAX <= fx <= i * PAIR_FORCE_MAX,
                -i * PAIR_FORCE_MAX <= fy <= i * PAIR_FORCE_MAX,
            decreases len - i,
        {
            let p: &Particle = &self.particles[i];
            assert(p.wf());
            assert(SCALE * SCALE * p.charge == 0x1_0000_0000 * p.charge);
            assert(-0x100_0000_0000_0000 <= SCALE * SCALE * p.charge <= 0x100_0000_0000_0000);
            let q: i128 = SCALE as i128 * SCALE as i128 * p.charge as i128;
            let (tx, ty) = inverse_cube_of(q, p.x - x, p.y - y);
            assert(i * PAIR_FORCE_MAX + PAIR_FORCE_MAX == (i + 1) * PAIR_FORCE_MAX) by (nonlinear_arith);
            assert((i + 1) * PAIR_FORCE_MAX <= 0x10_0000 * PAIR_FORCE_MAX) by (nonlinear_arith)
                requires
                    i < 0x10_0000,
            ;
            fx = fx + tx;
            fy = fy + ty;
            i = i + 1;
        }
        (fx, fy)
    }

    /// The potential at `(x, y)`: the sum over all particles of charge over
    /// distance. Particles at `(x, y)` itself are left out.
    pub fn get_potential(&self, x: i64, y: i64) -> (r: i128)
        requires
            self.wf(),
            -POS_MAX <= x <= POS_MAX,
            -POS_MAX <= y <= POS_MAX,
        ensures
            r as int == potential_sum(
                self.particles@,
                x as int,
                y as int,
                self.particles@.len() as int,
            ),
    {
        let len: usize = self.particles.len();
        let mut total: i128 = 0;
        let mut i: usize = 0;
        while i < len
            invariant
                self.wf(),
                len == self.particles@.len(),
                i <= len,
                -POS_MAX <= x <= POS_MAX,
                -POS_MAX <= y <= POS_MAX,
                total as int == potential_sum(self.particles@, x as int, y as int, i as int),
                -i * 0x100_0000_0000 <= total <= i * 0x100_0000_0000,
            decreases len - i,
        {
            let p: &Particle = &self.particles[i];
            assert(p.wf());
            let t: i128 = potential_term_of(p, x, y);
            assert(i * 0x100_0000_0000 + 0x100_0000_0000 == (i + 1) * 0x100_0000_0000)
                by (nonlinear_arith);
            total = total + t;
            i = i + 1;
        }
        total
    }

    /// Moves every particle one frame (see `moved`), within the bounds
    /// `[xmin, xmax]` by `[ymin, ymax]`.
    pub fn update_pos(&mut self, xmin: i64, xmax: i64, ymin: i64, ymax: i64)
        requires
            old(self).wf(),
            -POS_MAX <= xmin <= xmax <= POS_MAX,
            -POS_MAX <= ymin <= ymax <= POS_MAX,
        ensures
            final(self).wf(),
            final(self).k == old(self).k,
            final(self).friction_coef == old(self).friction_coef,
            final(self).particles@.len() == old(self).particles@.len(),
            final(self).particles@ == position_pass(
                old(self).particles@,
                old(self).friction_coef as int,
                xmin as int,
                xmax as int,
                ymin as int,
                ymax as int,
            ),
    {
        let len: usize = self.particles.len();
        let ghost s0 = self.particles@;
        let ghost k0 = self.k;
        let ghost f0 = self.friction_coef;
        let mut i: usize = 0;
        while i < len
            invariant
                len == s0.len() == self.particles@.len(),
                i <= len,
                -POS_MAX <= xmin <= xmax <= POS_MAX,
                -POS_MAX <= ymin <= ymax <= POS_MAX,
                self.k == k0,
                self.friction_coef == f0,
                -K_MAX <= self.k <= K_MAX,
                0 <= self.friction_coef <= SCALE,
                len <= MAX_PARTICLES,
                forall|m: int| 0 <= m < len ==> #[trigger] s0[m].wf(),
                forall|m: int| 0 <= m < len ==> #[trigger] self.particles@[m].wf(),
                forall|m: int|
                    0 <= m < i ==> #[trigger] self.particles@[m] == moved(
                        s0[m],
                        f0 as int,
                        xmin as int,
                        xmax as int,
                        ymin as int,
                        ymax as int,
                    ),
                forall|m: int| i <= m < len ==> #[trigger] self.particles@[m] == s0[m],
            decreases len - i,
        {
            assert(self.particles@[i as int] == s0[i as int]);
            let p: Particle = advance(self.particles[i], self.friction_coef, xmin, xmax, ymin, ymax);
            self.particles.set(i, p);
            i = i + 1;
        }
        assert(self.particles@ =~= position_pass(
            s0,
            f0 as int,
            xmin as int,
            xmax as int,
            ymin as int,
            ymax as int,
        ));
    }

    /// One velocity pass: for `i` in `0..n-1` and `j` in `1..n`, particle `i`
    /// is pushed by the force from `j` and particle `j` by its negation.
    pub fn update_vel(&mut self)
        requires
            old(self).wf(),
        ensures
            final(self).wf(),
            final(self).k == old(self).k,
            final(self).friction_coef == old(self).friction_coef,
            final(self).particles@ == velocity_pass(old(self).particles@, old(self).k as int),
            same_bodies(old(self).particles@, final(self).particles@),
    {
        let len: usize = self.particles.len();
        proof {
            lemma_velocity_pass_bodies(self.particles@, self.k as int);
        }
        if len == 0 {
            return;
        }
        let ghost s0 = self.particles@;
        let ghost k = self.k as int;
        let ghost friction = self.friction_coef;
        let mut i: usize = 0;
        while i < len - 1
            invariant
                len == s0.len(),
                i <= len - 1,
                k == self.k,
                friction == self.friction_coef,
                -K_MAX <= self.k <= K_MAX,
                0 <= self.friction_coef <= SCALE,
                forall|m: int| 0 <= m < s0.len() ==> #[trigger] s0[m].wf(),
                s0.len() <= MAX_PARTICLES,
                self.particles@ == rows(s0, k, i as int, len as int),
            decreases len - 1 - i,
        {
            proof {
                lemma_rows_bodies(s0, k, i as int, len as int);
            }
            let ghost r0 = self.particles@;
            let mut j: usize = 1;
            while j < len
                invariant
                    len == s0.len(),
                    1 <= j <= len,
                    k == self.k,
                    friction == self.friction_coef,
                    -K_MAX <= self.k <= K_MAX,
                    0 <= self.friction_coef <= SCALE,
                    forall|m: int| 0 <= m < s0.len() ==> #[trigger] s0[m].wf(),
                    s0.len() <= MAX_PARTICLES,
                    i < len - 1,
                    r0 == rows(s0, k, i as int, len as int),
                    same_bodies(s0, r0),
                    self.particles@ == row(r0, k, i as int, j as int),
                decreases len - j,
            {
                proof {
                    lemma_row_bodies(r0, k, i as int, j as int);
                    assert forall|m: int| 0 <= m < self.particles@.len() implies
                        #[trigger] self.particles@[m].wf() by {
                        assert(s0[m].wf());
                    }
                }
                let ghost before = self.particles@;
                let (fx, fy) = self.force(i, j);
                assert(self.particles@[i as int].wf());
                self.particles[i].update_vel(fx, fy);
                assert(self.particles@[j as int].mass == before[j as int].mass);
                assert(before[j as int].wf());
                self.particles[j].update_vel(-fx, -fy);
                j = j + 1;
            }
            i = i + 1;
        }
        proof {
            lemma_rows_bodies(s0, k, (len - 1) as int, len as int);
            assert forall|m: int| 0 <= m < self.particles@.len() implies
                #[trigger] self.particles@[m].wf() by {
                assert(s0[m].wf());
            }
        }
    }
}

/// Potential at `(x, y)` from `p` (see `potential_term`).
fn potential_term_of(p: &Particle, x: i64, y: i64) -> (r: i128)
    requires
        p.wf(),
        -POS_MAX <= x <= POS_MAX,
        -POS_MAX <= y <= POS_MAX,
    ensures
        r as int == potential_term(*p, x as int, y as int),
        -0x100_0000_0000 <= r <= 0x100_0000_0000,
{
    let dx: i64 = p.x - x;
    let dy: i64 = p.y - y;
    if dx == 0 && dy == 0 {
        return 0;
    }
    assert(0 <= dx * dx <= 0x4000_0000_0000_0000 && 0 <= dy * dy <= 0x4000_0000_0000_0000)
        by (nonlinear_arith)
        requires
            -0x8000_0000 <= dx <= 0x8000_0000,
            -0x8000_0000 <= dy <= 0x8000_0000,
    ;
    let d2: u64 = (dx as i128 * dx as i128 + dy as i128 * dy as i128) as u64;
    let root: u64 = isqrt(d2);
    proof {
        assert(dx * dx >= 1 || dy * dy >= 1) by (nonlinear_arith)
            requires
                dx != 0 || dy != 0,
        ;
        lemma_root_positive(d2 as int);
        lemma_tdiv_bound(SCALE * p.charge, root as int);
    }
    let q: i128 = SCALE as i128 * p.charge as i128;
    div_toward_zero(q, root as i128)
}

/// `p` after one frame of motion (see `moved`).
fn advance(p: Particle, friction: i64, xmin: i64, xmax: i64, ymin: i64, ymax: i64) -> (r: Particle)
    requires
        p.wf(),
        0 <= friction <= SCALE,
        -POS_MAX <= xmin <= xmax <= POS_MAX,
        -POS_MAX <= ymin <= ymax <= POS_MAX,
    ensures
        r == moved(p, friction as int, xmin as int, xmax as int, ymin as int, ymax as int),
        r.wf(),
{
    if p.stationary {
        return p;
    }
    let nx: i128 = p.x as i128 + p.vx as i128;
    let ny: i128 = p.y as i128 + p.vy as i128;
    let mut vx: i128 = scale_by(p.vx, friction);
    let mut vy: i128 = scale_by(p.vy, friction);
    let mut x: i128 = nx;
    let mut y: i128 = ny;
    if nx < xmin as i128 || nx > xmax as i128 {
        x = if nx < xmin as i128 { xmin as i128 } else { xmax as i128 };
        vx = -div_toward_zero(vx, 2);
        vy = div_toward_zero(vy, 2);
    }
    if ny < ymin as i128 || ny > ymax as i128 {
        y = if ny < ymin as i128 { ymin as i128 } else { ymax as i128 };
        vy = -div_toward_zero(vy, 2);
        vx = div_toward_zero(vx, 2);
    }
    proof {
        lemma_tdiv_bound(p.vx * friction, SCALE as int);
        lemma_tdiv_bound(p.vy * friction, SCALE as int);
    }
    Particle { x: x as i64, y: y as i64, vx: vx as i64, vy: vy as i64, ..p }
}

/// `v * f`, with `f` a fixed-point factor in `[0, 1]`.
fn scale_by(v: i64, f: i64) -> (r: i128)
    requires
        0 <= f <= SCALE,
    ensures
        r == tdiv(v * f, SCALE as int),
        i64::MIN <= r <= i64::MAX,
{
    assert(i64::MIN * 65536 <= v * f <= i64::MAX * 65536) by (nonlinear_arith)
        requires
            0 <= f <= 65536,
            i64::MIN <= v <= i64::MAX,
    ;
    assert(tdiv(v * f, SCALE as int) == tdiv(v * f, 65536));
    proof {
        lemma_scaled_magnitude(v as int, f as int);
    }
    div_toward_zero(v as i128 * f as i128, SCALE as i128)
}

proof fn lemma_scaled_magnitude(v: int, f: int)
    requires
        0 <= f <= 65536,
        i64::MIN <= v <= i64::MAX,
    ensures
        i64::MIN <= tdiv(v * f, 65536) <= i64::MAX,
{
    if v >= 0 {
        assert(v * f <= v * 65536) by (nonlinear_arith)
            requires
                0 <= f <= 65536,
                v >= 0,
        ;
        assert(v * f >= 0) by (nonlinear_arith)
            requires
                0 <= f,
                v >= 0,
        ;
        vstd::arithmetic::div_mod::lemma_div_is_ordered(v * f, v * 65536, 65536);
        vstd::arithmetic::div_mod::lemma_div_multiples_vanish(v, 65536);
        assert(v * 65536 == 65536 * v) by (nonlinear_arith);
    } else {
        assert(-v * f <= -v * 65536) by (nonlinear_arith)
            requires
                0 <= f <= 65536,
                v < 0,
        ;
        assert(-v * f >= 0) by (nonlinear_arith)
            requires
                0 <= f,
                v < 0,
        ;
        assert(-(v * f) == -v * f) by (nonlinear_arith);
        vstd::arithmetic::div_mod::lemma_div_is_ordered(-v * f, -v * 65536, 65536);
        vstd::arithmetic::div_mod::lemma_div_multiples_vanish(-v, 65536);
        assert(-v * 65536 == 65536 * -v) by (nonlinear_arith);
    }
}

proof fn lemma_scaled_bound(k: int, f: int)
    requires
        -K_MAX <= k <= K_MAX,
        -PAIR_FORCE_MAX <= f <= PAIR_FORCE_MAX,
    ensures
        -0x100_0000_0000_0000_0000_0000_0000_0000 <= k * f <= 0x100_0000_0000_0000_0000_0000_0000_0000,
        -FORCE_MAX <= tdiv(k * f, SCALE as int) <= FORCE_MAX,
{
    assert(-0x100_0000_0000_0000_0000_0000_0000_0000 <= k * f <= 0x100_0000_0000_0000_0000_0000_0000_0000)
        by (nonlinear_arith)
        requires
            -0x100_0000 <= k <= 0x100_0000,
            -0x1_0000_0000_0000_0000_0000_0000 <= f <= 0x1_0000_0000_0000_0000_0000_0000,
    ;
    lemma_tdiv_bound(k * f, SCALE as int);
}

} // verus!
