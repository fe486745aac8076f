//! Sampling the field and the potential on a regular grid, for display.
use vstd::prelude::*;
use vstd::arithmetic::div_mod::{lemma_div_is_ordered, lemma_div_multiples_vanish, lemma_div_pos_is_pos};
use crate::particle::POS_MAX;
use crate::system::{ParticleSystem, field_sum, potential_sum};

verus! {

/// Coordinate of grid line `i` of `count` across `extent`: the lines split the
/// extent into `count + 1` equal parts, leaving out both edges.
pub open spec fn grid_coord(i: int, count: int, extent: int) -> int {
    extent * (i + 1) / (count + 1)
}

/// The field at one grid point.
pub struct FieldSample {
    pub x: i64,
    pub y: i64,
    pub fx: i128,
    pub fy: i128,
}

/// The potential at one grid point.
pub struct PotentialSample {
    pub x: i64,
    pub y: i64,
    pub potential: i128,
}

/// Grid line `i` of `count` across `extent` (see `grid_coord`).
pub fn grid_point(i: u16, count: u16, extent: i64) -> (r: i64)
    requires
        i < count,
        0 <= extent <= POS_MAX,
    ensures
        r == grid_coord(i as int, count as int, extent as int),
        0 <= r <= extent,
{
    proof {
        assert(0 <= extent * (i + 1) <= extent * (count + 1)) by (nonlinear_arith)
            requires
                0 <= extent,
                i < count,
        ;
        lemma_div_is_ordered(extent * (i + 1), extent * (count + 1), count + 1);
        assert(extent * (count + 1) == (count + 1) * extent) by (nonlinear_arith);
        lemma_div_multiples_vanish(extent as int, count + 1);
        lemma_div_pos_is_pos(extent * (i + 1), count + 1);
    }
    assert(extent * (i + 1) <= 0x4000_0000 * 0x1_0000) by (nonlinear_arith)
        requires
            0 <= extent <= 0x4000_0000,
            i < count,
            count <= 0xffff,
    ;
    let n: i64 = extent * (i as i64 + 1);
    n / (count as i64 + 1)
}

impl ParticleSystem {
    /// The field at each point of a `xcount` by `ycount` grid over a
    /// `width` by `height` area; `r[a][b]` is taken at grid line `a` across
    /// and `b` down.
    pub fn field_samples(&self, xcount: u16, ycount: u16, width: i64, height: i64) -> (r: Vec<
        Vec<FieldSample>,
    >)
        requires
            self.wf(),
            0 <= width <= POS_MAX,
            0 <= height <= POS_MAX,
        ensures
            r@.len() == xcount,
            forall|a: int| 0 <= a < xcount ==> (#[trigger] r@[a])@.len() == ycount,
            forall|a: int, b: int|
                0 <= a < xcount && 0 <= b < ycount ==> {
                    let p = #[trigger] r@[a]@[b];
                    let x = grid_coord(a, xcount as int, width as int);
                    let y = grid_coord(b, ycount as int, height as int);
                    let f = field_sum(self.particles@, x, y, self.particles@.len() as int);
                    p.x == x && p.y == y && p.fx == f.0 && p.fy == f.1
                },
    {
        let mut cols: Vec<Vec<FieldSample>> = Vec::new();
        let mut i: u16 = 0;
        while i < xcount
            invariant
                self.wf(),
                0 <= width <= POS_MAX,
                0 <= height <= POS_MAX,
                i <= xcount,
                cols@.len() == i,
                forall|a: int| 0 <= a < i ==> (#[trigger] cols@[a])@.len() == ycount,
                forall|a: int, b: int|
                    0 <= a < i && 0 <= b < ycount ==> {
                        let p = #[trigger] cols@[a]@[b];
                        let x = grid_coord(a, xcount as int, width as int);
                        let y = grid_coord(b, ycount as int, height as int);
                        let f = field_sum(self.particles@, x, y, self.particles@.len() as int);
                        p.x == x && p.y == y && p.fx == f.0 && p.fy == f.1
                    },
            decreases xcount - i,
        {
            let x: i64 = grid_point(i, xcount, width);
            let mut col: Vec<FieldSample> = Vec::new();
            let mut j: u16 = 0;
            while j < ycount
                invariant
                    self.wf(),
                    0 <= height <= POS_MAX,
                    0 <= x <= POS_MAX,
                    x == grid_coord(i as int, xcount as int, width as int),
                    j <= ycount,
                    col@.len() == j,
                    forall|b: int|
                        0 <= b < j ==> {
                            let p = #[trigger] col@[b];
                            let y = grid_coord(b, ycount as int, height as int);
                            let f = field_sum(self.particles@, x as int, y, self.particles@.len() as int);
                            p.x == x && p.y == y && p.fx == f.0 && p.fy == f.1
                        },
                decreases ycount - j,
            {
                let y: i64 = grid_point(j, ycount, height);
                let (fx, fy) = self.get_field(x, y);
                col.push(FieldSample { x, y, fx, fy });
                j = j + 1;
            }
            cols.push(col);
            i = i + 1;
        }
        cols
    }

    /// The potential at each point of a `xcount` by `ycount` grid over a
    /// `width` by `height` area; `r[a][b]` is taken at grid line `a` across
    /// and `b` down.
    pub fn potential_samples(&self, xcount: u16, ycount: u16, width: i64, height: i64) -> (r: Vec<
        Vec<PotentialSample>,
    >)
        requires
            self.wf(),
            0 <= width <= POS_MAX,
            0 <= height <= POS_MAX,
        ensures
            r@.len() == xcount,
            forall|a: int| 0 <= a < xcount ==> (#[trigger] r@[a])@.len() == ycount,
            forall|a: int, b: int|
                0 <= a < xcount && 0 <= b < ycount ==> {
                    let p = #[trigger] r@[a]@[b];
                    let x = grid_coord(a, xcount as int, width as int);
                    let y = grid_coord(b, ycount as int, height as int);
                    p.x == x && p.y == y && p.potential == potential_sum(
                        self.particles@,
                        x,
                        y,
                        self.particles@.len() as int,
                    )
                },
    {
        let mut cols: Vec<Vec<PotentialSample>> = Vec::new();
        let mut i: u16 = 0;
        while i < xcount
            invariant
                self.wf(),
                0 <= width <= POS_MAX,
                0 <= height <= POS_MAX,
                i <= xcount,
                cols@.len() == i,
                forall|a: int| 0 <= a < i ==> (#[trigger] cols@[a])@.len() == ycount,
                forall|a: int, b: int|
                    0 <= a < i && 0 <= b < ycount ==> {
                        let p = #[trigger] cols@[a]@[b];
                        let x = grid_coord(a, xcount as int, width as int);
                        let y = grid_coord(b, ycount as int, height as int);
                        p.x == x && p.y == y && p.potential == potential_sum(
                            self.particles@,
                            x,
                            y,
                            self.particles@.len() as int,
                        )
                    },
            decreases xcount - i,
        {
            let x: i64 = grid_point(i, xcount, width);
            let mut col: Vec<PotentialSample> = Vec::new();
            let mut j: u16 = 0;
            while j < ycount
                invariant
                    self.wf(),
                    0 <= height <= POS_MAX,
                    0 <= x <= POS_MAX,
                    x == grid_coord(i as int, xcount as int, width as int),
                    j <= ycount,
                    col@.len() == j,
                    forall|b: int|
                        0 <= b < j ==> {
                            let p = #[trigger] col@[b];
                            let y = grid_coord(b, ycount as int, height as int);
                            p.x == x && p.y == y && p.potential == potential_sum(
                                self.particles@,
                                x as int,
                                y,
                                self.particles@.len() as int,
                            )
                        },
                decreases ycount - j,
            {
                let y: i64 = grid_point(j, ycount, height);
                let potential = self.get_potential(x, y);
                col.push(PotentialSample { x, y, potential });
                j = j + 1;
            }
            cols.push(col);
            i = i + 1;
        }
        cols
    }
}

} // verus!
