//! The voxel grid: radial falloff and per-cell column heights.

use vstd::prelude::*;
use vstd::arithmetic::div_mod::lemma_div_is_ordered;
use vstd::arithmetic::div_mod::lemma_div_multiples_vanish;
use vstd::arithmetic::div_mod::lemma_div_of0;
use vstd::arithmetic::div_mod::lemma_fundamental_div_mod_converse;
use crate::config::MAX_EXTENT;
use crate::config::MAX_HEIGHT_LIMIT;
use crate::config::TerrainConfiguration;
use crate::heightfield::fractal_noise;
use crate::heightfield::lemma_zero_octaves;
use crate::heightfield::noise_bounded;
use crate::heightfield::spec_fractal_height;
use crate::heightfield::spec_samples_at;
use crate::math::ISQRT_INPUT_LIMIT;
use crate::math::isqrt;
use crate::math::lemma_sqrt_floor_bounds;
use crate::math::lemma_sqrt_floor_monotonic;
use crate::math::sqrt_floor;

verus! {

/// One sampled grid cell: its coordinates in unit steps and its computed
/// column height (fixed point, includes the one-unit base slab).
#[derive(Clone, Copy, Debug, PartialEq, Eq, Structural)]
pub struct Column {
    pub x: u32,
    pub y: u32,
    pub height: u64,
}

/// Fixed-point distance of cell (x, y) from the grid's origin corner
/// (deliberately the corner, not the center).
pub open spec fn spec_dist(x: int, y: int) -> int {
    sqrt_floor(((x * x + y * y) * 0x100000000) as nat) as int
}

/// Radial damping factor in [0, 1] fixed point: max(0, 1 - dist / falloff).
pub open spec fn spec_falloff_factor(x: int, y: int, falloff: int) -> int
    recommends
        falloff > 0,
{
    let ratio = spec_dist(x, y) * 65536 / falloff;
    if ratio >= 65536 {
        0
    } else {
        65536 - ratio
    }
}

/// Column height of cell (x, y): damped fractal height plus the constant
/// one-unit base slab, so every sampled column is at least one unit tall.
pub open spec fn spec_column_height(
    c: TerrainConfiguration,
    noise: Seq<i64>,
    x: int,
    y: int,
) -> int {
    let h = spec_fractal_height(
        spec_samples_at(noise, (x * c.tot_depth + y) * c.fractal_octaves, c.fractal_octaves as nat),
        c.max_height as int,
    );
    let f = spec_falloff_factor(x, y, c.falloff as int);
    h * f / 65536 + 65536
}

/// The row-major grid of sampled columns.
pub open spec fn spec_columns(c: TerrainConfiguration, noise: Seq<i64>) -> Seq<Column> {
    Seq::new(
        (c.tot_width * c.tot_depth) as nat,
        |k: int|
            Column {
                x: (k / c.tot_depth as int) as u32,
                y: (k % c.tot_depth as int) as u32,
                height: spec_column_height(
                    c,
                    noise,
                    k / c.tot_depth as int,
                    k % c.tot_depth as int,
                ) as u64,
            },
    )
}

/// Bounds that every column of a well-formed grid satisfies.
pub open spec fn columns_wf(c: TerrainConfiguration, cols: Seq<Column>) -> bool {
    forall|k: int|
        0 <= k < cols.len() ==> (#[trigger] cols[k]).x <= 65536 && cols[k].y <= 65536
            && cols[k].height <= c.max_height + 65536
}

/// The falloff factor never increases as the squared distance from the
/// origin corner grows, and it is floored at zero.
pub proof fn lemma_falloff_monotone(x1: int, y1: int, x2: int, y2: int, falloff: int)
    requires
        falloff > 0,
        0 <= x1,
        0 <= y1,
        0 <= x2,
        0 <= y2,
        x1 * x1 + y1 * y1 <= x2 * x2 + y2 * y2,
    ensures
        spec_falloff_factor(x2, y2, falloff) <= spec_falloff_factor(x1, y1, falloff),
        0 <= spec_falloff_factor(x2, y2, falloff),
        spec_falloff_factor(x1, y1, falloff) <= 65536,
{
    let d1 = x1 * x1 + y1 * y1;
    let d2 = x2 * x2 + y2 * y2;
    assert(x1 * x1 + y1 * y1 >= 0) by (nonlinear_arith)
        requires
            x1 >= 0,
            y1 >= 0,
    ;
    lemma_sqrt_floor_monotonic((d1 * 0x100000000) as nat, (d2 * 0x100000000) as nat);
    lemma_div_is_ordered(
        spec_dist(x1, y1) * 65536,
        spec_dist(x2, y2) * 65536,
        falloff,
    );
    lemma_div_is_ordered(0, spec_dist(x1, y1) * 65536, falloff);
    lemma_div_of0(falloff);
}

/// With zero fractal octaves the accumulator never moves, so every sampled
/// column's height is exactly one unit: the base slab alone, which still
/// meets the one-unit emission threshold.
pub proof fn lemma_zero_octaves_column_height(
    c: TerrainConfiguration,
    noise: Seq<i64>,
    x: int,
    y: int,
)
    requires
        c.fractal_octaves == 0,
    ensures
        spec_column_height(c, noise, x, y) == 65536,
{
    let samples = spec_samples_at(noise, (x * c.tot_depth + y) * c.fractal_octaves, 0);
    assert(samples.len() == 0);
    lemma_zero_octaves(samples, c.max_height as int);
    let f = spec_falloff_factor(x, y, c.falloff as int);
    assert(0 * f == 0) by (nonlinear_arith);
    lemma_div_of0(65536);
}

/// The radial damping factor of one cell.
pub fn falloff_factor(x: u32, y: u32, falloff: u64) -> (r: u64)
    requires
        falloff > 0,
        x <= 65536,
        y <= 65536,
    ensures
        r == spec_falloff_factor(x as int, y as int, falloff as int),
        r <= 65536,
{
    proof {
        assert(x as int * x as int <= 0x100000000 && y as int * y as int <= 0x100000000)
            by (nonlinear_arith)
            requires
                0 <= x as int <= 65536,
                0 <= y as int <= 65536,
        ;
    }
    let xx: u64 = (x as u64) * (x as u64);
    let yy: u64 = (y as u64) * (y as u64);
    let d2: u64 = xx + yy;
    let n: u128 = (d2 as u128) * 0x100000000;
    proof {
        assert(n < ISQRT_INPUT_LIMIT);
    }
    let dist: u64 = isqrt(n);
    proof {
        lemma_sqrt_floor_bounds(n as nat);
        assert(dist as int <= 0x200000000) by (nonlinear_arith)
            requires
                dist as int * dist as int <= n as int,
                (n as int) < 0x40000000000000000,
                dist as int >= 0,
        ;
    }
    let ratio: u64 = dist * 65536 / falloff;
    if ratio >= 65536 {
        0
    } else {
        65536 - ratio
    }
}

/// Samples the height field over the whole grid: one column per cell,
/// row-major, each with its damped height plus the one-unit base slab.
pub fn build_columns(c: &TerrainConfiguration, noise: &Vec<i64>) -> (cols: Vec<Column>)
    requires
        c.wf(),
        c.falloff > 0,
        noise_bounded(noise@),
        noise@.len() == c.tot_width * c.tot_depth * c.fractal_octaves,
    ensures
        cols@ == spec_columns(*c, noise@),
        columns_wf(*c, cols@),
{
    let w = c.tot_width;
    let d = c.tot_depth;
    let octaves = c.fractal_octaves;
    let nlen: usize = noise.len();
    let ghost all = spec_columns(*c, noise@);
    proof {
        assert(all.len() == w * d);
    }
    let mut cols: Vec<Column> = Vec::new();
    let mut x: u32 = 0;
    while x < w
        invariant
            nlen == noise@.len(),
            c.wf(),
            c.falloff > 0,
            noise_bounded(noise@),
            noise@.len() == c.tot_width * c.tot_depth * c.fractal_octaves,
            w == c.tot_width,
            d == c.tot_depth,
            octaves == c.fractal_octaves,
            all == spec_columns(*c, noise@),
            x <= w,
            cols@.len() == x * d,
            cols@ == all.take((x * d) as int),
            columns_wf(*c, cols@),
        decreases w - x,
    {
        let mut y: u32 = 0;
        proof {
            assert(x as int * d as int + 0 == x as int * d as int);
        }
        while y < d
            invariant
                nlen == noise@.len(),
                c.wf(),
                c.falloff > 0,
                noise_bounded(noise@),
                noise@.len() == c.tot_width * c.tot_depth * c.fractal_octaves,
                w == c.tot_width,
                d == c.tot_depth,
                octaves == c.fractal_octaves,
                all == spec_columns(*c, noise@),
                x < w,
                y <= d,
                cols@.len() == x * d + y,
                cols@ == all.take((x * d + y) as int),
                columns_wf(*c, cols@),
            decreases d - y,
        {
            proof {
                assert(MAX_EXTENT == 65536);
                assert(x as int * d as int + y as int + 1 <= (w * d) as int) by (nonlinear_arith)
                    requires
                        0 <= x as int && (x as int) < w as int,
                        0 <= y as int && (y as int) < d as int,
                ;
                assert((w as int * d as int) * octaves as int <= nlen as int) by (nonlinear_arith)
                    requires
                        nlen as int == (w as int * d as int) * octaves as int,
                ;
                assert(x as int * d as int <= 65535 * 65536) by (nonlinear_arith)
                    requires
                        0 <= x as int <= 65535,
                        0 <= d as int <= 65536,
                ;
            }
            let cell: usize = (x as usize) * (d as usize) + (y as usize);
            proof {
                assert((cell + 1) as int * octaves as int <= (w as int * d as int)
                    * octaves as int) by (nonlinear_arith)
                    requires
                        (cell + 1) as int <= w as int * d as int,
                        octaves as int >= 0,
                ;
                assert(cell as int * octaves as int + octaves as int == (cell + 1) as int
                    * octaves as int) by (nonlinear_arith);
            }
            let base: usize = cell * (octaves as usize);
            let h = fractal_noise(c, noise, base);
            let f = falloff_factor(x, y, c.falloff);
            proof {
                assert(MAX_HEIGHT_LIMIT == 0x100000000);
                assert(h as int * f as int <= c.max_height as int * 65536 && 0 <= h as int
                    * f as int) by (nonlinear_arith)
                    requires
                        0 <= h as int <= c.max_height as int,
                        0 <= f as int <= 65536,
                ;
                assert(c.max_height as int * 65536 <= 0x100000000int * 65536) by (nonlinear_arith)
                    requires
                        c.max_height as int <= 0x100000000,
                ;
                lemma_div_is_ordered(h as int * f as int, c.max_height as int * 65536, 65536);
                assert(c.max_height as int * 65536 == 65536 * c.max_height as int)
                    by (nonlinear_arith);
                lemma_div_multiples_vanish(c.max_height as int, 65536);
            }
            let height: u64 = h * f / 65536 + 65536;
            let col = Column { x, y, height };
            cols.push(col);
            proof {
                let k = (x * d + y) as int;
                lemma_fundamental_div_mod_converse(k, d as int, x as int, y as int);
                assert(base as int == (x as int * c.tot_depth as int + y as int)
                    * c.fractal_octaves as int);
                assert(spec_column_height(*c, noise@, x as int, y as int) == h as int * f as int
                    / 65536 + 65536);
                assert(all[k] == col);
                assert(all.take(k + 1) =~= all.take(k).push(col));
            }
            y = y + 1;
        }
        proof {
            assert(x as int * d as int + d as int == (x + 1) as int * d as int) by (nonlinear_arith);
        }
        x = x + 1;
    }
    proof {
        assert(cols@ =~= all);
    }
    cols
}

} // verus!
