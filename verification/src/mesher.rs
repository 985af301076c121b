//! Cube meshing: turning sampled columns into a triangle mesh.
//!
//! Every column at least one unit tall becomes a stack of full unit cubes
//! (levels 1 to N-1) closed by a possibly degenerate fractional cap at
//! level N. Each cube contributes its eight corners, thirty-six indices
//! (two triangles per face, fixed winding, no face culling) and one flat
//! color shared by all eight vertices.

use vstd::prelude::*;
use vstd::arithmetic::div_mod::lemma_div_is_ordered;
use vstd::arithmetic::div_mod::lemma_div_multiples_vanish;
use vstd::arithmetic::div_mod::lemma_hoist_over_denominator;
use vstd::arithmetic::div_mod::lemma_mod_multiples_basic;
use crate::color::Srgba;
use crate::config::MAX_EXTENT;
use crate::config::MAX_HEIGHT_LIMIT;
use crate::config::TerrainConfiguration;
use crate::config::TerrainError;
use crate::grid::Column;
use crate::grid::build_columns;
use crate::grid::columns_wf;
use crate::grid::spec_columns;
use crate::heightfield::noise_bounded;
use crate::math::CUBE_SIZE;

verus! {

/// One vertex position, fixed point on every axis (`CUBE_SIZE` is one unit).
#[derive(Clone, Copy, Debug, PartialEq, Eq, Structural)]
pub struct Vec3Wrapper {
    pub x: u64,
    pub y: u64,
    pub z: u64,
}

/// A triangle mesh: corner positions, triangle indices (three per
/// triangle, each an index into `positions`), and one color per vertex.
#[derive(Debug)]
pub struct Mesh {
    pub positions: Vec<Vec3Wrapper>,
    pub indices: Vec<u32>,
    pub colors: Vec<Srgba>,
}

/// Ghost descriptor of one emitted cube: base corner, height, flat color.
pub struct CubeGeom {
    pub base: Vec3Wrapper,
    pub height: u64,
    pub color: Srgba,
}

/// The eight corner positions of one cube, in emission order: the four
/// front corners, then the four back corners.
pub open spec fn spec_cube_positions(base: Vec3Wrapper, size: u64, height: u64) -> Seq<
    Vec3Wrapper,
> {
    seq![
        base,
        Vec3Wrapper { x: (base.x + size) as u64, y: base.y, z: base.z },
        Vec3Wrapper { x: (base.x + size) as u64, y: (base.y + height) as u64, z: base.z },
        Vec3Wrapper { x: base.x, y: (base.y + height) as u64, z: base.z },
        Vec3Wrapper { x: base.x, y: base.y, z: (base.z + size) as u64 },
        Vec3Wrapper { x: (base.x + size) as u64, y: base.y, z: (base.z + size) as u64 },
        Vec3Wrapper {
            x: (base.x + size) as u64,
            y: (base.y + height) as u64,
            z: (base.z + size) as u64,
        },
        Vec3Wrapper { x: base.x, y: (base.y + height) as u64, z: (base.z + size) as u64 },
    ]
}

/// The thirty-six indices of one cube whose first corner sits at position
/// `start`: two triangles per face with a fixed winding per face
/// direction, every face emitted unconditionally.
pub open spec fn spec_cube_indices(start: int) -> Seq<u32> {
    seq![
        // front
        start as u32,
        (start + 1) as u32,
        (start + 2) as u32,
        start as u32,
        (start + 2) as u32,
        (start + 3) as u32,
        // back
        (start + 4) as u32,
        (start + 6) as u32,
        (start + 5) as u32,
        (start + 4) as u32,
        (start + 7) as u32,
        (start + 6) as u32,
        // left
        (start + 4) as u32,
        start as u32,
        (start + 3) as u32,
        (start + 4) as u32,
        (start + 3) as u32,
        (start + 7) as u32,
        // right
        (start + 1) as u32,
        (start + 5) as u32,
        (start + 6) as u32,
        (start + 1) as u32,
        (start + 6) as u32,
        (start + 2) as u32,
        // top
        (start + 3) as u32,
        (start + 2) as u32,
        (start + 6) as u32,
        (start + 3) as u32,
        (start + 6) as u32,
        (start + 7) as u32,
        // bottom
        (start + 4) as u32,
        (start + 5) as u32,
        (start + 1) as u32,
        (start + 4) as u32,
        (start + 1) as u32,
        start as u32,
    ]
}

/// Positions of a sequence of cubes, eight per cube, in emission order.
pub open spec fn spec_cubes_positions(cubes: Seq<CubeGeom>) -> Seq<Vec3Wrapper>
    decreases cubes.len(),
{
    if cubes.len() == 0 {
        Seq::empty()
    } else {
        spec_cubes_positions(cubes.drop_last()) + spec_cube_positions(
            cubes.last().base,
            CUBE_SIZE,
            cubes.last().height,
        )
    }
}

/// Indices of `n` cubes: the k-th cube's corners start at position 8k.
pub open spec fn spec_cubes_indices(n: nat) -> Seq<u32>
    decreases n,
{
    if n == 0 {
        Seq::empty()
    } else {
        spec_cubes_indices((n - 1) as nat) + spec_cube_indices(8 * (n - 1))
    }
}

/// Colors of a sequence of cubes: all eight vertices of a cube share its
/// flat color.
pub open spec fn spec_cubes_colors(cubes: Seq<CubeGeom>) -> Seq<Srgba>
    decreases cubes.len(),
{
    if cubes.len() == 0 {
        Seq::empty()
    } else {
        spec_cubes_colors(cubes.drop_last()) + Seq::new(8, |i: int| cubes.last().color)
    }
}

/// The vertical color gradient: the green channel brightens with `t` and
/// narrows to one byte by saturation.
pub open spec fn spec_green(base_green: int, t: int) -> int
    recommends
        0 <= t,
{
    let g = (base_green * 65536 + 16384 + 45 * t / 2) / 65536;
    if g > 255 {
        255
    } else {
        g
    }
}

/// Gradient parameter of the body cube at `level` of `n` stacked levels:
/// deeper cubes are darker.
pub open spec fn spec_body_t(height: int, n: int, level: int) -> int
    recommends
        1 <= level < n,
{
    height - ((n - level + 1) * 65536) / (2 * n)
}

/// Flat color of the body cube at `level` of a column `n` levels tall.
pub open spec fn spec_body_color(
    c: TerrainConfiguration,
    height: int,
    n: int,
    level: int,
) -> Srgba {
    Srgba {
        r: c.color_r,
        g: spec_green(c.color_g as int, spec_body_t(height, n, level)) as u8,
        b: c.color_b,
        a: 255,
    }
}

/// Flat color of a column's cap cube.
pub open spec fn spec_cap_color(c: TerrainConfiguration, height: int) -> Srgba {
    Srgba { r: c.color_r, g: spec_green(c.color_g as int, height) as u8, b: c.color_b, a: 255 }
}

/// The first `k` body cubes of a column, levels 1 through k.
pub open spec fn spec_body_cubes(c: TerrainConfiguration, col: Column, k: nat) -> Seq<CubeGeom> {
    Seq::new(
        k,
        |i: int|
            CubeGeom {
                base: Vec3Wrapper {
                    x: (col.x as int * 65536) as u64,
                    y: ((i + 1) * 65536) as u64,
                    z: (col.y as int * 65536) as u64,
                },
                height: 65536,
                color: spec_body_color(
                    c,
                    col.height as int,
                    col.height as int / 65536,
                    i + 1,
                ),
            },
    )
}

/// A column's cap cube: at vertical offset N units, with the fractional
/// remainder as its height (degenerate when the height is a whole number).
pub open spec fn spec_cap_cube(c: TerrainConfiguration, col: Column) -> CubeGeom {
    let n = col.height as int / 65536;
    CubeGeom {
        base: Vec3Wrapper {
            x: (col.x as int * 65536) as u64,
            y: (n * 65536) as u64,
            z: (col.y as int * 65536) as u64,
        },
        height: (col.height as int % 65536) as u64,
        color: spec_cap_color(c, col.height as int),
    }
}

/// The cubes of one column: one full unit cube per integer level from 1 to
/// N-1, then the cap at level N; nothing at all below one unit of height.
pub open spec fn spec_column_cubes(c: TerrainConfiguration, col: Column) -> Seq<CubeGeom> {
    if col.height < 65536 {
        Seq::empty()
    } else {
        spec_body_cubes(c, col, (col.height as int / 65536 - 1) as nat).push(spec_cap_cube(c, col))
    }
}

/// All cubes of a column grid, in row-major column order.
pub open spec fn spec_terrain_cubes(c: TerrainConfiguration, cols: Seq<Column>) -> Seq<CubeGeom>
    decreases cols.len(),
{
    if cols.len() == 0 {
        Seq::empty()
    } else {
        spec_terrain_cubes(c, cols.drop_last()) + spec_column_cubes(c, cols.last())
    }
}

/// Structural soundness of a mesh: the index count is a multiple of three,
/// every index points at a position, and there is one color per vertex.
pub open spec fn mesh_wf(m: Mesh) -> bool {
    m.indices@.len() % 3 == 0 && (forall|i: int|
        0 <= i < m.indices@.len() ==> (#[trigger] m.indices@[i]) < m.positions@.len())
        && m.colors@.len() == m.positions@.len()
}

/// The mesh denoted by a column grid.
pub open spec fn spec_mesh(c: TerrainConfiguration, cols: Seq<Column>, m: Mesh) -> bool {
    let cubes = spec_terrain_cubes(c, cols);
    m.positions@ == spec_cubes_positions(cubes) && m.indices@ == spec_cubes_indices(cubes.len())
        && m.colors@ == spec_cubes_colors(cubes)
}

/// Eight positions and eight colors per cube, by construction.
pub proof fn lemma_cubes_counts(cubes: Seq<CubeGeom>)
    ensures
        spec_cubes_positions(cubes).len() == 8 * cubes.len(),
        spec_cubes_colors(cubes).len() == 8 * cubes.len(),
    decreases cubes.len(),
{
    if cubes.len() > 0 {
        lemma_cubes_counts(cubes.drop_last());
    }
}

/// Thirty-six indices per cube, each pointing into its own cube's eight
/// positions, so always below the total position count.
pub proof fn lemma_cubes_indices_wf(n: nat)
    requires
        8 * n <= 0x100000000,
    ensures
        spec_cubes_indices(n).len() == 36 * n,
        forall|j: int|
            0 <= j < 36 * n ==> (#[trigger] spec_cubes_indices(n)[j]) < 8 * n,
    decreases n,
{
    if n > 0 {
        lemma_cubes_indices_wf((n - 1) as nat);
        let prev = spec_cubes_indices((n - 1) as nat);
        let fresh = spec_cube_indices(8 * ((n - 1) as int));
        assert(fresh.len() == 36);
        assert forall|j: int| 0 <= j < 36 * n implies (#[trigger] spec_cubes_indices(n)[j]) < 8
            * n by {
            if j < 36 * (n - 1) {
                assert(spec_cubes_indices(n)[j] == prev[j]);
            } else {
                assert(spec_cubes_indices(n)[j] == fresh[j - 36 * (n - 1)]);
            }
        }
    }
}

/// Law: every emitted cube contributes exactly eight positions, eight
/// colors and thirty-six indices — twelve triangles.
pub proof fn lemma_cube_contribution(cubes: Seq<CubeGeom>, q: CubeGeom)
    ensures
        spec_cubes_positions(cubes.push(q)).len() == spec_cubes_positions(cubes).len() + 8,
        spec_cubes_colors(cubes.push(q)).len() == spec_cubes_colors(cubes).len() + 8,
        spec_cubes_indices(cubes.len() + 1).len() == spec_cubes_indices(cubes.len()).len() + 36,
{
    assert(cubes.push(q).drop_last() =~= cubes);
    lemma_cubes_counts(cubes);
    lemma_cubes_counts(cubes.push(q));
    assert(spec_cubes_indices(cubes.len() + 1) == spec_cubes_indices(cubes.len())
        + spec_cube_indices(8 * cubes.len() as int));
}

/// Law: a column below one unit of height contributes no geometry at all —
/// no positions, no indices, no colors.
pub proof fn lemma_sparse_skip(c: TerrainConfiguration, col: Column)
    requires
        col.height < 65536,
    ensures
        spec_column_cubes(c, col).len() == 0,
        spec_cubes_positions(spec_column_cubes(c, col)).len() == 0,
        spec_cubes_colors(spec_column_cubes(c, col)).len() == 0,
        spec_cubes_indices(spec_column_cubes(c, col).len()).len() == 0,
{
}

/// Law: generation is deterministic — equal configurations with equal
/// noise grids denote byte-identical meshes.
pub proof fn lemma_generation_deterministic(
    c1: TerrainConfiguration,
    c2: TerrainConfiguration,
    n1: Seq<i64>,
    n2: Seq<i64>,
    m1: Mesh,
    m2: Mesh,
)
    requires
        c1 == c2,
        n1 == n2,
        spec_mesh(c1, spec_columns(c1, n1), m1),
        spec_mesh(c2, spec_columns(c2, n2), m2),
    ensures
        m1.positions@ == m2.positions@,
        m1.indices@ == m2.indices@,
        m1.colors@ == m2.colors@,
{
}

/// Law: a column of exactly one unit (as every column is when the octave
/// count is zero) is retained and emits only its degenerate cap cube.
pub proof fn lemma_unit_column_cap_only(c: TerrainConfiguration, col: Column)
    requires
        col.height == 65536,
    ensures
        spec_column_cubes(c, col).len() == 1,
        spec_column_cubes(c, col)[0].height == 0,
{
    assert(65536int / 65536 == 1);
    assert(65536int % 65536 == 0);
}

/// The saturating green gradient byte.
pub fn green_byte(base_green: u8, t: u64) -> (g: u8)
    requires
        t <= 0x100010000,
    ensures
        g as int == spec_green(base_green as int, t as int),
{
    let v: u64 = (base_green as u64) * 65536 + 16384 + 45 * t / 2;
    let g64: u64 = v / 65536;
    if g64 > 255 {
        255
    } else {
        g64 as u8
    }
}

/// Appends the eight corners and thirty-six indices of one cube of edge
/// `size` and vertical extent `height` standing on `base`.
pub fn add_cube(
    positions: &mut Vec<Vec3Wrapper>,
    indices: &mut Vec<u32>,
    base: Vec3Wrapper,
    size: u64,
    height: u64,
)
    requires
        old(positions)@.len() + 8 <= 0x100000000,
        base.x + size <= 0xFFFFFFFFFFFFFFFF,
        base.y + height <= 0xFFFFFFFFFFFFFFFF,
        base.z + size <= 0xFFFFFFFFFFFFFFFF,
    ensures
        final(positions)@ == old(positions)@ + spec_cube_positions(base, size, height),
        final(indices)@ == old(indices)@ + spec_cube_indices(old(positions)@.len() as int),
{
    let start: u32 = positions.len() as u32;

    let p0 = base;
    let p1 = Vec3Wrapper { x: base.x + size, y: base.y, z: base.z };
    let p2 = Vec3Wrapper { x: base.x + size, y: base.y + height, z: base.z };
    let p3 = Vec3Wrapper { x: base.x, y: base.y + height, z: base.z };
    let p4 = Vec3Wrapper { x: base.x, y: base.y, z: base.z + size };
    let p5 = Vec3Wrapper { x: base.x + size, y: base.y, z: base.z + size };
    let p6 = Vec3Wrapper { x: base.x + size, y: base.y + height, z: base.z + size };
    let p7 = Vec3Wrapper { x: base.x, y: base.y + height, z: base.z + size };

    positions.push(p0);
    positions.push(p1);
    positions.push(p2);
    positions.push(p3);
    positions.push(p4);
    positions.push(p5);
    positions.push(p6);
    positions.push(p7);

    // front
    indices.push(start);
    indices.push(start + 1);
    indices.push(start + 2);
    indices.push(start);
    indices.push(start + 2);
    indices.push(start + 3);
    // back
    indices.push(start + 4);
    indices.push(start + 6);
    indices.push(start + 5);
    indices.push(start + 4);
    indices.push(start + 7);
    indices.push(start + 6);
    // left
    indices.push(start + 4);
    indices.push(start);
    indices.push(start + 3);
    indices.push(start + 4);
    indices.push(start + 3);
    indices.push(start + 7);
    // right
    indices.push(start + 1);
    indices.push(start + 5);
    indices.push(start + 6);
    indices.push(start + 1);
    indices.push(start + 6);
    indices.push(start + 2);
    // top
    indices.push(start + 3);
    indices.push(start + 2);
    indices.push(start + 6);
    indices.push(start + 3);
    indices.push(start + 6);
    indices.push(start + 7);
    // bottom
    indices.push(start + 4);
    indices.push(start + 5);
    indices.push(start + 1);
    indices.push(start + 4);
    indices.push(start + 1);
    indices.push(start);

    proof {
        assert(positions@ =~= old(positions)@ + spec_cube_positions(base, size, height));
        assert(indices@ =~= old(indices)@ + spec_cube_indices(old(positions)@.len() as int));
    }
}

/// Appending one cube extends the three geometry sequences by exactly its
/// own contribution.
proof fn lemma_push_cube(cubes: Seq<CubeGeom>, q: CubeGeom)
    ensures
        spec_cubes_positions(cubes.push(q)) == spec_cubes_positions(cubes) + spec_cube_positions(
            q.base,
            CUBE_SIZE,
            q.height,
        ),
        spec_cubes_colors(cubes.push(q)) == spec_cubes_colors(cubes) + Seq::new(
            8,
            |i: int| q.color,
        ),
        spec_cubes_indices(cubes.len() + 1) == spec_cubes_indices(cubes.len()) + spec_cube_indices(
            8 * cubes.len() as int,
        ),
{
    assert(cubes.push(q).drop_last() =~= cubes);
    assert(cubes.push(q).last() == q);
}

/// Emits one cube: its corners, its indices, and its flat color on all
/// eight vertices.
fn emit_cube(
    positions: &mut Vec<Vec3Wrapper>,
    indices: &mut Vec<u32>,
    colors: &mut Vec<Srgba>,
    base: Vec3Wrapper,
    height: u64,
    cube_color: Srgba,
)
    requires
        old(positions)@.len() + 8 <= 0x100000000,
        base.x + 65536 <= 0xFFFFFFFFFFFFFFFF,
        base.y + height <= 0xFFFFFFFFFFFFFFFF,
        base.z + 65536 <= 0xFFFFFFFFFFFFFFFF,
    ensures
        final(positions)@ == old(positions)@ + spec_cube_positions(base, CUBE_SIZE, height),
        final(indices)@ == old(indices)@ + spec_cube_indices(old(positions)@.len() as int),
        final(colors)@ == old(colors)@ + Seq::new(8, |i: int| cube_color),
{
    add_cube(positions, indices, base, CUBE_SIZE, height);
    colors.push(cube_color);
    colors.push(cube_color);
    colors.push(cube_color);
    colors.push(cube_color);
    colors.push(cube_color);
    colors.push(cube_color);
    colors.push(cube_color);
    colors.push(cube_color);
    proof {
        assert(colors@ =~= old(colors)@ + Seq::new(8, |i: int| cube_color));
    }
}

/// Converts a sampled column grid into the triangle mesh: per column, the
/// stacked unit cubes and the fractional cap, with the vertical green
/// gradient; columns below one unit are skipped entirely.
#[verifier::rlimit(50)]
pub fn cubes_to_voxel_mesh(cubes: &Vec<Column>, c: &TerrainConfiguration) -> (m: Mesh)
    requires
        c.wf(),
        columns_wf(*c, cubes@),
        8 * cubes@.len() * (c.max_height as int / 65536 + 1) <= 0xFFFFFFFF,
    ensures
        spec_mesh(*c, cubes@, m),
        mesh_wf(m),
{
    let mut positions: Vec<Vec3Wrapper> = Vec::new();
    let mut indices: Vec<u32> = Vec::new();
    let mut colors: Vec<Srgba> = Vec::new();
    let ghost mut gcubes: Seq<CubeGeom> = Seq::empty();
    let percol: u64 = c.max_height / 65536 + 1;
    let ncols: usize = cubes.len();
    proof {
        assert(MAX_HEIGHT_LIMIT == 0x100000000);
        assert(MAX_EXTENT == 65536);
    }
    let mut i: usize = 0;
    while i < ncols
        invariant
            c.wf(),
            columns_wf(*c, cubes@),
            ncols == cubes@.len(),
            percol == c.max_height as int / 65536 + 1,
            8 * cubes@.len() * (percol as int) <= 0xFFFFFFFF,
            i <= ncols,
            gcubes == spec_terrain_cubes(*c, cubes@.take(i as int)),
            gcubes.len() <= i as int * percol as int,
            positions@ == spec_cubes_positions(gcubes),
            indices@ == spec_cubes_indices(gcubes.len()),
            colors@ == spec_cubes_colors(gcubes),
            positions@.len() == 8 * gcubes.len(),
            colors@.len() == 8 * gcubes.len(),
        decreases ncols - i,
    {
        let col = cubes[i];
        proof {
            assert(cubes@.take(i + 1).drop_last() =~= cubes@.take(i as int));
            assert(cubes@.take(i + 1).last() == col);
            assert(i as int * percol as int + percol as int == (i + 1) as int * percol as int)
                by (nonlinear_arith);
            assert((i + 1) as int * percol as int <= cubes@.len() as int * percol as int)
                by (nonlinear_arith)
                requires
                    (i + 1) as int <= cubes@.len() as int,
                    percol as int >= 0,
            ;
            assert(c.max_height as int / 65536 <= 65536);
        }
        if col.height >= 65536 {
            let n: u64 = col.height / 65536;
            let f: u64 = col.height % 65536;
            let ghost colstart = gcubes;
            proof {
                lemma_div_is_ordered(65536, col.height as int, 65536);
                lemma_div_is_ordered(col.height as int, c.max_height as int + 65536, 65536);
                lemma_hoist_over_denominator(c.max_height as int, 1, 65536nat);
                assert(n as int <= percol as int);
                assert(spec_body_cubes(*c, col, 0) =~= Seq::<CubeGeom>::empty());
                assert(gcubes =~= colstart + spec_body_cubes(*c, col, 0));
            }
            let mut level: u64 = 1;
            while level < n
                invariant
                    c.wf(),
                    percol == c.max_height as int / 65536 + 1,
                    c.max_height as int / 65536 <= 65536,
                    8 * cubes@.len() * (percol as int) <= 0xFFFFFFFF,
                    i < ncols,
                    ncols == cubes@.len(),
                    1 <= level <= n,
                    n == col.height as int / 65536,
                    f == col.height as int % 65536,
                    n <= percol,
                    col.height >= 65536,
                    col.height as int <= c.max_height as int + 65536,
                    col.x <= 65536,
                    col.y <= 65536,
                    gcubes == colstart + spec_body_cubes(*c, col, (level - 1) as nat),
                    colstart.len() <= i as int * percol as int,
                    gcubes.len() == colstart.len() + level - 1,
                    positions@ == spec_cubes_positions(gcubes),
                    indices@ == spec_cubes_indices(gcubes.len()),
                    colors@ == spec_cubes_colors(gcubes),
                    positions@.len() == 8 * gcubes.len(),
                    colors@.len() == 8 * gcubes.len(),
                decreases n - level,
            {
                proof {
                    assert(8 * (gcubes.len() + 1) <= 0xFFFFFFFF) by (nonlinear_arith)
                        requires
                            gcubes.len() <= i as int * percol as int + level as int - 1,
                            (level as int) < n as int,
                            n as int <= percol as int,
                            (i as int) < cubes@.len() as int,
                            8 * cubes@.len() * (percol as int) <= 0xFFFFFFFF,
                    ;
                    assert((n - level + 1) as int * 65536 <= n as int * 65536);
                    lemma_div_is_ordered(
                        (n - level + 1) as int * 65536,
                        n as int * 65536,
                        2 * n as int,
                    );
                    assert(2 * n as int * 32768 == n as int * 65536) by (nonlinear_arith);
                    lemma_div_multiples_vanish(32768, 2 * n as int);
                    assert(n as int * 65536 / (2 * n as int) == 32768);
                }
                let q: u64 = ((n - level + 1) * 65536) / (2 * n);
                let t: u64 = col.height - q;
                let green = green_byte(c.color_g, t);
                let cube_color = Srgba::new(c.color_r, green, c.color_b, 255);
                let base = Vec3Wrapper {
                    x: (col.x as u64) * 65536,
                    y: level * 65536,
                    z: (col.y as u64) * 65536,
                };
                let ghost gprev = gcubes;
                let ghost q_ghost = CubeGeom { base, height: 65536, color: cube_color };
                emit_cube(&mut positions, &mut indices, &mut colors, base, 65536, cube_color);
                proof {
                    assert(spec_body_t(col.height as int, n as int, level as int) == t as int);
                    assert(cube_color == spec_body_color(
                        *c,
                        col.height as int,
                        n as int,
                        level as int,
                    ));
                    gcubes = gcubes.push(q_ghost);
                    lemma_push_cube(gprev, q_ghost);
                    assert(spec_body_cubes(*c, col, level as nat) =~= spec_body_cubes(
                        *c,
                        col,
                        (level - 1) as nat,
                    ).push(q_ghost));
                    assert(gcubes =~= colstart + spec_body_cubes(*c, col, level as nat));
                }
                level = level + 1;
            }
            proof {
                assert(8 * (gcubes.len() + 1) <= 0xFFFFFFFF) by (nonlinear_arith)
                    requires
                        gcubes.len() <= i as int * percol as int + level as int - 1,
                        level as int <= n as int,
                        n as int <= percol as int,
                        (i as int) < cubes@.len() as int,
                        8 * cubes@.len() * (percol as int) <= 0xFFFFFFFF,
                ;
            }
            let green = green_byte(c.color_g, col.height);
            let cube_color = Srgba::new(c.color_r, green, c.color_b, 255);
            let base = Vec3Wrapper {
                x: (col.x as u64) * 65536,
                y: n * 65536,
                z: (col.y as u64) * 65536,
            };
            let ghost gprev = gcubes;
            let ghost q_ghost = CubeGeom { base, height: f, color: cube_color };
            emit_cube(&mut positions, &mut indices, &mut colors, base, f, cube_color);
            proof {
                assert(cube_color == spec_cap_color(*c, col.height as int));
                assert(q_ghost == spec_cap_cube(*c, col));
                gcubes = gcubes.push(q_ghost);
                lemma_push_cube(gprev, q_ghost);
                assert(gcubes =~= colstart + spec_column_cubes(*c, col));
                assert(gcubes =~= spec_terrain_cubes(*c, cubes@.take(i + 1)));
                assert(gcubes.len() <= (i + 1) as int * percol as int) by (nonlinear_arith)
                    requires
                        gcubes.len() <= i as int * percol as int + n as int,
                        n as int <= percol as int,
                        i as int >= 0,
                ;
            }
        } else {
            proof {
                assert(spec_column_cubes(*c, col) =~= Seq::<CubeGeom>::empty());
                assert(gcubes =~= spec_terrain_cubes(*c, cubes@.take(i + 1)));
                assert(gcubes.len() <= (i + 1) as int * percol as int) by (nonlinear_arith)
                    requires
                        gcubes.len() <= i as int * percol as int,
                        percol as int >= 0,
                ;
            }
        }
        i = i + 1;
    }
    proof {
        assert(cubes@.take(ncols as int) =~= cubes@);
        lemma_cubes_counts(gcubes);
        assert(8 * gcubes.len() <= 0x100000000) by (nonlinear_arith)
            requires
                gcubes.len() <= cubes@.len() as int * percol as int,
                8 * cubes@.len() * (percol as int) <= 0xFFFFFFFF,
        ;
        lemma_cubes_indices_wf(gcubes.len());
        assert(36 * gcubes.len() == (12 * gcubes.len()) * 3);
        lemma_mod_multiples_basic(12 * gcubes.len() as int, 3);
    }
    Mesh { positions, indices, colors }
}

/// Generates the terrain mesh for a configuration and its noise-sample
/// grid: samples the damped height field over the whole extent, then
/// meshes every column. Fails with `NumericDegeneracy` exactly when the
/// falloff radius is zero; no partial mesh is ever returned.
pub fn configure_terrain(c: &TerrainConfiguration, noise: &Vec<i64>) -> (r: Result<
    Mesh,
    TerrainError,
>)
    requires
        c.wf(),
        noise_bounded(noise@),
        noise@.len() == c.tot_width * c.tot_depth * c.fractal_octaves,
        8 * (c.tot_width * c.tot_depth) * (c.max_height as int / 65536 + 1) <= 0xFFFFFFFF,
    ensures
        match r {
            Ok(m) => c.falloff > 0 && spec_mesh(*c, spec_columns(*c, noise@), m) && mesh_wf(m),
            Err(e) => e == TerrainError::NumericDegeneracy && c.falloff == 0,
        },
{
    if c.falloff == 0 {
        return Err(TerrainError::NumericDegeneracy);
    }
    let columns = build_columns(c, noise);
    proof {
        assert(columns@.len() == c.tot_width * c.tot_depth);
    }
    Ok(cubes_to_voxel_mesh(&columns, c))
}

} // verus!
