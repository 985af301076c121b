use voxel_terrain::Column;
use voxel_terrain::Srgba;
use voxel_terrain::TerrainConfiguration;
use voxel_terrain::TerrainError;
use voxel_terrain::Vec3Wrapper;
use voxel_terrain::add_cube;
use voxel_terrain::configure_terrain;
use voxel_terrain::cubes_to_voxel_mesh;
use voxel_terrain::decode_color;
use voxel_terrain::falloff_factor;
use voxel_terrain::fractal_noise;
use voxel_terrain::green_byte;
use voxel_terrain::isqrt;

const UNIT: u64 = 65536;

fn config(
    w: u32,
    d: u32,
    color: &str,
    max_height: u64,
    falloff: u64,
    octaves: u32,
) -> TerrainConfiguration {
    TerrainConfiguration::new(w, d, 1, String::from(color), max_height, falloff, octaves).unwrap()
}

#[test]
fn srgba_new_sets_all_channels() {
    let c = Srgba::new(1, 2, 3, 4);
    assert_eq!(c.r, 1);
    assert_eq!(c.g, 2);
    assert_eq!(c.b, 3);
    assert_eq!(c.a, 4);
}

#[test]
fn decode_color_exact_bytes() {
    assert_eq!(decode_color("336699"), Some((0x33, 0x66, 0x99)));
    assert_eq!(decode_color("000000"), Some((0, 0, 0)));
    assert_eq!(decode_color("fFaA09"), Some((255, 170, 9)));
}

#[test]
fn decode_color_rejects_non_hex() {
    assert_eq!(decode_color("ZZ0000"), None);
    assert_eq!(decode_color("33669g"), None);
}

#[test]
fn decode_color_rejects_wrong_length() {
    assert_eq!(decode_color(""), None);
    assert_eq!(decode_color("33669"), None);
    assert_eq!(decode_color("3366990"), None);
}

#[test]
fn configuration_rejects_malformed_color() {
    let r = TerrainConfiguration::new(2, 2, 1, String::from("ZZ0000"), 5 * UNIT, 10 * UNIT, 1);
    assert_eq!(r.unwrap_err(), TerrainError::ConfigurationError);
}

#[test]
fn configuration_decodes_color_at_construction() {
    let c = config(2, 2, "336699", 5 * UNIT, 10 * UNIT, 1);
    assert_eq!(c.color_r, 51);
    assert_eq!(c.color_g, 102);
    assert_eq!(c.color_b, 153);
    assert_eq!(c.tot_width, 2);
    assert_eq!(c.tot_depth, 2);
    assert_eq!(c.max_height, 5 * UNIT);
    assert_eq!(c.falloff, 10 * UNIT);
    assert_eq!(c.fractal_octaves, 1);
}

#[test]
fn zero_falloff_is_numeric_degeneracy() {
    let c = config(2, 2, "336699", 5 * UNIT, 0, 1);
    let r = configure_terrain(&c, &vec![0, 0, 0, 0]);
    assert_eq!(r.unwrap_err(), TerrainError::NumericDegeneracy);
}

#[test]
fn isqrt_exact_values() {
    assert_eq!(isqrt(0), 0);
    assert_eq!(isqrt(1), 1);
    assert_eq!(isqrt(24), 4);
    assert_eq!(isqrt(25), 5);
    assert_eq!(isqrt(u64::MAX as u128), 4294967295);
}

#[test]
fn falloff_factor_exact() {
    // dist 5 of radius 10: half the radius leaves half the factor.
    assert_eq!(falloff_factor(3, 4, 10 * UNIT), UNIT / 2);
    // at the origin corner nothing is damped.
    assert_eq!(falloff_factor(0, 0, 7 * UNIT), UNIT);
    // beyond the radius the factor floors at zero.
    assert_eq!(falloff_factor(3, 4, 4 * UNIT), 0);
}

#[test]
fn falloff_factor_never_increases_with_distance() {
    let radius = 10 * UNIT;
    let near = falloff_factor(0, 0, radius);
    let mid = falloff_factor(3, 4, radius);
    let far = falloff_factor(6, 8, radius);
    let out = falloff_factor(30, 40, radius);
    assert!(near >= mid && mid >= far && far >= out);
    assert_eq!(out, 0);
}

#[test]
fn fractal_noise_exact_half_sample() {
    // one octave, sample 0.5: height is half the ceiling.
    let c = config(1, 1, "336699", 5 * UNIT, 10 * UNIT, 1);
    assert_eq!(fractal_noise(&c, &vec![32768], 0), 163840);
}

#[test]
fn fractal_noise_clamps_negative_to_zero() {
    let c = config(1, 1, "336699", 5 * UNIT, 10 * UNIT, 1);
    assert_eq!(fractal_noise(&c, &vec![-32768], 0), 0);
}

#[test]
fn fractal_noise_second_octave_has_half_amplitude() {
    // octave amplitudes 1 and 1/2: a full sample in the second octave
    // alone contributes half.
    let c = config(1, 1, "336699", 5 * UNIT, 10 * UNIT, 2);
    assert_eq!(fractal_noise(&c, &vec![0, 65536], 0), 163840);
}

#[test]
fn fractal_noise_clamps_to_ceiling() {
    // 1.5 units of accumulated noise clamps at the one-unit ceiling.
    let c = config(1, 1, "336699", UNIT, 10 * UNIT, 2);
    assert_eq!(fractal_noise(&c, &vec![65536, 65536], 0), UNIT);
}

#[test]
fn green_byte_matches_gradient_formula() {
    // base 102, t = 3.0: 102 + 0.25 + 22.5 * 3 = 169.75, narrowed to 169.
    assert_eq!(green_byte(102, 3 * UNIT), 169);
}

#[test]
fn green_byte_saturates_at_one_byte() {
    assert_eq!(green_byte(255, 50 * UNIT), 255);
}

#[test]
fn add_cube_emits_eight_corners_and_thirty_six_indices() {
    let mut positions: Vec<Vec3Wrapper> = Vec::new();
    let mut indices: Vec<u32> = Vec::new();
    let base = Vec3Wrapper { x: 0, y: 0, z: 0 };
    add_cube(&mut positions, &mut indices, base, UNIT, UNIT);
    assert_eq!(positions.len(), 8);
    assert_eq!(indices.len(), 36);
    let expected_positions = vec![
        Vec3Wrapper { x: 0, y: 0, z: 0 },
        Vec3Wrapper { x: UNIT, y: 0, z: 0 },
        Vec3Wrapper { x: UNIT, y: UNIT, z: 0 },
        Vec3Wrapper { x: 0, y: UNIT, z: 0 },
        Vec3Wrapper { x: 0, y: 0, z: UNIT },
        Vec3Wrapper { x: UNIT, y: 0, z: UNIT },
        Vec3Wrapper { x: UNIT, y: UNIT, z: UNIT },
        Vec3Wrapper { x: 0, y: UNIT, z: UNIT },
    ];
    assert_eq!(positions, expected_positions);
    let expected_indices: Vec<u32> = vec![
        0, 1, 2, 0, 2, 3, // front
        4, 6, 5, 4, 7, 6, // back
        4, 0, 3, 4, 3, 7, // left
        1, 5, 6, 1, 6, 2, // right
        3, 2, 6, 3, 6, 7, // top
        4, 5, 1, 4, 1, 0, // bottom
    ];
    assert_eq!(indices, expected_indices);
}

#[test]
fn second_cube_indices_start_at_eight() {
    let mut positions: Vec<Vec3Wrapper> = Vec::new();
    let mut indices: Vec<u32> = Vec::new();
    let base = Vec3Wrapper { x: 0, y: 0, z: 0 };
    add_cube(&mut positions, &mut indices, base, UNIT, UNIT);
    let upper = Vec3Wrapper { x: 0, y: UNIT, z: 0 };
    add_cube(&mut positions, &mut indices, upper, UNIT, UNIT);
    assert_eq!(positions.len(), 16);
    assert_eq!(indices.len(), 72);
    assert_eq!(indices[36], 8);
    assert_eq!(indices[37], 9);
    assert!(indices.iter().all(|&ix| (ix as usize) < positions.len()));
}

#[test]
fn sparse_column_contributes_nothing() {
    let c = config(2, 2, "336699", 5 * UNIT, 10 * UNIT, 1);
    let cols = vec![Column { x: 0, y: 0, height: UNIT - 1 }];
    let m = cubes_to_voxel_mesh(&cols, &c);
    assert_eq!(m.positions.len(), 0);
    assert_eq!(m.indices.len(), 0);
    assert_eq!(m.colors.len(), 0);
}

#[test]
fn unit_column_emits_only_the_degenerate_cap() {
    let c = config(2, 2, "336699", 5 * UNIT, 10 * UNIT, 1);
    let cols = vec![Column { x: 0, y: 0, height: UNIT }];
    let m = cubes_to_voxel_mesh(&cols, &c);
    assert_eq!(m.positions.len(), 8);
    assert_eq!(m.indices.len(), 36);
    assert_eq!(m.colors.len(), 8);
    // the cap sits at one unit and has zero height.
    assert_eq!(m.positions[0], Vec3Wrapper { x: 0, y: UNIT, z: 0 });
    assert_eq!(m.positions[2], Vec3Wrapper { x: UNIT, y: UNIT, z: 0 });
}

#[test]
fn whole_number_height_still_emits_degenerate_cap() {
    let c = config(2, 2, "336699", 5 * UNIT, 10 * UNIT, 1);
    let cols = vec![Column { x: 0, y: 0, height: 3 * UNIT }];
    let m = cubes_to_voxel_mesh(&cols, &c);
    // levels 1 and 2, then a zero-height cap at level 3.
    assert_eq!(m.positions.len(), 24);
    assert_eq!(m.positions[16], Vec3Wrapper { x: 0, y: 3 * UNIT, z: 0 });
    assert_eq!(m.positions[18], Vec3Wrapper { x: UNIT, y: 3 * UNIT, z: 0 });
}

#[test]
fn falloff_factor_floors_non_square_distances() {
    // dist sqrt(2): fixed-point sqrt(2 << 32) floors to 92681.
    assert_eq!(falloff_factor(1, 1, 10 * UNIT), UNIT - 92681 * UNIT / (10 * UNIT));
    assert_eq!(falloff_factor(1, 1, 10 * UNIT), 56268);
}

#[test]
fn scenario_four_grid_cells() {
    // width 2, depth 2, one octave: exactly four cells are sampled.
    let c = config(2, 2, "336699", 5 * UNIT, 10 * UNIT, 1);
    let noise: Vec<i64> = vec![32768, -16384, 65536, 0];
    let m = configure_terrain(&c, &noise).unwrap();
    // cell (0,0): height 3.5 units -> 3 cubes; (0,1): 1 unit -> 1 cube;
    // (1,0): 5.5 units -> 5 cubes; (1,1): 1 unit -> 1 cube.
    assert_eq!(m.positions.len(), 80);
    assert_eq!(m.colors.len(), 80);
    assert_eq!(m.indices.len(), 360);
    // every included column contributes a multiple of 8 vertices and 36
    // indices, and the mesh is structurally sound.
    assert_eq!(m.positions.len() % 8, 0);
    assert_eq!(m.indices.len() % 36, 0);
    assert_eq!(m.indices.len() % 3, 0);
    assert!(m.indices.iter().all(|&ix| (ix as usize) < m.positions.len()));
    // exact gradient bytes of the first column (heights darken downward).
    assert_eq!(m.colors[0], Srgba::new(51, 169, 153, 255));
    assert_eq!(m.colors[8], Srgba::new(51, 173, 153, 255));
    assert_eq!(m.colors[16], Srgba::new(51, 181, 153, 255));
    // the fourth cube is the unit cap of cell (0,1).
    assert_eq!(m.colors[24], Srgba::new(51, 124, 153, 255));
    // first body cube of the first column stands at one unit.
    assert_eq!(m.positions[0], Vec3Wrapper { x: 0, y: UNIT, z: 0 });
    assert_eq!(m.positions[6], Vec3Wrapper { x: UNIT, y: 2 * UNIT, z: UNIT });
    // its cap keeps the fractional half unit.
    assert_eq!(m.positions[16], Vec3Wrapper { x: 0, y: 3 * UNIT, z: 0 });
    assert_eq!(m.positions[18], Vec3Wrapper { x: UNIT, y: 3 * UNIT + UNIT / 2, z: 0 });
}

#[test]
fn generation_is_deterministic() {
    let c1 = config(2, 2, "336699", 5 * UNIT, 10 * UNIT, 1);
    let c2 = config(2, 2, "336699", 5 * UNIT, 10 * UNIT, 1);
    let noise: Vec<i64> = vec![32768, -16384, 65536, 0];
    let m1 = configure_terrain(&c1, &noise).unwrap();
    let m2 = configure_terrain(&c2, &noise).unwrap();
    assert_eq!(m1.positions, m2.positions);
    assert_eq!(m1.indices, m2.indices);
    assert_eq!(m1.colors, m2.colors);
}

#[test]
fn zero_octaves_keeps_every_column_at_one_unit() {
    let c = config(2, 2, "336699", 5 * UNIT, 10 * UNIT, 0);
    let noise: Vec<i64> = Vec::new();
    let m = configure_terrain(&c, &noise).unwrap();
    // all four columns are retained, each as a single degenerate cap.
    assert_eq!(m.positions.len(), 32);
    assert_eq!(m.indices.len(), 144);
    assert_eq!(m.colors.len(), 32);
    for k in 0..4 {
        // each cap sits at exactly one unit with zero height.
        assert_eq!(m.positions[8 * k].y, UNIT);
        assert_eq!(m.positions[8 * k + 2].y, UNIT);
    }
}
