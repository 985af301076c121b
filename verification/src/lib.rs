//! Voxel terrain mesh generation.
//!
//! The library turns a terrain configuration (grid extents, seed, base color,
//! height scale, radial falloff, fractal octave count) together with a grid of
//! noise samples into a triangle mesh of stacked unit cubes.
//!
//! Heights, falloff factors and vertex coordinates are carried in
//! fixed-point integers with 16 fractional bits, so that the whole pipeline
//! is verified: one cube edge is exactly `CUBE_SIZE` fixed-point steps. The
//! seeded noise oracle is an interchangeable external collaborator; its
//! per-octave samples enter the pipeline as plain bounded integers, and
//! every result is proved for every value those samples may take.

mod color;
mod config;
mod grid;
mod heightfield;
mod math;
mod mesher;

pub use color::Srgba;
pub use color::color_byte;
pub use color::color_string_ok;
pub use color::decode_color;
pub use color::hex_digit_value;
pub use color::is_hex_digit;
pub use config::MAX_EXTENT;
pub use config::MAX_HEIGHT_LIMIT;
pub use config::TerrainConfiguration;
pub use config::TerrainError;
pub use grid::Column;
pub use grid::build_columns;
pub use grid::columns_wf;
pub use grid::falloff_factor;
pub use grid::lemma_falloff_monotone;
pub use grid::lemma_zero_octaves_column_height;
pub use grid::spec_column_height;
pub use grid::spec_columns;
pub use grid::spec_dist;
pub use grid::spec_falloff_factor;
pub use heightfield::fractal_noise;
pub use heightfield::lemma_zero_octaves;
pub use heightfield::noise_bounded;
pub use heightfield::samples_bounded;
pub use heightfield::spec_amplitude;
pub use heightfield::spec_fractal_height;
pub use heightfield::spec_noise_sum;
pub use heightfield::spec_samples_at;
pub use math::CUBE_SIZE;
pub use math::isqrt;
pub use math::sqrt_floor;
pub use mesher::CubeGeom;
pub use mesher::Mesh;
pub use mesher::Vec3Wrapper;
pub use mesher::add_cube;
pub use mesher::green_byte;
pub use mesher::lemma_cube_contribution;
pub use mesher::lemma_generation_deterministic;
pub use mesher::lemma_sparse_skip;
pub use mesher::lemma_unit_column_cap_only;
pub use mesher::mesh_wf;
pub use mesher::spec_body_color;
pub use mesher::spec_body_cubes;
pub use mesher::spec_body_t;
pub use mesher::spec_cap_color;
pub use mesher::spec_cap_cube;
pub use mesher::spec_column_cubes;
pub use mesher::spec_cube_indices;
pub use mesher::spec_cube_positions;
pub use mesher::spec_cubes_colors;
pub use mesher::spec_cubes_indices;
pub use mesher::spec_cubes_positions;
pub use mesher::spec_green;
pub use mesher::configure_terrain;
pub use mesher::cubes_to_voxel_mesh;
pub use mesher::spec_mesh;
pub use mesher::spec_terrain_cubes;
