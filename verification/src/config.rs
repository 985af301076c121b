//! Validated terrain parameters and the failure taxonomy.

use vstd::prelude::*;
use crate::color::{color_byte, color_string_ok, decode_color};

verus! {

/// Largest admissible grid extent, in cells: keeps every vertex coordinate
/// well inside a `u64`.
pub const MAX_EXTENT: u32 = 65536;

/// Largest admissible height ceiling, in fixed-point units: keeps the
/// fractal accumulator products well inside the machine's integers.
pub const MAX_HEIGHT_LIMIT: u64 = 0x100000000;

/// How terrain generation fails.
#[derive(Clone, Copy, Debug, PartialEq, Eq, Structural)]
pub enum TerrainError {
    /// The color string is not exactly six hexadecimal characters.
    ConfigurationError,
    /// The falloff radius is zero: the radial damping quotient is undefined.
    NumericDegeneracy,
}

/// Validated parameters of one generation call.
///
/// Extents are cell counts; `max_height` and `falloff` are fixed-point
/// (`CUBE_SIZE` is one unit). The base color is decoded into its three bytes
/// here, at construction, so a malformed string is rejected before any
/// geometry work starts. The seed, the depth-slice coordinate and the
/// per-octave frequency multiplier parameterize only the external noise
/// collaborator; of those only the integer seed is carried here, while the
/// two continuous ones stay with the noise backend at the boundary.
#[derive(Clone, Copy, Debug)]
pub struct TerrainConfiguration {
    pub tot_width: u32,
    pub tot_depth: u32,
    pub seed: i64,
    pub color_r: u8,
    pub color_g: u8,
    pub color_b: u8,
    pub max_height: u64,
    pub falloff: u64,
    pub fractal_octaves: u32,
}

impl TerrainConfiguration {
    /// Bounds that every constructed configuration satisfies.
    pub open spec fn wf(self) -> bool {
        self.tot_width <= MAX_EXTENT && self.tot_depth <= MAX_EXTENT && self.max_height
            <= MAX_HEIGHT_LIMIT
    }

    /// Validates and builds a configuration. Fails with
    /// `ConfigurationError` exactly when the color string is not six
    /// hexadecimal characters; every other parameter is taken as given.
    pub fn new(
        tot_width: u32,
        tot_depth: u32,
        seed: i64,
        color: String,
        max_height: u64,
        falloff: u64,
        fractal_octaves: u32,
    ) -> (r: Result<TerrainConfiguration, TerrainError>)
        requires
            tot_width <= MAX_EXTENT,
            tot_depth <= MAX_EXTENT,
            max_height <= MAX_HEIGHT_LIMIT,
        ensures
            match r {
                Ok(c) => color_string_ok(color@) && c.wf() && c.tot_width == tot_width
                    && c.tot_depth == tot_depth && c.seed == seed && c.color_r == color_byte(
                    color@,
                    0,
                ) && c.color_g == color_byte(color@, 1) && c.color_b == color_byte(color@, 2)
                    && c.max_height == max_height && c.falloff == falloff && c.fractal_octaves
                    == fractal_octaves,
                Err(e) => e == TerrainError::ConfigurationError && !color_string_ok(color@),
            },
    {
        match decode_color(color.as_str()) {
            Some((color_r, color_g, color_b)) => Ok(
                TerrainConfiguration {
                    tot_width,
                    tot_depth,
                    seed,
                    color_r,
                    color_g,
                    color_b,
                    max_height,
                    falloff,
                    fractal_octaves,
                },
            ),
            None => Err(TerrainError::ConfigurationError),
        }
    }
}

} // verus!
