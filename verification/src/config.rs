//! The configuration of the terrain pipeline, and what it can be refused
//! for.

use vstd::prelude::*;
use crate::bands::BandRules;
use crate::sampler::{octave_weight, Sampler};
use crate::terrace::TerraceRules;

verus! {

/// The reason a configuration is refused before anything is rendered.
#[derive(Clone, Copy, Debug, PartialEq, Eq, Structural)]
pub enum ConfigError {
    /// The raster has no column or no row.
    EmptyGrid,
    /// The raster has more pixels than a machine index can count.
    GridTooLarge,
    /// There is no noise field to draw from.
    NoFields,
    /// A sampler was given no octave.
    EmptyOctaves,
    /// A base scalar is zero: it has no reciprocal.
    ZeroScalar,
    /// The growth factor is below one.
    GrowthBelowOne,
    /// A sampler has more octaves than its growth factor leaves a weight
    /// for: the weight of the last one would be nothing.
    TooManyOctaves,
    /// There is no terrace.
    ZeroTerraces,
    /// The ramp threshold is not below the lifting threshold.
    ThresholdOrder,
    /// A share of the water shading lies outside its range.
    ShadeOutOfRange,
}

/// The frequency that the second pass of the canonical profile starts
/// from: twice that of the ground, and mirrored.
pub const SECOND_PASS_SCALAR: i64 = -8_000_000;

/// Everything that a run of the terrain pipeline is made with.
#[derive(Clone, Copy, Debug)]
pub struct Config {
    /// The raster's width in pixels.
    pub width: usize,
    /// The raster's height in pixels.
    pub height: usize,
    /// The number of noise fields; field `i` is seeded with `i`.
    pub field_count: usize,
    /// The frequency that the blend and the ramp texture start from.
    pub scalar: i64,
    /// The gain with which raw samples are carried into `[0, UNIT]`.
    pub gain: i64,
    /// The octaves of the base sample of the ground.
    pub ground: Sampler,
    /// The first field of the ground octaves.
    pub ground_offset: usize,
    /// The octaves of the second pass, which moves pixels between terraces.
    pub terrace: Sampler,
    /// The first field of the second pass.
    pub terrace_offset: usize,
    /// The octaves of the water level.
    pub water: Sampler,
    /// The first field of the water level.
    pub water_offset: usize,
    /// The field of the ramp texture.
    pub ramp_offset: usize,
    /// The frequency of the ramp texture.
    pub ramp_scalar: i64,
    /// How heights are cut into terraces.
    pub terrace_rules: TerraceRules,
    /// How water is shaded and ramps are told from cliffs.
    pub band_rules: BandRules,
    /// The first of the variants; a variant's number is the field that its
    /// field set starts with.
    pub first_variant: usize,
    /// The number of variants.
    pub variant_count: usize,
}

impl Config {
    /// Why the configuration is refused, if it is: the first of its faults.
    pub open spec fn fault(&self) -> Option<ConfigError> {
        if self.width == 0 || self.height == 0 {
            Some(ConfigError::EmptyGrid)
        } else if self.width * self.height > usize::MAX {
            Some(ConfigError::GridTooLarge)
        } else if self.field_count == 0 {
            Some(ConfigError::NoFields)
        } else if self.ground.fault().is_some() {
            self.ground.fault()
        } else if self.terrace.fault().is_some() {
            self.terrace.fault()
        } else if self.water.fault().is_some() {
            self.water.fault()
        } else if self.terrace_rules.fault().is_some() {
            self.terrace_rules.fault()
        } else {
            self.band_rules.fault()
        }
    }

    /// The configuration can be rendered.
    pub open spec fn wf(&self) -> bool {
        &&& self.width > 0
        &&& self.height > 0
        &&& self.width * self.height <= usize::MAX
        &&& self.field_count > 0
        &&& self.ground.wf()
        &&& self.terrace.wf()
        &&& self.water.wf()
        &&& self.terrace_rules.wf()
        &&& self.band_rules.wf()
    }

    /// Accepts the configuration, or refuses it for the first of its faults.
    pub fn validate(&self) -> (r: Result<(), ConfigError>)
        ensures
            r.is_ok() <==> self.wf(),
            match r {
                Ok(_) => self.fault().is_none(),
                Err(e) => self.fault() == Some(e),
            },
    {
        if self.width == 0 || self.height == 0 {
            return Err(ConfigError::EmptyGrid);
        }
        assert(0 <= self.width * self.height <= 0xffff_ffff_ffff_ffff * 0xffff_ffff_ffff_ffff)
            by (nonlinear_arith)
            requires
                0 <= self.width <= 0xffff_ffff_ffff_ffff,
                0 <= self.height <= 0xffff_ffff_ffff_ffff,
        ;
        let pixels: u128 = (self.width as u128) * (self.height as u128);
        if pixels > usize::MAX as u128 {
            return Err(ConfigError::GridTooLarge);
        }
        if self.field_count == 0 {
            return Err(ConfigError::NoFields);
        }
        if let Some(e) = self.ground.check() {
            return Err(e);
        }
        if let Some(e) = self.terrace.check() {
            return Err(e);
        }
        if let Some(e) = self.water.check() {
            return Err(e);
        }
        if let Some(e) = self.terrace_rules.check() {
            return Err(e);
        }
        if let Some(e) = self.band_rules.check() {
            return Err(e);
        }
        Ok(())
    }

    /// The canonical profile: a raster of 2048 by 2048 pixels, 32 fields,
    /// six ground octaves from frequency 4 that grow by 2.1, four octaves
    /// of the second pass from frequency -8, two water octaves from
    /// frequency 1, a ramp texture at frequency 80, 21 terraces, and eight
    /// variants from the ninth field on.
    pub open spec fn spec_canonical() -> Config {
        Config {
            width: 2048,
            height: 2048,
            field_count: 32,
            scalar: 4_000_000,
            gain: 1_900_000,
            ground: Sampler {
                base_scalar: 4_000_000,
                growth: 2_100_000,
                octaves: 6,
                reversed: false,
            },
            ground_offset: 0,
            terrace: Sampler {
                base_scalar: SECOND_PASS_SCALAR,
                growth: 2_100_000,
                octaves: 4,
                reversed: false,
            },
            terrace_offset: 2,
            water: Sampler {
                base_scalar: 1_000_000,
                growth: 2_100_000,
                octaves: 2,
                reversed: false,
            },
            water_offset: 4,
            ramp_offset: 6,
            ramp_scalar: 80_000_000,
            terrace_rules: TerraceRules {
                terraces: 21,
                ramp_prop: 150_000,
                close_when_over: 582_000,
                inc_when_over: 600_000,
            },
            band_rules: BandRules {
                depth_gain: 6_000_000,
                darkness_cap: 600_000,
                water_brightness: 400_000,
                water_dim: 400_000,
                ramp_threshold: 650_000,
            },
            first_variant: 8,
            variant_count: 8,
        }
    }

    /// The canonical profile.
    pub fn canonical() -> (c: Config)
        ensures
            c == Config::spec_canonical(),
            c.wf(),
    {
        assert(2048 * 2048 == 4_194_304) by (nonlinear_arith);
        proof {
            reveal_with_fuel(octave_weight, 6);
            assert(octave_weight(2_100_000, 1) == 476_190_476_190);
            assert(octave_weight(2_100_000, 3) == 107_979_699_816);
            assert(octave_weight(2_100_000, 5) == 24_485_192_701);
        }
        Config {
            width: 2048,
            height: 2048,
            field_count: 32,
            scalar: 4_000_000,
            gain: 1_900_000,
            ground: Sampler {
                base_scalar: 4_000_000,
                growth: 2_100_000,
                octaves: 6,
                reversed: false,
            },
            ground_offset: 0,
            terrace: Sampler {
                base_scalar: SECOND_PASS_SCALAR,
                growth: 2_100_000,
                octaves: 4,
                reversed: false,
            },
            terrace_offset: 2,
            water: Sampler {
                base_scalar: 1_000_000,
                growth: 2_100_000,
                octaves: 2,
                reversed: false,
            },
            water_offset: 4,
            ramp_offset: 6,
            ramp_scalar: 80_000_000,
            terrace_rules: TerraceRules {
                terraces: 21,
                ramp_prop: 150_000,
                close_when_over: 582_000,
                inc_when_over: 600_000,
            },
            band_rules: BandRules {
                depth_gain: 6_000_000,
                darkness_cap: 600_000,
                water_brightness: 400_000,
                water_dim: 400_000,
                ramp_threshold: 650_000,
            },
            first_variant: 8,
            variant_count: 8,
        }
    }
}

} // verus!
