//! The band compositor: the four raster channels of one pixel, from its
//! ground height, its terrace, the water level and the ramp texture.

use vstd::prelude::*;
use crate::config::ConfigError;
use crate::fixed::{clamp, fixed_mul, frac_to_byte, mul_wide, spec_frac_to_byte, UNIT};
use crate::rivers::Rgba;
use crate::terrace::{level_byte, Terrace};

verus! {

/// How water is shaded and ramps are told from cliffs.
#[derive(Clone, Copy, Debug, PartialEq, Eq, Structural)]
pub struct BandRules {
    /// How fast water darkens with depth.
    pub depth_gain: i64,
    /// The darkness that the deepest water has.
    pub darkness_cap: i64,
    /// The blue of water of no depth.
    pub water_brightness: i64,
    /// The share of the blue that the red and green of water have.
    pub water_dim: i64,
    /// A ramp-texture sample above this is a ramp that can be walked; one at
    /// or below it is a cliff.
    pub ramp_threshold: i64,
}

/// The four pixels of one place, one for each raster.
#[derive(Clone, Copy, Debug)]
pub struct Bands {
    pub ground: Rgba,
    pub terrace: Rgba,
    pub water: Rgba,
    pub ramp: Rgba,
}

/// The place is under water: the ground lies strictly below the water
/// level. Ground exactly at the water level is dry.
pub open spec fn is_submerged(ground: int, water: int) -> bool {
    clamp(ground, 0, UNIT as int) < clamp(water, 0, UNIT as int)
}

/// How far the ground lies below the water level.
pub open spec fn water_depth(ground: int, water: int) -> int {
    clamp(water, 0, UNIT as int) - clamp(ground, 0, UNIT as int)
}

impl BandRules {
    /// Water darkens with depth, and all shares are shares of one.
    pub open spec fn wf(&self) -> bool {
        &&& 0 <= self.depth_gain
        &&& 0 <= self.darkness_cap <= UNIT
        &&& 0 <= self.water_brightness <= UNIT
        &&& 0 <= self.water_dim <= UNIT
    }

    /// Why the rules are refused, if they are.
    pub open spec fn fault(&self) -> Option<ConfigError> {
        if self.wf() {
            None
        } else {
            Some(ConfigError::ShadeOutOfRange)
        }
    }

    /// Accepts the rules or says why not.
    pub fn check(&self) -> (r: Option<ConfigError>)
        ensures
            r == self.fault(),
            r.is_none() <==> self.wf(),
    {
        if 0 <= self.depth_gain && 0 <= self.darkness_cap && self.darkness_cap <= UNIT && 0
            <= self.water_brightness && self.water_brightness <= UNIT && 0 <= self.water_dim
            && self.water_dim <= UNIT {
            None
        } else {
            Some(ConfigError::ShadeOutOfRange)
        }
    }

    /// The darkness of water of the given depth: it grows with the depth up
    /// to the cap.
    pub open spec fn darkness(&self, depth: int) -> int {
        if fixed_mul(depth, self.depth_gain as int) < self.darkness_cap {
            fixed_mul(depth, self.depth_gain as int)
        } else {
            self.darkness_cap as int
        }
    }

    /// The blue of water of the given depth: it falls off with the square of
    /// the darkness.
    pub open spec fn water_blue(&self, depth: int) -> int {
        fixed_mul(
            self.water_brightness as int,
            UNIT - fixed_mul(self.darkness(depth), self.darkness(depth)),
        )
    }

    /// The red and the green of water of the given depth.
    pub open spec fn water_red_green(&self, depth: int) -> int {
        fixed_mul(self.water_blue(depth), self.water_dim as int)
    }

    /// The byte of the ramp raster on dry land: the terrace's byte on flat
    /// ground, the ground's byte on a ramp, half of it on a cliff.
    pub open spec fn dry_ramp_byte(&self, ground: int, terrace: Terrace, texture: int) -> int {
        if !terrace.is_ramp {
            level_byte(terrace.level as int, terrace.terraces as int)
        } else if texture > self.ramp_threshold {
            spec_frac_to_byte(clamp(ground, 0, UNIT as int))
        } else {
            spec_frac_to_byte(clamp(ground, 0, UNIT as int)) / 2
        }
    }

    /// The four pixels of a place.
    pub open spec fn spec_compose(
        &self,
        ground: int,
        terrace: Terrace,
        water: int,
        texture: int,
    ) -> Bands {
        let ground_byte = spec_frac_to_byte(clamp(ground, 0, UNIT as int)) as u8;
        let terrace_byte = level_byte(terrace.level as int, terrace.terraces as int) as u8;
        let raw_byte = level_byte(terrace.raw_level as int, terrace.terraces as int) as u8;
        let depth = water_depth(ground, water);
        let blue = spec_frac_to_byte(self.water_blue(depth)) as u8;
        let red_green = spec_frac_to_byte(self.water_red_green(depth)) as u8;
        let ramp_byte = self.dry_ramp_byte(ground, terrace, texture) as u8;
        Bands {
            ground: [ground_byte, ground_byte, ground_byte, 255u8],
            terrace: [raw_byte, terrace_byte, terrace_byte, 255u8],
            water: if is_submerged(ground, water) {
                [red_green, red_green, blue, 255u8]
            } else {
                [terrace_byte, terrace_byte, terrace_byte, 255u8]
            },
            ramp: if is_submerged(ground, water) {
                [red_green, red_green, blue, 255u8]
            } else {
                [ramp_byte, ramp_byte, ramp_byte, 255u8]
            },
        }
    }

    /// The blue, and the red and green, of water of the given depth.
    fn shade_water(&self, depth: i64) -> (c: (i64, i64))
        requires
            self.wf(),
            0 <= depth <= UNIT,
        ensures
            c.0 == self.water_blue(depth as int),
            c.1 == self.water_red_green(depth as int),
            0 <= c.0 <= UNIT,
            0 <= c.1 <= UNIT,
    {
        let grown: i128 = mul_wide(depth, self.depth_gain) / (UNIT as i128);
        assert(0 <= grown) by (nonlinear_arith)
            requires
                grown == (depth * self.depth_gain) / 1_000_000,
                0 <= depth,
                0 <= self.depth_gain,
        ;
        let dark: i64 = if grown < self.darkness_cap as i128 {
            grown as i64
        } else {
            self.darkness_cap
        };
        assert(0 <= dark * dark <= 1_000_000 * 1_000_000) by (nonlinear_arith)
            requires
                0 <= dark <= 1_000_000,
        ;
        let square: i64 = (dark * dark) / UNIT;
        let light: i64 = UNIT - square;
        assert(0 <= self.water_brightness * light <= 1_000_000 * 1_000_000) by (nonlinear_arith)
            requires
                0 <= light <= 1_000_000,
                0 <= self.water_brightness <= 1_000_000,
        ;
        let blue: i64 = (self.water_brightness * light) / UNIT;
        assert(0 <= blue * self.water_dim <= 1_000_000 * 1_000_000) by (nonlinear_arith)
            requires
                0 <= blue <= 1_000_000,
                0 <= self.water_dim <= 1_000_000,
        ;
        let red_green: i64 = (blue * self.water_dim) / UNIT;
        (blue, red_green)
    }

    /// Composes the four pixels of a place. Heights outside `[0, UNIT]` count
    /// as the nearest height inside.
    pub fn compose(&self, ground: i64, terrace: Terrace, water: i64, texture: i64) -> (b: Bands)
        requires
            self.wf(),
        ensures
            b == self.spec_compose(ground as int, terrace, water as int, texture as int),
    {
        let g: i64 = if ground < 0 {
            0
        } else if ground > UNIT {
            UNIT
        } else {
            ground
        };
        let w: i64 = if water < 0 {
            0
        } else if water > UNIT {
            UNIT
        } else {
            water
        };
        let ground_byte: u8 = frac_to_byte(g);
        let terrace_byte: u8 = terrace.byte();
        let raw_byte: u8 = terrace.raw_byte();
        if g < w {
            let c = self.shade_water(w - g);
            let blue: u8 = frac_to_byte(c.0);
            let red_green: u8 = frac_to_byte(c.1);
            Bands {
                ground: [ground_byte, ground_byte, ground_byte, 255],
                terrace: [raw_byte, terrace_byte, terrace_byte, 255],
                water: [red_green, red_green, blue, 255],
                ramp: [red_green, red_green, blue, 255],
            }
        } else {
            let ramp_byte: u8 = if terrace.is_ramp {
                if texture > self.ramp_threshold {
                    ground_byte
                } else {
                    ground_byte / 2
                }
            } else {
                terrace_byte
            };
            Bands {
                ground: [ground_byte, ground_byte, ground_byte, 255],
                terrace: [raw_byte, terrace_byte, terrace_byte, 255],
                water: [terrace_byte, terrace_byte, terrace_byte, 255],
                ramp: [ramp_byte, ramp_byte, ramp_byte, 255],
            }
        }
    }
}

/// The waterline belongs to the land: where the ground is exactly as high
/// as the water, the place is dry, and the water raster shows its terrace
/// and the ramp raster its ramp, cliff or terrace.
pub proof fn lemma_waterline_is_dry(rules: BandRules, level: int, terrace: Terrace, texture: int)
    ensures
        !is_submerged(level, level),
        rules.spec_compose(level, terrace, level, texture).water == [
            level_byte(terrace.level as int, terrace.terraces as int) as u8,
            level_byte(terrace.level as int, terrace.terraces as int) as u8,
            level_byte(terrace.level as int, terrace.terraces as int) as u8,
            255u8,
        ],
        rules.spec_compose(level, terrace, level, texture).ramp == [
            rules.dry_ramp_byte(level, terrace, texture) as u8,
            rules.dry_ramp_byte(level, terrace, texture) as u8,
            rules.dry_ramp_byte(level, terrace, texture) as u8,
            255u8,
        ],
{
}

/// Water is under water only: a place is shaded as water exactly where its
/// ground, held within `[0, UNIT]`, lies strictly below the water level.
pub proof fn lemma_submerged_is_strict(ground: int, water: int)
    requires
        0 <= ground <= UNIT,
        0 <= water <= UNIT,
    ensures
        is_submerged(ground, water) <==> ground < water,
{
}

/// Deeper water is no brighter: the darkness does not fall, and the blue
/// does not rise, with the depth.
pub proof fn lemma_deeper_is_darker(rules: BandRules, shallow: int, deep: int)
    requires
        rules.wf(),
        0 <= shallow <= deep,
    ensures
        0 <= rules.darkness(shallow) <= rules.darkness(deep) <= rules.darkness_cap,
        rules.water_blue(deep) <= rules.water_blue(shallow),
{
    let k = rules.depth_gain as int;
    let u = UNIT as int;
    assert(0 <= (shallow * k) / u <= (deep * k) / u) by (nonlinear_arith)
        requires
            0 <= shallow <= deep,
            0 <= k,
            u == 1_000_000,
    ;
    let a = rules.darkness(shallow);
    let b = rules.darkness(deep);
    assert(0 <= (a * a) / u <= (b * b) / u) by (nonlinear_arith)
        requires
            0 <= a <= b,
            u == 1_000_000,
    ;
    let la = u - (a * a) / u;
    let lb = u - (b * b) / u;
    let w = rules.water_brightness as int;
    assert((w * lb) / u <= (w * la) / u) by (nonlinear_arith)
        requires
            lb <= la,
            0 <= w,
            u == 1_000_000,
    ;
}

} // verus!
