//! The terrace classifier: from a continuous height to a terrace level and
//! the mark of a ramp.

use vstd::prelude::*;
use crate::config::ConfigError;
use crate::fixed::{clamp, UNIT};

verus! {

/// How heights are cut into terraces.
#[derive(Clone, Copy, Debug, PartialEq, Eq, Structural)]
pub struct TerraceRules {
    /// The number of terraces between height 0 and height 1.
    pub terraces: u32,
    /// The share of a terrace, below the next one, that counts as close to it.
    pub ramp_prop: i64,
    /// A second-pass sample above this marks a ramp.
    pub close_when_over: i64,
    /// A second-pass sample above this lifts the pixel to the next terrace.
    pub inc_when_over: i64,
}

/// What the classifier says of one pixel.
#[derive(Clone, Copy, Debug, PartialEq, Eq, Structural)]
pub struct Terrace {
    /// The number of terraces that the level is one of.
    pub terraces: u32,
    /// The terrace that the ground height was cut down to.
    pub raw_level: u32,
    /// The terrace level, from 0 to the number of terraces.
    pub level: u32,
    /// The height of the terrace at `raw_level`.
    pub raw_height: i64,
    /// The height of the terrace at `level`.
    pub height: i64,
    /// The pixel lies on the way from one terrace to the next.
    pub is_ramp: bool,
}

/// The terrace that a ground height is cut down to.
pub open spec fn first_level(ground: int, terraces: int) -> int {
    (clamp(ground, 0, UNIT as int) * terraces) / (UNIT as int)
}

/// How far the ground height lies above the terrace it is cut down to, as a
/// fraction of one terrace.
pub open spec fn level_fraction(ground: int, terraces: int) -> int {
    (clamp(ground, 0, UNIT as int) * terraces) % (UNIT as int)
}

/// The height of a terrace level.
pub open spec fn level_height(level: int, terraces: int) -> int {
    (level * UNIT) / terraces
}

/// The byte that shows a terrace level: the level's share of the whole in
/// 256 steps, rounded down once, and 255 for the last terrace.
pub open spec fn level_byte(level: int, terraces: int) -> int {
    if level >= terraces {
        255
    } else if level <= 0 {
        0
    } else {
        (level * 256) / terraces
    }
}

fn byte_of_level(level: u32, terraces: u32) -> (b: u8)
    ensures
        b == level_byte(level as int, terraces as int),
{
    if level >= terraces {
        return 255;
    }
    let q: u64 = (level as u64 * 256) / (terraces as u64);
    assert(q < 256) by (nonlinear_arith)
        requires
            q == (level * 256) / (terraces as int),
            0 <= level < terraces,
    ;
    q as u8
}

impl Terrace {
    /// The byte that shows the terrace level.
    pub fn byte(&self) -> (b: u8)
        ensures
            b == level_byte(self.level as int, self.terraces as int),
    {
        byte_of_level(self.level, self.terraces)
    }

    /// The byte that shows the terrace that the ground height was cut down
    /// to.
    pub fn raw_byte(&self) -> (b: u8)
        ensures
            b == level_byte(self.raw_level as int, self.terraces as int),
    {
        byte_of_level(self.raw_level, self.terraces)
    }
}

/// The second-pass sample as the thresholds see it: negated on even
/// terraces, so that neighbouring bands lean opposite ways.
pub open spec fn biased_sample(sample: int, level: int) -> int {
    if level % 2 == 0 {
        -sample
    } else {
        sample
    }
}

/// The level after the second pass: one up where the biased sample is over
/// both thresholds, but never above the last terrace.
pub open spec fn final_level(rules: TerraceRules, ground: int, sample: int) -> int {
    let level = first_level(ground, rules.terraces as int);
    let s = biased_sample(sample, level);
    if s > rules.close_when_over && s > rules.inc_when_over && level < rules.terraces {
        level + 1
    } else {
        level
    }
}

/// The ramp mark after the second pass: cleared where the biased sample is
/// over both thresholds, set where it is over the ramp threshold only, and
/// else what the first pass said: set where the height was close to the
/// next terrace.
pub open spec fn final_ramp(rules: TerraceRules, ground: int, sample: int) -> bool {
    let level = first_level(ground, rules.terraces as int);
    let s = biased_sample(sample, level);
    if s > rules.close_when_over {
        !(s > rules.inc_when_over)
    } else {
        level_fraction(ground, rules.terraces as int) > UNIT - rules.ramp_prop
    }
}

impl TerraceRules {
    /// There is a terrace, and the ramp threshold lies below the lifting one.
    pub open spec fn wf(&self) -> bool {
        &&& self.terraces >= 1
        &&& self.close_when_over < self.inc_when_over
    }

    /// Why the rules are refused, if they are.
    pub open spec fn fault(&self) -> Option<ConfigError> {
        if self.terraces == 0 {
            Some(ConfigError::ZeroTerraces)
        } else if self.close_when_over >= self.inc_when_over {
            Some(ConfigError::ThresholdOrder)
        } else {
            None
        }
    }

    /// Accepts the rules or says why not.
    pub fn check(&self) -> (r: Option<ConfigError>)
        ensures
            r == self.fault(),
            r.is_none() <==> self.wf(),
    {
        if self.terraces == 0 {
            Some(ConfigError::ZeroTerraces)
        } else if self.close_when_over >= self.inc_when_over {
            Some(ConfigError::ThresholdOrder)
        } else {
            None
        }
    }

    /// What the rules say of a pixel with the given ground height and
    /// second-pass sample.
    pub open spec fn spec_classify(&self, ground: int, sample: int) -> Terrace {
        Terrace {
            terraces: self.terraces,
            raw_level: first_level(ground, self.terraces as int) as u32,
            level: final_level(*self, ground, sample) as u32,
            raw_height: level_height(
                first_level(ground, self.terraces as int),
                self.terraces as int,
            ) as i64,
            height: level_height(final_level(*self, ground, sample), self.terraces as int) as i64,
            is_ramp: final_ramp(*self, ground, sample),
        }
    }

    /// Classifies one pixel. A ground height outside `[0, UNIT]` counts as
    /// the nearest height inside.
    pub fn classify(&self, ground: i64, sample: i64) -> (t: Terrace)
        requires
            self.wf(),
        ensures
            t == self.spec_classify(ground as int, sample as int),
            t.terraces == self.terraces,
            t.level == final_level(*self, ground as int, sample as int),
            t.raw_level == first_level(ground as int, self.terraces as int),
            t.raw_level <= t.level <= self.terraces,
            t.height == level_height(t.level as int, self.terraces as int),
            0 <= t.raw_height <= t.height <= UNIT,
    {
        let g: i64 = if ground < 0 {
            0
        } else if ground > UNIT {
            UNIT
        } else {
            ground
        };
        let terraces: i64 = self.terraces as i64;
        proof {
            lemma_level_bounds(g as int, terraces as int);
        }
        let approx: i64 = g * terraces;
        let first: i64 = approx / UNIT;
        let fraction: i64 = approx % UNIT;
        let mut level: i64 = first;
        let mut is_ramp: bool = fraction as i128 > UNIT as i128 - self.ramp_prop as i128;
        let s: i128 = if first % 2 == 0 {
            -(sample as i128)
        } else {
            sample as i128
        };
        if s > self.close_when_over as i128 {
            if s > self.inc_when_over as i128 {
                if level < terraces {
                    level = level + 1;
                }
                is_ramp = false;
            } else {
                is_ramp = true;
            }
        }
        proof {
            lemma_height_bounds(first as int, terraces as int);
            lemma_height_bounds(level as int, terraces as int);
            lemma_height_monotone(first as int, level as int, terraces as int);
        }
        let raw_height: i64 = (first * UNIT) / terraces;
        let height: i64 = (level * UNIT) / terraces;
        Terrace {
            terraces: self.terraces,
            raw_level: first as u32,
            level: level as u32,
            raw_height,
            height,
            is_ramp,
        }
    }
}

/// A height in `[0, UNIT]` is cut down to a level from 0 to the number of
/// terraces.
pub proof fn lemma_level_bounds(g: int, terraces: int)
    requires
        0 <= g <= UNIT,
        1 <= terraces,
    ensures
        0 <= g * terraces <= UNIT * terraces,
        0 <= (g * terraces) / (UNIT as int) <= terraces,
{
    assert(0 <= g * terraces <= UNIT * terraces) by (nonlinear_arith)
        requires
            0 <= g <= UNIT,
            1 <= terraces,
    ;
    assert(0 <= (g * terraces) / 1_000_000 <= terraces) by (nonlinear_arith)
        requires
            0 <= g * terraces <= 1_000_000 * terraces,
    ;
}

/// The height of a level from 0 to the number of terraces lies in
/// `[0, UNIT]`.
pub proof fn lemma_height_bounds(level: int, terraces: int)
    requires
        0 <= level <= terraces,
        1 <= terraces,
    ensures
        0 <= level * UNIT <= terraces * UNIT,
        0 <= level_height(level, terraces) <= UNIT,
{
    assert(0 <= level * 1_000_000 <= terraces * 1_000_000) by (nonlinear_arith)
        requires
            0 <= level <= terraces,
    ;
    assert(0 <= (level * 1_000_000) / terraces <= 1_000_000) by (nonlinear_arith)
        requires
            0 <= level * 1_000_000 <= terraces * 1_000_000,
            1 <= terraces,
    ;
}

/// A higher level is no lower a terrace.
pub proof fn lemma_height_monotone(a: int, b: int, terraces: int)
    requires
        0 <= a <= b,
        1 <= terraces,
    ensures
        level_height(a, terraces) <= level_height(b, terraces),
{
    assert((a * 1_000_000) / terraces <= (b * 1_000_000) / terraces) by (nonlinear_arith)
        requires
            0 <= a <= b,
            1 <= terraces,
    ;
}

/// At the thresholds themselves nothing flips: a biased second-pass sample
/// exactly at the ramp threshold leaves the first pass as it was, and one
/// exactly at the lifting threshold marks a ramp and lifts nothing.
pub proof fn lemma_threshold_boundaries(rules: TerraceRules, ground: int, sample: int)
    requires
        rules.wf(),
    ensures
        biased_sample(sample, first_level(ground, rules.terraces as int)) == rules.close_when_over
            ==> final_level(rules, ground, sample) == first_level(ground, rules.terraces as int)
            && final_ramp(rules, ground, sample) == (level_fraction(ground, rules.terraces as int)
            > UNIT - rules.ramp_prop),
        biased_sample(sample, first_level(ground, rules.terraces as int)) == rules.inc_when_over
            ==> final_level(rules, ground, sample) == first_level(ground, rules.terraces as int)
            && final_ramp(rules, ground, sample),
{
}

/// Whatever the ground height and the second-pass sample, the level lies
/// between 0 and the number of terraces, and the terrace height is that
/// level's share of the whole, within `[0, UNIT]`.
pub proof fn lemma_level_in_range(rules: TerraceRules, ground: int, sample: int)
    requires
        rules.wf(),
    ensures
        0 <= final_level(rules, ground, sample) <= rules.terraces,
        rules.spec_classify(ground, sample).level == final_level(rules, ground, sample),
        rules.spec_classify(ground, sample).height == level_height(
            final_level(rules, ground, sample),
            rules.terraces as int,
        ),
        0 <= rules.spec_classify(ground, sample).height <= UNIT,
{
    lemma_level_bounds(clamp(ground, 0, UNIT as int), rules.terraces as int);
    lemma_height_bounds(final_level(rules, ground, sample), rules.terraces as int);
}

} // verus!
