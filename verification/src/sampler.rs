//! The multi-octave sampler: one value from many noise fields, each
//! evaluated at its own frequency and weighted by the reciprocal of it.

use vstd::prelude::*;
use crate::config::ConfigError;
use crate::fixed::{clamp, div_floor, lemma_div_between, mul_wide, scale, spec_scale, Point, UNIT};

verus! {

/// The weight of the first octave. Only the ratios of the weights enter a
/// sample, so the first weight is the same for every stack; it is large, so
/// that the weights of the octaves after it keep their ratios.
pub const FIRST_WEIGHT: i64 = 1_000_000_000_000;

/// One evaluation that a sampler asks for: which field, and where.
#[derive(Clone, Copy, Debug, PartialEq, Eq, Structural)]
pub struct Probe {
    /// The index of the field in the field set.
    pub field: usize,
    /// The point at which the field is to be evaluated.
    pub at: Point,
}

/// The field that stands at `offset + i` in a set of `field_count` fields
/// that starts over after its last field.
pub open spec fn spec_field_index(offset: int, i: int, field_count: int) -> int {
    (offset + i) % field_count
}

/// The index of a field in a set that is used cyclically.
pub fn field_index(offset: usize, i: usize, field_count: usize) -> (index: usize)
    requires
        field_count > 0,
    ensures
        index == spec_field_index(offset as int, i as int, field_count as int),
        index < field_count,
{
    let sum: u128 = offset as u128 + i as u128;
    (sum % (field_count as u128)) as usize
}

/// The normalised coordinate of a pixel along an axis of `extent` pixels.
pub open spec fn spec_noise_coord(i: int, extent: int) -> int {
    (i * UNIT) / extent
}

/// The sample point of a pixel: its column and row as fractions of the
/// raster's width and height.
pub fn noise_pt(xi: usize, yi: usize, width: usize, height: usize) -> (p: Point)
    requires
        xi < width,
        yi < height,
    ensures
        p.x == spec_noise_coord(xi as int, width as int),
        p.y == spec_noise_coord(yi as int, height as int),
        0 <= p.x < UNIT,
        0 <= p.y < UNIT,
{
    Point { x: noise_coord(xi, width), y: noise_coord(yi, height) }
}

fn noise_coord(i: usize, extent: usize) -> (c: i64)
    requires
        i < extent,
    ensures
        c == spec_noise_coord(i as int, extent as int),
        0 <= c < UNIT,
{
    assert(0 <= i * 1_000_000 < extent * 1_000_000 <= 0x1_0000_0000_0000_0000 * 1_000_000)
        by (nonlinear_arith)
        requires
            0 <= i < extent <= 0xffff_ffff_ffff_ffff,
    ;
    let wide: u128 = (i as u128) * (UNIT as u128);
    let q: u128 = wide / (extent as u128);
    assert(q < 1_000_000) by (nonlinear_arith)
        requires
            q == (i * 1_000_000) / (extent as int),
            0 <= i < extent,
    ;
    q as i64
}

/// A stack of octaves: the frequency of the first one, and the factor by
/// which the frequency grows, and the weight shrinks, from each octave to
/// the next.
#[derive(Clone, Copy, Debug, PartialEq, Eq, Structural)]
pub struct Sampler {
    /// The frequency of the first octave, not zero. It scales the sample
    /// points, and a negative one mirrors them; the sample of given values
    /// does not depend on it.
    pub base_scalar: i64,
    /// The growth factor, at least one.
    pub growth: i64,
    /// The number of octaves, at least one, and no more than have a
    /// positive weight.
    pub octaves: usize,
    /// The fields are taken from the last to the first.
    pub reversed: bool,
}

/// The weight of octave `i` in a stack with the given growth factor: the
/// first weight, divided by the growth factor once for each octave before
/// it. It is the reciprocal of the octave's frequency, up to a factor that
/// all octaves of the stack share.
pub open spec fn octave_weight(growth: int, i: nat) -> int
    decreases i,
{
    if i == 0 {
        FIRST_WEIGHT as int
    } else {
        (octave_weight(growth, (i - 1) as nat) * UNIT) / growth
    }
}

/// Why a sampler with these values is refused, if it is.
pub open spec fn sampler_fault(base_scalar: int, growth: int, octaves: int) -> Option<ConfigError> {
    if octaves <= 0 {
        Some(ConfigError::EmptyOctaves)
    } else if base_scalar == 0 {
        Some(ConfigError::ZeroScalar)
    } else if growth < UNIT {
        Some(ConfigError::GrowthBelowOne)
    } else if octave_weight(growth, (octaves - 1) as nat) < 1 {
        Some(ConfigError::TooManyOctaves)
    } else {
        None
    }
}

/// No weight is negative or above the first, and no octave weighs more
/// than the one before.
pub proof fn lemma_weight_step(growth: int, i: nat)
    requires
        growth >= UNIT,
    ensures
        0 <= octave_weight(growth, i + 1) <= octave_weight(growth, i) <= FIRST_WEIGHT,
    decreases i,
{
    if i > 0 {
        lemma_weight_step(growth, (i - 1) as nat);
    }
    let w = octave_weight(growth, i);
    assert(0 <= (w * 1_000_000) / growth <= w) by (nonlinear_arith)
        requires
            0 <= w,
            growth >= 1_000_000,
    ;
}

/// A later octave weighs no more than an earlier one.
pub proof fn lemma_weight_monotone(growth: int, i: nat, j: nat)
    requires
        growth >= UNIT,
        i <= j,
    ensures
        0 <= octave_weight(growth, j) <= octave_weight(growth, i) <= FIRST_WEIGHT,
    decreases j - i,
{
    lemma_weight_step(growth, i);
    if i < j {
        lemma_weight_monotone(growth, i + 1, j);
    }
}

/// With a growth factor of one, all octaves weigh the same.
pub proof fn lemma_weight_steady(i: nat)
    ensures
        octave_weight(UNIT as int, i) == FIRST_WEIGHT,
    decreases i,
{
    if i > 0 {
        lemma_weight_steady((i - 1) as nat);
    }
}

impl Sampler {
    /// The sampler has an octave, a base scalar other than zero, a growth
    /// factor of at least one, and a positive weight for every octave.
    pub open spec fn wf(&self) -> bool {
        sampler_fault(self.base_scalar as int, self.growth as int, self.octaves as int).is_none()
    }

    /// Why the sampler is refused, if it is.
    pub open spec fn fault(&self) -> Option<ConfigError> {
        sampler_fault(self.base_scalar as int, self.growth as int, self.octaves as int)
    }

    /// Accepts the sampler or says why not.
    pub fn check(&self) -> (r: Option<ConfigError>)
        ensures
            r == self.fault(),
            r.is_none() <==> self.wf(),
    {
        match Sampler::new(self.base_scalar, self.growth, self.octaves, self.reversed) {
            Ok(_) => None,
            Err(e) => Some(e),
        }
    }

    /// The frequency of octave `i`.
    pub open spec fn scalar(&self, i: nat) -> int
        decreases i,
    {
        if i == 0 {
            self.base_scalar as int
        } else {
            spec_scale(self.scalar((i - 1) as nat), self.growth as int)
        }
    }

    /// The weight of octave `i`. It does not depend on the base scalar: the
    /// reciprocal of the base scalar is a factor of every weight, and leaves
    /// the weighted average as it is.
    pub open spec fn weight(&self, i: nat) -> int {
        octave_weight(self.growth as int, i)
    }

    /// The sum of the weights of the first `n` octaves.
    pub open spec fn mass(&self, n: nat) -> int
        decreases n,
    {
        if n == 0 {
            0
        } else {
            self.mass((n - 1) as nat) + self.weight((n - 1) as nat)
        }
    }

    /// The weighted sum of the first `n` values, each held within the
    /// signed unit range.
    pub open spec fn weighted_sum(&self, values: Seq<i64>, n: nat) -> int
        decreases n,
    {
        if n == 0 {
            0
        } else {
            self.weighted_sum(values, (n - 1) as nat) + clamp(
                values[n - 1] as int,
                -UNIT as int,
                UNIT as int,
            ) * self.weight((n - 1) as nat)
        }
    }

    /// The weighted average of the field values, one for each octave.
    pub open spec fn spec_exp_sample(&self, values: Seq<i64>) -> int {
        self.weighted_sum(values, self.octaves as nat) / self.mass(self.octaves as nat)
    }

    /// The field of octave `i`, counted from the first field of the stack.
    pub open spec fn field_offset(&self, i: int) -> int {
        if self.reversed {
            self.octaves - 1 - i
        } else {
            i
        }
    }

    /// The evaluation for octave `i` at the sample point `(x, y)`.
    pub open spec fn spec_probe(
        &self,
        first_field: int,
        field_count: int,
        x: int,
        y: int,
        i: int,
    ) -> Probe {
        Probe {
            field: spec_field_index(first_field, self.field_offset(i), field_count) as usize,
            at: Point {
                x: spec_scale(x, self.scalar(i as nat)) as i64,
                y: spec_scale(y, self.scalar(i as nat)) as i64,
            },
        }
    }

    /// A sampler, if the values make one.
    pub fn new(base_scalar: i64, growth: i64, octaves: usize, reversed: bool) -> (r: Result<
        Sampler,
        ConfigError,
    >)
        ensures
            match r {
                Ok(s) => sampler_fault(base_scalar as int, growth as int, octaves as int).is_none()
                    && s.wf() && s == (Sampler { base_scalar, growth, octaves, reversed }),
                Err(e) => sampler_fault(base_scalar as int, growth as int, octaves as int) == Some(
                    e,
                ),
            },
    {
        if octaves == 0 {
            return Err(ConfigError::EmptyOctaves);
        }
        if base_scalar == 0 {
            return Err(ConfigError::ZeroScalar);
        }
        if growth < UNIT {
            return Err(ConfigError::GrowthBelowOne);
        }
        if growth == UNIT {
            proof {
                lemma_weight_steady((octaves - 1) as nat);
            }
            return Ok(Sampler { base_scalar, growth, octaves, reversed });
        }
        let mut w: i64 = FIRST_WEIGHT;
        let mut i: usize = 0;
        while i + 1 < octaves
            invariant
                base_scalar != 0,
                growth > UNIT,
                i < octaves,
                w == octave_weight(growth as int, i as nat),
                1 <= w <= FIRST_WEIGHT,
            decreases octaves - i,
        {
            assert(0 <= w * 1_000_000 <= 1_000_000_000_000_000_000) by (nonlinear_arith)
                requires
                    1 <= w <= 1_000_000_000_000,
            ;
            let next: i64 = (w * UNIT) / growth;
            proof {
                lemma_weight_step(growth as int, i as nat);
            }
            if next == 0 {
                proof {
                    assert(octave_weight(growth as int, (i + 1) as nat) == next);
                    lemma_weight_monotone(growth as int, (i + 1) as nat, (octaves - 1) as nat);
                }
                return Err(ConfigError::TooManyOctaves);
            }
            w = next;
            i += 1;
        }
        Ok(Sampler { base_scalar, growth, octaves, reversed })
    }

    /// The evaluations that one sample takes, octave by octave: the field
    /// of each octave and the sample point scaled by the octave's frequency.
    pub fn probes(&self, first_field: usize, field_count: usize, x: i64, y: i64) -> (r: Vec<Probe>)
        requires
            field_count > 0,
        ensures
            r.len() == self.octaves,
            forall|i: int|
                0 <= i < r.len() ==> #[trigger] r[i] == self.spec_probe(
                    first_field as int,
                    field_count as int,
                    x as int,
                    y as int,
                    i,
                ),
    {
        let mut r: Vec<Probe> = Vec::new();
        let mut s: i64 = self.base_scalar;
        let mut i: usize = 0;
        while i < self.octaves
            invariant
                field_count > 0,
                i <= self.octaves,
                r.len() == i,
                s == self.scalar(i as nat),
                forall|k: int|
                    0 <= k < i ==> #[trigger] r[k] == self.spec_probe(
                        first_field as int,
                        field_count as int,
                        x as int,
                        y as int,
                        k,
                    ),
            decreases self.octaves - i,
        {
            let offset: usize = if self.reversed {
                self.octaves - 1 - i
            } else {
                i
            };
            let probe = Probe {
                field: field_index(first_field, offset, field_count),
                at: Point { x: scale(x, s), y: scale(y, s) },
            };
            r.push(probe);
            s = scale(s, self.growth);
            i += 1;
        }
        r
    }

    /// Combines the values that the fields gave, one for each octave and in
    /// the order of the octaves, into their weighted average. A value
    /// outside the signed unit range counts as the nearest value inside.
    pub fn exp_sample(&self, values: &Vec<i64>) -> (r: i64)
        requires
            self.wf(),
            values.len() == self.octaves,
        ensures
            r == self.spec_exp_sample(values@),
            -UNIT <= r <= UNIT,
    {
        let n: usize = self.octaves;
        let mut w: i64 = FIRST_WEIGHT;
        let mut sum: i128 = 0;
        let mut mass: i128 = 0;
        let mut i: usize = 0;
        while i < n
            invariant
                self.wf(),
                n == self.octaves,
                values.len() == n,
                i <= n,
                w == self.weight(i as nat),
                0 <= w <= 1_000_000_000_000,
                sum == self.weighted_sum(values@, i as nat),
                mass == self.mass(i as nat),
                -(i * 1_000_000_000_000_000_000) <= sum <= i * 1_000_000_000_000_000_000,
                0 <= mass <= i * 1_000_000_000_000,
            decreases n - i,
        {
            let raw: i64 = values[i];
            let v: i64 = if raw < -UNIT {
                -UNIT
            } else if raw > UNIT {
                UNIT
            } else {
                raw
            };
            let term: i128 = mul_wide(v, w);
            assert(-1_000_000_000_000_000_000 <= term <= 1_000_000_000_000_000_000)
                by (nonlinear_arith)
                requires
                    term == v * w,
                    -1_000_000 <= v <= 1_000_000,
                    0 <= w <= 1_000_000_000_000,
            ;
            assert((i + 1) * 1_000_000_000_000_000_000 <= 0x1_0000_0000_0000_0000
                * 1_000_000_000_000_000_000) by (nonlinear_arith)
                requires
                    i < 0xffff_ffff_ffff_ffff,
            ;
            assert((i + 1) * 1_000_000_000_000_000_000 == i * 1_000_000_000_000_000_000
                + 1_000_000_000_000_000_000) by (nonlinear_arith);
            assert((i + 1) * 1_000_000_000_000 == i * 1_000_000_000_000 + 1_000_000_000_000)
                by (nonlinear_arith);
            sum = sum + term;
            mass = mass + w as i128;
            let next: i64 = (w * UNIT) / self.growth;
            assert(0 <= next <= w) by (nonlinear_arith)
                requires
                    next == (w * 1_000_000) / (self.growth as int),
                    0 <= w,
                    self.growth >= 1_000_000,
            ;
            w = next;
            i += 1;
        }
        proof {
            self.lemma_mass_positive(n as nat);
            self.lemma_sample_in_hull(values@, -UNIT as int, UNIT as int);
        }
        let q: i128 = div_floor(sum, mass);
        q as i64
    }

    /// No weight is negative, and no octave weighs more than the one before.
    pub proof fn lemma_weights_fall(&self, i: nat)
        requires
            self.wf(),
        ensures
            0 <= self.weight(i + 1) <= self.weight(i) <= FIRST_WEIGHT,
            self.weight(0) == FIRST_WEIGHT,
    {
        lemma_weight_step(self.growth as int, i);
    }

    /// Every octave of the stack has a positive weight: no field is left
    /// out of the sample.
    pub proof fn lemma_weights_positive(&self, i: nat)
        requires
            self.wf(),
            i < self.octaves,
        ensures
            1 <= self.weight(i),
    {
        lemma_weight_monotone(self.growth as int, i, (self.octaves - 1) as nat);
    }

    /// With a growth factor above one the lower octaves dominate: every
    /// octave of the stack weighs less than the one before.
    pub proof fn lemma_weights_fall_strictly(&self, i: nat)
        requires
            self.wf(),
            self.growth > UNIT,
            i + 1 < self.octaves,
        ensures
            1 <= self.weight(i + 1) < self.weight(i),
    {
        self.lemma_weights_positive(i);
        self.lemma_weights_positive(i + 1);
        let w = self.weight(i);
        let g = self.growth as int;
        assert((w * 1_000_000) / g < w) by (nonlinear_arith)
            requires
                1 <= w,
                g > 1_000_000,
        ;
    }

    /// The weights of one octave or more add up to a positive mass.
    pub proof fn lemma_mass_positive(&self, n: nat)
        requires
            self.wf(),
            n >= 1,
        ensures
            self.mass(n) >= 1,
        decreases n,
    {
        self.lemma_weights_fall(0);
        if n == 1 {
            assert(self.mass(0) == 0);
        } else {
            self.lemma_mass_positive((n - 1) as nat);
            self.lemma_weights_fall((n - 2) as nat);
        }
    }

    /// The weighted sum of values between `lo` and `hi` lies between `lo`
    /// and `hi` times the mass.
    pub proof fn lemma_sum_in_hull(&self, values: Seq<i64>, n: nat, lo: int, hi: int)
        requires
            self.wf(),
            n <= values.len(),
            forall|i: int|
                0 <= i < n ==> lo <= clamp((#[trigger] values[i]) as int, -UNIT as int, UNIT as int)
                    <= hi,
        ensures
            lo * self.mass(n) <= self.weighted_sum(values, n) <= hi * self.mass(n),
        decreases n,
    {
        if n > 0 {
            self.lemma_sum_in_hull(values, (n - 1) as nat, lo, hi);
            if n >= 2 {
                self.lemma_weights_fall((n - 2) as nat);
            } else {
                self.lemma_weights_fall(0);
            }
            let v = clamp(values[n - 1] as int, -UNIT as int, UNIT as int);
            let w = self.weight((n - 1) as nat);
            let m = self.mass((n - 1) as nat);
            let s = self.weighted_sum(values, (n - 1) as nat);
            assert(lo * (m + w) <= s + v * w <= hi * (m + w)) by (nonlinear_arith)
                requires
                    lo * m <= s <= hi * m,
                    lo <= v <= hi,
                    0 <= w,
            ;
        }
    }

    /// The sample lies in the convex range of the field values: where every
    /// value, held within the signed unit range, lies between `lo` and `hi`,
    /// so does the sample.
    pub proof fn lemma_sample_in_hull(&self, values: Seq<i64>, lo: int, hi: int)
        requires
            self.wf(),
            values.len() == self.octaves,
            forall|i: int|
                0 <= i < values.len() ==> lo <= clamp(
                    (#[trigger] values[i]) as int,
                    -UNIT as int,
                    UNIT as int,
                ) <= hi,
        ensures
            lo <= self.spec_exp_sample(values) <= hi,
    {
        let n = self.octaves as nat;
        self.lemma_mass_positive(n);
        self.lemma_sum_in_hull(values, n, lo, hi);
        lemma_div_between(self.weighted_sum(values, n), self.mass(n), lo, hi);
    }

    /// The sample does not depend on the base scalar, neither on its
    /// magnitude nor on its sign: two stacks with the same growth factor and
    /// as many octaves give the same sample for the same values.
    pub proof fn lemma_sample_ignores_scalar(&self, other: Sampler, values: Seq<i64>)
        requires
            self.growth == other.growth,
            self.octaves == other.octaves,
        ensures
            self.spec_exp_sample(values) == other.spec_exp_sample(values),
    {
        self.lemma_sums_ignore_scalar(other, values, self.octaves as nat);
    }

    /// The weighted sum and the mass do not depend on the base scalar.
    pub proof fn lemma_sums_ignore_scalar(&self, other: Sampler, values: Seq<i64>, n: nat)
        requires
            self.growth == other.growth,
        ensures
            self.weighted_sum(values, n) == other.weighted_sum(values, n),
            self.mass(n) == other.mass(n),
        decreases n,
    {
        if n > 0 {
            self.lemma_sums_ignore_scalar(other, values, (n - 1) as nat);
        }
    }

    /// Raising the value of one field by `d`, within the signed unit range,
    /// raises the weighted sum by `d` times the weight of that field's
    /// octave, which is positive.
    pub proof fn lemma_raise_one(&self, a: Seq<i64>, b: Seq<i64>, i: int, d: int, n: nat)
        requires
            self.wf(),
            a.len() == self.octaves,
            b.len() == self.octaves,
            0 <= i < n <= self.octaves,
            -UNIT <= a[i] <= UNIT,
            -UNIT <= b[i] <= UNIT,
            b[i] == a[i] + d,
            forall|k: int| 0 <= k < a.len() && k != i ==> a[k] == b[k],
        ensures
            self.weighted_sum(b, n) == self.weighted_sum(a, n) + d * self.weight(i as nat),
            self.weight(i as nat) >= 1,
        decreases n,
    {
        self.lemma_weights_positive(i as nat);
        if n - 1 == i {
            self.lemma_sums_agree(a, b, i as nat);
            let w = self.weight(i as nat);
            assert((a[i] + d) * w == a[i] * w + d * w) by (nonlinear_arith);
        } else {
            self.lemma_raise_one(a, b, i, d, (n - 1) as nat);
        }
    }

    /// Values that agree on the first `n` fields have the same weighted sum
    /// there.
    pub proof fn lemma_sums_agree(&self, a: Seq<i64>, b: Seq<i64>, n: nat)
        requires
            n <= a.len(),
            n <= b.len(),
            forall|k: int| 0 <= k < n ==> a[k] == b[k],
        ensures
            self.weighted_sum(a, n) == self.weighted_sum(b, n),
        decreases n,
    {
        if n > 0 {
            self.lemma_sums_agree(a, b, (n - 1) as nat);
        }
    }

    /// Where no field gives less, the weighted sum is no less.
    pub proof fn lemma_sum_monotone(&self, a: Seq<i64>, b: Seq<i64>, n: nat)
        requires
            self.wf(),
            n <= a.len(),
            n <= b.len(),
            forall|k: int| 0 <= k < n ==> a[k] <= b[k],
        ensures
            self.weighted_sum(a, n) <= self.weighted_sum(b, n),
        decreases n,
    {
        if n > 0 {
            self.lemma_sum_monotone(a, b, (n - 1) as nat);
            lemma_weight_monotone(self.growth as int, 0, (n - 1) as nat);
            let w = self.weight((n - 1) as nat);
            let va = clamp(a[n - 1] as int, -UNIT as int, UNIT as int);
            let vb = clamp(b[n - 1] as int, -UNIT as int, UNIT as int);
            assert(va * w <= vb * w) by (nonlinear_arith)
                requires
                    va <= vb,
                    0 <= w,
            ;
        }
    }

    /// The sample does not fall when a field gives more: where no field
    /// gives less in `b` than in `a`, the sample of `b` is no less.
    pub proof fn lemma_sample_monotone(&self, a: Seq<i64>, b: Seq<i64>)
        requires
            self.wf(),
            a.len() == self.octaves,
            b.len() == self.octaves,
            forall|k: int| 0 <= k < a.len() ==> a[k] <= b[k],
        ensures
            self.spec_exp_sample(a) <= self.spec_exp_sample(b),
    {
        let n = self.octaves as nat;
        self.lemma_sum_monotone(a, b, n);
        self.lemma_mass_positive(n);
        vstd::arithmetic::div_mod::lemma_div_is_ordered(
            self.weighted_sum(a, n),
            self.weighted_sum(b, n),
            self.mass(n),
        );
    }
}

} // verus!
