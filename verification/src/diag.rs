//! The largest sample seen: a diagnostic that the caller owns and hands to
//! whoever samples.

use vstd::prelude::*;
use crate::fixed::Point;
use crate::sampler::Sampler;

verus! {

/// Below every sample that a field can give.
pub const MAX_FLOOR: i64 = -99_999_999_000_000;

/// The distance between two points of a field test.
pub const TEST_STEP: i64 = 100;

/// The number of points of a field test.
pub const TEST_POINTS: usize = 1_000_000;

/// The larger of two numbers.
pub open spec fn larger(a: int, b: int) -> int {
    if a >= b {
        a
    } else {
        b
    }
}

/// The largest of the first `n` values and of `floor`.
pub open spec fn max_of(floor: int, values: Seq<i64>, n: nat) -> int
    decreases n,
{
    if n == 0 {
        floor
    } else {
        larger(max_of(floor, values, (n - 1) as nat), values[n - 1] as int)
    }
}

/// The largest sample observed so far.
#[derive(Clone, Copy, Debug, PartialEq, Eq, Structural)]
pub struct ObservedMax {
    pub max: i64,
}

impl ObservedMax {
    /// An accumulator that has observed nothing.
    pub fn new() -> (d: ObservedMax)
        ensures
            d.max == MAX_FLOOR,
    {
        ObservedMax { max: MAX_FLOOR }
    }

    /// Takes note of a sample.
    pub fn observe(&mut self, sample: i64)
        ensures
            final(self).max == larger(old(self).max as int, sample as int),
    {
        if sample > self.max {
            self.max = sample;
        }
    }
}

impl Sampler {
    /// Samples as `exp_sample` does, and has the accumulator take note of
    /// the result.
    pub fn exp_sample_observed(&self, values: &Vec<i64>, seen: &mut ObservedMax) -> (r: i64)
        requires
            self.wf(),
            values.len() == self.octaves,
        ensures
            r == self.spec_exp_sample(values@),
            final(seen).max == larger(old(seen).max as int, r as int),
    {
        let r: i64 = self.exp_sample(values);
        seen.observe(r);
        r
    }
}

/// The `i`-th point of a field test: along the first axis, one step after
/// the other.
pub fn field_test_point(i: usize) -> (p: Point)
    requires
        i < TEST_POINTS,
    ensures
        p.x == i * TEST_STEP,
        p.y == 0,
{
    Point { x: (i as i64) * TEST_STEP, y: 0 }
}

/// The largest of the values that a field gave over a field test.
pub fn field_test_max(values: &Vec<i64>) -> (m: i64)
    ensures
        m == max_of(MAX_FLOOR as int, values@, values.len() as nat),
        m >= MAX_FLOOR,
        forall|i: int| 0 <= i < values.len() ==> values[i] <= m,
{
    let mut seen = ObservedMax::new();
    let mut i: usize = 0;
    while i < values.len()
        invariant
            i <= values.len(),
            seen.max == max_of(MAX_FLOOR as int, values@, i as nat),
            seen.max >= MAX_FLOOR,
            forall|k: int| 0 <= k < i ==> values[k] <= seen.max,
        decreases values.len() - i,
    {
        seen.observe(values[i]);
        i += 1;
    }
    seen.max
}

} // verus!
