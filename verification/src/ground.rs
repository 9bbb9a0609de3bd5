//! The height-field synthesiser: the ground height of a pixel, blended
//! from sorted single-octave samples by the bucket that the base sample
//! falls into.

use vstd::prelude::*;
use vstd::relations::{sorted_by, total_ordering};
use vstd::seq_lib::{lemma_sorted_unique, to_multiset_build, to_multiset_insert};
use crate::fixed::{
    clamp, lerp, normalize, scale, spec_lerp, spec_normalize, spec_scale, Point, UNIT,
};
use crate::sampler::{field_index, spec_field_index, Probe};

verus! {

/// The number of equal-width buckets that the base sample's range is cut
/// into.
pub const BUCKETS: usize = 5;

/// The number of single-octave samples that are blended.
pub const BLEND_SAMPLES: usize = 7;

/// The order of samples: ascending.
pub open spec fn ascending() -> spec_fn(i64, i64) -> bool {
    |a: i64, b: i64| a <= b
}

/// The bucket that a base sample falls into; the last bucket takes the
/// upper end of the range.
pub open spec fn bucket(raw: int) -> int {
    if (clamp(raw, 0, UNIT as int) * BUCKETS) / (UNIT as int) >= BUCKETS {
        BUCKETS - 1
    } else {
        (clamp(raw, 0, UNIT as int) * BUCKETS) / (UNIT as int)
    }
}

/// How far into its bucket a base sample lies, as a fraction of the
/// bucket's width.
pub open spec fn bucket_weight(raw: int) -> int {
    clamp(raw, 0, UNIT as int) * BUCKETS - bucket(raw) * UNIT
}

/// The samples, each carried into `[0, UNIT]`.
pub open spec fn normalized(values: Seq<i64>, gain: int) -> Seq<i64> {
    Seq::new(values.len(), |i: int| spec_normalize(values[i] as int, gain) as i64)
}

/// The ground height: between the two sorted samples that the bucket of
/// the base sample picks, as far from the lower one as the base sample lies
/// into its bucket.
pub open spec fn spec_ground_height(raw: int, values: Seq<i64>, gain: int) -> int {
    let sorted = normalized(values, gain).sort_by(ascending());
    spec_lerp(sorted[bucket(raw)] as int, sorted[bucket(raw) + 1] as int, bucket_weight(raw))
}

/// The field of blended sample `k`, counted from the first field after the
/// ground octaves. Two of the samples share a field.
pub open spec fn blend_offset(k: int) -> int {
    if k <= 4 {
        7 + k
    } else {
        6 + k
    }
}

/// The factor on the frequency of blended sample `k`. The last sample
/// takes the base sample itself for its factor.
pub open spec fn blend_factor(k: int, raw: int) -> int {
    if k == 0 {
        400_000
    } else if k == 1 {
        700_000
    } else if k == 2 {
        1_090_000
    } else if k == 3 {
        1_800_000
    } else if k == 4 {
        1_990_000
    } else if k == 5 {
        2_045_000
    } else {
        raw
    }
}

/// The evaluation for blended sample `k` of the pixel at `(x, y)`: the
/// coordinates change places, and both are scaled by the frequency of the
/// sample.
pub open spec fn spec_blend_probe(
    scalar: int,
    raw: int,
    first_field: int,
    field_count: int,
    x: int,
    y: int,
    k: int,
) -> Probe {
    Probe {
        field: spec_field_index(first_field, blend_offset(k), field_count) as usize,
        at: Point {
            x: spec_scale(y, spec_scale(scalar, blend_factor(k, raw))) as i64,
            y: spec_scale(x, spec_scale(scalar, blend_factor(k, raw))) as i64,
        },
    }
}

/// The bucket is one of the buckets, and the weight of the interpolation is
/// a share of one.
pub proof fn lemma_bucket_in_range(raw: int)
    ensures
        0 <= bucket(raw) < BUCKETS,
        0 <= bucket_weight(raw) <= UNIT,
{
    let c = clamp(raw, 0, UNIT as int);
    let q = (c * 5) / 1_000_000;
    assert(0 <= q <= 5 && q * 1_000_000 <= c * 5 < (q + 1) * 1_000_000) by (nonlinear_arith)
        requires
            q == (c * 5) / 1_000_000,
            0 <= c <= 1_000_000,
    ;
}

/// Ascending order is a total order.
pub proof fn lemma_ascending_total()
    ensures
        total_ordering(ascending()),
{
    let leq = ascending();
    assert(vstd::relations::reflexive(leq));
    assert(vstd::relations::antisymmetric(leq));
    assert(vstd::relations::transitive(leq));
    assert(vstd::relations::strongly_connected(leq));
}

fn blend_probe(
    scalar: i64,
    raw: i64,
    first_field: usize,
    field_count: usize,
    x: i64,
    y: i64,
    k: usize,
) -> (probe: Probe)
    requires
        field_count > 0,
        k < BLEND_SAMPLES,
    ensures
        probe == spec_blend_probe(
            scalar as int,
            raw as int,
            first_field as int,
            field_count as int,
            x as int,
            y as int,
            k as int,
        ),
{
    let offset: usize = if k <= 4 {
        7 + k
    } else {
        6 + k
    };
    let factor: i64 = if k == 0 {
        400_000
    } else if k == 1 {
        700_000
    } else if k == 2 {
        1_090_000
    } else if k == 3 {
        1_800_000
    } else if k == 4 {
        1_990_000
    } else if k == 5 {
        2_045_000
    } else {
        raw
    };
    let frequency: i64 = scale(scalar, factor);
    Probe {
        field: field_index(first_field, offset, field_count),
        at: Point { x: scale(y, frequency), y: scale(x, frequency) },
    }
}

/// The evaluations that the blend takes for the pixel at `(x, y)`, given
/// its base sample.
pub fn blend_probes(
    scalar: i64,
    raw: i64,
    first_field: usize,
    field_count: usize,
    x: i64,
    y: i64,
) -> (r: Vec<Probe>)
    requires
        field_count > 0,
    ensures
        r.len() == BLEND_SAMPLES,
        forall|k: int|
            0 <= k < r.len() ==> #[trigger] r[k] == spec_blend_probe(
                scalar as int,
                raw as int,
                first_field as int,
                field_count as int,
                x as int,
                y as int,
                k,
            ),
{
    let mut r: Vec<Probe> = Vec::new();
    let mut k: usize = 0;
    while k < BLEND_SAMPLES
        invariant
            field_count > 0,
            k <= BLEND_SAMPLES,
            r.len() == k,
            forall|j: int|
                0 <= j < k ==> #[trigger] r[j] == spec_blend_probe(
                    scalar as int,
                    raw as int,
                    first_field as int,
                    field_count as int,
                    x as int,
                    y as int,
                    j,
                ),
        decreases BLEND_SAMPLES - k,
    {
        r.push(blend_probe(scalar, raw, first_field, field_count, x, y, k));
        k += 1;
    }
    r
}

/// The samples in ascending order.
pub fn sort_samples(values: &Vec<i64>) -> (sorted: Vec<i64>)
    ensures
        sorted@ == values@.sort_by(ascending()),
        sorted_by(sorted@, ascending()),
        sorted@.to_multiset() == values@.to_multiset(),
        sorted.len() == values.len(),
{
    let mut sorted: Vec<i64> = Vec::new();
    let mut k: usize = 0;
    assert(sorted@ =~= values@.take(0));
    while k < values.len()
        invariant
            k <= values.len(),
            sorted.len() == k,
            sorted_by(sorted@, ascending()),
            sorted@.to_multiset() == values@.take(k as int).to_multiset(),
        decreases values.len() - k,
    {
        let v: i64 = values[k];
        let mut pos: usize = 0;
        while pos < sorted.len() && sorted[pos] <= v
            invariant
                pos <= sorted.len(),
                forall|j: int| 0 <= j < pos ==> sorted[j] <= v,
            decreases sorted.len() - pos,
        {
            pos += 1;
        }
        let ghost before = sorted@;
        sorted.insert(pos, v);
        proof {
            to_multiset_insert(before, pos as int, v);
            assert(values@.take(k + 1) =~= values@.take(k as int).push(v));
            to_multiset_build(values@.take(k as int), v);
            assert forall|i: int, j: int| 0 <= i < j < sorted.len() implies #[trigger] ascending()(
                sorted[i],
                sorted[j],
            ) by {
                if i < pos && j > pos {
                    assert(ascending()(before[i], before[j - 1]));
                } else if i < pos && j < pos {
                    assert(ascending()(before[i], before[j]));
                } else if i > pos {
                    assert(ascending()(before[i - 1], before[j - 1]));
                } else if i == pos {
                    assert(ascending()(before[pos as int], before[j - 1]));
                }
            }
        }
        k += 1;
    }
    proof {
        assert(values@.take(values.len() as int) =~= values@);
        lemma_ascending_total();
        values@.lemma_sort_by_ensures(ascending());
        lemma_sorted_unique(sorted@, values@.sort_by(ascending()), ascending());
        values@.sort_by(ascending()).to_multiset_ensures();
        sorted@.to_multiset_ensures();
    }
    sorted
}

/// The ground height of a pixel, from its base sample and the values that
/// the blended fields gave. A base sample outside `[0, UNIT]` counts as the
/// nearest one inside.
pub fn ground_height(raw: i64, values: &Vec<i64>, gain: i64) -> (h: i64)
    requires
        values.len() > BUCKETS,
    ensures
        h == spec_ground_height(raw as int, values@, gain as int),
        0 <= h <= UNIT,
{
    let mut samples: Vec<i64> = Vec::new();
    let mut k: usize = 0;
    while k < values.len()
        invariant
            k <= values.len(),
            samples.len() == k,
            forall|j: int|
                0 <= j < k ==> #[trigger] samples[j] == spec_normalize(
                    values[j] as int,
                    gain as int,
                ),
        decreases values.len() - k,
    {
        samples.push(normalize(values[k], gain));
        k += 1;
    }
    assert(samples@ =~= normalized(values@, gain as int));
    let sorted = sort_samples(&samples);
    let c: i64 = if raw < 0 {
        0
    } else if raw > UNIT {
        UNIT
    } else {
        raw
    };
    proof {
        lemma_bucket_in_range(raw as int);
    }
    let t: i64 = c * (BUCKETS as i64);
    let mut index: usize = (t / UNIT) as usize;
    if index >= BUCKETS {
        index = BUCKETS - 1;
    }
    let weight: i64 = t - (index as i64) * UNIT;
    proof {
        lemma_ascending_total();
        samples@.lemma_sort_by_ensures(ascending());
        lemma_members_in_unit(samples@, sorted@, index as int);
        lemma_members_in_unit(samples@, sorted@, index + 1);
    }
    lerp(sorted[index], sorted[index + 1], weight)
}

/// A member of a rearranged sequence of shares of one is a share of one.
proof fn lemma_members_in_unit(samples: Seq<i64>, sorted: Seq<i64>, i: int)
    requires
        samples.to_multiset() =~= sorted.to_multiset(),
        forall|j: int| 0 <= j < samples.len() ==> 0 <= #[trigger] samples[j] <= UNIT,
        0 <= i < sorted.len(),
    ensures
        0 <= sorted[i] <= UNIT,
{
    sorted.to_multiset_ensures();
    samples.to_multiset_ensures();
    assert(sorted.contains(sorted[i]));
    assert(sorted.to_multiset().count(sorted[i]) > 0);
    assert(samples.to_multiset().count(sorted[i]) > 0);
    assert(samples.contains(sorted[i]));
}

} // verus!
