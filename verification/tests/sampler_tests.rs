use terraces::config::ConfigError;
use terraces::diag::{field_test_max, field_test_point, ObservedMax, MAX_FLOOR};
use terraces::fixed::{Point, UNIT};
use terraces::sampler::{field_index, noise_pt, Sampler};

fn ground_sampler(octaves: usize) -> Sampler {
    Sampler::new(4_000_000, 2_100_000, octaves, false).unwrap()
}

#[test]
fn field_index_wraps_around_the_field_set() {
    assert_eq!(field_index(0, 0, 32), 0);
    assert_eq!(field_index(8, 5, 32), 13);
    assert_eq!(field_index(30, 5, 32), 3);
    assert_eq!(field_index(15, 18, 32), 1);
    assert_eq!(field_index(7, 100, 1), 0);
}

#[test]
fn field_index_does_not_overflow() {
    assert_eq!(field_index(usize::MAX, usize::MAX, 7), ((usize::MAX as u128 * 2) % 7) as usize);
    assert_eq!(field_index(usize::MAX, 1, usize::MAX), 1);
}

#[test]
fn noise_pt_normalises_pixel_coordinates() {
    assert_eq!(noise_pt(0, 0, 2048, 2048), Point { x: 0, y: 0 });
    assert_eq!(noise_pt(1024, 512, 2048, 2048), Point { x: 500_000, y: 250_000 });
    assert_eq!(noise_pt(1, 3, 4, 4), Point { x: 250_000, y: 750_000 });
    assert_eq!(noise_pt(1, 2, 3, 3), Point { x: 333_333, y: 666_666 });
}

#[test]
fn noise_pt_stays_below_one() {
    for width in [1usize, 2, 3, 7, 2048, 1_000_003] {
        let p = noise_pt(width - 1, 0, width, 1);
        assert!(0 <= p.x && p.x < UNIT);
        assert_eq!(p.y, 0);
    }
    let p = noise_pt(usize::MAX - 1, usize::MAX - 1, usize::MAX, usize::MAX);
    assert_eq!(p, Point { x: 999_999, y: 999_999 });
}

#[test]
fn sampler_new_accepts_the_canonical_stacks() {
    let s = Sampler::new(4_000_000, 2_100_000, 6, false);
    assert_eq!(
        s,
        Ok(Sampler { base_scalar: 4_000_000, growth: 2_100_000, octaves: 6, reversed: false })
    );
    assert!(Sampler::new(-8_000_000, 2_100_000, 4, true).is_ok());
    assert!(Sampler::new(1, UNIT, 1, false).is_ok());
    assert!(Sampler::new(-1_000_000_000_000, UNIT, 1, false).is_ok());
    assert!(Sampler::new(i64::MAX, 2_100_000, 6, false).is_ok());
    assert!(Sampler::new(i64::MIN, 2_100_000, 6, false).is_ok());
    assert!(Sampler::new(4_000_000, i64::MAX, 1, false).is_ok());
}

#[test]
fn sampler_new_refuses_an_empty_stack() {
    assert_eq!(Sampler::new(4_000_000, 2_100_000, 0, false), Err(ConfigError::EmptyOctaves));
    assert_eq!(Sampler::new(0, 0, 0, false), Err(ConfigError::EmptyOctaves));
}

#[test]
fn sampler_new_refuses_a_scalar_without_a_reciprocal() {
    assert_eq!(Sampler::new(0, 2_100_000, 6, false), Err(ConfigError::ZeroScalar));
    assert_eq!(Sampler::new(0, 999_999, 6, false), Err(ConfigError::ZeroScalar));
}

#[test]
fn sampler_new_refuses_octaves_without_a_weight() {
    // 2.1 to the 36th is below a million millions, 2.1 to the 37th above
    assert!(Sampler::new(4_000_000, 2_100_000, 37, false).is_ok());
    assert_eq!(Sampler::new(4_000_000, 2_100_000, 38, false), Err(ConfigError::TooManyOctaves));
    assert_eq!(
        Sampler::new(4_000_000, 2_100_000, usize::MAX, false),
        Err(ConfigError::TooManyOctaves)
    );
    assert!(Sampler::new(4_000_000, 1_000_000_000_000_000_000, 2, false).is_ok());
    assert_eq!(
        Sampler::new(4_000_000, 1_000_000_000_000_000_001, 2, false),
        Err(ConfigError::TooManyOctaves)
    );
    assert_eq!(Sampler::new(4_000_000, i64::MAX, 2, false), Err(ConfigError::TooManyOctaves));
    // with a growth factor of one no weight ever shrinks
    assert!(Sampler::new(4_000_000, UNIT, usize::MAX, false).is_ok());
    assert_eq!(
        Sampler::new(4_000_000, UNIT + 1, 20_000_000, false),
        Err(ConfigError::TooManyOctaves)
    );
}

#[test]
fn sampler_new_refuses_a_shrinking_frequency() {
    assert_eq!(Sampler::new(4_000_000, 999_999, 6, false), Err(ConfigError::GrowthBelowOne));
    assert_eq!(Sampler::new(4_000_000, -2_100_000, 6, false), Err(ConfigError::GrowthBelowOne));
}

#[test]
fn sampler_check_agrees_with_new() {
    let bad = Sampler { base_scalar: 0, growth: 2_100_000, octaves: 3, reversed: false };
    assert_eq!(bad.check(), Some(ConfigError::ZeroScalar));
    let long = Sampler { base_scalar: 1, growth: 2_100_000, octaves: 38, reversed: false };
    assert_eq!(long.check(), Some(ConfigError::TooManyOctaves));
    assert_eq!(ground_sampler(3).check(), None);
}

#[test]
fn probes_scale_the_point_octave_by_octave() {
    let s = ground_sampler(6);
    let probes = s.probes(8, 32, 250_000, 500_000);
    let xs: Vec<i64> = probes.iter().map(|p| p.at.x).collect();
    let ys: Vec<i64> = probes.iter().map(|p| p.at.y).collect();
    assert_eq!(xs, vec![1_000_000, 2_100_000, 4_410_000, 9_261_000, 19_448_100, 40_841_010]);
    assert_eq!(ys, vec![2_000_000, 4_200_000, 8_820_000, 18_522_000, 38_896_200, 81_682_020]);
}

#[test]
fn probes_take_consecutive_fields_cyclically() {
    let s = ground_sampler(6);
    let fields: Vec<usize> = s.probes(29, 32, 0, 0).iter().map(|p| p.field).collect();
    assert_eq!(fields, vec![29, 30, 31, 0, 1, 2]);
}

#[test]
fn probes_of_a_reversed_stack_take_the_fields_backwards() {
    let s = Sampler::new(4_000_000, 2_100_000, 4, true).unwrap();
    let probes = s.probes(30, 32, 250_000, 0);
    let fields: Vec<usize> = probes.iter().map(|p| p.field).collect();
    assert_eq!(fields, vec![1, 0, 31, 30]);
    let xs: Vec<i64> = probes.iter().map(|p| p.at.x).collect();
    assert_eq!(xs, vec![1_000_000, 2_100_000, 4_410_000, 9_261_000]);
}

#[test]
fn probes_of_a_negative_scalar_mirror_the_point() {
    let s = Sampler::new(-8_000_000, 2_100_000, 4, false).unwrap();
    let probes = s.probes(2, 32, 250_000, 333_333);
    let xs: Vec<i64> = probes.iter().map(|p| p.at.x).collect();
    let ys: Vec<i64> = probes.iter().map(|p| p.at.y).collect();
    assert_eq!(xs, vec![-2_000_000, -4_200_000, -8_820_000, -18_522_000]);
    assert_eq!(ys, vec![-2_666_664, -5_599_995, -11_759_989, -24_695_976]);
}

#[test]
fn exp_sample_weights_by_the_reciprocal_of_the_frequency() {
    let s = ground_sampler(2);
    // weights 1 and 1 / 2.1: 21 / 31 and 10 / 31 of the whole
    assert_eq!(s.exp_sample(&vec![UNIT, 0]), 677_419);
    assert_eq!(s.exp_sample(&vec![-UNIT, 0]), -677_420);
    assert_eq!(s.exp_sample(&vec![0, UNIT]), 322_580);
    assert_eq!(s.exp_sample(&vec![UNIT, -UNIT]), 354_838);
    let six = ground_sampler(6);
    assert_eq!(
        six.exp_sample(&vec![300_000, -200_000, 100_000, -50_000, 25_000, -12_500]),
        118_197
    );
}

#[test]
fn exp_sample_of_one_octave_is_the_value() {
    let s = Sampler::new(UNIT, 2_100_000, 1, false).unwrap();
    assert_eq!(s.exp_sample(&vec![0]), 0);
    assert_eq!(s.exp_sample(&vec![123_456]), 123_456);
    assert_eq!(s.exp_sample(&vec![-654_321]), -654_321);
}

#[test]
fn exp_sample_of_equal_values_is_that_value() {
    let s = ground_sampler(6);
    for v in [-UNIT, -1, 0, 1, 777_777, UNIT] {
        assert_eq!(s.exp_sample(&vec![v; 6]), v);
    }
}

#[test]
fn exp_sample_ignores_the_sign_of_the_scalar() {
    let values = vec![300_000, -200_000, 100_000, -50_000];
    let negative = Sampler::new(-8_000_000, 2_100_000, 4, false).unwrap();
    let positive = Sampler::new(8_000_000, 2_100_000, 4, false).unwrap();
    assert_eq!(negative.exp_sample(&values), 122_610);
    assert_eq!(positive.exp_sample(&values), 122_610);
}

#[test]
fn exp_sample_ignores_the_magnitude_of_the_scalar() {
    for base in [1, UNIT, -8 * UNIT, 10_000 * UNIT, 1_000_000 * UNIT, i64::MAX, i64::MIN] {
        let s = Sampler::new(base, 2_100_000, 2, false).unwrap();
        // 11 / 31
        assert_eq!(s.exp_sample(&vec![UNIT, -UNIT]), 354_838);
        // 10 / 31 more for each unit that the second field gives more
        assert_eq!(s.exp_sample(&vec![UNIT, UNIT]), UNIT);
        assert_eq!(s.exp_sample(&vec![UNIT, 0]), 677_419);
    }
}

#[test]
fn exp_sample_rises_with_every_field() {
    let s = Sampler::new(1_000_000 * UNIT, 2_100_000, 37, false).unwrap();
    let low = vec![0; 37];
    for i in 0..37 {
        let mut high = low.clone();
        high[i] = UNIT;
        assert!(s.exp_sample(&high) >= s.exp_sample(&low));
    }
    let six = ground_sampler(6);
    let base = vec![100_000, -200_000, 300_000, -400_000, 500_000, -600_000];
    for i in 0..6 {
        let mut high = base.clone();
        high[i] += 100_000;
        assert!(six.exp_sample(&high) > six.exp_sample(&base));
    }
    // the sixth of six octaves has 1 / 2.1^5 of the first one's weight
    assert_eq!(six.exp_sample(&vec![0, 0, 0, 0, 0, UNIT]), 12_976);
    assert_eq!(six.exp_sample(&vec![UNIT, 0, 0, 0, 0, 0]), 529_988);
}

#[test]
fn exp_sample_counts_a_value_out_of_range_as_the_nearest_in_range() {
    let s = ground_sampler(2);
    assert_eq!(s.exp_sample(&vec![i64::MAX, 0]), s.exp_sample(&vec![UNIT, 0]));
    assert_eq!(s.exp_sample(&vec![i64::MIN, 0]), s.exp_sample(&vec![-UNIT, 0]));
    assert_eq!(s.exp_sample(&vec![i64::MAX, i64::MAX]), UNIT);
}

#[test]
fn exp_sample_lies_in_the_convex_range_of_the_values() {
    let mut state: u64 = 0x2545_f491_4f6c_dd1d;
    let mut next = move || {
        state ^= state << 13;
        state ^= state >> 7;
        state ^= state << 17;
        state
    };
    for round in 0..2_000 {
        let octaves = 1 + (next() % 12) as usize;
        let base = 1 + (next() % 64_000_000) as i64;
        let base = if round % 2 == 0 { base } else { -base };
        let growth = UNIT + (next() % 3_000_000) as i64;
        let s = Sampler::new(base, growth, octaves, false).unwrap();
        let values: Vec<i64> =
            (0..octaves).map(|_| (next() % (2 * UNIT as u64 + 1)) as i64 - UNIT).collect();
        let lo = *values.iter().min().unwrap();
        let hi = *values.iter().max().unwrap();
        let r = s.exp_sample(&values);
        assert!(lo <= r && r <= hi, "{} not in [{}, {}]", r, lo, hi);
        assert!(-UNIT <= r && r <= UNIT);
    }
}

#[test]
fn exp_sample_lets_the_first_octaves_dominate() {
    let s = ground_sampler(6);
    let mut last = UNIT;
    for i in 0..6 {
        let mut values = vec![0; 6];
        values[i] = UNIT;
        let r = s.exp_sample(&values);
        assert!(r <= last);
        assert!(r > 0);
        last = r;
    }
}

#[test]
fn exp_sample_observed_records_the_largest_sample() {
    let s = ground_sampler(2);
    let mut seen = ObservedMax::new();
    assert_eq!(seen.max, MAX_FLOOR);
    assert_eq!(s.exp_sample_observed(&vec![0, UNIT], &mut seen), 322_580);
    assert_eq!(seen.max, 322_580);
    assert_eq!(s.exp_sample_observed(&vec![UNIT, 0], &mut seen), 677_419);
    assert_eq!(seen.max, 677_419);
    assert_eq!(s.exp_sample_observed(&vec![-UNIT, 0], &mut seen), -677_420);
    assert_eq!(seen.max, 677_419);
}

#[test]
fn observed_max_keeps_the_larger() {
    let mut seen = ObservedMax { max: 5 };
    seen.observe(3);
    assert_eq!(seen.max, 5);
    seen.observe(5);
    assert_eq!(seen.max, 5);
    seen.observe(6);
    assert_eq!(seen.max, 6);
}

#[test]
fn field_test_max_is_the_largest_value() {
    assert_eq!(field_test_max(&vec![]), MAX_FLOOR);
    assert_eq!(field_test_max(&vec![-5, 3, 2]), 3);
    assert_eq!(field_test_max(&vec![-540_000, -1]), -1);
    assert_eq!(field_test_max(&vec![i64::MIN]), MAX_FLOOR);
    assert_eq!(field_test_max(&vec![7, i64::MAX, 9]), i64::MAX);
}

#[test]
fn field_test_points_step_along_the_first_axis() {
    assert_eq!(field_test_point(0), Point { x: 0, y: 0 });
    assert_eq!(field_test_point(1), Point { x: 100, y: 0 });
    assert_eq!(field_test_point(10_000), Point { x: 1_000_000, y: 0 });
    assert_eq!(field_test_point(999_999), Point { x: 99_999_900, y: 0 });
}
