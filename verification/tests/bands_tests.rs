use terraces::bands::BandRules;
use terraces::config::ConfigError;
use terraces::fixed::UNIT;
use terraces::terrace::Terrace;

fn rules() -> BandRules {
    BandRules {
        depth_gain: 6_000_000,
        darkness_cap: 600_000,
        water_brightness: 400_000,
        water_dim: 400_000,
        ramp_threshold: 650_000,
    }
}

fn flat() -> Terrace {
    Terrace {
        terraces: 21,
        raw_level: 10,
        level: 10,
        raw_height: 476_190,
        height: 476_190,
        is_ramp: false,
    }
}

fn lifted_ramp() -> Terrace {
    Terrace {
        terraces: 21,
        raw_level: 10,
        level: 11,
        raw_height: 476_190,
        height: 523_809,
        is_ramp: true,
    }
}

#[test]
fn compose_dry_flat_land() {
    let b = rules().compose(500_000, flat(), 400_000, 0);
    assert_eq!(b.ground, [128, 128, 128, 255]);
    assert_eq!(b.terrace, [121, 121, 121, 255]);
    assert_eq!(b.water, [121, 121, 121, 255]);
    assert_eq!(b.ramp, [121, 121, 121, 255]);
}

#[test]
fn compose_shows_the_raw_terrace_in_the_red_of_the_terrace_raster() {
    let b = rules().compose(500_000, lifted_ramp(), 0, 0);
    assert_eq!(b.terrace, [121, 134, 134, 255]);
    assert_eq!(b.water, [134, 134, 134, 255]);
}

#[test]
fn compose_takes_the_terrace_byte_from_the_level_and_the_count() {
    let first_of_128 = Terrace {
        terraces: 128,
        raw_level: 0,
        level: 1,
        raw_height: 0,
        height: 7_812,
        is_ramp: false,
    };
    let b = rules().compose(10_000, first_of_128, 0, 0);
    assert_eq!(b.terrace, [0, 2, 2, 255]);
    assert_eq!(b.water, [2, 2, 2, 255]);
    assert_eq!(b.ramp, [2, 2, 2, 255]);
}

#[test]
fn compose_ground_exactly_at_the_water_level_is_dry() {
    let b = rules().compose(500_000, flat(), 500_000, 0);
    assert_eq!(b.water, [121, 121, 121, 255]);
    assert_eq!(b.ramp, [121, 121, 121, 255]);
    let b = rules().compose(0, flat(), 0, 0);
    assert_eq!(b.water, [121, 121, 121, 255]);
    let b = rules().compose(UNIT, flat(), UNIT, 0);
    assert_eq!(b.water, [121, 121, 121, 255]);
}

#[test]
fn compose_ground_just_below_the_water_level_is_submerged() {
    // depth 0.000001: darkness 0.000006, blue 0.4, red and green 0.16
    let b = rules().compose(499_999, flat(), 500_000, 0);
    assert_eq!(b.water, [40, 40, 102, 255]);
    assert_eq!(b.ramp, [40, 40, 102, 255]);
    assert_eq!(b.ground, [127, 127, 127, 255]);
    assert_eq!(b.terrace, [121, 121, 121, 255]);
}

#[test]
fn compose_ground_just_above_the_water_level_is_dry() {
    let b = rules().compose(500_001, flat(), 500_000, 0);
    assert_eq!(b.water, [121, 121, 121, 255]);
}

#[test]
fn compose_shades_water_by_the_square_of_its_darkness() {
    // depth 0.05: darkness 0.3, blue 0.4 * 0.91 = 0.364, red and green 0.1456
    let b = rules().compose(500_000, flat(), 550_000, 0);
    assert_eq!(b.water, [37, 37, 93, 255]);
    assert_eq!(b.ramp, [37, 37, 93, 255]);
    // depth 0.02: darkness 0.12, blue 0.39424, red and green 0.157696
    let b = rules().compose(500_000, flat(), 520_000, 0);
    assert_eq!(b.water, [40, 40, 100, 255]);
}

#[test]
fn compose_caps_the_darkness_of_deep_water() {
    // depth 0.1 reaches the cap: blue 0.4 * 0.64 = 0.256, red and green 0.1024
    let at_cap = rules().compose(400_000, flat(), 500_000, 0);
    assert_eq!(at_cap.water, [26, 26, 65, 255]);
    let deeper = rules().compose(0, flat(), 500_000, 0);
    assert_eq!(deeper.water, [26, 26, 65, 255]);
    let deepest = rules().compose(0, flat(), UNIT, 0);
    assert_eq!(deepest.water, [26, 26, 65, 255]);
}

#[test]
fn compose_water_never_gets_brighter_with_depth() {
    let mut last: u8 = 255;
    let mut water = 1;
    while water <= UNIT {
        let b = rules().compose(0, flat(), water, 0);
        assert!(b.water[2] <= last);
        assert!(b.water[0] <= b.water[2]);
        last = b.water[2];
        water += 997;
    }
}

#[test]
fn compose_tells_a_ramp_from_a_cliff() {
    let ramp = rules().compose(500_000, lifted_ramp(), 0, 650_001);
    assert_eq!(ramp.ramp, [128, 128, 128, 255]);
    let cliff = rules().compose(500_000, lifted_ramp(), 0, 650_000);
    assert_eq!(cliff.ramp, [64, 64, 64, 255]);
    let cliff = rules().compose(500_000, lifted_ramp(), 0, 0);
    assert_eq!(cliff.ramp, [64, 64, 64, 255]);
    let odd = rules().compose(UNIT, lifted_ramp(), 0, 0);
    assert_eq!(odd.ramp, [127, 127, 127, 255]);
}

#[test]
fn compose_ignores_the_texture_on_flat_ground_and_under_water() {
    assert_eq!(rules().compose(500_000, flat(), 0, UNIT).ramp, [121, 121, 121, 255]);
    assert_eq!(rules().compose(500_000, flat(), 0, 0).ramp, [121, 121, 121, 255]);
    assert_eq!(
        rules().compose(500_000, lifted_ramp(), 550_000, UNIT).ramp,
        rules().compose(500_000, lifted_ramp(), 550_000, 0).ramp
    );
}

#[test]
fn compose_holds_heights_in_range() {
    let b = rules().compose(i64::MAX, flat(), i64::MAX, 0);
    assert_eq!(b.ground, [255, 255, 255, 255]);
    assert_eq!(b.water, [121, 121, 121, 255]);
    let b = rules().compose(i64::MIN, flat(), i64::MAX, 0);
    assert_eq!(b.ground, [0, 0, 0, 255]);
    assert_eq!(b.water, [26, 26, 65, 255]);
    let b = rules().compose(i64::MAX, flat(), i64::MIN, 0);
    assert_eq!(b.water, [121, 121, 121, 255]);
}

#[test]
fn compose_is_always_opaque() {
    let mut ground = -100_000;
    while ground <= UNIT + 100_000 {
        let mut water = -100_000;
        while water <= UNIT + 100_000 {
            for terrace in [flat(), lifted_ramp()] {
                let b = rules().compose(ground, terrace, water, 700_000);
                assert_eq!(b.ground[3], 255);
                assert_eq!(b.terrace[3], 255);
                assert_eq!(b.water[3], 255);
                assert_eq!(b.ramp[3], 255);
            }
            water += 150_000;
        }
        ground += 150_000;
    }
}

#[test]
fn band_rules_out_of_range_are_refused() {
    assert_eq!(rules().check(), None);
    let mut r = rules();
    r.depth_gain = -1;
    assert_eq!(r.check(), Some(ConfigError::ShadeOutOfRange));
    let mut r = rules();
    r.darkness_cap = UNIT + 1;
    assert_eq!(r.check(), Some(ConfigError::ShadeOutOfRange));
    let mut r = rules();
    r.water_brightness = -1;
    assert_eq!(r.check(), Some(ConfigError::ShadeOutOfRange));
    let mut r = rules();
    r.water_dim = UNIT + 1;
    assert_eq!(r.check(), Some(ConfigError::ShadeOutOfRange));
    let mut r = rules();
    r.ramp_threshold = i64::MIN;
    assert_eq!(r.check(), None);
}
