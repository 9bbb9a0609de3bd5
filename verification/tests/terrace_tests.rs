use terraces::config::ConfigError;
use terraces::fixed::UNIT;
use terraces::terrace::{Terrace, TerraceRules};

const CLOSE: i64 = 582_000;
const INC: i64 = 600_000;

fn rules(terraces: u32) -> TerraceRules {
    TerraceRules { terraces, ramp_prop: 150_000, close_when_over: CLOSE, inc_when_over: INC }
}

#[test]
fn classify_cuts_the_height_down_to_a_terrace() {
    let t = rules(10).classify(500_000, 500_000);
    assert_eq!(
        t,
        Terrace {
            terraces: 10,
            raw_level: 5,
            level: 5,
            raw_height: 500_000,
            height: 500_000,
            is_ramp: false,
        }
    );
    let t = rules(21).classify(500_000, 500_000);
    assert_eq!(
        t,
        Terrace {
            terraces: 21,
            raw_level: 10,
            level: 10,
            raw_height: 476_190,
            height: 476_190,
            is_ramp: false,
        }
    );
    let t = rules(21).classify(524_000, 0);
    assert_eq!(
        t,
        Terrace {
            terraces: 21,
            raw_level: 11,
            level: 11,
            raw_height: 523_809,
            height: 523_809,
            is_ramp: false,
        }
    );
}

#[test]
fn classify_marks_a_ramp_close_below_the_next_terrace() {
    // 0.09 * 10 = 0.9 > 1 - 0.15
    assert_eq!(
        rules(10).classify(90_000, 0),
        Terrace {
            terraces: 10,
            raw_level: 0,
            level: 0,
            raw_height: 0,
            height: 0,
            is_ramp: true,
        }
    );
    // 0.085 * 10 = 0.85, not over 0.85
    assert!(!rules(10).classify(85_000, 0).is_ramp);
    assert!(rules(10).classify(85_001, 0).is_ramp);
    assert!(!rules(10).classify(84_999, 0).is_ramp);
}

#[test]
fn classify_sample_exactly_at_the_ramp_threshold_changes_nothing() {
    // level 5 is odd: the sample counts as it is
    assert_eq!(
        rules(10).classify(500_000, CLOSE),
        Terrace {
            terraces: 10,
            raw_level: 5,
            level: 5,
            raw_height: 500_000,
            height: 500_000,
            is_ramp: false,
        }
    );
    assert_eq!(rules(10).classify(590_000, CLOSE), rules(10).classify(590_000, 0));
    assert!(rules(10).classify(590_000, CLOSE).is_ramp);
}

#[test]
fn classify_sample_just_over_the_ramp_threshold_marks_a_ramp() {
    assert_eq!(
        rules(10).classify(500_000, CLOSE + 1),
        Terrace {
            terraces: 10,
            raw_level: 5,
            level: 5,
            raw_height: 500_000,
            height: 500_000,
            is_ramp: true,
        }
    );
}

#[test]
fn classify_sample_exactly_at_the_lifting_threshold_marks_a_ramp() {
    assert_eq!(
        rules(10).classify(500_000, INC),
        Terrace {
            terraces: 10,
            raw_level: 5,
            level: 5,
            raw_height: 500_000,
            height: 500_000,
            is_ramp: true,
        }
    );
}

#[test]
fn classify_sample_just_over_the_lifting_threshold_lifts() {
    assert_eq!(
        rules(10).classify(500_000, INC + 1),
        Terrace {
            terraces: 10,
            raw_level: 5,
            level: 6,
            raw_height: 500_000,
            height: 600_000,
            is_ramp: false,
        }
    );
    // lifting clears the ramp that the first pass had marked
    assert_eq!(
        rules(10).classify(590_000, INC + 1),
        Terrace {
            terraces: 10,
            raw_level: 5,
            level: 6,
            raw_height: 500_000,
            height: 600_000,
            is_ramp: false,
        }
    );
}

#[test]
fn classify_negates_the_sample_on_even_terraces() {
    // 0.52 * 21 = 10.92: level 10 is even
    assert_eq!(
        rules(21).classify(520_000, -INC - 1),
        Terrace {
            terraces: 21,
            raw_level: 10,
            level: 11,
            raw_height: 476_190,
            height: 523_809,
            is_ramp: false,
        }
    );
    assert_eq!(
        rules(21).classify(400_000, -INC),
        Terrace {
            terraces: 21,
            raw_level: 8,
            level: 8,
            raw_height: 380_952,
            height: 380_952,
            is_ramp: true,
        }
    );
    assert_eq!(
        rules(21).classify(400_000, -CLOSE),
        Terrace {
            terraces: 21,
            raw_level: 8,
            level: 8,
            raw_height: 380_952,
            height: 380_952,
            is_ramp: false,
        }
    );
    // a positive sample, however large, does nothing on an even terrace
    assert_eq!(rules(21).classify(400_000, UNIT), rules(21).classify(400_000, 0));
    assert_eq!(rules(21).classify(400_000, i64::MAX), rules(21).classify(400_000, 0));
    assert_eq!(rules(21).classify(400_000, i64::MIN).level, 9);
}

#[test]
fn classify_level_zero_is_even() {
    assert_eq!(
        rules(21).classify(0, -700_000),
        Terrace {
            terraces: 21,
            raw_level: 0,
            level: 1,
            raw_height: 0,
            height: 47_619,
            is_ramp: false,
        }
    );
    assert_eq!(rules(21).classify(0, 700_000).level, 0);
}

#[test]
fn classify_never_lifts_above_the_last_terrace() {
    // an odd number of terraces: the last level is odd and takes the sample as it is
    assert_eq!(
        rules(21).classify(UNIT, 700_000),
        Terrace {
            terraces: 21,
            raw_level: 21,
            level: 21,
            raw_height: UNIT,
            height: UNIT,
            is_ramp: false,
        }
    );
    assert_eq!(
        rules(10).classify(UNIT, -700_000),
        Terrace {
            terraces: 10,
            raw_level: 10,
            level: 10,
            raw_height: UNIT,
            height: UNIT,
            is_ramp: false,
        }
    );
    assert_eq!(
        rules(10).classify(999_999, 700_000),
        Terrace {
            terraces: 10,
            raw_level: 9,
            level: 10,
            raw_height: 900_000,
            height: UNIT,
            is_ramp: false,
        }
    );
}

#[test]
fn classify_holds_the_ground_height_in_range() {
    assert_eq!(rules(21).classify(-1, 0), rules(21).classify(0, 0));
    assert_eq!(rules(21).classify(i64::MIN, 0), rules(21).classify(0, 0));
    assert_eq!(rules(21).classify(UNIT + 1, 0), rules(21).classify(UNIT, 0));
    assert_eq!(rules(21).classify(i64::MAX, 0), rules(21).classify(UNIT, 0));
}

#[test]
fn classify_level_is_always_in_range_and_height_its_share() {
    let samples = [i64::MIN, -UNIT, -INC - 1, -INC, -CLOSE - 1, -CLOSE, -1, 0, 1, CLOSE,
        CLOSE + 1, INC, INC + 1, UNIT, i64::MAX];
    for terraces in [1u32, 2, 3, 10, 21, 255, 1_000_003, u32::MAX] {
        let r = rules(terraces);
        let mut ground: i64 = -50_000;
        while ground <= UNIT + 50_000 {
            for s in samples {
                let t = r.classify(ground, s);
                assert!(t.level <= terraces);
                assert_eq!(t.height as i128, (t.level as i128 * UNIT as i128) / terraces as i128);
                assert!(0 <= t.raw_height && t.raw_height <= t.height && t.height <= UNIT);
            }
            ground += 9_973;
        }
    }
}

#[test]
fn classify_with_one_terrace() {
    assert_eq!(
        rules(1).classify(500_000, 0),
        Terrace {
            terraces: 1,
            raw_level: 0,
            level: 0,
            raw_height: 0,
            height: 0,
            is_ramp: false,
        }
    );
    assert_eq!(
        rules(1).classify(900_000, -INC - 1),
        Terrace {
            terraces: 1,
            raw_level: 0,
            level: 1,
            raw_height: 0,
            height: UNIT,
            is_ramp: false,
        }
    );
    assert_eq!(
        rules(1).classify(UNIT, 0),
        Terrace {
            terraces: 1,
            raw_level: 1,
            level: 1,
            raw_height: UNIT,
            height: UNIT,
            is_ramp: false,
        }
    );
}

#[test]
fn terrace_bytes_are_rounded_once() {
    // 1 / 128 is 0.0078125: two steps of 256, though its height in
    // millionths lies just below them
    let t = rules(128).classify(10_000, 0);
    assert_eq!((t.raw_level, t.level, t.height), (1, 1, 7_812));
    assert_eq!(t.byte(), 2);
    assert_eq!(t.raw_byte(), 2);
    let t = rules(3).classify(400_000, 0);
    assert_eq!((t.level, t.height), (1, 333_333));
    assert_eq!(t.byte(), 85);
    let t = rules(21).classify(520_000, -INC - 1);
    assert_eq!((t.raw_byte(), t.byte()), (121, 134));
}

#[test]
fn terrace_byte_of_the_last_terrace_is_the_largest() {
    assert_eq!(rules(21).classify(UNIT, 0).byte(), 255);
    assert_eq!(rules(1).classify(UNIT, 0).raw_byte(), 255);
    assert_eq!(rules(21).classify(0, 0).byte(), 0);
    for terraces in [1u32, 2, 7, 128, 255, 256, 257, 100_000, u32::MAX] {
        let mut last = 0u8;
        let mut ground = 0;
        while ground <= UNIT {
            let t = rules(terraces).classify(ground, 0);
            let expected = if t.level >= terraces {
                255
            } else {
                (t.level as u64 * 256 / terraces as u64) as u8
            };
            assert_eq!(t.byte(), expected);
            assert!(t.raw_byte() <= t.byte());
            assert!(t.raw_byte() >= last);
            last = t.raw_byte();
            ground += 3_331;
        }
    }
}

#[test]
fn rules_without_a_terrace_are_refused() {
    assert_eq!(rules(0).check(), Some(ConfigError::ZeroTerraces));
    assert_eq!(rules(1).check(), None);
}

#[test]
fn rules_with_thresholds_out_of_order_are_refused() {
    let equal = TerraceRules { close_when_over: INC, ..rules(21) };
    assert_eq!(equal.check(), Some(ConfigError::ThresholdOrder));
    let swapped = TerraceRules { close_when_over: INC, inc_when_over: CLOSE, ..rules(21) };
    assert_eq!(swapped.check(), Some(ConfigError::ThresholdOrder));
    let none = TerraceRules { close_when_over: INC, inc_when_over: CLOSE, ..rules(0) };
    assert_eq!(none.check(), Some(ConfigError::ZeroTerraces));
}
