use abraxas::sigmoid::{
    calculate_manual_temp, calculate_solar_temp, next_transition_resume, sigmoid_norm,
    SIGMOID_STEEPNESS_Q16,
};
use abraxas::solar::SunTimes;
use abraxas::{TEMP_DAY_CLEAR, TEMP_DAY_DARK, TEMP_NIGHT};

const UNIT: i64 = 65536;

#[test]
fn sigmoid_endpoints_at_default_steepness() {
    assert_eq!(sigmoid_norm(-UNIT, SIGMOID_STEEPNESS_Q16), 0);
    assert_eq!(sigmoid_norm(UNIT, SIGMOID_STEEPNESS_Q16), UNIT);
}

#[test]
fn sigmoid_midpoint_is_half() {
    assert_eq!(sigmoid_norm(0, SIGMOID_STEEPNESS_Q16), UNIT / 2);
}

#[test]
fn sigmoid_endpoints_at_tiny_steepness() {
    // a steepness too small to register in Q16 degenerates to a step,
    // but the interval endpoints still map to 0 and 1
    assert_eq!(sigmoid_norm(-UNIT, 1), 0);
    assert_eq!(sigmoid_norm(UNIT, 1), UNIT);
}

#[test]
fn sigmoid_endpoints_at_large_steepness() {
    let k = 100 * UNIT;
    assert_eq!(sigmoid_norm(-UNIT, k), 0);
    assert_eq!(sigmoid_norm(UNIT, k), UNIT);
}

#[test]
fn sigmoid_stays_in_range() {
    for x in [-UNIT, -UNIT / 2, -1, 0, 1, UNIT / 3, UNIT] {
        let f = sigmoid_norm(x, SIGMOID_STEEPNESS_Q16);
        assert!(0 <= f && f <= UNIT);
    }
}

#[test]
fn manual_temp_starts_at_start() {
    let t0 = 1_700_000_000;
    assert_eq!(calculate_manual_temp(5000, 3000, t0, 10, t0), 5000);
}

#[test]
fn manual_temp_ends_at_target() {
    let t0 = 1_700_000_000;
    assert_eq!(calculate_manual_temp(5000, 3000, t0, 10, t0 + 10 * 60), 3000);
    assert_eq!(calculate_manual_temp(5000, 3000, t0, 10, t0 + 10 * 60 + 1), 3000);
}

#[test]
fn manual_temp_midpoint_by_symmetry() {
    let t0 = 1_700_000_000;
    assert_eq!(calculate_manual_temp(5000, 3000, t0, 10, t0 + 300), 4000);
}

#[test]
fn manual_temp_instant_when_duration_not_positive() {
    let t0 = 1_700_000_000;
    assert_eq!(calculate_manual_temp(5000, 3000, t0, 0, t0), 3000);
    assert_eq!(calculate_manual_temp(5000, 3000, t0, -5, t0), 3000);
}

#[test]
fn manual_temp_stays_between_endpoints() {
    let t0 = 1_700_000_000;
    for dt in [0, 60, 150, 300, 450, 599, 600] {
        let t = calculate_manual_temp(2900, 6500, t0, 10, t0 + dt);
        assert!((2900..=6500).contains(&t));
        let t2 = calculate_manual_temp(6500, 2900, t0, 10, t0 + dt);
        assert!((2900..=6500).contains(&t2));
    }
}

#[test]
fn solar_temp_night_before_dawn_window() {
    assert_eq!(calculate_solar_temp(-3 * 3600, 15 * 3600, false), TEMP_NIGHT);
}

#[test]
fn solar_temp_dawn_window_boundaries() {
    // dawn window: 90 minutes centered on sunrise
    assert_eq!(calculate_solar_temp(-45 * 60, 12 * 3600, false), TEMP_NIGHT);
    assert_eq!(calculate_solar_temp(45 * 60, 12 * 3600, false), TEMP_DAY_CLEAR);
    assert_eq!(calculate_solar_temp(45 * 60, 12 * 3600, true), TEMP_DAY_DARK);
}

#[test]
fn solar_temp_noon_clear_and_overcast() {
    // solar noon: hours after sunrise, hours to sunset
    assert_eq!(calculate_solar_temp(6 * 3600, 6 * 3600, false), TEMP_DAY_CLEAR);
    assert_eq!(calculate_solar_temp(6 * 3600, 6 * 3600, true), TEMP_DAY_DARK);
}

#[test]
fn solar_temp_dusk_window_boundaries() {
    // dusk window: 120 minutes centered 30 minutes before sunset
    let day_side = 30 * 60 + 60 * 60;
    let night_side = 30 * 60 - 60 * 60;
    assert_eq!(calculate_solar_temp(8 * 3600, day_side, false), TEMP_DAY_CLEAR);
    assert_eq!(calculate_solar_temp(8 * 3600, night_side, false), TEMP_NIGHT);
}

#[test]
fn solar_temp_after_dusk_is_night() {
    assert_eq!(calculate_solar_temp(16 * 3600, -3600, false), TEMP_NIGHT);
}

#[test]
fn solar_temp_dusk_midpoint_is_halfway() {
    let t = calculate_solar_temp(8 * 3600, 30 * 60, false);
    assert_eq!(t, TEMP_NIGHT + (TEMP_DAY_CLEAR - TEMP_NIGHT) / 2);
}

#[test]
fn resume_polar_fallback_is_one_day() {
    assert_eq!(next_transition_resume(1_700_000_000, None, None), 1_700_000_000 + 86400);
}

#[test]
fn resume_picks_next_dawn_lead() {
    let now = 1_700_000_000;
    let st = SunTimes { sunrise: now + 10_000, sunset: now + 50_000 };
    // dawn window starts 2700 s before sunrise; resume leads it by 900 s
    assert_eq!(next_transition_resume(now, Some(st), None), now + 10_000 - 2700 - 900);
}

#[test]
fn resume_picks_dusk_when_dawn_passed() {
    let now = 1_700_000_000;
    let st = SunTimes { sunrise: now - 20_000, sunset: now + 30_000 };
    // dusk window starts 90 min before sunset; resume leads it by 15 min
    assert_eq!(
        next_transition_resume(now, Some(st), None),
        now + 30_000 - 90 * 60 - 15 * 60
    );
}

#[test]
fn resume_uses_tomorrow_when_both_passed() {
    let now = 1_700_000_000;
    let st = SunTimes { sunrise: now - 60_000, sunset: now - 20_000 };
    let st2 = SunTimes { sunrise: now + 70_000, sunset: now + 110_000 };
    assert_eq!(
        next_transition_resume(now, Some(st), Some(st2)),
        now + 70_000 - 2700 - 900
    );
}
