use abraxas::config::{Location, OverrideState, WeatherData};
use abraxas::reactor::{
    note_applied, recover_override, tick, ReactorState, TickEnv,
};
use abraxas::solar::SunTimes;
use abraxas::{TEMP_DAY_CLEAR, TEMP_DAY_DARK};

fn weather(cloud: i32) -> WeatherData {
    WeatherData {
        cloud_cover: cloud,
        forecast: b"test".to_vec(),
        temperature: 50,
        is_day: true,
        fetched_at: 1_700_000_000,
        has_error: false,
    }
}

fn base_state(cloud: i32) -> ReactorState {
    ReactorState {
        location: Location { lat_micro: 41_880_000, lon_micro: -87_630_000 },
        weather: Some(weather(cloud)),
        manual_mode: false,
        manual_start_temp: 0,
        manual_target_temp: 0,
        manual_start_time: 0,
        manual_duration_min: 0,
        manual_issued_at: 0,
        manual_resume_time: 0,
        last_temp: 0,
        last_temp_valid: false,
    }
}

fn noon_env(now: i64) -> TickEnv {
    TickEnv {
        now,
        sun: Some(SunTimes { sunrise: now - 6 * 3600, sunset: now + 6 * 3600 }),
        sun_tomorrow: None,
        override_file: None,
        new_location: None,
        new_weather: None,
    }
}

#[test]
fn solar_noon_clear_applies_day_temperature() {
    let now = 1_700_000_000;
    let mut s = base_state(10);
    let plan = tick(&mut s, false, false, noon_env(now));
    assert_eq!(plan.apply_temp, Some(TEMP_DAY_CLEAR));
    assert!(!plan.manual);
    assert!(plan.save_override.is_none());
    assert!(!plan.clear_override);
}

#[test]
fn solar_noon_overcast_applies_dark_temperature() {
    let now = 1_700_000_000;
    let mut s = base_state(90);
    let plan = tick(&mut s, false, false, noon_env(now));
    assert_eq!(plan.apply_temp, Some(TEMP_DAY_DARK));
}

#[test]
fn error_weather_is_not_dark() {
    let now = 1_700_000_000;
    let mut s = base_state(90);
    s.weather.as_mut().unwrap().has_error = true;
    let plan = tick(&mut s, false, false, noon_env(now));
    assert_eq!(plan.apply_temp, Some(TEMP_DAY_CLEAR));
}

#[test]
fn tick_is_idempotent_after_apply() {
    let now = 1_700_000_000;
    let mut s = base_state(10);
    let plan = tick(&mut s, false, false, noon_env(now));
    let t = plan.apply_temp.expect("first tick must apply");
    note_applied(&mut s, t);

    let plan2 = tick(&mut s, false, false, noon_env(now));
    assert_eq!(plan2.apply_temp, None);
    assert!(plan2.save_override.is_none());
    assert!(!plan2.clear_override);
    assert_eq!(s.last_temp, t);
    assert!(s.last_temp_valid);
}

#[test]
fn override_adoption_backpatches_start_temp() {
    let now = 1_700_000_000;
    let mut s = base_state(10);
    s.last_temp = 5000;
    s.last_temp_valid = true;

    let mut env = noon_env(now);
    env.override_file = Some(OverrideState {
        active: true,
        target_temp: 3000,
        duration_minutes: 10,
        issued_at: now,
        start_temp: 0,
    });
    let plan = tick(&mut s, true, false, env);
    assert!(plan.manual);
    assert!(s.manual_mode);
    assert_eq!(s.manual_start_temp, 5000);
    let saved = plan.save_override.expect("zero start_temp must be back-patched");
    assert_eq!(saved.start_temp, 5000);
    assert_eq!(saved.target_temp, 3000);
    assert!(saved.active);
    // at the issue instant the curve starts at the start temperature
    assert_eq!(plan.apply_temp, Some(5000).filter(|t| *t != s.last_temp).or(None));
}

#[test]
fn override_midpoint_hits_halfway_temperature() {
    let now = 1_700_000_000;
    let mut s = base_state(10);
    s.last_temp = 5000;
    s.last_temp_valid = true;

    let mut env = noon_env(now);
    env.override_file = Some(OverrideState {
        active: true,
        target_temp: 3000,
        duration_minutes: 10,
        issued_at: now,
        start_temp: 0,
    });
    tick(&mut s, true, false, env);

    let plan = tick(&mut s, false, false, noon_env(now + 300));
    assert_eq!(plan.apply_temp, Some(4000));
    assert!(plan.manual);
    assert_eq!(plan.progress_pct, 50);
}

#[test]
fn auto_resume_clears_override_and_returns_to_solar() {
    let now = 1_700_000_000;
    let mut s = base_state(10);
    s.manual_mode = true;
    s.manual_start_temp = 5000;
    s.manual_target_temp = 3000;
    s.manual_start_time = now - 900;
    s.manual_duration_min = 10;
    s.manual_issued_at = now - 900;
    s.manual_resume_time = now;

    let plan = tick(&mut s, false, false, noon_env(now));
    assert!(!s.manual_mode);
    assert!(plan.clear_override);
    assert!(!plan.manual);
    assert_eq!(plan.apply_temp, Some(TEMP_DAY_CLEAR));
}

#[test]
fn manual_holds_target_before_resume_instant() {
    let now = 1_700_000_000;
    let mut s = base_state(10);
    s.manual_mode = true;
    s.manual_start_temp = 5000;
    s.manual_target_temp = 3000;
    s.manual_start_time = now - 900;
    s.manual_duration_min = 10;
    s.manual_issued_at = now - 900;
    s.manual_resume_time = now + 5000;

    let plan = tick(&mut s, false, false, noon_env(now));
    assert!(s.manual_mode);
    assert!(!plan.clear_override);
    assert_eq!(plan.apply_temp, Some(3000));
    assert_eq!(plan.progress_pct, 100);
}

#[test]
fn inactive_override_record_ends_manual_mode() {
    let now = 1_700_000_000;
    let mut s = base_state(10);
    s.manual_mode = true;
    s.manual_start_temp = 5000;
    s.manual_target_temp = 3000;
    s.manual_start_time = now - 60;
    s.manual_duration_min = 10;
    s.manual_issued_at = now - 60;
    s.manual_resume_time = 0;

    let mut env = noon_env(now);
    env.override_file = Some(OverrideState {
        active: false,
        target_temp: 0,
        duration_minutes: 0,
        issued_at: 0,
        start_temp: 0,
    });
    let plan = tick(&mut s, true, false, env);
    assert!(!s.manual_mode);
    assert!(plan.clear_override);
    assert_eq!(plan.apply_temp, Some(TEMP_DAY_CLEAR));
}

#[test]
fn config_change_reloads_location_and_weather() {
    let now = 1_700_000_000;
    let mut s = base_state(10);
    let mut env = noon_env(now);
    env.new_location = Some(Location { lat_micro: 1, lon_micro: 2 });
    env.new_weather = Some(weather(90));
    tick(&mut s, false, true, env);
    assert_eq!(s.location, Location { lat_micro: 1, lon_micro: 2 });
    assert_eq!(s.weather.as_ref().unwrap().cloud_cover, 90);
}

#[test]
fn recover_adopts_running_override() {
    let now = 1_700_000_000;
    let mut s = base_state(10);
    let file = Some(OverrideState {
        active: true,
        target_temp: 3000,
        duration_minutes: 10,
        issued_at: now - 120,
        start_temp: 0,
    });
    let (clear, save) = recover_override(&mut s, file, noon_env(now));
    assert!(!clear);
    assert!(s.manual_mode);
    assert_eq!(s.manual_start_time, now - 120);
    // start temperature back-patched with the current solar value
    let saved = save.expect("zero start_temp must be back-patched");
    assert_eq!(saved.start_temp, TEMP_DAY_CLEAR);
    assert_eq!(s.manual_start_temp, TEMP_DAY_CLEAR);
}

#[test]
fn recover_discards_completed_override() {
    let now = 1_700_000_000;
    let mut s = base_state(10);
    let file = Some(OverrideState {
        active: true,
        target_temp: 3000,
        duration_minutes: 10,
        issued_at: now - 601,
        start_temp: 4000,
    });
    let (clear, save) = recover_override(&mut s, file, noon_env(now));
    assert!(clear);
    assert!(save.is_none());
    assert!(!s.manual_mode);
}

#[test]
fn recover_ignores_inactive_or_missing_records() {
    let now = 1_700_000_000;
    let mut s = base_state(10);
    assert_eq!(recover_override(&mut s, None, noon_env(now)), (false, None));
    let file = Some(OverrideState {
        active: false,
        target_temp: 0,
        duration_minutes: 0,
        issued_at: 0,
        start_temp: 0,
    });
    assert_eq!(recover_override(&mut s, file, noon_env(now)), (false, None));
    assert!(!s.manual_mode);
}
