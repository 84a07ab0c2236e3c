use abraxas::config::{
    encode_override, encode_pid, encode_weather_cache, parse_override, parse_pid,
    parse_weather_cache, weather_needs_refresh, OverrideState, Paths, WeatherData,
};
use abraxas::ini::{load_location, save_location};
use abraxas::config::Location;

#[test]
fn override_roundtrip_all_fields() {
    let o = OverrideState {
        active: true,
        target_temp: 3000,
        duration_minutes: 10,
        issued_at: 1_700_000_123,
        start_temp: 0,
    };
    let bytes = encode_override(&o);
    assert_eq!(parse_override(&bytes), Some(o));
}

#[test]
fn override_roundtrip_negative_and_inactive() {
    let o = OverrideState {
        active: false,
        target_temp: -1,
        duration_minutes: -3,
        issued_at: 0,
        start_temp: i32::MIN,
    };
    let bytes = encode_override(&o);
    assert_eq!(parse_override(&bytes), Some(o));
}

#[test]
fn override_canonical_bytes() {
    let o = OverrideState {
        active: true,
        target_temp: 3500,
        duration_minutes: 30,
        issued_at: 42,
        start_temp: 0,
    };
    let expected = "{\"active\":true,\"target_temp\":3500,\"duration_minutes\":30,\"issued_at\":42,\"start_temp\":0}";
    assert_eq!(encode_override(&o), expected.as_bytes().to_vec());
}

#[test]
fn override_reader_accepts_whitespace_and_any_field_order() {
    let text = " {\n  \"start_temp\" : 4000 ,\n  \"issued_at\": 42,\n  \"active\" : true,\n  \"duration_minutes\":10 , \"target_temp\": 3000\n}\n";
    assert_eq!(
        parse_override(text.as_bytes()),
        Some(OverrideState {
            active: true,
            target_temp: 3000,
            duration_minutes: 10,
            issued_at: 42,
            start_temp: 4000,
        })
    );
}

#[test]
fn override_reader_rejects_duplicates_and_missing_fields() {
    let dup = "{\"active\":true,\"active\":false,\"target_temp\":1,\"duration_minutes\":2,\"issued_at\":3,\"start_temp\":4}";
    assert_eq!(parse_override(dup.as_bytes()), None);
    let missing = "{\"active\":true,\"target_temp\":1,\"duration_minutes\":2,\"issued_at\":3}";
    assert_eq!(parse_override(missing.as_bytes()), None);
    let unknown = "{\"active\":true,\"color\":1}";
    assert_eq!(parse_override(unknown.as_bytes()), None);
}

#[test]
fn override_parse_rejects_garbage() {
    assert_eq!(parse_override(b"not json"), None);
    assert_eq!(parse_override(b""), None);
    let o = OverrideState {
        active: true,
        target_temp: 3500,
        duration_minutes: 30,
        issued_at: 42,
        start_temp: 0,
    };
    let mut ws = encode_override(&o);
    ws.push(b'\n');
    assert_eq!(parse_override(&ws), Some(o), "trailing whitespace is fine");
    let mut bytes = encode_override(&o);
    bytes.push(b'x');
    assert_eq!(parse_override(&bytes), None, "trailing garbage must be rejected");
}

#[test]
fn weather_cache_roundtrip_good_snapshot() {
    let wd = WeatherData {
        cloud_cover: 75,
        forecast: b"Mostly \"Cloudy\" \\ windy".to_vec(),
        temperature: 53,
        is_day: true,
        fetched_at: 1_700_000_000,
        has_error: false,
    };
    let bytes = encode_weather_cache(&wd);
    let back = parse_weather_cache(&bytes).expect("cache should parse");
    assert_eq!(back.cloud_cover, 75);
    assert_eq!(back.forecast, wd.forecast);
    assert_eq!(back.temperature, 53);
    assert!(back.is_day);
    assert_eq!(back.fetched_at, 1_700_000_000);
    assert!(!back.has_error);
}

#[test]
fn weather_cache_error_snapshot_zeroes_payload() {
    let wd = WeatherData {
        cloud_cover: 90,
        forecast: b"Thunderstorms".to_vec(),
        temperature: 70,
        is_day: false,
        fetched_at: 1_700_000_500,
        has_error: true,
    };
    let bytes = encode_weather_cache(&wd);
    let text = String::from_utf8(bytes.clone()).unwrap();
    assert!(text.contains("\"cloud_cover\":0"), "persisted error must zero cloud cover");
    assert!(text.contains("\"error\":\"fetch failed\""));
    let back = parse_weather_cache(&bytes).expect("cache should parse");
    assert!(back.has_error);
    assert_eq!(back.cloud_cover, 0);
    assert_eq!(back.fetched_at, 1_700_000_500);
}

#[test]
fn weather_cache_zero_fetch_time_reads_as_error() {
    let wd = WeatherData {
        cloud_cover: 10,
        forecast: b"Sunny".to_vec(),
        temperature: 80,
        is_day: true,
        fetched_at: 0,
        has_error: false,
    };
    let bytes = encode_weather_cache(&wd);
    let back = parse_weather_cache(&bytes).expect("cache should parse");
    assert!(back.has_error);
}

#[test]
fn weather_cache_rejects_garbage() {
    assert_eq!(parse_weather_cache(b"{}").map(|w| w.cloud_cover), None);
    assert_eq!(parse_weather_cache(b"").map(|w| w.cloud_cover), None);
}

#[test]
fn weather_needs_refresh_policy() {
    let fresh = WeatherData {
        cloud_cover: 10,
        forecast: b"Sunny".to_vec(),
        temperature: 80,
        is_day: true,
        fetched_at: 1_700_000_000,
        has_error: false,
    };
    assert!(!weather_needs_refresh(&fresh, 1_700_000_100));
    assert!(weather_needs_refresh(&fresh, 1_700_000_000 + 901));
    let mut err = fresh.clone();
    err.has_error = true;
    assert!(weather_needs_refresh(&err, 1_700_000_100));
    let mut unfilled = fresh.clone();
    unfilled.fetched_at = 0;
    assert!(weather_needs_refresh(&unfilled, 1_700_000_100));
    // the policy is the spec formula on any timestamp, however odd
    let mut future = fresh.clone();
    future.fetched_at = i64::MAX;
    assert!(!weather_needs_refresh(&future, 1_700_000_100));
    let mut ancient = fresh.clone();
    ancient.fetched_at = i64::MIN;
    assert!(weather_needs_refresh(&ancient, 1_700_000_100));
}

#[test]
fn pid_file_roundtrip() {
    assert_eq!(encode_pid(1234), b"1234\n".to_vec());
    assert_eq!(parse_pid(b"1234\n"), Some(1234));
    assert_eq!(parse_pid(b"  987  \n"), Some(987));
}

#[test]
fn pid_file_rejects_bad_content() {
    assert_eq!(parse_pid(b"0\n"), None);
    assert_eq!(parse_pid(b"-5\n"), None);
    assert_eq!(parse_pid(b"abc"), None);
    assert_eq!(parse_pid(b""), None);
    assert_eq!(parse_pid(b"12 34"), None);
}

#[test]
fn location_roundtrip() {
    let loc = Location { lat_micro: 41_880_000, lon_micro: -87_630_000 };
    let bytes = save_location(&loc);
    assert_eq!(load_location(&bytes), Some(loc));
}

#[test]
fn location_canonical_bytes() {
    let loc = Location { lat_micro: 41_880_000, lon_micro: -87_630_000 };
    let expected = "[location]\nlatitude = 41.880000\nlongitude = -87.630000\n";
    assert_eq!(save_location(&loc), expected.as_bytes().to_vec());
}

#[test]
fn location_parser_is_tolerant() {
    let text = "# a comment\n; another comment\n\n[other]\nlatitude = 99.0\n[location]\n  latitude =  41.88  \nlongitude=-87.63\n";
    assert_eq!(
        load_location(text.as_bytes()),
        Some(Location { lat_micro: 41_880_000, lon_micro: -87_630_000 })
    );
}

#[test]
fn location_fraction_scaling() {
    let text = "[location]\nlatitude = 1.5\nlongitude = -0.000001\n";
    assert_eq!(
        load_location(text.as_bytes()),
        Some(Location { lat_micro: 1_500_000, lon_micro: -1 })
    );
}

#[test]
fn location_missing_or_invalid_reads_as_none() {
    assert_eq!(load_location(b"latitude = 1\nlongitude = 2\n"), None);
    assert_eq!(load_location(b"[location]\nlatitude = 1\n"), None);
    assert_eq!(load_location(b"[location]\nlatitude = abc\nlongitude = 2\n"), None);
    assert_eq!(load_location(b""), None);
}

#[test]
fn paths_hold_canonical_names() {
    let p = Paths::init();
    assert_eq!(p.config_file, "config.ini");
    assert_eq!(p.cache_file, "weather_cache.json");
    assert_eq!(p.override_file, "override.json");
    assert_eq!(p.zipdb_file, "us_zipcodes.bin");
    assert_eq!(p.pid_file, "daemon.pid");
}
