use abraxas::colorramp::{fill_gamma_ramps, kelvin_to_scales};
use abraxas::gamma::{init, BackendKind, CrtcModel, Error, GammaState, GnomeState, GNOME_GAMMA_SIZE};
use abraxas::weather::{
    advance_fetch, cloud_cover_from_forecast, error_snapshot, FetchOutcome, FetchPhase,
};

#[test]
fn cloud_cover_precedence() {
    assert_eq!(cloud_cover_from_forecast(b"Light Rain"), 95);
    assert_eq!(cloud_cover_from_forecast(b"Thunderstorms"), 95);
    assert_eq!(cloud_cover_from_forecast(b"Snow Showers"), 95);
    assert_eq!(cloud_cover_from_forecast(b"Drizzle"), 95);
    assert_eq!(cloud_cover_from_forecast(b"Overcast"), 90);
    assert_eq!(cloud_cover_from_forecast(b"Mostly Cloudy"), 75);
    assert_eq!(cloud_cover_from_forecast(b"Cloudy"), 90);
    assert_eq!(cloud_cover_from_forecast(b"Partly Sunny"), 50);
    assert_eq!(cloud_cover_from_forecast(b"Mostly Sunny"), 25);
    assert_eq!(cloud_cover_from_forecast(b"Mostly Clear"), 25);
    assert_eq!(cloud_cover_from_forecast(b"Sunny"), 10);
    assert_eq!(cloud_cover_from_forecast(b"Clear"), 10);
    assert_eq!(cloud_cover_from_forecast(b"Fog"), 0);
}

#[test]
fn cloud_cover_is_case_insensitive() {
    assert_eq!(cloud_cover_from_forecast(b"MOSTLY CLOUDY"), 75);
    assert_eq!(cloud_cover_from_forecast(b"sunny"), 10);
}

#[test]
fn error_snapshot_fields() {
    let wd = error_snapshot(1_700_000_000);
    assert!(wd.has_error);
    assert_eq!(wd.cloud_cover, 0);
    assert_eq!(wd.forecast, b"Unknown".to_vec());
    assert_eq!(wd.fetched_at, 1_700_000_000);
}

#[test]
fn fetch_discovery_extracts_hourly_url() {
    let body = "{\"properties\":{\"forecastHourly\":\"https://api.weather.gov/gridpoints/LOT/76,73/forecast/hourly\"}}";
    match advance_fetch(FetchPhase::ReadingPoints, body, 1) {
        FetchOutcome::NextRequest(url) => {
            assert_eq!(url, "https://api.weather.gov/gridpoints/LOT/76,73/forecast/hourly");
        },
        _ => panic!("expected the hourly URL"),
    }
}

#[test]
fn fetch_discovery_fails_without_url() {
    match advance_fetch(FetchPhase::ReadingPoints, "{}", 7) {
        FetchOutcome::Failed(wd) => {
            assert!(wd.has_error);
            assert_eq!(wd.fetched_at, 7);
        },
        _ => panic!("expected a failure"),
    }
    match advance_fetch(FetchPhase::ReadingPoints, "not json", 7) {
        FetchOutcome::Failed(_) => {},
        _ => panic!("expected a failure"),
    }
}

#[test]
fn fetch_forecast_publishes_classified_snapshot() {
    let body = "{\"properties\":{\"periods\":[{\"shortForecast\":\"Mostly Cloudy\",\"temperature\":53,\"isDaytime\":true}]}}";
    match advance_fetch(FetchPhase::ReadingForecast, body, 1_700_000_000) {
        FetchOutcome::Publish(wd) => {
            assert_eq!(wd.forecast, b"Mostly Cloudy".to_vec());
            assert_eq!(wd.cloud_cover, 75);
            assert_eq!(wd.temperature, 53);
            assert!(wd.is_day);
            assert_eq!(wd.fetched_at, 1_700_000_000);
            assert!(!wd.has_error);
        },
        _ => panic!("expected a published snapshot"),
    }
}

#[test]
fn fetch_forecast_fails_without_periods() {
    match advance_fetch(FetchPhase::ReadingForecast, "{\"properties\":{}}", 9) {
        FetchOutcome::Failed(wd) => assert!(wd.has_error),
        _ => panic!("expected a failure"),
    }
}

#[test]
fn scales_neutral_at_day_clear() {
    assert_eq!(kelvin_to_scales(6500), (256, 256, 256));
}

#[test]
fn scales_warm_end_drops_blue() {
    let (r, g, b) = kelvin_to_scales(1000);
    assert_eq!(r, 256);
    assert_eq!(g, 46);
    assert_eq!(b, 0);
    let (r2, g2, b2) = kelvin_to_scales(2900);
    assert_eq!(r2, 256);
    assert!(g2 < 256 && b2 < 256);
    assert!(g2 > g && b2 > b);
}

#[test]
fn scales_cool_end_drops_red() {
    let (r, g, b) = kelvin_to_scales(25000);
    assert_eq!(b, 256);
    assert!(r < 256 && g < 256);
}

#[test]
fn ramps_are_monotonic_and_clamped() {
    let mut r = Vec::new();
    let mut g = Vec::new();
    let mut b = Vec::new();
    for kelvin in [1000, 2900, 4500, 6500, 10000, 25000] {
        fill_gamma_ramps(kelvin, 256, &mut r, &mut g, &mut b, 1000).unwrap();
        for ch in [&r, &g, &b] {
            assert_eq!(ch.len(), 256);
            for w in ch.windows(2) {
                assert!(w[0] <= w[1], "ramp must be non-decreasing");
            }
        }
        assert_eq!(r[0], 0);
    }
}

#[test]
fn full_scale_channel_is_identity_ramp() {
    let mut r = Vec::new();
    let mut g = Vec::new();
    let mut b = Vec::new();
    fill_gamma_ramps(6500, 256, &mut r, &mut g, &mut b, 1000).unwrap();
    assert_eq!(r[255], 65535);
    assert_eq!(r[128], (128u32 * 65535 / 255) as u16);
}

#[test]
fn brightness_scales_ramps_down() {
    let mut r = Vec::new();
    let mut g = Vec::new();
    let mut b = Vec::new();
    fill_gamma_ramps(6500, 256, &mut r, &mut g, &mut b, 500).unwrap();
    assert_eq!(r[255], 65535 / 2);
}

#[test]
fn ramps_reject_out_of_range_kelvin() {
    let mut r = Vec::new();
    let mut g = Vec::new();
    let mut b = Vec::new();
    assert_eq!(fill_gamma_ramps(999, 256, &mut r, &mut g, &mut b, 1000), Err(Error::InvalidTemp));
    assert_eq!(
        fill_gamma_ramps(25001, 256, &mut r, &mut g, &mut b, 1000),
        Err(Error::InvalidTemp)
    );
}

fn crtc(id: u32, size: u32) -> CrtcModel {
    CrtcModel {
        id,
        gamma_size: size,
        saved_r: Vec::new(),
        saved_g: Vec::new(),
        saved_b: Vec::new(),
        work_r: Vec::new(),
        work_g: Vec::new(),
        work_b: Vec::new(),
    }
}

#[test]
fn backend_init_requires_a_usable_head() {
    assert!(matches!(init(BackendKind::Drm, vec![]), Err(Error::NoCrtc)));
    assert!(matches!(init(BackendKind::Drm, vec![crtc(1, 1)]), Err(Error::NoCrtc)));
    assert!(init(BackendKind::Drm, vec![crtc(1, 256)]).is_ok());
    // non-kernel transports accept any head that reported a ramp
    assert!(init(BackendKind::Gnome, vec![crtc(1, 256)]).is_ok());
}

#[test]
fn backend_names() {
    let st = init(BackendKind::Wayland, vec![crtc(1, 256)]).unwrap();
    assert_eq!(st.backend_name(), "wayland");
    let st2 = init(BackendKind::X11, vec![crtc(1, 256)]).unwrap();
    assert_eq!(st2.backend_name(), "x11");
}

#[test]
fn backend_set_temperature_fills_work_buffers() {
    let mut st: GammaState = init(BackendKind::Drm, vec![crtc(1, 4), crtc(2, 0)]).unwrap();
    st.set_temperature(6500, 1000).unwrap();
    assert_eq!(st.crtcs[0].work_r, vec![0, 21845, 43690, 65535]);
    assert!(st.crtcs[1].work_r.is_empty(), "unusable heads stay untouched");
    assert_eq!(st.crtc_count(), 2);
    assert_eq!(st.gamma_size(0), 4);
    assert_eq!(st.gamma_size(1), 0);
    assert_eq!(st.gamma_size(5), 0);
}

#[test]
fn backend_restore_fills_identity_for_uncaptured_heads() {
    let mut with_saved = crtc(1, 4);
    with_saved.saved_r = vec![1, 2, 3, 4];
    with_saved.saved_g = vec![1, 2, 3, 4];
    with_saved.saved_b = vec![1, 2, 3, 4];
    let mut st = init(BackendKind::Drm, vec![with_saved, crtc(2, 4)]).unwrap();
    st.restore().unwrap();
    assert!(st.crtcs[0].work_r.is_empty(), "captured heads keep their saved ramps");
    assert_eq!(st.crtcs[0].saved_r, vec![1, 2, 3, 4]);
    assert_eq!(st.crtcs[1].work_r, vec![0, 21845, 43690, 65535]);
}

#[test]
fn backend_rejects_invalid_temperature() {
    let mut st = init(BackendKind::Drm, vec![crtc(1, 4)]).unwrap();
    assert_eq!(st.set_temperature(100, 1000), Err(Error::InvalidTemp));
}

#[test]
fn error_messages() {
    assert_eq!(Error::NoCrtc.message(), "No usable CRTC found");
    assert_eq!(Error::InvalidTemp.message(), "Invalid temperature");
}

#[test]
fn gnome_model_lifecycle() {
    assert!(matches!(GnomeState::init(7, vec![]), Err(Error::NoCrtc)));
    let mut st = GnomeState::init(7, vec![10, 11]).unwrap();
    assert_eq!(st.serial, 7);
    assert_eq!(st.crtc_count(), 2);

    st.set_temperature(6500, 1000).unwrap();
    assert_eq!(st.work_r.len(), GNOME_GAMMA_SIZE);
    assert_eq!(st.work_r[255], 65535);

    st.restore().unwrap();
    assert_eq!(st.work_r[0], 0);
    assert_eq!(st.work_r[255], 65535);
    assert_eq!(st.work_g[128], (128u32 * 65535 / 255) as u16);

    assert!(matches!(st.set_temperature(100, 1000), Err(Error::InvalidTemp)));
}
