//! Weather client core: the forecast-string heuristic and the
//! decisions of the asynchronous two-step fetch.
//!
//! The fetch itself runs in a child process whose output arrives over
//! a pipe at the I/O edge; once a whole response body is in hand, the
//! functions here decide what it means: the second request to issue
//! after the discovery step, or the snapshot to publish after the
//! forecast step. JSON field extraction goes through `serde_json`
//! behind two trusted wrappers.

use vstd::prelude::*;
use crate::codec::{bytes_match_at, spec_bytes_at};
use crate::config::WeatherData;

verus! {

/// Phase of the asynchronous weather fetch.
#[derive(Clone, Copy, PartialEq, Eq, Structural, Debug)]
pub enum FetchPhase {
    Idle,
    ReadingPoints,
    ReadingForecast,
}

/// Prepare the weather subsystem (nothing to set up).
pub fn init() {
}

/// Tear the weather subsystem down (nothing to release).
pub fn cleanup() {
}

/// ASCII lowercase of one byte.
pub open spec fn spec_lower_byte(b: u8) -> u8 {
    if 0x41 <= b <= 0x5A {
        (b + 0x20) as u8
    } else {
        b
    }
}

/// ASCII lowercase of a byte string.
pub open spec fn spec_lower(s: Seq<u8>) -> Seq<u8> {
    Seq::new(s.len(), |i: int| spec_lower_byte(s[i]))
}

/// Whether `pat` occurs anywhere in `s`.
pub open spec fn spec_contains(s: Seq<u8>, pat: Seq<u8>) -> bool {
    exists|i: int| spec_bytes_at(s, i, pat)
}

/// ASCII-lowercase a byte string.
fn ascii_lower(s: &[u8]) -> (r: Vec<u8>)
    ensures
        r@ == spec_lower(s@),
{
    let mut out: Vec<u8> = Vec::new();
    let mut i: usize = 0;
    while i < s.len()
        invariant
            0 <= i <= s@.len(),
            out@.len() == i,
            forall|q: int| 0 <= q < i ==> out@[q] == spec_lower_byte(#[trigger] s@[q]),
        decreases s@.len() - i,
    {
        let b = s[i];
        if 0x41 <= b && b <= 0x5A {
            out.push(b + 0x20);
        } else {
            out.push(b);
        }
        i = i + 1;
    }
    proof {
        assert(out@ =~= spec_lower(s@));
    }
    out
}

/// Substring search.
fn contains_pat(hay: &Vec<u8>, pat: &Vec<u8>) -> (r: bool)
    ensures
        r == spec_contains(hay@, pat@),
{
    let n = hay.len();
    let mut i: usize = 0;
    loop
        invariant_except_break
            0 <= i <= n,
            n == hay@.len(),
            forall|q: int| 0 <= q < i ==> !spec_bytes_at(hay@, q, pat@),
        ensures
            forall|q: int| 0 <= q <= n ==> !spec_bytes_at(hay@, q, pat@),
        decreases n - i,
    {
        if bytes_match_at(hay.as_slice(), i, pat.as_slice()) {
            return true;
        }
        if i == n {
            break;
        }
        i = i + 1;
    }
    proof {
        assert forall|q: int| !spec_bytes_at(hay@, q, pat@) by {
            if q < 0 || q > hay@.len() {
                assert(!spec_bytes_at(hay@, q, pat@));
            }
        }
    }
    false
}

/// Spec bytes of `rain`.
pub open spec fn pat_rain() -> Seq<u8> {
    seq![0x72u8, 0x61u8, 0x69u8, 0x6Eu8]
}

/// The bytes of `rain` as a buffer.
fn vec_rain() -> (v: Vec<u8>)
    ensures
        v@ == pat_rain(),
{
    let mut v: Vec<u8> = Vec::new();
    v.push(0x72);
    v.push(0x61);
    v.push(0x69);
    v.push(0x6E);
    proof {
        assert(v@ =~= pat_rain());
    }
    v
}

/// Spec bytes of `storm`.
pub open spec fn pat_storm() -> Seq<u8> {
    seq![0x73u8, 0x74u8, 0x6Fu8, 0x72u8, 0x6Du8]
}

/// The bytes of `storm` as a buffer.
fn vec_storm() -> (v: Vec<u8>)
    ensures
        v@ == pat_storm(),
{
    let mut v: Vec<u8> = Vec::new();
    v.push(0x73);
    v.push(0x74);
    v.push(0x6F);
    v.push(0x72);
    v.push(0x6D);
    proof {
        assert(v@ =~= pat_storm());
    }
    v
}

/// Spec bytes of `snow`.
pub open spec fn pat_snow() -> Seq<u8> {
    seq![0x73u8, 0x6Eu8, 0x6Fu8, 0x77u8]
}

/// The bytes of `snow` as a buffer.
fn vec_snow() -> (v: Vec<u8>)
    ensures
        v@ == pat_snow(),
{
    let mut v: Vec<u8> = Vec::new();
    v.push(0x73);
    v.push(0x6E);
    v.push(0x6F);
    v.push(0x77);
    proof {
        assert(v@ =~= pat_snow());
    }
    v
}

/// Spec bytes of `drizzle`.
pub open spec fn pat_drizzle() -> Seq<u8> {
    seq![0x64u8, 0x72u8, 0x69u8, 0x7Au8, 0x7Au8, 0x6Cu8, 0x65u8]
}

/// The bytes of `drizzle` as a buffer.
fn vec_drizzle() -> (v: Vec<u8>)
    ensures
        v@ == pat_drizzle(),
{
    let mut v: Vec<u8> = Vec::new();
    v.push(0x64);
    v.push(0x72);
    v.push(0x69);
    v.push(0x7A);
    v.push(0x7A);
    v.push(0x6C);
    v.push(0x65);
    proof {
        assert(v@ =~= pat_drizzle());
    }
    v
}

/// Spec bytes of `showers`.
pub open spec fn pat_showers() -> Seq<u8> {
    seq![0x73u8, 0x68u8, 0x6Fu8, 0x77u8, 0x65u8, 0x72u8, 0x73u8]
}

/// The bytes of `showers` as a buffer.
fn vec_showers() -> (v: Vec<u8>)
    ensures
        v@ == pat_showers(),
{
    let mut v: Vec<u8> = Vec::new();
    v.push(0x73);
    v.push(0x68);
    v.push(0x6F);
    v.push(0x77);
    v.push(0x65);
    v.push(0x72);
    v.push(0x73);
    proof {
        assert(v@ =~= pat_showers());
    }
    v
}

/// Spec bytes of `overcast`.
pub open spec fn pat_overcast() -> Seq<u8> {
    seq![0x6Fu8, 0x76u8, 0x65u8, 0x72u8, 0x63u8, 0x61u8, 0x73u8, 0x74u8]
}

/// The bytes of `overcast` as a buffer.
fn vec_overcast() -> (v: Vec<u8>)
    ensures
        v@ == pat_overcast(),
{
    let mut v: Vec<u8> = Vec::new();
    v.push(0x6F);
    v.push(0x76);
    v.push(0x65);
    v.push(0x72);
    v.push(0x63);
    v.push(0x61);
    v.push(0x73);
    v.push(0x74);
    proof {
        assert(v@ =~= pat_overcast());
    }
    v
}

/// Spec bytes of `mostly cloudy`.
pub open spec fn pat_mostly_cloudy() -> Seq<u8> {
    seq![0x6Du8, 0x6Fu8, 0x73u8, 0x74u8, 0x6Cu8, 0x79u8, 0x20u8, 0x63u8, 0x6Cu8, 0x6Fu8, 0x75u8, 0x64u8, 0x79u8]
}

/// The bytes of `mostly cloudy` as a buffer.
fn vec_mostly_cloudy() -> (v: Vec<u8>)
    ensures
        v@ == pat_mostly_cloudy(),
{
    let mut v: Vec<u8> = Vec::new();
    v.push(0x6D);
    v.push(0x6F);
    v.push(0x73);
    v.push(0x74);
    v.push(0x6C);
    v.push(0x79);
    v.push(0x20);
    v.push(0x63);
    v.push(0x6C);
    v.push(0x6F);
    v.push(0x75);
    v.push(0x64);
    v.push(0x79);
    proof {
        assert(v@ =~= pat_mostly_cloudy());
    }
    v
}

/// Spec bytes of `cloudy`.
pub open spec fn pat_cloudy() -> Seq<u8> {
    seq![0x63u8, 0x6Cu8, 0x6Fu8, 0x75u8, 0x64u8, 0x79u8]
}

/// The bytes of `cloudy` as a buffer.
fn vec_cloudy() -> (v: Vec<u8>)
    ensures
        v@ == pat_cloudy(),
{
    let mut v: Vec<u8> = Vec::new();
    v.push(0x63);
    v.push(0x6C);
    v.push(0x6F);
    v.push(0x75);
    v.push(0x64);
    v.push(0x79);
    proof {
        assert(v@ =~= pat_cloudy());
    }
    v
}

/// Spec bytes of `partly`.
pub open spec fn pat_partly() -> Seq<u8> {
    seq![0x70u8, 0x61u8, 0x72u8, 0x74u8, 0x6Cu8, 0x79u8]
}

/// The bytes of `partly` as a buffer.
fn vec_partly() -> (v: Vec<u8>)
    ensures
        v@ == pat_partly(),
{
    let mut v: Vec<u8> = Vec::new();
    v.push(0x70);
    v.push(0x61);
    v.push(0x72);
    v.push(0x74);
    v.push(0x6C);
    v.push(0x79);
    proof {
        assert(v@ =~= pat_partly());
    }
    v
}

/// Spec bytes of `mostly sunny`.
pub open spec fn pat_mostly_sunny() -> Seq<u8> {
    seq![0x6Du8, 0x6Fu8, 0x73u8, 0x74u8, 0x6Cu8, 0x79u8, 0x20u8, 0x73u8, 0x75u8, 0x6Eu8, 0x6Eu8, 0x79u8]
}

/// The bytes of `mostly sunny` as a buffer.
fn vec_mostly_sunny() -> (v: Vec<u8>)
    ensures
        v@ == pat_mostly_sunny(),
{
    let mut v: Vec<u8> = Vec::new();
    v.push(0x6D);
    v.push(0x6F);
    v.push(0x73);
    v.push(0x74);
    v.push(0x6C);
    v.push(0x79);
    v.push(0x20);
    v.push(0x73);
    v.push(0x75);
    v.push(0x6E);
    v.push(0x6E);
    v.push(0x79);
    proof {
        assert(v@ =~= pat_mostly_sunny());
    }
    v
}

/// Spec bytes of `mostly clear`.
pub open spec fn pat_mostly_clear() -> Seq<u8> {
    seq![0x6Du8, 0x6Fu8, 0x73u8, 0x74u8, 0x6Cu8, 0x79u8, 0x20u8, 0x63u8, 0x6Cu8, 0x65u8, 0x61u8, 0x72u8]
}

/// The bytes of `mostly clear` as a buffer.
fn vec_mostly_clear() -> (v: Vec<u8>)
    ensures
        v@ == pat_mostly_clear(),
{
    let mut v: Vec<u8> = Vec::new();
    v.push(0x6D);
    v.push(0x6F);
    v.push(0x73);
    v.push(0x74);
    v.push(0x6C);
    v.push(0x79);
    v.push(0x20);
    v.push(0x63);
    v.push(0x6C);
    v.push(0x65);
    v.push(0x61);
    v.push(0x72);
    proof {
        assert(v@ =~= pat_mostly_clear());
    }
    v
}

/// Spec bytes of `sunny`.
pub open spec fn pat_sunny() -> Seq<u8> {
    seq![0x73u8, 0x75u8, 0x6Eu8, 0x6Eu8, 0x79u8]
}

/// The bytes of `sunny` as a buffer.
fn vec_sunny() -> (v: Vec<u8>)
    ensures
        v@ == pat_sunny(),
{
    let mut v: Vec<u8> = Vec::new();
    v.push(0x73);
    v.push(0x75);
    v.push(0x6E);
    v.push(0x6E);
    v.push(0x79);
    proof {
        assert(v@ =~= pat_sunny());
    }
    v
}

/// Spec bytes of `clear`.
pub open spec fn pat_clear() -> Seq<u8> {
    seq![0x63u8, 0x6Cu8, 0x65u8, 0x61u8, 0x72u8]
}

/// The bytes of `clear` as a buffer.
fn vec_clear() -> (v: Vec<u8>)
    ensures
        v@ == pat_clear(),
{
    let mut v: Vec<u8> = Vec::new();
    v.push(0x63);
    v.push(0x6C);
    v.push(0x65);
    v.push(0x61);
    v.push(0x72);
    proof {
        assert(v@ =~= pat_clear());
    }
    v
}

/// Spec bytes of `Unknown`.
pub open spec fn pat_unknown() -> Seq<u8> {
    seq![0x55u8, 0x6Eu8, 0x6Bu8, 0x6Eu8, 0x6Fu8, 0x77u8, 0x6Eu8]
}

/// The bytes of `Unknown` as a buffer.
fn vec_unknown() -> (v: Vec<u8>)
    ensures
        v@ == pat_unknown(),
{
    let mut v: Vec<u8> = Vec::new();
    v.push(0x55);
    v.push(0x6E);
    v.push(0x6B);
    v.push(0x6E);
    v.push(0x6F);
    v.push(0x77);
    v.push(0x6E);
    proof {
        assert(v@ =~= pat_unknown());
    }
    v
}

/// The fixed-precedence cloud-cover heuristic over the lowercased
/// forecast: precipitation words mean heavy cloud, then overcast,
/// "mostly cloudy" before the bare "cloudy", partial cover, mostly
/// clear skies, clear skies, and zero for anything unrecognized.
pub open spec fn spec_cloud_cover(forecast: Seq<u8>) -> int {
    let l = spec_lower(forecast);
    if spec_contains(l, pat_rain()) || spec_contains(l, pat_storm()) || spec_contains(
        l,
        pat_snow(),
    ) || spec_contains(l, pat_drizzle()) || spec_contains(l, pat_showers()) {
        95
    } else if spec_contains(l, pat_overcast()) {
        90
    } else if spec_contains(l, pat_mostly_cloudy()) {
        75
    } else if spec_contains(l, pat_cloudy()) {
        90
    } else if spec_contains(l, pat_partly()) {
        50
    } else if spec_contains(l, pat_mostly_sunny()) || spec_contains(l, pat_mostly_clear()) {
        25
    } else if spec_contains(l, pat_sunny()) || spec_contains(l, pat_clear()) {
        10
    } else {
        0
    }
}

/// Classify cloud cover from a short forecast string.
pub fn cloud_cover_from_forecast(forecast: &[u8]) -> (r: i32)
    ensures
        r == spec_cloud_cover(forecast@),
        0 <= r <= 100,
{
    let lower = ascii_lower(forecast);

    let p_rain = vec_rain();
    let p_storm = vec_storm();
    let p_snow = vec_snow();
    let p_drizzle = vec_drizzle();
    let p_showers = vec_showers();
    if contains_pat(&lower, &p_rain) || contains_pat(&lower, &p_storm) || contains_pat(
        &lower,
        &p_snow,
    ) || contains_pat(&lower, &p_drizzle) || contains_pat(&lower, &p_showers) {
        return 95;
    }

    let p_overcast = vec_overcast();
    if contains_pat(&lower, &p_overcast) {
        return 90;
    }

    let p_mostly_cloudy = vec_mostly_cloudy();
    if contains_pat(&lower, &p_mostly_cloudy) {
        return 75;
    }

    let p_cloudy = vec_cloudy();
    if contains_pat(&lower, &p_cloudy) {
        return 90;
    }

    let p_partly = vec_partly();
    if contains_pat(&lower, &p_partly) {
        return 50;
    }

    let p_mostly_sunny = vec_mostly_sunny();
    let p_mostly_clear = vec_mostly_clear();
    if contains_pat(&lower, &p_mostly_sunny) || contains_pat(&lower, &p_mostly_clear) {
        return 25;
    }

    let p_sunny = vec_sunny();
    let p_clear = vec_clear();
    if contains_pat(&lower, &p_sunny) || contains_pat(&lower, &p_clear) {
        return 10;
    }

    0
}

/// The snapshot published when a fetch fails: no cloud cover, the
/// placeholder forecast, and the error mark set.
pub fn error_snapshot(now: i64) -> (r: WeatherData)
    ensures
        r.cloud_cover == 0,
        r.forecast@ == pat_unknown(),
        r.temperature == 0,
        r.is_day,
        r.fetched_at == now,
        r.has_error,
{
    WeatherData {
        cloud_cover: 0,
        forecast: vec_unknown(),
        temperature: 0,
        is_day: true,
        fetched_at: now,
        has_error: true,
    }
}

/// What `properties.forecastHourly` holds in the discovery response:
/// a function of the response body alone.
pub uninterp spec fn forecast_url_of(s: Seq<char>) -> Option<Seq<char>>;

/// What the first period of the hourly-forecast response holds
/// (short forecast in UTF-8 bytes, temperature, daytime flag): a
/// function of the response body alone.
pub uninterp spec fn first_period_of(s: Seq<char>) -> Option<(Seq<u8>, i64, bool)>;

/// Relies on serde_json parsing: the `properties.forecastHourly`
/// string of the discovery response, absent when the body is not
/// JSON or lacks the field.
#[verifier::external_body]
fn extract_forecast_url(body: &str) -> (r: Option<String>)
    ensures
        (r matches Option::Some(u) ==> forecast_url_of(body@) == Option::Some(u@)),
        r is None ==> forecast_url_of(body@) is None,
{
    serde_json::from_str::<serde_json::Value>(body).ok().and_then(
        |v| v["properties"]["forecastHourly"].as_str().map(|s| s.to_string()),
    )
}

/// Relies on serde_json parsing: the first period of the
/// hourly-forecast response, with `shortForecast` defaulting to
/// `Unknown`, an integral `temperature` defaulting to zero, and
/// `isDaytime` defaulting to true; absent without a first period.
#[verifier::external_body]
fn extract_first_period(body: &str) -> (r: Option<(Vec<u8>, i64, bool)>)
    ensures
        (r matches Option::Some(x) ==> first_period_of(body@) == Option::Some((x.0@, x.1, x.2))),
        r is None ==> first_period_of(body@) is None,
{
    let v: serde_json::Value = serde_json::from_str(body).ok()?;
    let p = &v["properties"]["periods"][0];
    if p.is_null() {
        return None;
    }
    let forecast = p["shortForecast"].as_str().unwrap_or("Unknown").to_string();
    let temperature = p["temperature"].as_i64().unwrap_or(0);
    let is_day = p["isDaytime"].as_bool().unwrap_or(true);
    Some((forecast.into_bytes(), temperature, is_day))
}

/// What the reactor does after a fetch step completes.
pub enum FetchOutcome {
    /// The discovery step succeeded: issue the second request to this
    /// URL and poll its pipe.
    NextRequest(String),
    /// The forecast step succeeded: publish and persist this snapshot.
    Publish(WeatherData),
    /// The response was unusable: return to idle with an error
    /// snapshot.
    Failed(WeatherData),
}

/// Decide what a completed response body means in the given phase.
///
/// In the discovery phase a usable body yields the hourly-forecast
/// URL to fetch next; in the forecast phase it yields a snapshot
/// whose cloud cover classifies the short forecast and whose
/// `fetched_at` is `now`. Anything unusable fails with an error
/// snapshot. The idle phase has no response to decide on.
pub fn advance_fetch(phase: FetchPhase, body: &str, now: i64) -> (r: FetchOutcome)
    requires
        phase != FetchPhase::Idle,
    ensures
        phase == FetchPhase::ReadingPoints ==> match forecast_url_of(body@) {
            Option::Some(u) => r matches FetchOutcome::NextRequest(s) && s@ == u,
            Option::None => (r matches FetchOutcome::Failed(wd) && wd.has_error && wd.cloud_cover
                == 0 && wd.fetched_at == now),
        },
        phase == FetchPhase::ReadingForecast ==> match first_period_of(body@) {
            Option::Some(t) => (r matches FetchOutcome::Publish(wd) && wd.forecast@ == t.0
                && wd.cloud_cover == spec_cloud_cover(t.0) && wd.temperature == t.1 && wd.is_day
                == t.2 && wd.fetched_at == now && !wd.has_error),
            Option::None => (r matches FetchOutcome::Failed(wd) && wd.has_error && wd.cloud_cover
                == 0 && wd.fetched_at == now),
        },
{
    match phase {
        FetchPhase::ReadingPoints => {
            match extract_forecast_url(body) {
                Option::Some(url) => FetchOutcome::NextRequest(url),
                Option::None => FetchOutcome::Failed(error_snapshot(now)),
            }
        },
        _ => {
            match extract_first_period(body) {
                Option::Some((forecast, temperature, is_day)) => {
                    let cloud_cover = cloud_cover_from_forecast(forecast.as_slice());
                    FetchOutcome::Publish(
                        WeatherData {
                            cloud_cover,
                            forecast,
                            temperature,
                            is_day,
                            fetched_at: now,
                            has_error: false,
                        },
                    )
                },
                Option::None => FetchOutcome::Failed(error_snapshot(now)),
            }
        },
    }
}

} // verus!
