//! Persisted daemon state: resolved file names, the manual-override
//! record, the weather cache, and their canonical JSON forms.
//!
//! The reactor and the control utility exchange state through small
//! files; this module defines the records, the exact bytes written
//! for them, and readers that take a JSON object with the known
//! fields in any order and whitespace anywhere between tokens.
//! `crate::roundtrip` shows that parsing what the writers wrote
//! recovers the record.

use vstd::prelude::*;
use crate::codec::{
    is_jws, parse_i64, push_dec_i64, skip_jws, spec_dec_signed, spec_parse_i64, spec_skip_jws,
};
use crate::WEATHER_REFRESH_SEC;
use crate::solar::EPOCH_BOUND;

verus! {

/// File names under the daemon's configuration directory. Directory
/// resolution (home lookup, creation) happens at the I/O edge; the
/// library only fixes the names.
pub struct Paths {
    pub config_file: String,
    pub cache_file: String,
    pub override_file: String,
    pub zipdb_file: String,
    pub pid_file: String,
}

impl Paths {
    /// The canonical file names.
    pub fn init() -> (p: Paths)
        ensures
            p.config_file@ == "config.ini"@,
            p.cache_file@ == "weather_cache.json"@,
            p.override_file@ == "override.json"@,
            p.zipdb_file@ == "us_zipcodes.bin"@,
            p.pid_file@ == "daemon.pid"@,
    {
        Paths {
            config_file: String::from_str("config.ini"),
            cache_file: String::from_str("weather_cache.json"),
            override_file: String::from_str("override.json"),
            zipdb_file: String::from_str("us_zipcodes.bin"),
            pid_file: String::from_str("daemon.pid"),
        }
    }
}

/// Geographic location in millionths of a degree, the precision the
/// configuration file carries.
#[derive(Clone, Copy, PartialEq, Eq, Structural, Debug)]
pub struct Location {
    pub lat_micro: i64,
    pub lon_micro: i64,
}

/// Cached weather snapshot. `has_error` marks a failed fetch; the
/// persisted form then zeroes the payload fields.
#[derive(Clone, Debug)]
pub struct WeatherData {
    pub cloud_cover: i32,
    pub forecast: Vec<u8>,
    pub temperature: i64,
    pub is_day: bool,
    pub fetched_at: i64,
    pub has_error: bool,
}

/// Manual override record, the channel from the control utility to
/// the daemon. `start_temp == 0` means "not yet filled in"; the
/// daemon back-patches it on first observation.
#[derive(Clone, Copy, PartialEq, Eq, Structural, Debug)]
pub struct OverrideState {
    pub active: bool,
    pub target_temp: i32,
    pub duration_minutes: i32,
    pub issued_at: i64,
    pub start_temp: i32,
}

/// Whether the cached snapshot calls for a fresh fetch: an error
/// snapshot, a never-filled snapshot, or one older than
/// `WEATHER_REFRESH_SEC`.
pub open spec fn spec_weather_needs_refresh(
    has_error: bool,
    fetched_at: int,
    now: int,
) -> bool {
    has_error || fetched_at == 0 || now - fetched_at > WEATHER_REFRESH_SEC as int
}

/// Check if the weather cache needs refresh at `now`.
pub fn weather_needs_refresh(wd: &WeatherData, now: i64) -> (r: bool)
    requires
        -EPOCH_BOUND <= now <= EPOCH_BOUND,
    ensures
        r == spec_weather_needs_refresh(wd.has_error, wd.fetched_at as int, now as int),
{
    wd.has_error || wd.fetched_at == 0 || wd.fetched_at < now - WEATHER_REFRESH_SEC
}

/// Spec bytes of `{\"active\":`.
pub open spec fn lit_obj_active() -> Seq<u8> {
    seq![0x7Bu8, 0x22u8, 0x61u8, 0x63u8, 0x74u8, 0x69u8, 0x76u8, 0x65u8, 0x22u8, 0x3Au8]
}

/// The bytes of `{\"active\":` as a buffer.
fn vec_obj_active() -> (v: Vec<u8>)
    ensures
        v@ == lit_obj_active(),
{
    let mut v: Vec<u8> = Vec::new();
    v.push(0x7B);
    v.push(0x22);
    v.push(0x61);
    v.push(0x63);
    v.push(0x74);
    v.push(0x69);
    v.push(0x76);
    v.push(0x65);
    v.push(0x22);
    v.push(0x3A);
    proof {
        assert(v@ =~= lit_obj_active());
    }
    v
}

/// Spec bytes of `true`.
pub open spec fn lit_lit_true() -> Seq<u8> {
    seq![0x74u8, 0x72u8, 0x75u8, 0x65u8]
}

/// The bytes of `true` as a buffer.
fn vec_lit_true() -> (v: Vec<u8>)
    ensures
        v@ == lit_lit_true(),
{
    let mut v: Vec<u8> = Vec::new();
    v.push(0x74);
    v.push(0x72);
    v.push(0x75);
    v.push(0x65);
    proof {
        assert(v@ =~= lit_lit_true());
    }
    v
}

/// Spec bytes of `false`.
pub open spec fn lit_lit_false() -> Seq<u8> {
    seq![0x66u8, 0x61u8, 0x6Cu8, 0x73u8, 0x65u8]
}

/// The bytes of `false` as a buffer.
fn vec_lit_false() -> (v: Vec<u8>)
    ensures
        v@ == lit_lit_false(),
{
    let mut v: Vec<u8> = Vec::new();
    v.push(0x66);
    v.push(0x61);
    v.push(0x6C);
    v.push(0x73);
    v.push(0x65);
    proof {
        assert(v@ =~= lit_lit_false());
    }
    v
}

/// Spec bytes of `,\"target_temp\":`.
pub open spec fn lit_key_target() -> Seq<u8> {
    seq![0x2Cu8, 0x22u8, 0x74u8, 0x61u8, 0x72u8, 0x67u8, 0x65u8, 0x74u8, 0x5Fu8, 0x74u8, 0x65u8, 0x6Du8, 0x70u8, 0x22u8, 0x3Au8]
}

/// The bytes of `,\"target_temp\":` as a buffer.
fn vec_key_target() -> (v: Vec<u8>)
    ensures
        v@ == lit_key_target(),
{
    let mut v: Vec<u8> = Vec::new();
    v.push(0x2C);
    v.push(0x22);
    v.push(0x74);
    v.push(0x61);
    v.push(0x72);
    v.push(0x67);
    v.push(0x65);
    v.push(0x74);
    v.push(0x5F);
    v.push(0x74);
    v.push(0x65);
    v.push(0x6D);
    v.push(0x70);
    v.push(0x22);
    v.push(0x3A);
    proof {
        assert(v@ =~= lit_key_target());
    }
    v
}

/// Spec bytes of `,\"duration_minutes\":`.
pub open spec fn lit_key_duration() -> Seq<u8> {
    seq![0x2Cu8, 0x22u8, 0x64u8, 0x75u8, 0x72u8, 0x61u8, 0x74u8, 0x69u8, 0x6Fu8, 0x6Eu8, 0x5Fu8, 0x6Du8, 0x69u8, 0x6Eu8, 0x75u8, 0x74u8, 0x65u8, 0x73u8, 0x22u8, 0x3Au8]
}

/// The bytes of `,\"duration_minutes\":` as a buffer.
fn vec_key_duration() -> (v: Vec<u8>)
    ensures
        v@ == lit_key_duration(),
{
    let mut v: Vec<u8> = Vec::new();
    v.push(0x2C);
    v.push(0x22);
    v.push(0x64);
    v.push(0x75);
    v.push(0x72);
    v.push(0x61);
    v.push(0x74);
    v.push(0x69);
    v.push(0x6F);
    v.push(0x6E);
    v.push(0x5F);
    v.push(0x6D);
    v.push(0x69);
    v.push(0x6E);
    v.push(0x75);
    v.push(0x74);
    v.push(0x65);
    v.push(0x73);
    v.push(0x22);
    v.push(0x3A);
    proof {
        assert(v@ =~= lit_key_duration());
    }
    v
}

/// Spec bytes of `,\"issued_at\":`.
pub open spec fn lit_key_issued() -> Seq<u8> {
    seq![0x2Cu8, 0x22u8, 0x69u8, 0x73u8, 0x73u8, 0x75u8, 0x65u8, 0x64u8, 0x5Fu8, 0x61u8, 0x74u8, 0x22u8, 0x3Au8]
}

/// The bytes of `,\"issued_at\":` as a buffer.
fn vec_key_issued() -> (v: Vec<u8>)
    ensures
        v@ == lit_key_issued(),
{
    let mut v: Vec<u8> = Vec::new();
    v.push(0x2C);
    v.push(0x22);
    v.push(0x69);
    v.push(0x73);
    v.push(0x73);
    v.push(0x75);
    v.push(0x65);
    v.push(0x64);
    v.push(0x5F);
    v.push(0x61);
    v.push(0x74);
    v.push(0x22);
    v.push(0x3A);
    proof {
        assert(v@ =~= lit_key_issued());
    }
    v
}

/// Spec bytes of `,\"start_temp\":`.
pub open spec fn lit_key_start() -> Seq<u8> {
    seq![0x2Cu8, 0x22u8, 0x73u8, 0x74u8, 0x61u8, 0x72u8, 0x74u8, 0x5Fu8, 0x74u8, 0x65u8, 0x6Du8, 0x70u8, 0x22u8, 0x3Au8]
}

/// The bytes of `,\"start_temp\":` as a buffer.
fn vec_key_start() -> (v: Vec<u8>)
    ensures
        v@ == lit_key_start(),
{
    let mut v: Vec<u8> = Vec::new();
    v.push(0x2C);
    v.push(0x22);
    v.push(0x73);
    v.push(0x74);
    v.push(0x61);
    v.push(0x72);
    v.push(0x74);
    v.push(0x5F);
    v.push(0x74);
    v.push(0x65);
    v.push(0x6D);
    v.push(0x70);
    v.push(0x22);
    v.push(0x3A);
    proof {
        assert(v@ =~= lit_key_start());
    }
    v
}

/// Spec bytes of `}`.
pub open spec fn lit_obj_close() -> Seq<u8> {
    seq![0x7Du8]
}

/// The bytes of `}` as a buffer.
fn vec_obj_close() -> (v: Vec<u8>)
    ensures
        v@ == lit_obj_close(),
{
    let mut v: Vec<u8> = Vec::new();
    v.push(0x7D);
    proof {
        assert(v@ =~= lit_obj_close());
    }
    v
}

/// Spec bytes of `\"active\"`.
pub open spec fn qkey_active() -> Seq<u8> {
    seq![0x22u8, 0x61u8, 0x63u8, 0x74u8, 0x69u8, 0x76u8, 0x65u8, 0x22u8]
}

/// The bytes of `\"active\"` as a buffer.
fn vec_qkey_active() -> (v: Vec<u8>)
    ensures
        v@ == qkey_active(),
{
    let mut v: Vec<u8> = Vec::new();
    v.push(0x22);
    v.push(0x61);
    v.push(0x63);
    v.push(0x74);
    v.push(0x69);
    v.push(0x76);
    v.push(0x65);
    v.push(0x22);
    proof {
        assert(v@ =~= qkey_active());
    }
    v
}

/// Spec bytes of `\"target_temp\"`.
pub open spec fn qkey_target() -> Seq<u8> {
    seq![0x22u8, 0x74u8, 0x61u8, 0x72u8, 0x67u8, 0x65u8, 0x74u8, 0x5Fu8, 0x74u8, 0x65u8, 0x6Du8, 0x70u8, 0x22u8]
}

/// The bytes of `\"target_temp\"` as a buffer.
fn vec_qkey_target() -> (v: Vec<u8>)
    ensures
        v@ == qkey_target(),
{
    let mut v: Vec<u8> = Vec::new();
    v.push(0x22);
    v.push(0x74);
    v.push(0x61);
    v.push(0x72);
    v.push(0x67);
    v.push(0x65);
    v.push(0x74);
    v.push(0x5F);
    v.push(0x74);
    v.push(0x65);
    v.push(0x6D);
    v.push(0x70);
    v.push(0x22);
    proof {
        assert(v@ =~= qkey_target());
    }
    v
}

/// Spec bytes of `\"duration_minutes\"`.
pub open spec fn qkey_duration() -> Seq<u8> {
    seq![0x22u8, 0x64u8, 0x75u8, 0x72u8, 0x61u8, 0x74u8, 0x69u8, 0x6Fu8, 0x6Eu8, 0x5Fu8, 0x6Du8, 0x69u8, 0x6Eu8, 0x75u8, 0x74u8, 0x65u8, 0x73u8, 0x22u8]
}

/// The bytes of `\"duration_minutes\"` as a buffer.
fn vec_qkey_duration() -> (v: Vec<u8>)
    ensures
        v@ == qkey_duration(),
{
    let mut v: Vec<u8> = Vec::new();
    v.push(0x22);
    v.push(0x64);
    v.push(0x75);
    v.push(0x72);
    v.push(0x61);
    v.push(0x74);
    v.push(0x69);
    v.push(0x6F);
    v.push(0x6E);
    v.push(0x5F);
    v.push(0x6D);
    v.push(0x69);
    v.push(0x6E);
    v.push(0x75);
    v.push(0x74);
    v.push(0x65);
    v.push(0x73);
    v.push(0x22);
    proof {
        assert(v@ =~= qkey_duration());
    }
    v
}

/// Spec bytes of `\"issued_at\"`.
pub open spec fn qkey_issued() -> Seq<u8> {
    seq![0x22u8, 0x69u8, 0x73u8, 0x73u8, 0x75u8, 0x65u8, 0x64u8, 0x5Fu8, 0x61u8, 0x74u8, 0x22u8]
}

/// The bytes of `\"issued_at\"` as a buffer.
fn vec_qkey_issued() -> (v: Vec<u8>)
    ensures
        v@ == qkey_issued(),
{
    let mut v: Vec<u8> = Vec::new();
    v.push(0x22);
    v.push(0x69);
    v.push(0x73);
    v.push(0x73);
    v.push(0x75);
    v.push(0x65);
    v.push(0x64);
    v.push(0x5F);
    v.push(0x61);
    v.push(0x74);
    v.push(0x22);
    proof {
        assert(v@ =~= qkey_issued());
    }
    v
}

/// Spec bytes of `\"start_temp\"`.
pub open spec fn qkey_start() -> Seq<u8> {
    seq![0x22u8, 0x73u8, 0x74u8, 0x61u8, 0x72u8, 0x74u8, 0x5Fu8, 0x74u8, 0x65u8, 0x6Du8, 0x70u8, 0x22u8]
}

/// The bytes of `\"start_temp\"` as a buffer.
fn vec_qkey_start() -> (v: Vec<u8>)
    ensures
        v@ == qkey_start(),
{
    let mut v: Vec<u8> = Vec::new();
    v.push(0x22);
    v.push(0x73);
    v.push(0x74);
    v.push(0x61);
    v.push(0x72);
    v.push(0x74);
    v.push(0x5F);
    v.push(0x74);
    v.push(0x65);
    v.push(0x6D);
    v.push(0x70);
    v.push(0x22);
    proof {
        assert(v@ =~= qkey_start());
    }
    v
}

/// Spec bytes of `{\"cloud_cover\":`.
pub open spec fn lit_obj_cloud() -> Seq<u8> {
    seq![0x7Bu8, 0x22u8, 0x63u8, 0x6Cu8, 0x6Fu8, 0x75u8, 0x64u8, 0x5Fu8, 0x63u8, 0x6Fu8, 0x76u8, 0x65u8, 0x72u8, 0x22u8, 0x3Au8]
}

/// The bytes of `{\"cloud_cover\":` as a buffer.
fn vec_obj_cloud() -> (v: Vec<u8>)
    ensures
        v@ == lit_obj_cloud(),
{
    let mut v: Vec<u8> = Vec::new();
    v.push(0x7B);
    v.push(0x22);
    v.push(0x63);
    v.push(0x6C);
    v.push(0x6F);
    v.push(0x75);
    v.push(0x64);
    v.push(0x5F);
    v.push(0x63);
    v.push(0x6F);
    v.push(0x76);
    v.push(0x65);
    v.push(0x72);
    v.push(0x22);
    v.push(0x3A);
    proof {
        assert(v@ =~= lit_obj_cloud());
    }
    v
}

/// Spec bytes of `,\"forecast\":\"`.
pub open spec fn lit_key_forecast() -> Seq<u8> {
    seq![0x2Cu8, 0x22u8, 0x66u8, 0x6Fu8, 0x72u8, 0x65u8, 0x63u8, 0x61u8, 0x73u8, 0x74u8, 0x22u8, 0x3Au8, 0x22u8]
}

/// The bytes of `,\"forecast\":\"` as a buffer.
fn vec_key_forecast() -> (v: Vec<u8>)
    ensures
        v@ == lit_key_forecast(),
{
    let mut v: Vec<u8> = Vec::new();
    v.push(0x2C);
    v.push(0x22);
    v.push(0x66);
    v.push(0x6F);
    v.push(0x72);
    v.push(0x65);
    v.push(0x63);
    v.push(0x61);
    v.push(0x73);
    v.push(0x74);
    v.push(0x22);
    v.push(0x3A);
    v.push(0x22);
    proof {
        assert(v@ =~= lit_key_forecast());
    }
    v
}

/// Spec bytes of `,\"temperature\":`.
pub open spec fn lit_key_temperature() -> Seq<u8> {
    seq![0x2Cu8, 0x22u8, 0x74u8, 0x65u8, 0x6Du8, 0x70u8, 0x65u8, 0x72u8, 0x61u8, 0x74u8, 0x75u8, 0x72u8, 0x65u8, 0x22u8, 0x3Au8]
}

/// The bytes of `,\"temperature\":` as a buffer.
fn vec_key_temperature() -> (v: Vec<u8>)
    ensures
        v@ == lit_key_temperature(),
{
    let mut v: Vec<u8> = Vec::new();
    v.push(0x2C);
    v.push(0x22);
    v.push(0x74);
    v.push(0x65);
    v.push(0x6D);
    v.push(0x70);
    v.push(0x65);
    v.push(0x72);
    v.push(0x61);
    v.push(0x74);
    v.push(0x75);
    v.push(0x72);
    v.push(0x65);
    v.push(0x22);
    v.push(0x3A);
    proof {
        assert(v@ =~= lit_key_temperature());
    }
    v
}

/// Spec bytes of `,\"is_day\":`.
pub open spec fn lit_key_is_day() -> Seq<u8> {
    seq![0x2Cu8, 0x22u8, 0x69u8, 0x73u8, 0x5Fu8, 0x64u8, 0x61u8, 0x79u8, 0x22u8, 0x3Au8]
}

/// The bytes of `,\"is_day\":` as a buffer.
fn vec_key_is_day() -> (v: Vec<u8>)
    ensures
        v@ == lit_key_is_day(),
{
    let mut v: Vec<u8> = Vec::new();
    v.push(0x2C);
    v.push(0x22);
    v.push(0x69);
    v.push(0x73);
    v.push(0x5F);
    v.push(0x64);
    v.push(0x61);
    v.push(0x79);
    v.push(0x22);
    v.push(0x3A);
    proof {
        assert(v@ =~= lit_key_is_day());
    }
    v
}

/// Spec bytes of `,\"fetched_at\":`.
pub open spec fn lit_key_fetched() -> Seq<u8> {
    seq![0x2Cu8, 0x22u8, 0x66u8, 0x65u8, 0x74u8, 0x63u8, 0x68u8, 0x65u8, 0x64u8, 0x5Fu8, 0x61u8, 0x74u8, 0x22u8, 0x3Au8]
}

/// The bytes of `,\"fetched_at\":` as a buffer.
fn vec_key_fetched() -> (v: Vec<u8>)
    ensures
        v@ == lit_key_fetched(),
{
    let mut v: Vec<u8> = Vec::new();
    v.push(0x2C);
    v.push(0x22);
    v.push(0x66);
    v.push(0x65);
    v.push(0x74);
    v.push(0x63);
    v.push(0x68);
    v.push(0x65);
    v.push(0x64);
    v.push(0x5F);
    v.push(0x61);
    v.push(0x74);
    v.push(0x22);
    v.push(0x3A);
    proof {
        assert(v@ =~= lit_key_fetched());
    }
    v
}

/// Spec bytes of `,\"error\":`.
pub open spec fn lit_key_error() -> Seq<u8> {
    seq![0x2Cu8, 0x22u8, 0x65u8, 0x72u8, 0x72u8, 0x6Fu8, 0x72u8, 0x22u8, 0x3Au8]
}

/// The bytes of `,\"error\":` as a buffer.
fn vec_key_error() -> (v: Vec<u8>)
    ensures
        v@ == lit_key_error(),
{
    let mut v: Vec<u8> = Vec::new();
    v.push(0x2C);
    v.push(0x22);
    v.push(0x65);
    v.push(0x72);
    v.push(0x72);
    v.push(0x6F);
    v.push(0x72);
    v.push(0x22);
    v.push(0x3A);
    proof {
        assert(v@ =~= lit_key_error());
    }
    v
}

/// Spec bytes of `null}`.
pub open spec fn lit_err_null() -> Seq<u8> {
    seq![0x6Eu8, 0x75u8, 0x6Cu8, 0x6Cu8, 0x7Du8]
}

/// The bytes of `null}` as a buffer.
fn vec_err_null() -> (v: Vec<u8>)
    ensures
        v@ == lit_err_null(),
{
    let mut v: Vec<u8> = Vec::new();
    v.push(0x6E);
    v.push(0x75);
    v.push(0x6C);
    v.push(0x6C);
    v.push(0x7D);
    proof {
        assert(v@ =~= lit_err_null());
    }
    v
}

/// Spec bytes of `\"fetch failed\"}`.
pub open spec fn lit_err_fetch() -> Seq<u8> {
    seq![0x22u8, 0x66u8, 0x65u8, 0x74u8, 0x63u8, 0x68u8, 0x20u8, 0x66u8, 0x61u8, 0x69u8, 0x6Cu8, 0x65u8, 0x64u8, 0x22u8, 0x7Du8]
}

/// The bytes of `\"fetch failed\"}` as a buffer.
fn vec_err_fetch() -> (v: Vec<u8>)
    ensures
        v@ == lit_err_fetch(),
{
    let mut v: Vec<u8> = Vec::new();
    v.push(0x22);
    v.push(0x66);
    v.push(0x65);
    v.push(0x74);
    v.push(0x63);
    v.push(0x68);
    v.push(0x20);
    v.push(0x66);
    v.push(0x61);
    v.push(0x69);
    v.push(0x6C);
    v.push(0x65);
    v.push(0x64);
    v.push(0x22);
    v.push(0x7D);
    proof {
        assert(v@ =~= lit_err_fetch());
    }
    v
}

/// The bytes of `true` or `false`.
pub open spec fn spec_bool_lit(b: bool) -> Seq<u8> {
    if b {
        lit_lit_true()
    } else {
        lit_lit_false()
    }
}

/// Advance past `lit` at `i`, or nothing.
pub open spec fn spec_match(s: Seq<u8>, i: int, lit: Seq<u8>) -> Option<int> {
    if 0 <= i && i + lit.len() <= s.len() && s.subrange(i, i + lit.len() as int) == lit {
        Option::Some(i + lit.len() as int)
    } else {
        Option::None
    }
}

/// Match `pat` in `buf` at position `i`, exact per `spec_match`.
fn match_lit(buf: &[u8], i: usize, pat: &Vec<u8>) -> (r: Option<usize>)
    requires
        i <= buf@.len(),
    ensures
        match r {
            Option::Some(e) => spec_match(buf@, i as int, pat@) == Option::Some(e as int) && e
                == i + pat@.len() && e <= buf@.len(),
            Option::None => spec_match(buf@, i as int, pat@) is None,
        },
{
    if buf.len() - i < pat.len() {
        return Option::None;
    }
    let end: usize = i + pat.len();
    let mut j: usize = 0;
    while j < pat.len()
        invariant
            0 <= j <= pat@.len(),
            end == i + pat@.len(),
            end <= buf@.len(),
            forall|q: int| 0 <= q < j ==> buf@[i + q] == #[trigger] pat@[q],
        decreases pat@.len() - j,
    {
        proof {
            assert(i + j < end);
        }
        if buf[i + j] != pat[j] {
            proof {
                assert(buf@.subrange(i as int, i + pat@.len() as int)[j as int] == buf@[i + j]);
            }
            return Option::None;
        }
        j = j + 1;
    }
    proof {
        assert(buf@.subrange(i as int, i + pat@.len() as int) =~= pat@);
    }
    Option::Some(i + pat.len())
}

/// Parse `true` or `false` at `i`.
pub open spec fn spec_parse_bool(s: Seq<u8>, i: int) -> Option<(bool, int)> {
    match spec_match(s, i, lit_lit_true()) {
        Option::Some(e) => Option::Some((true, e)),
        Option::None => match spec_match(s, i, lit_lit_false()) {
            Option::Some(e) => Option::Some((false, e)),
            Option::None => Option::None,
        },
    }
}

/// Match a boolean literal, exact per `spec_parse_bool`.
fn parse_bool(buf: &[u8], i: usize) -> (r: Option<(bool, usize)>)
    requires
        i <= buf@.len(),
    ensures
        match r {
            Option::Some((b, e)) => spec_parse_bool(buf@, i as int) == Option::Some(
                (b, e as int),
            ) && i < e <= buf@.len(),
            Option::None => spec_parse_bool(buf@, i as int) is None,
        },
{
    let t = vec_lit_true();
    match match_lit(buf, i, &t) {
        Option::Some(e) => Option::Some((true, e)),
        Option::None => {
            let f = vec_lit_false();
            match match_lit(buf, i, &f) {
                Option::Some(e) => Option::Some((false, e)),
                Option::None => Option::None,
            }
        },
    }
}

/// The canonical byte form of an override record: a single-line JSON
/// object with the five fields in fixed order.
pub open spec fn spec_encode_override(o: OverrideState) -> Seq<u8> {
    lit_obj_active() + spec_bool_lit(o.active) + lit_key_target() + spec_dec_signed(
        o.target_temp as int,
    ) + lit_key_duration() + spec_dec_signed(o.duration_minutes as int) + lit_key_issued()
        + spec_dec_signed(o.issued_at as int) + lit_key_start() + spec_dec_signed(
        o.start_temp as int,
    ) + lit_obj_close()
}

/// Encode an override record in its canonical byte form.
pub fn encode_override(o: &OverrideState) -> (r: Vec<u8>)
    ensures
        r@ == spec_encode_override(*o),
{
    let mut out = vec_obj_active();
    let tv = if o.active {
        vec_lit_true()
    } else {
        vec_lit_false()
    };
    push_all(&mut out, &tv);
    let k1 = vec_key_target();
    push_all(&mut out, &k1);
    push_dec_i64(o.target_temp as i64, &mut out);
    let k2 = vec_key_duration();
    push_all(&mut out, &k2);
    push_dec_i64(o.duration_minutes as i64, &mut out);
    let k3 = vec_key_issued();
    push_all(&mut out, &k3);
    push_dec_i64(o.issued_at, &mut out);
    let k4 = vec_key_start();
    push_all(&mut out, &k4);
    push_dec_i64(o.start_temp as i64, &mut out);
    let k5 = vec_obj_close();
    push_all(&mut out, &k5);
    proof {
        assert(out@ =~= spec_encode_override(*o));
    }
    out
}

/// Append a whole buffer.
pub fn push_all(out: &mut Vec<u8>, src: &Vec<u8>)
    ensures
        final(out)@ == old(out)@ + src@,
{
    let mut j: usize = 0;
    while j < src.len()
        invariant
            0 <= j <= src@.len(),
            out@ == old(out)@ + src@.subrange(0, j as int),
        decreases src@.len() - j,
    {
        out.push(src[j]);
        proof {
            assert(out@ =~= old(out)@ + src@.subrange(0, j + 1));
        }
        j = j + 1;
    }
    proof {
        assert(src@.subrange(0, src@.len() as int) =~= src@);
    }
}

/// A signed field within `i32` range at `i`.
pub open spec fn spec_parse_i32_field(s: Seq<u8>, i: int) -> Option<(int, int)> {
    match spec_parse_i64(s, i) {
        Option::Some((v, e)) => if i32::MIN <= v <= i32::MAX {
            Option::Some((v, e))
        } else {
            Option::None
        },
        Option::None => Option::None,
    }
}

/// A signed field checked into `i32` range.
fn parse_i32_field(buf: &[u8], i: usize) -> (r: Option<(i32, usize)>)
    requires
        i <= buf@.len(),
    ensures
        match r {
            Option::Some((v, e)) => spec_parse_i32_field(buf@, i as int) == Option::Some(
                (v as int, e as int),
            ) && i < e <= buf@.len(),
            Option::None => spec_parse_i32_field(buf@, i as int) is None,
        },
{
    match parse_i64(buf, i) {
        Option::Some((v, e)) => {
            if i32::MIN as i64 <= v && v <= i32::MAX as i64 {
                Option::Some((v as i32, e))
            } else {
                Option::None
            }
        },
        Option::None => Option::None,
    }
}

/// How many of the override reader's field slots are still empty.
pub open spec fn spec_ov_free(
    act: Option<bool>,
    tgt: Option<int>,
    dur: Option<int>,
    iss: Option<int>,
    start: Option<int>,
) -> nat {
    (if act is None {
        1nat
    } else {
        0nat
    }) + (if tgt is None {
        1nat
    } else {
        0nat
    }) + (if dur is None {
        1nat
    } else {
        0nat
    }) + (if iss is None {
        1nat
    } else {
        0nat
    }) + (if start is None {
        1nat
    } else {
        0nat
    })
}

/// One field's tail after its key matched at `j`: colon, value,
/// and the slot update (`spec_ov_take_*` per field).
pub open spec fn spec_ov_take_active(
    s: Seq<u8>,
    j: int,
    act: Option<bool>,
    tgt: Option<int>,
    dur: Option<int>,
    iss: Option<int>,
    start: Option<int>,
) -> Option<(bool, int, int, int, int)>
    decreases spec_ov_free(act, tgt, dur, iss, start), 0int,
{
    if act is Some {
        Option::None
    } else {
        let cp = spec_skip_jws(s, j + qkey_active().len());
        if cp < s.len() && s[cp] == 0x3A {
            let v = spec_skip_jws(s, cp + 1);
            match spec_parse_bool(s, v) {
                Option::Some((b, e)) => spec_ov_next(s, e, Option::Some(b), tgt, dur, iss, start),
                Option::None => Option::None,
            }
        } else {
            Option::None
        }
    }
}

/// The `target_temp` field's tail.
pub open spec fn spec_ov_take_target(
    s: Seq<u8>,
    j: int,
    act: Option<bool>,
    tgt: Option<int>,
    dur: Option<int>,
    iss: Option<int>,
    start: Option<int>,
) -> Option<(bool, int, int, int, int)>
    decreases spec_ov_free(act, tgt, dur, iss, start), 0int,
{
    if tgt is Some {
        Option::None
    } else {
        let cp = spec_skip_jws(s, j + qkey_target().len());
        if cp < s.len() && s[cp] == 0x3A {
            let v = spec_skip_jws(s, cp + 1);
            match spec_parse_i32_field(s, v) {
                Option::Some((t, e)) => spec_ov_next(s, e, act, Option::Some(t), dur, iss, start),
                Option::None => Option::None,
            }
        } else {
            Option::None
        }
    }
}

/// The `duration_minutes` field's tail.
pub open spec fn spec_ov_take_duration(
    s: Seq<u8>,
    j: int,
    act: Option<bool>,
    tgt: Option<int>,
    dur: Option<int>,
    iss: Option<int>,
    start: Option<int>,
) -> Option<(bool, int, int, int, int)>
    decreases spec_ov_free(act, tgt, dur, iss, start), 0int,
{
    if dur is Some {
        Option::None
    } else {
        let cp = spec_skip_jws(s, j + qkey_duration().len());
        if cp < s.len() && s[cp] == 0x3A {
            let v = spec_skip_jws(s, cp + 1);
            match spec_parse_i32_field(s, v) {
                Option::Some((d, e)) => spec_ov_next(s, e, act, tgt, Option::Some(d), iss, start),
                Option::None => Option::None,
            }
        } else {
            Option::None
        }
    }
}

/// The `issued_at` field's tail.
pub open spec fn spec_ov_take_issued(
    s: Seq<u8>,
    j: int,
    act: Option<bool>,
    tgt: Option<int>,
    dur: Option<int>,
    iss: Option<int>,
    start: Option<int>,
) -> Option<(bool, int, int, int, int)>
    decreases spec_ov_free(act, tgt, dur, iss, start), 0int,
{
    if iss is Some {
        Option::None
    } else {
        let cp = spec_skip_jws(s, j + qkey_issued().len());
        if cp < s.len() && s[cp] == 0x3A {
            let v = spec_skip_jws(s, cp + 1);
            match spec_parse_i64(s, v) {
                Option::Some((w, e)) => spec_ov_next(s, e, act, tgt, dur, Option::Some(w), start),
                Option::None => Option::None,
            }
        } else {
            Option::None
        }
    }
}

/// The `start_temp` field's tail.
pub open spec fn spec_ov_take_start(
    s: Seq<u8>,
    j: int,
    act: Option<bool>,
    tgt: Option<int>,
    dur: Option<int>,
    iss: Option<int>,
    start: Option<int>,
) -> Option<(bool, int, int, int, int)>
    decreases spec_ov_free(act, tgt, dur, iss, start), 0int,
{
    if start is Some {
        Option::None
    } else {
        let cp = spec_skip_jws(s, j + qkey_start().len());
        if cp < s.len() && s[cp] == 0x3A {
            let v = spec_skip_jws(s, cp + 1);
            match spec_parse_i32_field(s, v) {
                Option::Some((st, e)) => spec_ov_next(s, e, act, tgt, dur, iss, Option::Some(st)),
                Option::None => Option::None,
            }
        } else {
            Option::None
        }
    }
}

/// Parse the override object's fields from `i` (just after `{` or a
/// comma): the five known fields in any order, each exactly once,
/// JSON whitespace anywhere between tokens. A duplicate or unknown
/// key, or a malformed value, fails the parse.
pub open spec fn spec_ov_fields(
    s: Seq<u8>,
    i: int,
    act: Option<bool>,
    tgt: Option<int>,
    dur: Option<int>,
    iss: Option<int>,
    start: Option<int>,
) -> Option<(bool, int, int, int, int)>
    decreases spec_ov_free(act, tgt, dur, iss, start), 1int,
{
    let j = spec_skip_jws(s, i);
    if spec_match(s, j, qkey_active()) is Some {
        spec_ov_take_active(s, j, act, tgt, dur, iss, start)
    } else if spec_match(s, j, qkey_target()) is Some {
        spec_ov_take_target(s, j, act, tgt, dur, iss, start)
    } else if spec_match(s, j, qkey_duration()) is Some {
        spec_ov_take_duration(s, j, act, tgt, dur, iss, start)
    } else if spec_match(s, j, qkey_issued()) is Some {
        spec_ov_take_issued(s, j, act, tgt, dur, iss, start)
    } else if spec_match(s, j, qkey_start()) is Some {
        spec_ov_take_start(s, j, act, tgt, dur, iss, start)
    } else {
        Option::None
    }
}

/// After a field's value: a comma continues with the next field, a
/// closing brace (with nothing but whitespace after it) finishes the
/// record if every field arrived.
pub open spec fn spec_ov_next(
    s: Seq<u8>,
    e: int,
    act: Option<bool>,
    tgt: Option<int>,
    dur: Option<int>,
    iss: Option<int>,
    start: Option<int>,
) -> Option<(bool, int, int, int, int)>
    decreases spec_ov_free(act, tgt, dur, iss, start), 2int,
{
    let j = spec_skip_jws(s, e);
    if j < s.len() && s[j] == 0x2C {
        spec_ov_fields(s, j + 1, act, tgt, dur, iss, start)
    } else if j < s.len() && s[j] == 0x7D {
        let k = spec_skip_jws(s, j + 1);
        if k == s.len() {
            match (act, tgt, dur, iss, start) {
                (
                    Option::Some(a),
                    Option::Some(t),
                    Option::Some(d),
                    Option::Some(w),
                    Option::Some(st),
                ) => Option::Some((a, t, d, w, st)),
                _ => Option::None,
            }
        } else {
            Option::None
        }
    } else {
        Option::None
    }
}

/// Parse an override record: a JSON object carrying the five fields
/// in any order, with whitespace anywhere between tokens.
pub open spec fn spec_parse_override(s: Seq<u8>) -> Option<OverrideState> {
    let j = spec_skip_jws(s, 0);
    if j < s.len() && s[j] == 0x7B {
        match spec_ov_fields(
            s,
            j + 1,
            Option::None,
            Option::None,
            Option::None,
            Option::None,
            Option::None,
        ) {
            Option::Some((a, t, d, w, st)) => Option::Some(
                OverrideState {
                    active: a,
                    target_temp: t as i32,
                    duration_minutes: d as i32,
                    issued_at: w as i64,
                    start_temp: st as i32,
                },
            ),
            Option::None => Option::None,
        }
    } else {
        Option::None
    }
}

/// Lift the executable slots into the spec state.
pub open spec fn opt_i32_int(o: Option<i32>) -> Option<int> {
    match o {
        Option::Some(v) => Option::Some(v as int),
        Option::None => Option::None,
    }
}

/// Lift an `i64` slot into the spec state.
pub open spec fn opt_i64_int(o: Option<i64>) -> Option<int> {
    match o {
        Option::Some(v) => Option::Some(v as int),
        Option::None => Option::None,
    }
}

/// Parse an override record, exact per `spec_parse_override`.
#[verifier::rlimit(100)]
#[verifier::spinoff_prover]
pub fn parse_override(buf: &[u8]) -> (r: Option<OverrideState>)
    ensures
        r == spec_parse_override(buf@),
{
    let j0 = skip_jws(buf, 0);
    if !(j0 < buf.len() && buf[j0] == 0x7B) {
        return Option::None;
    }

    let ka = vec_qkey_active();
    let kt = vec_qkey_target();
    let kd = vec_qkey_duration();
    let ki = vec_qkey_issued();
    let ks = vec_qkey_start();

    let mut i: usize = j0 + 1;
    let mut act: Option<bool> = Option::None;
    let mut tgt: Option<i32> = Option::None;
    let mut dur: Option<i32> = Option::None;
    let mut iss: Option<i64> = Option::None;
    let mut start: Option<i32> = Option::None;

    loop
        invariant
            i <= buf@.len(),
            j0 == spec_skip_jws(buf@, 0),
            j0 < buf@.len(),
            buf@[j0 as int] == 0x7B,
            ka@ == qkey_active(),
            kt@ == qkey_target(),
            kd@ == qkey_duration(),
            ki@ == qkey_issued(),
            ks@ == qkey_start(),
            spec_ov_fields(
                buf@,
                j0 + 1,
                Option::None,
                Option::None,
                Option::None,
                Option::None,
                Option::None,
            ) == spec_ov_fields(
                buf@,
                i as int,
                act,
                opt_i32_int(tgt),
                opt_i32_int(dur),
                opt_i64_int(iss),
                opt_i32_int(start),
            ),
        decreases buf@.len() - i,
    {
        let j = skip_jws(buf, i);

        // which field follows?
        let e: usize;
        if let Option::Some(k) = match_lit(buf, j, &ka) {
            if act.is_some() {
                return Option::None;
            }
            let cp = skip_jws(buf, k);
            if !(cp < buf.len() && buf[cp] == 0x3A) {
                return Option::None;
            }
            let v = skip_jws(buf, cp + 1);
            match parse_bool(buf, v) {
                Option::Some((b, e2)) => {
                    act = Option::Some(b);
                    e = e2;
                },
                Option::None => {
                    return Option::None;
                },
            }
        } else if let Option::Some(k) = match_lit(buf, j, &kt) {
            if tgt.is_some() {
                return Option::None;
            }
            let cp = skip_jws(buf, k);
            if !(cp < buf.len() && buf[cp] == 0x3A) {
                return Option::None;
            }
            let v = skip_jws(buf, cp + 1);
            match parse_i32_field(buf, v) {
                Option::Some((t, e2)) => {
                    tgt = Option::Some(t);
                    e = e2;
                },
                Option::None => {
                    return Option::None;
                },
            }
        } else if let Option::Some(k) = match_lit(buf, j, &kd) {
            if dur.is_some() {
                return Option::None;
            }
            let cp = skip_jws(buf, k);
            if !(cp < buf.len() && buf[cp] == 0x3A) {
                return Option::None;
            }
            let v = skip_jws(buf, cp + 1);
            match parse_i32_field(buf, v) {
                Option::Some((d, e2)) => {
                    dur = Option::Some(d);
                    e = e2;
                },
                Option::None => {
                    return Option::None;
                },
            }
        } else if let Option::Some(k) = match_lit(buf, j, &ki) {
            if iss.is_some() {
                return Option::None;
            }
            let cp = skip_jws(buf, k);
            if !(cp < buf.len() && buf[cp] == 0x3A) {
                return Option::None;
            }
            let v = skip_jws(buf, cp + 1);
            match parse_i64(buf, v) {
                Option::Some((w, e2)) => {
                    iss = Option::Some(w);
                    e = e2;
                },
                Option::None => {
                    return Option::None;
                },
            }
        } else if let Option::Some(k) = match_lit(buf, j, &ks) {
            if start.is_some() {
                return Option::None;
            }
            let cp = skip_jws(buf, k);
            if !(cp < buf.len() && buf[cp] == 0x3A) {
                return Option::None;
            }
            let v = skip_jws(buf, cp + 1);
            match parse_i32_field(buf, v) {
                Option::Some((st, e2)) => {
                    start = Option::Some(st);
                    e = e2;
                },
                Option::None => {
                    return Option::None;
                },
            }
        } else {
            return Option::None;
        }

        // after the value: comma or closing brace
        let j2 = skip_jws(buf, e);
        if j2 < buf.len() && buf[j2] == 0x2C {
            i = j2 + 1;
        } else if j2 < buf.len() && buf[j2] == 0x7D {
            let k2 = skip_jws(buf, j2 + 1);
            if k2 != buf.len() {
                return Option::None;
            }
            match (act, tgt, dur, iss, start) {
                (
                    Option::Some(a),
                    Option::Some(t),
                    Option::Some(d),
                    Option::Some(w),
                    Option::Some(st),
                ) => {
                    return Option::Some(
                        OverrideState {
                            active: a,
                            target_temp: t,
                            duration_minutes: d,
                            issued_at: w,
                            start_temp: st,
                        },
                    );
                },
                _ => {
                    return Option::None;
                },
            }
        } else {
            return Option::None;
        }
    }
}


/// JSON escape of one byte: quote and backslash get a backslash.
pub open spec fn spec_escape_byte(b: u8) -> Seq<u8> {
    if b == 0x22 || b == 0x5C {
        seq![0x5Cu8, b]
    } else {
        seq![b]
    }
}

/// JSON escape of a byte string.
pub open spec fn spec_escape(s: Seq<u8>) -> Seq<u8>
    decreases s.len(),
{
    if s.len() == 0 {
        Seq::empty()
    } else {
        spec_escape(s.drop_last()) + spec_escape_byte(s.last())
    }
}

/// Append the JSON-escaped form of `s`.
fn push_escaped(s: &Vec<u8>, out: &mut Vec<u8>)
    ensures
        final(out)@ == old(out)@ + spec_escape(s@),
{
    let mut i: usize = 0;
    while i < s.len()
        invariant
            0 <= i <= s@.len(),
            out@ == old(out)@ + spec_escape(s@.take(i as int)),
        decreases s@.len() - i,
    {
        let b = s[i];
        if b == 0x22 || b == 0x5C {
            out.push(0x5C);
        }
        out.push(b);
        proof {
            assert(s@.take(i + 1).drop_last() =~= s@.take(i as int));
            assert(s@.take(i + 1).last() == s@[i as int]);
            assert(out@ =~= old(out)@ + spec_escape(s@.take(i + 1)));
        }
        i = i + 1;
    }
    proof {
        assert(s@.take(s@.len() as int) =~= s@);
    }
}

/// Parse a JSON string body at `i` up to and past its closing quote,
/// unescaping the two recognized escapes; `None` on a bad escape or
/// a missing closing quote.
pub open spec fn spec_parse_jstring(s: Seq<u8>, i: int) -> Option<(Seq<u8>, int)>
    decreases s.len() - i,
{
    if 0 <= i < s.len() {
        if s[i] == 0x22 {
            Option::Some((Seq::empty(), i + 1))
        } else if s[i] == 0x5C {
            if i + 1 < s.len() && (s[i + 1] == 0x22 || s[i + 1] == 0x5C) {
                match spec_parse_jstring(s, i + 2) {
                    Option::Some((t, e)) => Option::Some((seq![s[i + 1]] + t, e)),
                    Option::None => Option::None,
                }
            } else {
                Option::None
            }
        } else {
            match spec_parse_jstring(s, i + 1) {
                Option::Some((t, e)) => Option::Some((seq![s[i]] + t, e)),
                Option::None => Option::None,
            }
        }
    } else {
        Option::None
    }
}

proof fn lemma_jstring_bounds(s: Seq<u8>, i: int)
    requires
        0 <= i <= s.len(),
    ensures
        spec_parse_jstring(s, i) matches Option::Some(t) ==> i < t.1 <= s.len(),
    decreases s.len() - i,
{
    if i < s.len() {
        if s[i] == 0x22 {
        } else if s[i] == 0x5C {
            if i + 1 < s.len() && (s[i + 1] == 0x22 || s[i + 1] == 0x5C) {
                lemma_jstring_bounds(s, i + 2);
            }
        } else {
            lemma_jstring_bounds(s, i + 1);
        }
    }
}

/// Parse a JSON string body, exact per `spec_parse_jstring`.
fn parse_jstring(buf: &[u8], i: usize) -> (r: Option<(Vec<u8>, usize)>)
    requires
        i <= buf@.len(),
    ensures
        match r {
            Option::Some((v, e)) => spec_parse_jstring(buf@, i as int) == Option::Some(
                (v@, e as int),
            ) && i < e <= buf@.len(),
            Option::None => spec_parse_jstring(buf@, i as int) is None,
        },
{
    let mut acc: Vec<u8> = Vec::new();
    let mut j: usize = i;
    proof {
        lemma_jstring_bounds(buf@, i as int);
        match spec_parse_jstring(buf@, i as int) {
            Option::Some((t, e)) => {
                assert(Seq::<u8>::empty() + t =~= t);
            },
            Option::None => {},
        }
    }
    loop
        invariant_except_break
            i <= j <= buf@.len(),
            match spec_parse_jstring(buf@, j as int) {
                Option::Some((t, e)) => spec_parse_jstring(buf@, i as int) == Option::Some(
                    (acc@ + t, e),
                ) && j < e <= buf@.len(),
                Option::None => spec_parse_jstring(buf@, i as int) is None,
            },
        ensures
            match spec_parse_jstring(buf@, i as int) {
                Option::Some((t, e)) => acc@ == t && j == e && i < e <= buf@.len(),
                Option::None => false,
            },
        decreases buf@.len() - j,
    {
        if j >= buf.len() {
            return Option::None;
        }
        let b = buf[j];
        if b == 0x22 {
            proof {
                assert(acc@ + Seq::<u8>::empty() =~= acc@);
            }
            j = j + 1;
            break;
        } else if b == 0x5C {
            if j + 1 < buf.len() && (buf[j + 1] == 0x22 || buf[j + 1] == 0x5C) {
                let ghost accp = acc@;
                acc.push(buf[j + 1]);
                proof {
                    lemma_jstring_bounds(buf@, j + 2);
                    match spec_parse_jstring(buf@, j + 2) {
                        Option::Some((t, e)) => {
                            assert(accp + (seq![buf@[j + 1]] + t) =~= acc@ + t);
                        },
                        Option::None => {},
                    }
                }
                j = j + 2;
            } else {
                return Option::None;
            }
        } else {
            let ghost accp = acc@;
            acc.push(b);
            proof {
                lemma_jstring_bounds(buf@, j + 1);
                match spec_parse_jstring(buf@, j + 1) {
                    Option::Some((t, e)) => {
                        assert(accp + (seq![buf@[j as int]] + t) =~= acc@ + t);
                    },
                    Option::None => {},
                }
            }
            j = j + 1;
        }
    }
    Option::Some((acc, j))
}

/// The canonical persisted form of a weather snapshot. An error
/// snapshot persists with its payload zeroed (cloud cover included)
/// and the error marker; a good one persists its fields and a null
/// error.
pub open spec fn spec_encode_weather(wd: WeatherData) -> Seq<u8> {
    if wd.has_error {
        lit_obj_cloud() + spec_dec_signed(0) + lit_key_forecast() + seq![0x22u8]
            + lit_key_temperature() + spec_dec_signed(0) + lit_key_is_day() + spec_bool_lit(true)
            + lit_key_fetched() + spec_dec_signed(wd.fetched_at as int) + lit_key_error()
            + lit_err_fetch()
    } else {
        lit_obj_cloud() + spec_dec_signed(wd.cloud_cover as int) + lit_key_forecast()
            + spec_escape(wd.forecast@) + seq![0x22u8] + lit_key_temperature() + spec_dec_signed(
            wd.temperature as int,
        ) + lit_key_is_day() + spec_bool_lit(wd.is_day) + lit_key_fetched() + spec_dec_signed(
            wd.fetched_at as int,
        ) + lit_key_error() + lit_err_null()
    }
}

/// Encode a weather snapshot in its canonical persisted form.
pub fn encode_weather_cache(wd: &WeatherData) -> (r: Vec<u8>)
    ensures
        r@ == spec_encode_weather(*wd),
{
    let mut out = vec_obj_cloud();
    if wd.has_error {
        push_dec_i64(0, &mut out);
        let k1 = vec_key_forecast();
        push_all(&mut out, &k1);
        out.push(0x22);
        let k2 = vec_key_temperature();
        push_all(&mut out, &k2);
        push_dec_i64(0, &mut out);
        let k3 = vec_key_is_day();
        push_all(&mut out, &k3);
        let t = vec_lit_true();
        push_all(&mut out, &t);
        let k4 = vec_key_fetched();
        push_all(&mut out, &k4);
        push_dec_i64(wd.fetched_at, &mut out);
        let k5 = vec_key_error();
        push_all(&mut out, &k5);
        let e = vec_err_fetch();
        push_all(&mut out, &e);
    } else {
        push_dec_i64(wd.cloud_cover as i64, &mut out);
        let k1 = vec_key_forecast();
        push_all(&mut out, &k1);
        push_escaped(&wd.forecast, &mut out);
        out.push(0x22);
        let k2 = vec_key_temperature();
        push_all(&mut out, &k2);
        push_dec_i64(wd.temperature, &mut out);
        let k3 = vec_key_is_day();
        push_all(&mut out, &k3);
        let b = if wd.is_day {
            vec_lit_true()
        } else {
            vec_lit_false()
        };
        push_all(&mut out, &b);
        let k4 = vec_key_fetched();
        push_all(&mut out, &k4);
        push_dec_i64(wd.fetched_at, &mut out);
        let k5 = vec_key_error();
        push_all(&mut out, &k5);
        let e = vec_err_null();
        push_all(&mut out, &e);
    }
    proof {
        assert(out@ =~= spec_encode_weather(*wd));
    }
    out
}

/// Parse the canonical persisted weather form: field values in
/// order. `None` on any deviation; the last component is the error
/// marker.
pub open spec fn spec_parse_weather(s: Seq<u8>) -> Option<(int, Seq<u8>, int, bool, int, bool)> {
    match spec_match(s, 0, lit_obj_cloud()) {
        Option::None => Option::None,
        Option::Some(i1) => match spec_parse_i32_field(s, i1) {
            Option::None => Option::None,
            Option::Some((cloud, i2)) => match spec_match(s, i2, lit_key_forecast()) {
                Option::None => Option::None,
                Option::Some(i3) => match spec_parse_jstring(s, i3) {
                    Option::None => Option::None,
                    Option::Some((forecast, i4)) => match spec_match(s, i4, lit_key_temperature()) {
                        Option::None => Option::None,
                        Option::Some(i5) => match spec_parse_i64(s, i5) {
                            Option::None => Option::None,
                            Option::Some((temperature, i6)) => match spec_match(
                                s,
                                i6,
                                lit_key_is_day(),
                            ) {
                                Option::None => Option::None,
                                Option::Some(i7) => match spec_parse_bool(s, i7) {
                                    Option::None => Option::None,
                                    Option::Some((is_day, i8)) => match spec_match(
                                        s,
                                        i8,
                                        lit_key_fetched(),
                                    ) {
                                        Option::None => Option::None,
                                        Option::Some(i9) => match spec_parse_i64(s, i9) {
                                            Option::None => Option::None,
                                            Option::Some((fetched, i10)) => match spec_match(
                                                s,
                                                i10,
                                                lit_key_error(),
                                            ) {
                                                Option::None => Option::None,
                                                Option::Some(i11) => {
                                                    if spec_match(s, i11, lit_err_fetch())
                                                        == Option::Some(s.len() as int) {
                                                        Option::Some(
                                                            (
                                                                cloud,
                                                                forecast,
                                                                temperature,
                                                                is_day,
                                                                fetched,
                                                                true,
                                                            ),
                                                        )
                                                    } else if spec_match(s, i11, lit_err_null())
                                                        == Option::Some(s.len() as int) {
                                                        Option::Some(
                                                            (
                                                                cloud,
                                                                forecast,
                                                                temperature,
                                                                is_day,
                                                                fetched,
                                                                false,
                                                            ),
                                                        )
                                                    } else {
                                                        Option::None
                                                    }
                                                },
                                            },
                                        },
                                    },
                                },
                            },
                        },
                    },
                },
            },
        },
    }
}

/// Parse a persisted weather snapshot, exact per
/// `spec_parse_weather`; `has_error` also covers a zero fetch time.
pub fn parse_weather_cache(buf: &[u8]) -> (r: Option<WeatherData>)
    ensures
        (r matches Option::Some(wd) ==> (spec_parse_weather(buf@) matches Option::Some(t)
            && wd.cloud_cover as int == t.0 && wd.forecast@ == t.1 && wd.temperature as int == t.2
            && wd.is_day == t.3 && wd.fetched_at as int == t.4 && wd.has_error == (t.5 || t.4
            == 0))),
        r is None ==> spec_parse_weather(buf@) is None,
{
    let l0 = vec_obj_cloud();
    let i1 = match match_lit(buf, 0, &l0) {
        Option::Some(e) => e,
        Option::None => {
            return Option::None;
        },
    };
    let (cloud, i2) = match parse_i32_field(buf, i1) {
        Option::Some(v) => v,
        Option::None => {
            return Option::None;
        },
    };
    let l1 = vec_key_forecast();
    let i3 = match match_lit(buf, i2, &l1) {
        Option::Some(e) => e,
        Option::None => {
            return Option::None;
        },
    };
    let (forecast, i4) = match parse_jstring(buf, i3) {
        Option::Some(v) => v,
        Option::None => {
            return Option::None;
        },
    };
    let l2 = vec_key_temperature();
    let i5 = match match_lit(buf, i4, &l2) {
        Option::Some(e) => e,
        Option::None => {
            return Option::None;
        },
    };
    let (temperature, i6) = match parse_i64(buf, i5) {
        Option::Some(v) => v,
        Option::None => {
            return Option::None;
        },
    };
    let l3 = vec_key_is_day();
    let i7 = match match_lit(buf, i6, &l3) {
        Option::Some(e) => e,
        Option::None => {
            return Option::None;
        },
    };
    let (is_day, i8) = match parse_bool(buf, i7) {
        Option::Some(v) => v,
        Option::None => {
            return Option::None;
        },
    };
    let l4 = vec_key_fetched();
    let i9 = match match_lit(buf, i8, &l4) {
        Option::Some(e) => e,
        Option::None => {
            return Option::None;
        },
    };
    let (fetched, i10) = match parse_i64(buf, i9) {
        Option::Some(v) => v,
        Option::None => {
            return Option::None;
        },
    };
    let l5 = vec_key_error();
    let i11 = match match_lit(buf, i10, &l5) {
        Option::Some(e) => e,
        Option::None => {
            return Option::None;
        },
    };
    let lf = vec_err_fetch();
    let ln = vec_err_null();
    let has_err: bool = match match_lit(buf, i11, &lf) {
        Option::Some(e) => {
            if e != buf.len() {
                return Option::None;
            }
            true
        },
        Option::None => {
            match match_lit(buf, i11, &ln) {
                Option::Some(e) => {
                    if e != buf.len() {
                        return Option::None;
                    }
                    false
                },
                Option::None => {
                    return Option::None;
                },
            }
        },
    };
    Option::Some(
        WeatherData {
            cloud_cover: cloud,
            forecast,
            temperature,
            is_day,
            fetched_at: fetched,
            has_error: has_err || fetched == 0,
        },
    )
}

/// The canonical PID file: the decimal PID and a newline.
pub open spec fn spec_encode_pid(pid: int) -> Seq<u8> {
    spec_dec_signed(pid) + seq![0x0Au8]
}

/// Encode a PID file.
pub fn encode_pid(pid: i32) -> (r: Vec<u8>)
    ensures
        r@ == spec_encode_pid(pid as int),
{
    let mut out: Vec<u8> = Vec::new();
    push_dec_i64(pid as i64, &mut out);
    out.push(0x0A);
    proof {
        assert(out@ =~= spec_encode_pid(pid as int));
    }
    out
}

/// The PID a PID file holds: the whole trimmed content must be a
/// decimal number naming a positive 32-bit process id.
pub open spec fn spec_parse_pid(s: Seq<u8>) -> Option<int> {
    let a = spec_skip_jws(s, 0);
    let b = spec_pid_end(s, a, s.len() as int);
    match spec_parse_i64(s, a) {
        Option::Some((v, e)) => if e == b && 0 < v <= i32::MAX {
            Option::Some(v)
        } else {
            Option::None
        },
        Option::None => Option::None,
    }
}

/// One past the last non-whitespace index in [i, end).
pub open spec fn spec_pid_end(s: Seq<u8>, i: int, end: int) -> int
    decreases end - i,
{
    if 0 <= i < end && end <= s.len() && is_jws(s[end - 1]) {
        spec_pid_end(s, i, end - 1)
    } else {
        end
    }
}

/// Parse a PID file, exact per `spec_parse_pid`.
pub fn parse_pid(buf: &[u8]) -> (r: Option<i32>)
    ensures
        match r {
            Option::Some(pid) => spec_parse_pid(buf@) == Option::Some(pid as int) && pid > 0,
            Option::None => spec_parse_pid(buf@) is None,
        },
{
    let a = skip_jws(buf, 0);
    let mut b: usize = buf.len();
    while b > a && (buf[b - 1] == 0x20 || buf[b - 1] == 0x09 || buf[b - 1] == 0x0A || buf[b - 1]
        == 0x0D)
        invariant
            a <= b <= buf@.len(),
            spec_pid_end(buf@, a as int, buf@.len() as int) == spec_pid_end(
                buf@,
                a as int,
                b as int,
            ),
        decreases b,
    {
        b = b - 1;
    }
    match parse_i64(buf, a) {
        Option::Some((v, e)) => {
            if e == b && 0 < v && v <= i32::MAX as i64 {
                Option::Some(v as i32)
            } else {
                Option::None
            }
        },
        Option::None => Option::None,
    }
}

} // verus!
