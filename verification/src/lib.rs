//! Core engine of a color-temperature daemon: fixed-point transition
//! curves, gamma-ramp synthesis, persisted-state codecs, kernel event
//! decoding, and the reactor state machine that ties them together.

use vstd::prelude::*;

pub mod codec;
pub mod colorramp;
pub mod config;
pub mod fixed;
pub mod gamma;
pub mod ini;
pub mod inotify;
pub mod landlock;
pub mod reactor;
pub mod roundtrip;
pub mod seccomp;
pub mod sigmoid;
pub mod solar;
pub mod uring;
pub mod weather;

verus! {

/// Lowest Kelvin value the daemon will ever apply.
pub const TEMP_MIN: i32 = 1000;

/// Highest Kelvin value the daemon will ever apply.
pub const TEMP_MAX: i32 = 25000;

/// Daytime target under a clear sky.
pub const TEMP_DAY_CLEAR: i32 = 6500;

/// Daytime target under heavy cloud cover.
pub const TEMP_DAY_DARK: i32 = 4500;

/// Night-time target.
pub const TEMP_NIGHT: i32 = 2900;

/// Cloud-cover percentage at which daytime switches to the dark target.
pub const CLOUD_THRESHOLD: i32 = 75;

/// Seconds after which a cached weather snapshot is considered stale.
pub const WEATHER_REFRESH_SEC: i64 = 900;

/// Period of the reactor's timer tick, in seconds.
pub const TEMP_UPDATE_SEC: i64 = 60;

/// Event flag: the periodic timer fired.
pub const FLAG_TIMER: u32 = 1;

/// Event flag: a shutdown signal arrived.
pub const FLAG_SIGNAL: u32 = 2;

/// Event flag: the weather pipe became readable.
pub const FLAG_WEATHER: u32 = 4;

/// Event flag: the override file was rewritten.
pub const FLAG_OVERRIDE: u32 = 8;

/// Event flag: the configuration file was rewritten.
pub const FLAG_CONFIG: u32 = 16;

} // verus!
