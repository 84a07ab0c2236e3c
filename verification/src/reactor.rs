//! The daemon's tick: one deterministic step of the event engine.
//!
//! The event loop at the I/O edge drains ring completions into event
//! flags, reads the persisted files the flags point at, and hands
//! everything to `tick` as plain values. `tick` updates the reactor
//! state and returns a plan: which file writes to perform and which
//! Kelvin value to hand to the gamma backend. After the backend call
//! succeeds the caller records it with `note_applied`.

use vstd::prelude::*;
use crate::config::{Location, OverrideState, WeatherData};
use crate::sigmoid::{
    calculate_manual_temp, calculate_solar_temp, next_transition_resume, spec_manual_temp,
    spec_next_transition_resume, spec_solar_temp,
};
use crate::solar::{sun_times_bounded, SunTimes, EPOCH_BOUND};
use crate::CLOUD_THRESHOLD;

verus! {

/// Reactor state: location, cached weather, manual-mode bookkeeping,
/// and the last Kelvin value successfully applied.
pub struct ReactorState {
    pub location: Location,
    pub weather: Option<WeatherData>,
    pub manual_mode: bool,
    pub manual_start_temp: i32,
    pub manual_target_temp: i32,
    pub manual_start_time: i64,
    pub manual_duration_min: i32,
    pub manual_issued_at: i64,
    pub manual_resume_time: i64,
    pub last_temp: i32,
    pub last_temp_valid: bool,
}

/// What one tick observes: the clock, today's and tomorrow's
/// sunrise/sunset (absent in polar regions), the override file as
/// parsed (absent when missing or unreadable), and the reloads that a
/// configuration change produced.
pub struct TickEnv {
    pub now: i64,
    pub sun: Option<SunTimes>,
    pub sun_tomorrow: Option<SunTimes>,
    pub override_file: Option<OverrideState>,
    pub new_location: Option<Location>,
    pub new_weather: Option<WeatherData>,
}

/// What one tick asks the I/O edge to do.
#[derive(Clone, Copy, PartialEq, Eq, Structural, Debug)]
pub struct TickPlan {
    /// Write this record to the override file (the lazily back-patched
    /// start temperature).
    pub save_override: Option<OverrideState>,
    /// Delete the override file.
    pub clear_override: bool,
    /// Hand this Kelvin value to the gamma backend.
    pub apply_temp: Option<i32>,
    /// The tick ended in manual mode.
    pub manual: bool,
    /// Manual progress percentage, 100 once the transition is done.
    pub progress_pct: i32,
}

/// Structural well-formedness of the reactor state: in manual mode
/// the issue and start instants are genuine timestamps.
pub open spec fn wf_state(s: ReactorState) -> bool {
    s.manual_mode ==> 0 < s.manual_issued_at <= EPOCH_BOUND && 0 < s.manual_start_time
        <= EPOCH_BOUND
}

/// Environment bounds the arithmetic relies on.
pub open spec fn wf_env(env: TickEnv) -> bool {
    &&& 0 <= env.now <= EPOCH_BOUND
    &&& (env.sun is Some ==> sun_times_bounded(env.sun->0))
    &&& (env.sun_tomorrow is Some ==> sun_times_bounded(env.sun_tomorrow->0))
}

/// An override record the reactor will act on: its issue instant is a
/// genuine timestamp. Anything else reads as a corrupt file.
pub open spec fn spec_override_usable(o: OverrideState) -> bool {
    0 < o.issued_at <= EPOCH_BOUND
}

/// The dark-mode bit: valid weather with heavy cloud cover.
pub open spec fn spec_is_dark(w: Option<WeatherData>) -> bool {
    match w {
        Option::Some(wd) => !wd.has_error && wd.cloud_cover >= CLOUD_THRESHOLD,
        Option::None => false,
    }
}

/// Solar target temperature at `now` given sunrise/sunset and the
/// dark-mode bit; without sun times both window offsets read zero.
pub open spec fn spec_solar_at(now: int, sun: Option<SunTimes>, dark: bool) -> int {
    match sun {
        Option::Some(st) => spec_solar_temp(now - st.sunrise, st.sunset - now, dark),
        Option::None => spec_solar_temp(0, 0, dark),
    }
}

/// Compute the solar temperature for the current weather.
pub fn solar_temperature(now: i64, sun: Option<SunTimes>, weather: &Option<WeatherData>) -> (r: i32)
    requires
        0 <= now <= EPOCH_BOUND,
        sun is Some ==> sun_times_bounded(sun->0),
    ensures
        r == spec_solar_at(now as int, sun, spec_is_dark(*weather)),
{
    let is_dark = match weather {
        Option::Some(wd) => !wd.has_error && wd.cloud_cover >= CLOUD_THRESHOLD,
        Option::None => false,
    };
    match sun {
        Option::Some(st) => calculate_solar_temp(now - st.sunrise, st.sunset - now, is_dark),
        Option::None => calculate_solar_temp(0, 0, is_dark),
    }
}

/// The override stage of a tick (see `tick`): adopt a new or changed
/// active record, or leave manual mode when an inactive record
/// arrives. Returns the updated state and the file actions.
pub open spec fn spec_tick_override(
    s: ReactorState,
    override_changed: bool,
    env: TickEnv,
) -> (ReactorState, Option<OverrideState>, bool) {
    if override_changed {
        match env.override_file {
            Option::Some(o) => {
                if o.active {
                    if spec_override_usable(o) && (!s.manual_mode || o.issued_at
                        != s.manual_issued_at) {
                        let start_temp = if s.last_temp_valid {
                            s.last_temp
                        } else {
                            o.target_temp
                        };
                        let s2 = ReactorState {
                            manual_mode: true,
                            manual_target_temp: o.target_temp,
                            manual_duration_min: o.duration_minutes,
                            manual_start_time: o.issued_at,
                            manual_issued_at: o.issued_at,
                            manual_start_temp: start_temp,
                            manual_resume_time: spec_next_transition_resume(
                                env.now as int,
                                env.sun,
                                env.sun_tomorrow,
                            ) as i64,
                            ..s
                        };
                        let save = if o.start_temp == 0 {
                            Option::Some(OverrideState { start_temp, ..o })
                        } else {
                            Option::None
                        };
                        (s2, save, false)
                    } else {
                        (s, Option::None, false)
                    }
                } else if s.manual_mode {
                    (
                        ReactorState { manual_mode: false, manual_issued_at: 0, ..s },
                        Option::None,
                        true,
                    )
                } else {
                    (s, Option::None, false)
                }
            },
            Option::None => (s, Option::None, false),
        }
    } else {
        (s, Option::None, false)
    }
}

/// The configuration stage of a tick: take over a reparsed location
/// and reload the weather cache.
pub open spec fn spec_tick_config(s: ReactorState, config_changed: bool, env: TickEnv) -> ReactorState {
    if config_changed {
        let s2 = match env.new_location {
            Option::Some(loc) => ReactorState { location: loc, ..s },
            Option::None => s,
        };
        ReactorState { weather: env.new_weather, ..s2 }
    } else {
        s
    }
}

/// The temperature stage of a tick: the manual curve while manual
/// mode lasts, with auto-resume to solar control once the transition
/// is over and the resume instant has passed; otherwise the solar
/// curve.
pub open spec fn spec_tick_temp(s: ReactorState, env: TickEnv) -> (ReactorState, int, bool) {
    if s.manual_mode {
        let temp = spec_manual_temp(
            s.manual_start_temp as int,
            s.manual_target_temp as int,
            s.manual_start_time as int,
            s.manual_duration_min as int,
            env.now as int,
        );
        if env.now - s.manual_start_time >= 60 * (s.manual_duration_min as int)
            && s.manual_resume_time > 0 && env.now >= s.manual_resume_time {
            let s2 = ReactorState { manual_mode: false, manual_issued_at: 0, ..s };
            (s2, spec_solar_at(env.now as int, env.sun, spec_is_dark(s.weather)), true)
        } else {
            (s, temp, false)
        }
    } else {
        (s, spec_solar_at(env.now as int, env.sun, spec_is_dark(s.weather)), false)
    }
}

/// Manual progress in percent, clamped at 100.
pub open spec fn spec_progress_pct(s: ReactorState, now: int) -> int {
    if s.manual_mode && s.manual_duration_min > 0 && now < s.manual_start_time + 60 * (
    s.manual_duration_min as int) {
        let elapsed = if now <= s.manual_start_time {
            0
        } else {
            now - s.manual_start_time
        };
        elapsed * 100 / (60 * (s.manual_duration_min as int))
    } else {
        100
    }
}

/// One whole tick over the state (see `tick`).
pub open spec fn spec_tick(
    s: ReactorState,
    override_changed: bool,
    config_changed: bool,
    env: TickEnv,
) -> (ReactorState, TickPlan) {
    let (s1, save, clear1) = spec_tick_override(s, override_changed, env);
    let s2 = spec_tick_config(s1, config_changed, env);
    let (s3, target, clear2) = spec_tick_temp(s2, env);
    let apply = if !s3.last_temp_valid || target != s3.last_temp as int {
        Option::Some(target as i32)
    } else {
        Option::None
    };
    (
        s3,
        TickPlan {
            save_override: save,
            clear_override: clear1 || clear2,
            apply_temp: apply,
            manual: s3.manual_mode,
            progress_pct: spec_progress_pct(s3, env.now as int) as i32,
        },
    )
}

/// One reactor tick.
///
/// When the override file changed, an active record is adopted (new
/// manual transition, with the start temperature back-patched into
/// the file if the record left it zero) and an inactive record ends
/// manual mode and deletes the file. When the configuration changed,
/// the location and weather cache reloads are taken over. The target
/// temperature follows the manual curve in manual mode (resuming
/// solar control once the transition is over and the resume instant
/// passed, deleting the override file) and the solar curve otherwise.
/// The plan carries the backend call exactly when the target differs
/// from the last applied value or none was applied yet.
pub fn tick(
    state: &mut ReactorState,
    override_changed: bool,
    config_changed: bool,
    env: TickEnv,
) -> (plan: TickPlan)
    requires
        wf_state(*old(state)),
        wf_env(env),
    ensures
        *final(state) == spec_tick(*old(state), override_changed, config_changed, env).0,
        plan == spec_tick(*old(state), override_changed, config_changed, env).1,
        wf_state(*final(state)),
{
    let mut save_override: Option<OverrideState> = Option::None;
    let mut clear_override: bool = false;

    // override stage
    if override_changed {
        match env.override_file {
            Option::Some(o) => {
                if o.active {
                    let usable = 0 < o.issued_at && o.issued_at <= EPOCH_BOUND;
                    if usable && (!state.manual_mode || o.issued_at != state.manual_issued_at) {
                        state.manual_mode = true;
                        state.manual_target_temp = o.target_temp;
                        state.manual_duration_min = o.duration_minutes;
                        state.manual_start_time = o.issued_at;
                        state.manual_issued_at = o.issued_at;
                        state.manual_start_temp = if state.last_temp_valid {
                            state.last_temp
                        } else {
                            o.target_temp
                        };
                        state.manual_resume_time = next_transition_resume(
                            env.now,
                            env.sun,
                            env.sun_tomorrow,
                        );
                        if o.start_temp == 0 {
                            save_override = Option::Some(
                                OverrideState { start_temp: state.manual_start_temp, ..o },
                            );
                        }
                    }
                } else if state.manual_mode {
                    state.manual_mode = false;
                    state.manual_issued_at = 0;
                    clear_override = true;
                }
            },
            Option::None => {},
        }
    }

    // configuration stage
    if config_changed {
        match env.new_location {
            Option::Some(loc) => {
                state.location = loc;
            },
            Option::None => {},
        }
        state.weather = env.new_weather;
    }

    // temperature stage
    let target: i32 = if state.manual_mode {
        let temp = calculate_manual_temp(
            state.manual_start_temp,
            state.manual_target_temp,
            state.manual_start_time,
            state.manual_duration_min,
            env.now,
        );
        if env.now - state.manual_start_time >= 60 * (state.manual_duration_min as i64)
            && state.manual_resume_time > 0 && env.now >= state.manual_resume_time {
            state.manual_mode = false;
            state.manual_issued_at = 0;
            clear_override = true;
            solar_temperature(env.now, env.sun, &state.weather)
        } else {
            temp
        }
    } else {
        solar_temperature(env.now, env.sun, &state.weather)
    };

    let apply_temp: Option<i32> = if !state.last_temp_valid || target != state.last_temp {
        Option::Some(target)
    } else {
        Option::None
    };

    let pct: i32 = progress_pct(state, env.now);

    TickPlan {
        save_override,
        clear_override,
        apply_temp,
        manual: state.manual_mode,
        progress_pct: pct,
    }
}

/// Manual progress in percent at `now`, 100 once done.
fn progress_pct(state: &ReactorState, now: i64) -> (r: i32)
    requires
        wf_state(*state),
        0 <= now <= EPOCH_BOUND,
    ensures
        r == spec_progress_pct(*state, now as int),
{
    if state.manual_mode && state.manual_duration_min > 0 {
        let dur_sec: i64 = 60 * (state.manual_duration_min as i64);
        if now < state.manual_start_time + dur_sec {
            let elapsed: i64 = if now <= state.manual_start_time {
                0
            } else {
                now - state.manual_start_time
            };
            proof {
                assert(elapsed * 100 < dur_sec * 100) by (nonlinear_arith)
                    requires
                        0 <= elapsed < dur_sec,
                ;
                vstd::arithmetic::div_mod::lemma_div_pos_is_pos(elapsed * 100, dur_sec as int);
                assert((elapsed as int) * 100 / (dur_sec as int) <= (dur_sec as int) * 100 / (
                dur_sec as int)) by {
                    vstd::arithmetic::div_mod::lemma_div_is_ordered(
                        elapsed * 100,
                        dur_sec * 100,
                        dur_sec as int,
                    );
                }
                vstd::arithmetic::div_mod::lemma_div_multiples_vanish(100, dur_sec as int);
                vstd::arithmetic::mul::lemma_mul_is_commutative(100, dur_sec as int);
            }
            (elapsed * 100 / dur_sec) as i32
        } else {
            100
        }
    } else {
        100
    }
}

/// Record a successful backend call: the last applied temperature.
pub fn note_applied(state: &mut ReactorState, temp: i32)
    ensures
        *final(state) == (ReactorState { last_temp: temp, last_temp_valid: true, ..*old(state) }),
{
    state.last_temp = temp;
    state.last_temp_valid = true;
}

/// The state after `note_applied(temp)`.
pub open spec fn spec_applied(s: ReactorState, temp: i32) -> ReactorState {
    ReactorState { last_temp: temp, last_temp_valid: true, ..s }
}

/// Reactor idempotence: once a tick's plan has been carried out
/// (the applied temperature recorded when the plan asked for one), a
/// second tick under the same clock and environment with no event
/// flags changes nothing: no file write, no file deletion, no backend
/// call, and the state — `last_temp` included — stays as it was.
pub proof fn lemma_tick_idempotent(s: ReactorState, env: TickEnv)
    requires
        wf_state(s),
        wf_env(env),
    ensures
        ({
            let (s1, plan1) = spec_tick(s, false, false, env);
            let s1p = match plan1.apply_temp {
                Option::Some(t) => spec_applied(s1, t),
                Option::None => s1,
            };
            let (s2, plan2) = spec_tick(s1p, false, false, env);
            s2 == s1p && plan2.save_override is None && !plan2.clear_override
                && plan2.apply_temp is None
        }),
{
    let (s1, plan1) = spec_tick(s, false, false, env);
    let s1p = match plan1.apply_temp {
        Option::Some(t) => spec_applied(s1, t),
        Option::None => s1,
    };
    let (s2, plan2) = spec_tick(s1p, false, false, env);
    assert(s2 == s1p);
    let (s3a, target1, c1) = spec_tick_temp(s, env);
    let (s3b, target2, c2) = spec_tick_temp(s1p, env);
    assert(target2 == target1);
    lemma_target_fits_i32(s, env);
    assert(s1p.last_temp_valid && s1p.last_temp as int == target2);
    assert(plan2.apply_temp is None);
}

/// The target a tick computes fits an `i32`: the curves stay between
/// their endpoint temperatures.
proof fn lemma_target_fits_i32(s: ReactorState, env: TickEnv)
    ensures
        i32::MIN <= spec_tick_temp(s, env).1 <= i32::MAX,
{
    if s.manual_mode {
        crate::sigmoid::lemma_manual_temp_range(
            s.manual_start_temp as int,
            s.manual_target_temp as int,
            s.manual_start_time as int,
            s.manual_duration_min as int,
            env.now as int,
        );
    }
    match env.sun {
        Option::Some(st) => {
            crate::sigmoid::lemma_solar_temp_range(
                env.now - st.sunrise,
                st.sunset - env.now,
                spec_is_dark(s.weather),
            );
        },
        Option::None => {
            crate::sigmoid::lemma_solar_temp_range(0, 0, spec_is_dark(s.weather));
        },
    }
}

/// The recovery decision at startup (see `recover_override`).
pub open spec fn spec_recover_override(
    s: ReactorState,
    file: Option<OverrideState>,
    env: TickEnv,
) -> (ReactorState, bool, Option<OverrideState>) {
    match file {
        Option::None => (s, false, Option::None),
        Option::Some(o) => {
            if !o.active {
                (s, false, Option::None)
            } else if !spec_override_usable(o) || env.now - o.issued_at >= 60 * (
            o.duration_minutes as int) {
                (s, true, Option::None)
            } else {
                let start_temp = if o.start_temp != 0 {
                    o.start_temp
                } else {
                    spec_solar_at(env.now as int, env.sun, spec_is_dark(s.weather)) as i32
                };
                let save = if o.start_temp == 0 {
                    Option::Some(OverrideState { start_temp, ..o })
                } else {
                    Option::None
                };
                let s2 = ReactorState {
                    manual_mode: true,
                    manual_target_temp: o.target_temp,
                    manual_duration_min: o.duration_minutes,
                    manual_issued_at: o.issued_at,
                    manual_start_time: o.issued_at,
                    manual_start_temp: start_temp,
                    manual_resume_time: spec_next_transition_resume(
                        env.now as int,
                        env.sun,
                        env.sun_tomorrow,
                    ) as i64,
                    ..s
                };
                (s2, false, save)
            }
        },
    }
}

/// Recover a manual override that was in progress before a restart.
///
/// An absent or inactive record changes nothing. An active record
/// whose transition already completed — or whose issue instant is
/// outside the clock range — is stale and is deleted. A still-running
/// record is adopted: manual mode resumes from its fields, and a
/// record that never learned its start temperature is back-patched
/// with the current solar temperature so later restarts keep the
/// visual start point.
pub fn recover_override(
    state: &mut ReactorState,
    file: Option<OverrideState>,
    env: TickEnv,
) -> (r: (bool, Option<OverrideState>))
    requires
        wf_state(*old(state)),
        wf_env(env),
    ensures
        *final(state) == spec_recover_override(*old(state), file, env).0,
        r.0 == spec_recover_override(*old(state), file, env).1,
        r.1 == spec_recover_override(*old(state), file, env).2,
        wf_state(*final(state)),
{
    let o = match file {
        Option::Some(o) => o,
        Option::None => {
            return (false, Option::None);
        },
    };
    if !o.active {
        return (false, Option::None);
    }
    if !(0 < o.issued_at && o.issued_at <= EPOCH_BOUND) {
        return (true, Option::None);
    }
    if env.now - o.issued_at >= 60 * (o.duration_minutes as i64) {
        return (true, Option::None);
    }

    let start_temp: i32 = if o.start_temp != 0 {
        o.start_temp
    } else {
        solar_temperature(env.now, env.sun, &state.weather)
    };
    let save: Option<OverrideState> = if o.start_temp == 0 {
        Option::Some(OverrideState { start_temp, ..o })
    } else {
        Option::None
    };

    state.manual_mode = true;
    state.manual_target_temp = o.target_temp;
    state.manual_duration_min = o.duration_minutes;
    state.manual_issued_at = o.issued_at;
    state.manual_start_time = o.issued_at;
    state.manual_start_temp = start_temp;
    state.manual_resume_time = next_transition_resume(env.now, env.sun, env.sun_tomorrow);

    (false, save)
}

} // verus!
