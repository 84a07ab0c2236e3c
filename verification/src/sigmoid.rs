//! Normalized sigmoid transitions between color temperatures.
//!
//! Dusk is canonical: day to night over the dusk window, centered a
//! fixed offset before sunset. Dawn is its inverse over the dawn
//! window, centered on sunrise. Manual overrides run the same curve
//! from a start temperature to a target over a duration.
//!
//! The logistic is computed in Q16 fixed point via `crate::fixed` and
//! renormalized so the endpoints of [-1, 1] map exactly to 0 and 1.

use vstd::prelude::*;
use vstd::arithmetic::div_mod::{lemma_div_is_ordered, lemma_div_multiples_vanish, lemma_div_pos_is_pos};
use vstd::arithmetic::mul::lemma_mul_is_commutative;
use crate::fixed::{lemma_mul_div_le, spec_tanh_q16, tanh_q16, UNIT_Q16};
use crate::solar::{sun_times_bounded, SunTimes, EPOCH_BOUND};
use crate::{TEMP_DAY_CLEAR, TEMP_DAY_DARK, TEMP_NIGHT};

verus! {

/// Dawn window length, minutes (night to day, centered on sunrise).
pub const DAWN_DURATION_MIN: i64 = 90;

/// Dusk window length, minutes (day to night).
pub const DUSK_DURATION_MIN: i64 = 120;

/// The dusk window midpoint precedes sunset by this many minutes.
pub const DUSK_OFFSET_MIN: i64 = 30;

/// Steepness of the transition logistic, in Q16 (6.0).
pub const SIGMOID_STEEPNESS_Q16: i64 = 393216;

/// Largest steepness the fixed-point evaluation accepts.
pub const STEEPNESS_MAX_Q16: i64 = 0x40000000;

/// Half the dawn window, in seconds.
pub const DAWN_HALF_SEC: i64 = 30 * DAWN_DURATION_MIN;

/// Half the dusk window, in seconds.
pub const DUSK_HALF_SEC: i64 = 30 * DUSK_DURATION_MIN;

/// Seconds between the dusk window midpoint and sunset.
pub const DUSK_OFFSET_SEC: i64 = 60 * DUSK_OFFSET_MIN;

/// One day in seconds, the polar fallback horizon.
pub const SECONDS_PER_DAY: i64 = 86400;

/// Seconds of lead before a window start at which solar control
/// resumes after a completed override.
pub const RESUME_LEAD_SEC: i64 = 15 * 60;

/// Q16 tanh of the logistic argument `k * ax / 2` for a magnitude
/// `ax` in [0, 1].
pub open spec fn spec_tanh_at(k: int, ax: int) -> int {
    spec_tanh_q16(k * ax / (2 * UNIT_Q16 as int))
}

/// The normalized logistic in Q16: 0 at -1, 1 at +1, 1/2 at 0,
/// clamped into [0, 1]. A steepness too small to register in Q16
/// degenerates to a step at +1.
pub open spec fn spec_sigmoid_norm(x: int, k: int) -> int {
    let t1 = spec_tanh_at(k, UNIT_Q16 as int);
    if t1 == 0 {
        if x == UNIT_Q16 as int {
            UNIT_Q16 as int
        } else {
            0
        }
    } else {
        let ax = if x < 0 {
            -x
        } else {
            x
        };
        let ta = spec_tanh_at(k, ax);
        let t = if x < 0 {
            -ta
        } else {
            ta
        };
        let tsum = t + t1;
        if tsum <= 0 {
            0
        } else {
            let r = tsum * (UNIT_Q16 as int) / (2 * t1);
            if r > UNIT_Q16 as int {
                UNIT_Q16 as int
            } else {
                r
            }
        }
    }
}

/// Normalized sigmoid over `x` in [-1, 1] (Q16), renormalized so the
/// interval endpoints map exactly to 0 and 1.
pub fn sigmoid_norm(x: i64, k: i64) -> (r: i64)
    requires
        -UNIT_Q16 <= x <= UNIT_Q16,
        1 <= k <= STEEPNESS_MAX_Q16,
    ensures
        r == spec_sigmoid_norm(x as int, k as int),
        0 <= r <= UNIT_Q16,
        x == -UNIT_Q16 ==> r == 0,
        x == UNIT_Q16 ==> r == UNIT_Q16,
        x == 0 && spec_tanh_at(k as int, UNIT_Q16 as int) != 0 ==> r == UNIT_Q16 / 2,
{
    let t1 = tanh_q16(k * UNIT_Q16 / (2 * UNIT_Q16));
    if t1 == 0 {
        if x == UNIT_Q16 {
            UNIT_Q16
        } else {
            0
        }
    } else {
        let ax: i64 = if x < 0 {
            -x
        } else {
            x
        };
        proof {
            lemma_mul_div_le(k as int, ax as int, 2 * UNIT_Q16 as int);
        }
        let ta = tanh_q16(k * ax / (2 * UNIT_Q16));
        let t: i64 = if x < 0 {
            -ta
        } else {
            ta
        };
        let tsum: i64 = t + t1;
        if tsum <= 0 {
            0
        } else {
            let r0: i64 = tsum * UNIT_Q16 / (2 * t1);
            proof {
                lemma_div_pos_is_pos(tsum * UNIT_Q16 as int, 2 * t1 as int);
                if x == UNIT_Q16 {
                    assert(tsum == 2 * t1);
                    lemma_div_multiples_vanish(UNIT_Q16 as int, 2 * t1 as int);
                    lemma_mul_is_commutative(UNIT_Q16 as int, 2 * t1 as int);
                }
                if x == 0 {
                    assert(tsum == t1);
                    lemma_div_multiples_vanish((UNIT_Q16 as int) / 2, 2 * t1 as int);
                    lemma_mul_is_commutative((UNIT_Q16 as int) / 2, 2 * t1 as int);
                    assert(tsum * UNIT_Q16 as int == ((UNIT_Q16 as int) / 2) * (2 * t1 as int));
                }
            }
            if r0 > UNIT_Q16 {
                UNIT_Q16
            } else {
                r0
            }
        }
    }
}

/// Daytime target for the given cloud state.
pub open spec fn spec_day_temp(is_dark_mode: bool) -> int {
    if is_dark_mode {
        TEMP_DAY_DARK as int
    } else {
        TEMP_DAY_CLEAR as int
    }
}

/// `lo + (hi - lo) * factor`, with `factor` a Q16 fraction.
pub open spec fn spec_interp_up(lo: int, hi: int, factor: int) -> int {
    lo + (hi - lo) * factor / (UNIT_Q16 as int)
}

/// Q16 window coordinate of `sec` within a half-width of `half`:
/// -1 at the window start, +1 at its end.
pub open spec fn spec_window_x(sec: int, half: int) -> int {
    if sec < 0 {
        -((-sec) * (UNIT_Q16 as int) / half)
    } else {
        sec * (UNIT_Q16 as int) / half
    }
}

/// The solar temperature curve over seconds from sunrise and seconds
/// to sunset (see `calculate_solar_temp`).
pub open spec fn spec_solar_temp(sec_from_sunrise: int, sec_to_sunset: int, is_dark_mode: bool) -> int {
    let day = spec_day_temp(is_dark_mode);
    let night = TEMP_NIGHT as int;
    let dusk_shifted = sec_to_sunset - DUSK_OFFSET_SEC as int;
    if -(DAWN_HALF_SEC as int) <= sec_from_sunrise <= DAWN_HALF_SEC as int {
        let f = spec_sigmoid_norm(
            spec_window_x(sec_from_sunrise, DAWN_HALF_SEC as int),
            SIGMOID_STEEPNESS_Q16 as int,
        );
        spec_interp_up(night, day, f)
    } else if -(DUSK_HALF_SEC as int) <= dusk_shifted <= DUSK_HALF_SEC as int {
        let f = spec_sigmoid_norm(
            spec_window_x(dusk_shifted, DUSK_HALF_SEC as int),
            SIGMOID_STEEPNESS_Q16 as int,
        );
        spec_interp_up(night, day, f)
    } else if sec_from_sunrise > DAWN_HALF_SEC as int && dusk_shifted > DUSK_HALF_SEC as int {
        day
    } else {
        night
    }
}

/// Window coordinate in Q16 for the in-window seconds `sec`.
fn window_x(sec: i64, half: i64) -> (x: i64)
    requires
        0 < half <= 4000,
        -half <= sec <= half,
    ensures
        x == spec_window_x(sec as int, half as int),
        -UNIT_Q16 <= x <= UNIT_Q16,
        sec == -half ==> x == -UNIT_Q16,
        sec == half ==> x == UNIT_Q16,
        sec == 0 ==> x == 0,
{
    proof {
        lemma_mul_div_le(UNIT_Q16 as int, if sec < 0 { -sec } else { sec as int }, half as int);
        lemma_mul_is_commutative(UNIT_Q16 as int, if sec < 0 { -sec } else { sec as int });
        if sec == -half || sec == half {
            lemma_div_multiples_vanish(UNIT_Q16 as int, half as int);
            lemma_mul_is_commutative(UNIT_Q16 as int, half as int);
        }
    }
    if sec < 0 {
        -((-sec) * UNIT_Q16 / half)
    } else {
        sec * UNIT_Q16 / half
    }
}

/// Interpolate from `night` up to `day` by a Q16 factor.
fn interp_up(lo: i32, hi: i32, factor: i64) -> (r: i32)
    requires
        -30000 <= lo <= hi <= 30000,
        0 <= factor <= UNIT_Q16,
    ensures
        r == spec_interp_up(lo as int, hi as int, factor as int),
        lo <= r <= hi,
        factor == 0 ==> r == lo,
        factor == UNIT_Q16 ==> r == hi,
{
    let diff: i64 = hi as i64 - lo as i64;
    proof {
        lemma_mul_div_le(diff as int, factor as int, UNIT_Q16 as int);
        if factor == UNIT_Q16 {
            lemma_div_multiples_vanish(diff as int, UNIT_Q16 as int);
        }
    }
    let add: i64 = diff * factor / UNIT_Q16;
    (lo as i64 + add) as i32
}

/// Solar temperature from the sun's position in the day.
///
/// Inside the dawn window the curve rises from night to day along the
/// normalized sigmoid; inside the dusk window (shifted
/// `DUSK_OFFSET_SEC` before sunset) it falls back; between the
/// windows it holds the day temperature, otherwise night. The window
/// boundaries are continuous: the sigmoid is exactly 0 and 1 at the
/// window edges, so both adjoining branches agree there.
pub fn calculate_solar_temp(sec_from_sunrise: i64, sec_to_sunset: i64, is_dark_mode: bool) -> (r: i32)
    requires
        -4 * EPOCH_BOUND <= sec_from_sunrise <= 4 * EPOCH_BOUND,
        -4 * EPOCH_BOUND <= sec_to_sunset <= 4 * EPOCH_BOUND,
    ensures
        r == spec_solar_temp(sec_from_sunrise as int, sec_to_sunset as int, is_dark_mode),
        TEMP_NIGHT <= r <= spec_day_temp(is_dark_mode),
        sec_from_sunrise == -DAWN_HALF_SEC ==> r == TEMP_NIGHT,
        sec_from_sunrise == DAWN_HALF_SEC ==> r == spec_day_temp(is_dark_mode),
        (sec_from_sunrise < -DAWN_HALF_SEC || sec_from_sunrise > DAWN_HALF_SEC)
            && sec_to_sunset == DUSK_OFFSET_SEC + DUSK_HALF_SEC ==> r == spec_day_temp(is_dark_mode),
        (sec_from_sunrise < -DAWN_HALF_SEC || sec_from_sunrise > DAWN_HALF_SEC)
            && sec_to_sunset == DUSK_OFFSET_SEC - DUSK_HALF_SEC ==> r == TEMP_NIGHT,
{
    let day: i32 = if is_dark_mode {
        TEMP_DAY_DARK
    } else {
        TEMP_DAY_CLEAR
    };
    let night: i32 = TEMP_NIGHT;
    let dusk_shifted: i64 = sec_to_sunset - DUSK_OFFSET_SEC;

    if -DAWN_HALF_SEC <= sec_from_sunrise && sec_from_sunrise <= DAWN_HALF_SEC {
        let x = window_x(sec_from_sunrise, DAWN_HALF_SEC);
        let f = sigmoid_norm(x, SIGMOID_STEEPNESS_Q16);
        interp_up(night, day, f)
    } else if -DUSK_HALF_SEC <= dusk_shifted && dusk_shifted <= DUSK_HALF_SEC {
        let x = window_x(dusk_shifted, DUSK_HALF_SEC);
        let f = sigmoid_norm(x, SIGMOID_STEEPNESS_Q16);
        interp_up(night, day, f)
    } else if sec_from_sunrise > DAWN_HALF_SEC && dusk_shifted > DUSK_HALF_SEC {
        day
    } else {
        night
    }
}

/// The manual-override curve (see `calculate_manual_temp`).
pub open spec fn spec_manual_temp(
    start_temp: int,
    target_temp: int,
    start_time: int,
    duration_min: int,
    now: int,
) -> int {
    if duration_min <= 0 {
        target_temp
    } else {
        let elapsed = if now <= start_time {
            0
        } else {
            now - start_time
        };
        let dur_sec = 60 * duration_min;
        if elapsed >= dur_sec {
            target_temp
        } else {
            let x = 2 * elapsed * (UNIT_Q16 as int) / dur_sec - UNIT_Q16 as int;
            let f = spec_sigmoid_norm(x, SIGMOID_STEEPNESS_Q16 as int);
            if target_temp >= start_temp {
                start_temp + (target_temp - start_temp) * f / (UNIT_Q16 as int)
            } else {
                start_temp - (start_temp - target_temp) * f / (UNIT_Q16 as int)
            }
        }
    }
}

/// Manual-override temperature at `now`.
///
/// A non-positive duration or an elapsed time at or past the duration
/// gives the target; at the start instant the curve gives the start
/// temperature; in between it follows the normalized sigmoid mapped
/// over [0, duration]. A clock before `start_time` reads as elapsed 0.
pub fn calculate_manual_temp(
    start_temp: i32,
    target_temp: i32,
    start_time: i64,
    duration_min: i32,
    now: i64,
) -> (r: i32)
    requires
        -EPOCH_BOUND <= start_time <= EPOCH_BOUND,
        -EPOCH_BOUND <= now <= EPOCH_BOUND,
    ensures
        r == spec_manual_temp(
            start_temp as int,
            target_temp as int,
            start_time as int,
            duration_min as int,
            now as int,
        ),
        duration_min <= 0 ==> r == target_temp,
        duration_min > 0 && now - start_time >= 60 * duration_min ==> r == target_temp,
        duration_min > 0 && now == start_time ==> r == start_temp,
        start_temp <= target_temp ==> start_temp <= r <= target_temp,
        target_temp <= start_temp ==> target_temp <= r <= start_temp,
{
    if duration_min <= 0 {
        return target_temp;
    }

    let elapsed: i64 = if now <= start_time {
        0
    } else {
        now - start_time
    };
    let dur_sec: i64 = 60 * (duration_min as i64);

    if elapsed >= dur_sec {
        return target_temp;
    }

    proof {
        let num = 2 * elapsed * UNIT_Q16 as int;
        assert(num <= (2 * UNIT_Q16 as int) * dur_sec) by (nonlinear_arith)
            requires
                num == 2 * elapsed * UNIT_Q16 as int,
                0 <= elapsed <= dur_sec,
        ;
        lemma_div_is_ordered(num, (2 * UNIT_Q16 as int) * dur_sec, dur_sec as int);
        lemma_div_multiples_vanish(2 * UNIT_Q16 as int, dur_sec as int);
        lemma_div_pos_is_pos(num, dur_sec as int);
    }
    let x: i64 = 2 * elapsed * UNIT_Q16 / dur_sec - UNIT_Q16;
    let f: i64 = sigmoid_norm(x, SIGMOID_STEEPNESS_Q16);

    let s64: i64 = start_temp as i64;
    let t64: i64 = target_temp as i64;
    if t64 >= s64 {
        proof {
            lemma_mul_div_le((t64 - s64) as int, f as int, UNIT_Q16 as int);
        }
        (s64 + (t64 - s64) * f / UNIT_Q16) as i32
    } else {
        proof {
            lemma_mul_div_le((s64 - t64) as int, f as int, UNIT_Q16 as int);
        }
        (s64 - (s64 - t64) * f / UNIT_Q16) as i32
    }
}

/// The auto-resume instant (see `next_transition_resume`).
pub open spec fn spec_next_transition_resume(
    now: int,
    today: Option<SunTimes>,
    tomorrow: Option<SunTimes>,
) -> int {
    match today {
        Option::None => now + SECONDS_PER_DAY as int,
        Option::Some(st) => {
            let resume_dawn = st.sunrise - DAWN_HALF_SEC as int - RESUME_LEAD_SEC as int;
            let resume_dusk = st.sunset - DUSK_OFFSET_SEC as int - DUSK_HALF_SEC as int
                - RESUME_LEAD_SEC as int;
            let best1 = if resume_dawn > now {
                resume_dawn
            } else {
                0
            };
            let best = if resume_dusk > now && (best1 == 0 || resume_dusk < best1) {
                resume_dusk
            } else {
                best1
            };
            if best > 0 {
                best
            } else {
                match tomorrow {
                    Option::Some(st2) => st2.sunrise - DAWN_HALF_SEC as int - RESUME_LEAD_SEC as int,
                    Option::None => now + SECONDS_PER_DAY as int,
                }
            }
        },
    }
}

/// Earliest future instant `RESUME_LEAD_SEC` before the next dawn or
/// dusk window start; if both of today's windows have passed, the lead
/// before tomorrow's dawn window. Without sunrise/sunset (polar
/// regions) the fallback is one day ahead.
pub fn next_transition_resume(now: i64, today: Option<SunTimes>, tomorrow: Option<SunTimes>) -> (r: i64)
    requires
        -EPOCH_BOUND <= now <= EPOCH_BOUND,
        today is Some ==> sun_times_bounded(today->0),
        tomorrow is Some ==> sun_times_bounded(tomorrow->0),
    ensures
        r == spec_next_transition_resume(now as int, today, tomorrow),
        today is None ==> r == now + SECONDS_PER_DAY,
{
    let st = match today {
        Option::Some(st) => st,
        Option::None => {
            return now + SECONDS_PER_DAY;
        },
    };

    let resume_dawn: i64 = st.sunrise - DAWN_HALF_SEC - RESUME_LEAD_SEC;
    let resume_dusk: i64 = st.sunset - DUSK_OFFSET_SEC - DUSK_HALF_SEC - RESUME_LEAD_SEC;

    let mut best: i64 = 0;
    if resume_dawn > now {
        best = resume_dawn;
    }
    if resume_dusk > now && (best == 0 || resume_dusk < best) {
        best = resume_dusk;
    }

    if best > 0 {
        return best;
    }

    match tomorrow {
        Option::Some(st2) => st2.sunrise - DAWN_HALF_SEC - RESUME_LEAD_SEC,
        Option::None => now + SECONDS_PER_DAY,
    }
}

/// Spec-level range of the normalized sigmoid: always within [0, 1].
pub proof fn lemma_sigmoid_norm_range(x: int, k: int)
    requires
        k >= 1,
    ensures
        0 <= spec_sigmoid_norm(x, k) <= UNIT_Q16 as int,
{
    let arg1 = k * (UNIT_Q16 as int) / (2 * UNIT_Q16 as int);
    assert(arg1 >= 0) by {
        lemma_div_pos_is_pos(k * (UNIT_Q16 as int), 2 * UNIT_Q16 as int);
        vstd::arithmetic::mul::lemma_mul_nonnegative(k, UNIT_Q16 as int);
    }
    crate::fixed::lemma_tanh_q16_range(arg1);
    let t1 = spec_tanh_at(k, UNIT_Q16 as int);
    if t1 != 0 {
        let ax = if x < 0 {
            -x
        } else {
            x
        };
        let argx = k * ax / (2 * UNIT_Q16 as int);
        assert(argx >= 0) by {
            lemma_div_pos_is_pos(k * ax, 2 * UNIT_Q16 as int);
            vstd::arithmetic::mul::lemma_mul_nonnegative(k, ax);
        }
        crate::fixed::lemma_tanh_q16_range(argx);
        let ta = spec_tanh_at(k, ax);
        let t = if x < 0 {
            -ta
        } else {
            ta
        };
        let tsum = t + t1;
        if tsum > 0 {
            lemma_div_pos_is_pos(tsum * (UNIT_Q16 as int), 2 * t1);
        }
    }
}

/// Spec-level range of the solar curve: between the night and day
/// targets.
pub proof fn lemma_solar_temp_range(sec_from_sunrise: int, sec_to_sunset: int, dark: bool)
    ensures
        TEMP_NIGHT as int <= spec_solar_temp(sec_from_sunrise, sec_to_sunset, dark)
            <= spec_day_temp(dark),
{
    let day = spec_day_temp(dark);
    let night = TEMP_NIGHT as int;
    let f1 = spec_sigmoid_norm(
        spec_window_x(sec_from_sunrise, DAWN_HALF_SEC as int),
        SIGMOID_STEEPNESS_Q16 as int,
    );
    let f2 = spec_sigmoid_norm(
        spec_window_x(sec_to_sunset - DUSK_OFFSET_SEC as int, DUSK_HALF_SEC as int),
        SIGMOID_STEEPNESS_Q16 as int,
    );
    lemma_sigmoid_norm_range(
        spec_window_x(sec_from_sunrise, DAWN_HALF_SEC as int),
        SIGMOID_STEEPNESS_Q16 as int,
    );
    lemma_sigmoid_norm_range(
        spec_window_x(sec_to_sunset - DUSK_OFFSET_SEC as int, DUSK_HALF_SEC as int),
        SIGMOID_STEEPNESS_Q16 as int,
    );
    lemma_mul_div_le(day - night, f1, UNIT_Q16 as int);
    lemma_mul_div_le(day - night, f2, UNIT_Q16 as int);
}

/// Spec-level range of the manual curve: between the start and
/// target temperatures.
pub proof fn lemma_manual_temp_range(s: int, t: int, t0: int, d: int, now: int)
    ensures
        s <= t ==> s <= spec_manual_temp(s, t, t0, d, now) <= t,
        t <= s ==> t <= spec_manual_temp(s, t, t0, d, now) <= s,
{
    if d > 0 {
        let elapsed = if now <= t0 {
            0
        } else {
            now - t0
        };
        if elapsed < 60 * d {
            let x = 2 * elapsed * (UNIT_Q16 as int) / (60 * d) - UNIT_Q16 as int;
            lemma_sigmoid_norm_range(x, SIGMOID_STEEPNESS_Q16 as int);
            let f = spec_sigmoid_norm(x, SIGMOID_STEEPNESS_Q16 as int);
            if t >= s {
                lemma_mul_div_le(t - s, f, UNIT_Q16 as int);
            } else {
                lemma_mul_div_le(s - t, f, UNIT_Q16 as int);
            }
        }
    }
}

} // verus!
