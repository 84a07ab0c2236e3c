//! The configuration file: a minimal INI with a `[location]`
//! section holding `latitude` and `longitude` in decimal degrees
//! with six fractional digits.
//!
//! The parser walks the file line by line, skipping blank lines and
//! `#` or `;` comments, tracking the current section, and taking the
//! last `latitude` and `longitude` assignments inside `[location]`;
//! a value that is not a plain decimal with at most six fractional
//! digits reads as unset, as does a missing key. Degrees are carried
//! as millionths.

use vstd::prelude::*;
use crate::codec::{is_digit, parse_u64, pow10, spec_dec, spec_parse_u64, push_dec_u64};
use crate::config::Location;

verus! {

/// In-line whitespace (space, tab, carriage return).
pub open spec fn is_ws(b: u8) -> bool {
    b == 0x20 || b == 0x09 || b == 0x0D
}

/// End of the line starting at `i`: the next newline or the end.
pub open spec fn spec_line_end(s: Seq<u8>, i: int) -> int
    decreases s.len() - i,
{
    if 0 <= i < s.len() && s[i] != 0x0A {
        spec_line_end(s, i + 1)
    } else {
        i
    }
}

proof fn lemma_line_end_bounds(s: Seq<u8>, i: int)
    requires
        0 <= i <= s.len(),
    ensures
        i <= spec_line_end(s, i) <= s.len(),
    decreases s.len() - i,
{
    if i < s.len() && s[i] != 0x0A {
        lemma_line_end_bounds(s, i + 1);
    }
}

proof fn lemma_line_end_at(s: Seq<u8>, i: int, stop: int)
    requires
        0 <= i <= stop <= s.len(),
        forall|q: int| i <= q < stop ==> s[q] != 0x0A,
        stop < s.len() ==> s[stop] == 0x0A,
    ensures
        spec_line_end(s, i) == stop,
    decreases stop - i,
{
    if i < stop {
        lemma_line_end_at(s, i + 1, stop);
    }
}

/// First non-whitespace index in [i, end).
pub open spec fn spec_skip_ws(s: Seq<u8>, i: int, end: int) -> int
    decreases end - i,
{
    if 0 <= i < end && i < s.len() && is_ws(s[i]) {
        spec_skip_ws(s, i + 1, end)
    } else {
        i
    }
}

proof fn lemma_skip_ws_bounds(s: Seq<u8>, i: int, end: int)
    requires
        0 <= i <= end <= s.len(),
    ensures
        i <= spec_skip_ws(s, i, end) <= end,
        spec_skip_ws(s, i, end) < end ==> !is_ws(s[spec_skip_ws(s, i, end)]),
    decreases end - i,
{
    if i < end && is_ws(s[i]) {
        lemma_skip_ws_bounds(s, i + 1, end);
    }
}

/// One past the last non-whitespace index in [i, end).
pub open spec fn spec_trim_end(s: Seq<u8>, i: int, end: int) -> int
    decreases end - i,
{
    if 0 <= i < end && end <= s.len() && is_ws(s[end - 1]) {
        spec_trim_end(s, i, end - 1)
    } else {
        end
    }
}

proof fn lemma_trim_end_bounds(s: Seq<u8>, i: int, end: int)
    requires
        0 <= i <= end <= s.len(),
    ensures
        i <= spec_trim_end(s, i, end) <= end,
        spec_trim_end(s, i, end) > i ==> !is_ws(s[spec_trim_end(s, i, end) - 1]),
    decreases end - i,
{
    if i < end && is_ws(s[end - 1]) {
        lemma_trim_end_bounds(s, i, end - 1);
    }
}

/// First `=` in [i, end), or `end`.
pub open spec fn spec_eq_pos(s: Seq<u8>, i: int, end: int) -> int
    decreases end - i,
{
    if 0 <= i < end && i < s.len() && s[i] != 0x3D {
        spec_eq_pos(s, i + 1, end)
    } else {
        i
    }
}

proof fn lemma_eq_pos_bounds(s: Seq<u8>, i: int, end: int)
    requires
        0 <= i <= end <= s.len(),
    ensures
        i <= spec_eq_pos(s, i, end) <= end,
        spec_eq_pos(s, i, end) < end ==> s[spec_eq_pos(s, i, end)] == 0x3D,
    decreases end - i,
{
    if i < end && s[i] != 0x3D {
        lemma_eq_pos_bounds(s, i + 1, end);
    }
}

/// The range [a, b) of `s` equals `lit`.
pub open spec fn spec_range_is(s: Seq<u8>, a: int, b: int, lit: Seq<u8>) -> bool {
    b - a == lit.len() && crate::codec::spec_bytes_at(s, a, lit)
}

/// A decimal-degree value over [a, b): optional sign, up to nine
/// integer digits, optionally a point and one to six fractional
/// digits; the result in millionths.
pub open spec fn spec_parse_fixed6(s: Seq<u8>, a: int, b: int) -> Option<int> {
    if a >= b {
        Option::None
    } else {
        let neg = s[a] == 0x2D;
        let p = if neg {
            a + 1
        } else {
            a
        };
        match spec_parse_u64(s, p) {
            Option::None => Option::None,
            Option::Some((ip, e1)) => {
                if e1 > b || ip >= 1000000000 {
                    Option::None
                } else if e1 == b {
                    if neg {
                        Option::Some(-ip * 1000000)
                    } else {
                        Option::Some(ip * 1000000)
                    }
                } else if s[e1] == 0x2E {
                    match spec_parse_u64(s, e1 + 1) {
                        Option::None => Option::None,
                        Option::Some((fp, e2)) => {
                            if e2 == b && e2 - (e1 + 1) <= 6 {
                                let micro = ip * 1000000 + fp * pow10((6 - (e2 - e1 - 1)) as nat);
                                if neg {
                                    Option::Some(-micro)
                                } else {
                                    Option::Some(micro)
                                }
                            } else {
                                Option::None
                            }
                        },
                    }
                } else {
                    Option::None
                }
            },
        }
    }
}

/// What one trimmed line does to the parser state
/// `(in_location, lat, lon)`.
pub open spec fn spec_process_line(
    s: Seq<u8>,
    ls: int,
    le: int,
    in_loc: bool,
    lat: Option<int>,
    lon: Option<int>,
) -> (bool, Option<int>, Option<int>) {
    let a = spec_skip_ws(s, ls, le);
    let b = spec_trim_end(s, a, le);
    if a >= b {
        (in_loc, lat, lon)
    } else if s[a] == 0x23 || s[a] == 0x3B {
        (in_loc, lat, lon)
    } else if s[a] == 0x5B {
        (spec_range_is(s, a, b, lit_loc_header()), lat, lon)
    } else {
        let e = spec_eq_pos(s, a, b);
        if e >= b || !in_loc {
            (in_loc, lat, lon)
        } else {
            let ka = a;
            let kb = spec_trim_end(s, ka, e);
            let va = spec_skip_ws(s, e + 1, b);
            let vb = b;
            if spec_range_is(s, ka, kb, lit_key_latitude()) {
                (in_loc, spec_parse_fixed6(s, va, vb), lon)
            } else if spec_range_is(s, ka, kb, lit_key_longitude()) {
                (in_loc, lat, spec_parse_fixed6(s, va, vb))
            } else {
                (in_loc, lat, lon)
            }
        }
    }
}

/// Fold the lines from `i` on into the parser state.
pub open spec fn spec_parse_location_from(
    s: Seq<u8>,
    i: int,
    in_loc: bool,
    lat: Option<int>,
    lon: Option<int>,
) -> (Option<int>, Option<int>)
    decreases s.len() - i,
{
    if 0 <= i < s.len() {
        let le = spec_line_end(s, i);
        let (in2, lat2, lon2) = spec_process_line(s, i, le, in_loc, lat, lon);
        if le < s.len() && le + 1 <= s.len() && i <= le {
            spec_parse_location_from(s, le + 1, in2, lat2, lon2)
        } else {
            (lat2, lon2)
        }
    } else {
        (lat, lon)
    }
}

/// The location a configuration file holds: both coordinates parsed
/// from the `[location]` section, in millionths of a degree.
pub open spec fn spec_parse_location(s: Seq<u8>) -> Option<(int, int)> {
    let (lat, lon) = spec_parse_location_from(s, 0, false, Option::None, Option::None);
    match (lat, lon) {
        (Option::Some(la), Option::Some(lo)) => Option::Some((la, lo)),
        _ => Option::None,
    }
}
/// Spec bytes of `[location]`.
pub open spec fn lit_loc_header() -> Seq<u8> {
    seq![0x5Bu8, 0x6Cu8, 0x6Fu8, 0x63u8, 0x61u8, 0x74u8, 0x69u8, 0x6Fu8, 0x6Eu8, 0x5Du8]
}

/// The bytes of `[location]` as a buffer.
fn vec_loc_header() -> (v: Vec<u8>)
    ensures
        v@ == lit_loc_header(),
{
    let mut v: Vec<u8> = Vec::new();
    v.push(0x5B);
    v.push(0x6C);
    v.push(0x6F);
    v.push(0x63);
    v.push(0x61);
    v.push(0x74);
    v.push(0x69);
    v.push(0x6F);
    v.push(0x6E);
    v.push(0x5D);
    proof {
        assert(v@ =~= lit_loc_header());
    }
    v
}

/// Spec bytes of `latitude`.
pub open spec fn lit_key_latitude() -> Seq<u8> {
    seq![0x6Cu8, 0x61u8, 0x74u8, 0x69u8, 0x74u8, 0x75u8, 0x64u8, 0x65u8]
}

/// The bytes of `latitude` as a buffer.
fn vec_key_latitude() -> (v: Vec<u8>)
    ensures
        v@ == lit_key_latitude(),
{
    let mut v: Vec<u8> = Vec::new();
    v.push(0x6C);
    v.push(0x61);
    v.push(0x74);
    v.push(0x69);
    v.push(0x74);
    v.push(0x75);
    v.push(0x64);
    v.push(0x65);
    proof {
        assert(v@ =~= lit_key_latitude());
    }
    v
}

/// Spec bytes of `longitude`.
pub open spec fn lit_key_longitude() -> Seq<u8> {
    seq![0x6Cu8, 0x6Fu8, 0x6Eu8, 0x67u8, 0x69u8, 0x74u8, 0x75u8, 0x64u8, 0x65u8]
}

/// The bytes of `longitude` as a buffer.
fn vec_key_longitude() -> (v: Vec<u8>)
    ensures
        v@ == lit_key_longitude(),
{
    let mut v: Vec<u8> = Vec::new();
    v.push(0x6C);
    v.push(0x6F);
    v.push(0x6E);
    v.push(0x67);
    v.push(0x69);
    v.push(0x74);
    v.push(0x75);
    v.push(0x64);
    v.push(0x65);
    proof {
        assert(v@ =~= lit_key_longitude());
    }
    v
}

/// Spec bytes of `[location]\nlatitude = `.
pub open spec fn lit_lat_prefix() -> Seq<u8> {
    seq![0x5Bu8, 0x6Cu8, 0x6Fu8, 0x63u8, 0x61u8, 0x74u8, 0x69u8, 0x6Fu8, 0x6Eu8, 0x5Du8, 0x0Au8, 0x6Cu8, 0x61u8, 0x74u8, 0x69u8, 0x74u8, 0x75u8, 0x64u8, 0x65u8, 0x20u8, 0x3Du8, 0x20u8]
}

/// The bytes of `[location]\nlatitude = ` as a buffer.
fn vec_lat_prefix() -> (v: Vec<u8>)
    ensures
        v@ == lit_lat_prefix(),
{
    let mut v: Vec<u8> = Vec::new();
    v.push(0x5B);
    v.push(0x6C);
    v.push(0x6F);
    v.push(0x63);
    v.push(0x61);
    v.push(0x74);
    v.push(0x69);
    v.push(0x6F);
    v.push(0x6E);
    v.push(0x5D);
    v.push(0x0A);
    v.push(0x6C);
    v.push(0x61);
    v.push(0x74);
    v.push(0x69);
    v.push(0x74);
    v.push(0x75);
    v.push(0x64);
    v.push(0x65);
    v.push(0x20);
    v.push(0x3D);
    v.push(0x20);
    proof {
        assert(v@ =~= lit_lat_prefix());
    }
    v
}

/// Spec bytes of `\nlongitude = `.
pub open spec fn lit_lon_prefix() -> Seq<u8> {
    seq![0x0Au8, 0x6Cu8, 0x6Fu8, 0x6Eu8, 0x67u8, 0x69u8, 0x74u8, 0x75u8, 0x64u8, 0x65u8, 0x20u8, 0x3Du8, 0x20u8]
}

/// The bytes of `\nlongitude = ` as a buffer.
fn vec_lon_prefix() -> (v: Vec<u8>)
    ensures
        v@ == lit_lon_prefix(),
{
    let mut v: Vec<u8> = Vec::new();
    v.push(0x0A);
    v.push(0x6C);
    v.push(0x6F);
    v.push(0x6E);
    v.push(0x67);
    v.push(0x69);
    v.push(0x74);
    v.push(0x75);
    v.push(0x64);
    v.push(0x65);
    v.push(0x20);
    v.push(0x3D);
    v.push(0x20);
    proof {
        assert(v@ =~= lit_lon_prefix());
    }
    v
}

proof fn lemma_skip_ws_at(s: Seq<u8>, i: int, end: int, stop: int)
    requires
        0 <= i <= stop <= end <= s.len(),
        forall|q: int| i <= q < stop ==> is_ws(#[trigger] s[q]),
        stop < end ==> !is_ws(s[stop]),
    ensures
        spec_skip_ws(s, i, end) == stop,
    decreases stop - i,
{
    if i < stop {
        lemma_skip_ws_at(s, i + 1, end, stop);
    }
}

proof fn lemma_trim_end_at(s: Seq<u8>, i: int, end: int, stop: int)
    requires
        0 <= i <= stop <= end <= s.len(),
        forall|q: int| stop <= q < end ==> is_ws(#[trigger] s[q]),
        stop > i ==> !is_ws(s[stop - 1]),
    ensures
        spec_trim_end(s, i, end) == stop,
    decreases end - stop,
{
    if stop < end {
        lemma_trim_end_at(s, i, end - 1, stop);
    }
}

proof fn lemma_eq_pos_at(s: Seq<u8>, i: int, end: int, stop: int)
    requires
        0 <= i <= stop <= end <= s.len(),
        forall|q: int| i <= q < stop ==> s[q] != 0x3D,
        stop < end ==> s[stop] == 0x3D,
    ensures
        spec_eq_pos(s, i, end) == stop,
    decreases stop - i,
{
    if i < stop {
        lemma_eq_pos_at(s, i + 1, end, stop);
    }
}

/// Ten to a small power.
fn pow10_small(n: u32) -> (r: u64)
    requires
        n <= 6,
    ensures
        r == pow10(n as nat),
{
    proof {
        assert(pow10(0) == 1 && pow10(1) == 10 && pow10(2) == 100 && pow10(3) == 1000 && pow10(4)
            == 10000 && pow10(5) == 100000 && pow10(6) == 1000000) by {
            reveal_with_fuel(pow10, 8);
        }
    }
    if n == 0 {
        1
    } else if n == 1 {
        10
    } else if n == 2 {
        100
    } else if n == 3 {
        1000
    } else if n == 4 {
        10000
    } else if n == 5 {
        100000
    } else {
        1000000
    }
}

/// Parse a decimal-degree value over [a, b), exact per
/// `spec_parse_fixed6`.
fn parse_fixed6(buf: &[u8], a: usize, b: usize) -> (r: Option<i64>)
    requires
        a <= b <= buf@.len(),
    ensures
        match r {
            Option::Some(v) => spec_parse_fixed6(buf@, a as int, b as int) == Option::Some(v as int),
            Option::None => spec_parse_fixed6(buf@, a as int, b as int) is None,
        },
{
    if a >= b {
        return Option::None;
    }
    let neg = buf[a] == 0x2D;
    let p: usize = if neg {
        a + 1
    } else {
        a
    };
    let (ip, e1) = match parse_u64(buf, p) {
        Option::Some(v) => v,
        Option::None => {
            return Option::None;
        },
    };
    if e1 > b || ip >= 1000000000 {
        return Option::None;
    }
    if e1 == b {
        let micro: i64 = ip as i64 * 1000000;
        return if neg {
            Option::Some(-micro)
        } else {
            Option::Some(micro)
        };
    }
    if buf[e1] != 0x2E {
        return Option::None;
    }
    let (fp, e2) = match parse_u64(buf, e1 + 1) {
        Option::Some(v) => v,
        Option::None => {
            return Option::None;
        },
    };
    if !(e2 == b && e2 - (e1 + 1) <= 6) {
        return Option::None;
    }
    let k: u32 = (e2 - (e1 + 1)) as u32;
    proof {
        crate::codec::lemma_digits_end_bounds(buf@, e1 + 1);
        let d = buf@.subrange(e1 + 1, e2 as int);
        assert(forall|q: int| 0 <= q < d.len() ==> is_digit(#[trigger] d[q])) by {
            assert(forall|q: int|
                e1 + 1 <= q < e2 ==> is_digit(#[trigger] buf@[q]));
            assert(forall|q: int| 0 <= q < d.len() ==> #[trigger] d[q] == buf@[e1 + 1 + q]);
        }
        crate::codec::lemma_dec_val_upper(d);
        crate::codec::lemma_pow10_le(d.len() as nat, 6);
        assert(fp == crate::codec::spec_dec_val(d));
        assert(pow10(6) == 1000000) by {
            reveal_with_fuel(pow10, 8);
        }
        assert(fp <= 1000000);
    }
    let scale = pow10_small(6 - k);
    proof {
        assert(pow10((6 - k) as nat) <= 1000000) by {
            crate::codec::lemma_pow10_le((6 - k) as nat, 6);
            reveal_with_fuel(pow10, 8);
        }
        assert((fp as int) * (scale as int) <= 1000000 * 1000000) by (nonlinear_arith)
            requires
                0 <= fp <= 1000000,
                0 <= scale <= 1000000,
        ;
    }
    let micro: i64 = ip as i64 * 1000000 + (fp * scale) as i64;
    if neg {
        Option::Some(-micro)
    } else {
        Option::Some(micro)
    }
}

/// Lift an executable option into the spec state.
pub open spec fn opt_int(o: Option<i64>) -> Option<int> {
    match o {
        Option::Some(v) => Option::Some(v as int),
        Option::None => Option::None,
    }
}

/// Parse the configuration file into a location.
pub fn load_location(buf: &[u8]) -> (r: Option<Location>)
    ensures
        match r {
            Option::Some(loc) => spec_parse_location(buf@) == Option::Some(
                (loc.lat_micro as int, loc.lon_micro as int),
            ),
            Option::None => spec_parse_location(buf@) is None,
        },
{
    let mut i: usize = 0;
    let mut in_loc: bool = false;
    let mut lat: Option<i64> = Option::None;
    let mut lon: Option<i64> = Option::None;

    while i < buf.len()
        invariant
            0 <= i <= buf@.len(),
            spec_parse_location_from(buf@, 0, false, Option::None, Option::None)
                == spec_parse_location_from(buf@, i as int, in_loc, opt_int(lat), opt_int(lon)),
        decreases buf@.len() - i,
    {
        // find the end of this line
        let mut e: usize = i;
        while e < buf.len() && buf[e] != 0x0A
            invariant
                i <= e <= buf@.len(),
                forall|q: int| i <= q < e ==> buf@[q] != 0x0A,
            decreases buf@.len() - e,
        {
            e = e + 1;
        }
        proof {
            lemma_line_end_at(buf@, i as int, e as int);
        }

        // trim the line
        let mut a: usize = i;
        while a < e && (buf[a] == 0x20 || buf[a] == 0x09 || buf[a] == 0x0D)
            invariant
                i <= a <= e <= buf@.len(),
                forall|q: int| i <= q < a ==> is_ws(#[trigger] buf@[q]),
            decreases e - a,
        {
            a = a + 1;
        }
        proof {
            lemma_skip_ws_at(buf@, i as int, e as int, a as int);
        }
        let mut b: usize = e;
        while b > a && (buf[b - 1] == 0x20 || buf[b - 1] == 0x09 || buf[b - 1] == 0x0D)
            invariant
                a <= b <= e <= buf@.len(),
                forall|q: int| b <= q < e ==> is_ws(#[trigger] buf@[q]),
            decreases b,
        {
            b = b - 1;
        }
        proof {
            lemma_trim_end_at(buf@, a as int, e as int, b as int);
        }

        let ghost prev_state = (in_loc, opt_int(lat), opt_int(lon));
        if a >= b {
            // blank line
        } else if buf[a] == 0x23 || buf[a] == 0x3B {
            // comment
        } else if buf[a] == 0x5B {
            let hdr = vec_loc_header();
            in_loc = b - a == hdr.len() && crate::codec::bytes_match_at(buf, a, hdr.as_slice());
        } else {
            // find the first `=`
            let mut q: usize = a;
            while q < b && buf[q] != 0x3D
                invariant
                    a <= q <= b <= buf@.len(),
                    forall|w: int| a <= w < q ==> buf@[w] != 0x3D,
                decreases b - q,
            {
                q = q + 1;
            }
            proof {
                lemma_eq_pos_at(buf@, a as int, b as int, q as int);
            }
            if q < b && in_loc {
                // trim the key
                let mut kb: usize = q;
                while kb > a && (buf[kb - 1] == 0x20 || buf[kb - 1] == 0x09 || buf[kb - 1] == 0x0D)
                    invariant
                        a <= kb <= q <= buf@.len(),
                        forall|w: int| kb <= w < q ==> is_ws(#[trigger] buf@[w]),
                    decreases kb,
                {
                    kb = kb - 1;
                }
                proof {
                    lemma_trim_end_at(buf@, a as int, q as int, kb as int);
                }
                // skip whitespace before the value
                let mut va: usize = q + 1;
                while va < b && (buf[va] == 0x20 || buf[va] == 0x09 || buf[va] == 0x0D)
                    invariant
                        q + 1 <= va <= b <= buf@.len(),
                        forall|w: int| q + 1 <= w < va ==> is_ws(#[trigger] buf@[w]),
                    decreases b - va,
                {
                    va = va + 1;
                }
                proof {
                    lemma_skip_ws_at(buf@, q + 1, b as int, va as int);
                }
                let klat = vec_key_latitude();
                let klon = vec_key_longitude();
                if kb - a == klat.len() && crate::codec::bytes_match_at(buf, a, klat.as_slice()) {
                    lat = parse_fixed6(buf, va, b);
                } else if kb - a == klon.len() && crate::codec::bytes_match_at(
                    buf,
                    a,
                    klon.as_slice(),
                ) {
                    lon = parse_fixed6(buf, va, b);
                }
            }
        }
        proof {
            assert(spec_process_line(buf@, i as int, e as int, prev_state.0, prev_state.1, prev_state.2)
                == (in_loc, opt_int(lat), opt_int(lon)));
        }

        if e >= buf.len() {
            proof {
                assert(spec_parse_location_from(buf@, i as int, prev_state.0, prev_state.1, prev_state.2)
                    == (opt_int(lat), opt_int(lon)));
            }
            i = buf.len();
            proof {
                assert(spec_parse_location_from(
                    buf@,
                    i as int,
                    in_loc,
                    opt_int(lat),
                    opt_int(lon),
                ) == (opt_int(lat), opt_int(lon)));
            }
        } else {
            i = e + 1;
        }
    }

    match (lat, lon) {
        (Option::Some(la), Option::Some(lo)) => Option::Some(Location { lat_micro: la, lon_micro: lo }),
        _ => Option::None,
    }
}

/// One digit byte.
pub open spec fn spec_digit(n: int) -> u8 {
    (0x30 + n) as u8
}

/// Exactly six zero-padded fraction digits of `n` (in millionths).
pub open spec fn spec_pad6(n: int) -> Seq<u8> {
    seq![
        spec_digit(n / 100000 % 10),
        spec_digit(n / 10000 % 10),
        spec_digit(n / 1000 % 10),
        spec_digit(n / 100 % 10),
        spec_digit(n / 10 % 10),
        spec_digit(n % 10),
    ]
}

/// A degree value in millionths as a fixed six-decimal numeral.
pub open spec fn spec_fixed6(v: int) -> Seq<u8> {
    let mag = if v < 0 {
        -v
    } else {
        v
    };
    let sign: Seq<u8> = if v < 0 {
        seq![0x2Du8]
    } else {
        Seq::empty()
    };
    sign + spec_dec(mag / 1000000) + seq![0x2Eu8] + spec_pad6(mag % 1000000)
}

/// Append the fixed six-decimal numeral of a micro-degree value.
fn push_fixed6(v: i64, out: &mut Vec<u8>)
    requires
        -1000000000000000 <= v <= 1000000000000000,
    ensures
        final(out)@ == old(out)@ + spec_fixed6(v as int),
{
    let mag: u64 = if v < 0 {
        (-v) as u64
    } else {
        v as u64
    };
    if v < 0 {
        out.push(0x2D);
    }
    push_dec_u64(mag / 1000000, out);
    out.push(0x2E);
    let frac: u64 = mag % 1000000;
    out.push(0x30 + (frac / 100000 % 10) as u8);
    out.push(0x30 + (frac / 10000 % 10) as u8);
    out.push(0x30 + (frac / 1000 % 10) as u8);
    out.push(0x30 + (frac / 100 % 10) as u8);
    out.push(0x30 + (frac / 10 % 10) as u8);
    out.push(0x30 + (frac % 10) as u8);
    proof {
        assert(out@ =~= old(out)@ + spec_fixed6(v as int));
    }
}

/// The canonical configuration file for a location: the
/// `[location]` section with both coordinates at six decimals.
pub open spec fn spec_encode_location(loc: Location) -> Seq<u8> {
    lit_lat_prefix() + spec_fixed6(loc.lat_micro as int) + lit_lon_prefix() + spec_fixed6(
        loc.lon_micro as int,
    ) + seq![0x0Au8]
}

/// Encode a location in its canonical configuration-file form.
pub fn save_location(loc: &Location) -> (r: Vec<u8>)
    requires
        -1000000000000000 <= loc.lat_micro <= 1000000000000000,
        -1000000000000000 <= loc.lon_micro <= 1000000000000000,
    ensures
        r@ == spec_encode_location(*loc),
{
    let mut out = vec_lat_prefix();
    push_fixed6(loc.lat_micro, &mut out);
    let mid = vec_lon_prefix();
    crate::config::push_all(&mut out, &mid);
    push_fixed6(loc.lon_micro, &mut out);
    out.push(0x0A);
    proof {
        assert(out@ =~= spec_encode_location(*loc));
    }
    out
}

} // verus!
