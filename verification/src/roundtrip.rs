//! Round-trip laws of the persisted-state codecs.
//!
//! Parsing the canonical byte form that `encode_override` and
//! `encode_weather_cache` write recovers the record: every field of
//! an override, and -- for the weather cache -- the snapshot's fields
//! for a good snapshot and the zeroed payload with the error mark for
//! an error snapshot. The proofs walk the tolerant readers over the
//! canonical layout segment by segment.

use vstd::prelude::*;
use crate::codec::{
    is_digit, is_jws, lemma_dec_digits_facts, lemma_parse_dec_signed_exact, spec_dec_signed,
    spec_parse_i64, spec_skip_jws,
};
use crate::config::{
    lit_err_fetch, lit_err_null, lit_key_duration, lit_key_error, lit_key_fetched,
    lit_key_forecast, lit_key_is_day, lit_key_issued, lit_key_start, lit_key_target,
    lit_key_temperature, lit_lit_false, lit_lit_true, lit_obj_active, lit_obj_close, lit_obj_cloud, qkey_active,
    qkey_duration, qkey_issued, qkey_start, qkey_target, spec_bool_lit, spec_encode_override,
    spec_encode_weather, spec_escape, spec_match, spec_ov_fields, spec_ov_next,
    spec_escape_byte, spec_parse_bool, spec_parse_i32_field, spec_parse_jstring, spec_parse_override,
    spec_parse_weather, OverrideState, WeatherData,
};

verus! {

/// A key embedded in a matched segment: if `s` carries `seg` at `p`
/// and `key` is `seg` minus its first byte and its tail, the key
/// matches right after `p`.
proof fn lemma_key_in_segment(s: Seq<u8>, p: int, seg: Seq<u8>, key: Seq<u8>)
    requires
        0 <= p,
        p + seg.len() <= s.len(),
        s.subrange(p, p + seg.len() as int) == seg,
        1 + key.len() <= seg.len(),
        key == seg.subrange(1, 1 + key.len() as int),
    ensures
        spec_match(s, p + 1, key) == Option::Some(p + 1 + key.len() as int),
{
    assert(s.subrange(p + 1, p + 1 + key.len() as int) =~= key) by {
        assert forall|q: int| 0 <= q < key.len() implies s.subrange(
            p + 1,
            p + 1 + key.len() as int,
        )[q] == #[trigger] key[q] by {
            assert(s.subrange(p + 1, p + 1 + key.len() as int)[q] == s[p + 1 + q]);
            assert(s[p + 1 + q] == s.subrange(p, p + seg.len() as int)[1 + q]);
            assert(key[q] == seg.subrange(1, 1 + key.len() as int)[q]);
        }
    }
}

/// A key match fails when the byte after the opening quote differs.
proof fn lemma_key_mismatch(s: Seq<u8>, j: int, key: Seq<u8>, b: u8)
    requires
        0 <= j,
        j + 1 < s.len(),
        s[j + 1] == b,
        key.len() >= 2,
        key[1] != b,
    ensures
        spec_match(s, j, key) is None,
{
    if spec_match(s, j, key) is Some {
        assert(s.subrange(j, j + key.len() as int)[1] == s[j + 1]);
        assert(false);
    }
}

/// A field key embedded in its separator segment (separator byte,
/// quoted key, colon): the whitespace skips are identities and the
/// key matches right after the separator.
proof fn lemma_field_key_at(s: Seq<u8>, p: int, seg: Seq<u8>, key: Seq<u8>)
    requires
        0 <= p,
        p + seg.len() <= s.len(),
        s.subrange(p, p + seg.len() as int) == seg,
        seg.len() == key.len() + 2,
        key == seg.subrange(1, 1 + key.len() as int),
        key.len() >= 1,
        !is_jws(seg[0]),
        !is_jws(key[0]),
        seg[seg.len() - 1] == 0x3A,
    ensures
        spec_skip_jws(s, p) == p,
        s[p] == seg[0],
        spec_skip_jws(s, p + 1) == p + 1,
        spec_match(s, p + 1, key) == Option::Some(p + 1 + key.len() as int),
        spec_skip_jws(s, p + 1 + key.len()) == p + 1 + key.len(),
        s[p + 1 + key.len()] == 0x3A,
{
    assert(s[p] == seg[0]) by {
        assert(s.subrange(p, p + seg.len() as int)[0] == s[p]);
    }
    assert(s[p + 1] == seg[1]) by {
        assert(s.subrange(p, p + seg.len() as int)[1] == s[p + 1]);
    }
    assert(seg[1] == key[0]);
    lemma_key_in_segment(s, p, seg, key);
    assert(s[p + 1 + key.len()] == seg[seg.len() - 1]) by {
        assert(s.subrange(p, p + seg.len() as int)[seg.len() - 1] == s[p + seg.len() - 1]);
    }
}

/// A signed numeral at `p` followed by a non-digit: the whitespace
/// skip is an identity and the signed parse lands exactly after it.
proof fn lemma_field_value_at(s: Seq<u8>, p: int, n: int)
    requires
        i64::MIN <= n <= i64::MAX,
        0 <= p,
        p + spec_dec_signed(n).len() < s.len(),
        s.subrange(p, p + spec_dec_signed(n).len() as int) == spec_dec_signed(n),
        !is_digit(s[p + spec_dec_signed(n).len()]),
    ensures
        spec_skip_jws(s, p) == p,
        spec_parse_i64(s, p) == Option::Some((n, p + spec_dec_signed(n).len() as int)),
{
    lemma_dec_signed_head(n);
    assert(s[p] == spec_dec_signed(n)[0]) by {
        assert(s.subrange(p, p + spec_dec_signed(n).len() as int)[0] == s[p]);
    }
    lemma_parse_dec_signed_exact(s, p, n);
}

/// End positions of the canonical override encoding's segments.
spec fn spec_ov_marks(o: OverrideState) -> Seq<int> {
    let p1 = lit_obj_active().len() as int;
    let p2 = p1 + spec_bool_lit(o.active).len();
    let p3 = p2 + lit_key_target().len();
    let p4 = p3 + spec_dec_signed(o.target_temp as int).len();
    let p5 = p4 + lit_key_duration().len();
    let p6 = p5 + spec_dec_signed(o.duration_minutes as int).len();
    let p7 = p6 + lit_key_issued().len();
    let p8 = p7 + spec_dec_signed(o.issued_at as int).len();
    let p9 = p8 + lit_key_start().len();
    let p10 = p9 + spec_dec_signed(o.start_temp as int).len();
    seq![p1, p2, p3, p4, p5, p6, p7, p8, p9, p10]
}

/// A signed numeral begins with a minus sign or a digit, never with
/// whitespace.
proof fn lemma_dec_signed_head(n: int)
    ensures
        spec_dec_signed(n).len() >= 1,
        !is_jws(spec_dec_signed(n)[0]),
{
    if n < 0 {
        assert(spec_dec_signed(n)[0] == 0x2D);
    } else if n == 0 {
        assert(spec_dec_signed(n) =~= seq![0x30u8]);
    } else {
        lemma_dec_digits_facts(n);
        assert(is_digit(spec_dec_signed(n)[0]));
    }
}

#[verifier::rlimit(100)]
#[verifier::spinoff_prover]
proof fn lemma_ov_segments_a(o: OverrideState, s: Seq<u8>)
    requires
        s == spec_encode_override(o),
    ensures
        s.len() == spec_ov_marks(o)[9] + 1,
        s.subrange(0, spec_ov_marks(o)[0]) == lit_obj_active(),
        s.subrange(spec_ov_marks(o)[0], spec_ov_marks(o)[1]) == spec_bool_lit(o.active),
        s.subrange(spec_ov_marks(o)[1], spec_ov_marks(o)[2]) == lit_key_target(),
        s.subrange(spec_ov_marks(o)[2], spec_ov_marks(o)[3]) == spec_dec_signed(
            o.target_temp as int,
        ),
        s.subrange(spec_ov_marks(o)[3], spec_ov_marks(o)[4]) == lit_key_duration(),
        s.subrange(spec_ov_marks(o)[4], spec_ov_marks(o)[5]) == spec_dec_signed(
            o.duration_minutes as int,
        ),
{
    let m = spec_ov_marks(o);
    assert(s.subrange(0, m[0]) =~= lit_obj_active());
    assert(s.subrange(m[0], m[1]) =~= spec_bool_lit(o.active));
    assert(s.subrange(m[1], m[2]) =~= lit_key_target());
    assert(s.subrange(m[2], m[3]) =~= spec_dec_signed(o.target_temp as int));
    assert(s.subrange(m[3], m[4]) =~= lit_key_duration());
    assert(s.subrange(m[4], m[5]) =~= spec_dec_signed(o.duration_minutes as int));
}

#[verifier::rlimit(100)]
#[verifier::spinoff_prover]
proof fn lemma_ov_segments_b(o: OverrideState, s: Seq<u8>)
    requires
        s == spec_encode_override(o),
    ensures
        s.subrange(spec_ov_marks(o)[5], spec_ov_marks(o)[6]) == lit_key_issued(),
        s.subrange(spec_ov_marks(o)[6], spec_ov_marks(o)[7]) == spec_dec_signed(
            o.issued_at as int,
        ),
        s.subrange(spec_ov_marks(o)[7], spec_ov_marks(o)[8]) == lit_key_start(),
        s.subrange(spec_ov_marks(o)[8], spec_ov_marks(o)[9]) == spec_dec_signed(
            o.start_temp as int,
        ),
        s.subrange(spec_ov_marks(o)[9], spec_ov_marks(o)[9] + 1) == lit_obj_close(),
{
    let m = spec_ov_marks(o);
    assert(s.subrange(m[5], m[6]) =~= lit_key_issued());
    assert(s.subrange(m[6], m[7]) =~= spec_dec_signed(o.issued_at as int));
    assert(s.subrange(m[7], m[8]) =~= lit_key_start());
    assert(s.subrange(m[8], m[9]) =~= spec_dec_signed(o.start_temp as int));
    assert(s.subrange(m[9], m[9] + 1) =~= lit_obj_close());
}

#[verifier::rlimit(100)]
#[verifier::spinoff_prover]
proof fn lemma_ov_rt_step1(o: OverrideState, s: Seq<u8>)
    requires
        s == spec_encode_override(o),
    ensures
        spec_ov_fields(s, 1, Option::None, Option::None, Option::None, Option::None, Option::None)
            == spec_ov_next(
            s,
            spec_ov_marks(o)[1],
            Option::Some(o.active),
            Option::None,
            Option::None,
            Option::None,
            Option::None,
        ),
{
    let m = spec_ov_marks(o);
    let a = lit_obj_active();
    lemma_ov_segments_a(o, s);
    assert(s[1] == a[1]) by {
        assert(s.subrange(0, m[0])[1] == s[1]);
    }
    assert(spec_skip_jws(s, 1) == 1);
    assert(qkey_active() =~= a.subrange(1, 9));
    lemma_key_in_segment(s, 0, a, qkey_active());
    assert(spec_match(s, 1, qkey_active()) == Option::Some(9int));
    assert(s[9] == a[9]) by {
        assert(s.subrange(0, m[0])[9] == s[9]);
    }
    assert(spec_skip_jws(s, 9) == 9);
    assert(s[m[0]] == spec_bool_lit(o.active)[0]) by {
        assert(s.subrange(m[0], m[1])[0] == s[m[0]]);
    }
    assert(spec_skip_jws(s, 10) == 10);
    if o.active {
        assert(spec_parse_bool(s, m[0]) == Option::Some((true, m[1])));
    } else {
        assert(s[m[0]] == 0x66);
        if spec_match(s, m[0], lit_lit_true()) is Some {
            assert(s.subrange(m[0], m[0] + 4)[0] == s[m[0]]);
            assert(false);
        }
        assert(spec_parse_bool(s, m[0]) == Option::Some((false, m[1])));
    }
}

#[verifier::rlimit(100)]
#[verifier::spinoff_prover]
proof fn lemma_ov_rt_step2_facts(o: OverrideState, s: Seq<u8>)
    requires
        s.len() == spec_ov_marks(o)[9] + 1,
        s.subrange(spec_ov_marks(o)[1], spec_ov_marks(o)[2]) == lit_key_target(),
        s.subrange(spec_ov_marks(o)[2], spec_ov_marks(o)[3]) == spec_dec_signed(
            o.target_temp as int,
        ),
        s.subrange(spec_ov_marks(o)[3], spec_ov_marks(o)[4]) == lit_key_duration(),
    ensures
        spec_skip_jws(s, spec_ov_marks(o)[1]) == spec_ov_marks(o)[1],
        s[spec_ov_marks(o)[1]] == 0x2C,
        spec_skip_jws(s, spec_ov_marks(o)[1] + 1) == spec_ov_marks(o)[1] + 1,
        spec_match(s, spec_ov_marks(o)[1] + 1, qkey_active()) is None,
        spec_match(s, spec_ov_marks(o)[1] + 1, qkey_target()) == Option::Some(
            spec_ov_marks(o)[1] + 14,
        ),
        spec_skip_jws(s, spec_ov_marks(o)[1] + 14) == spec_ov_marks(o)[1] + 14,
        s[spec_ov_marks(o)[1] + 14] == 0x3A,
        spec_skip_jws(s, spec_ov_marks(o)[2]) == spec_ov_marks(o)[2],
        spec_parse_i64(s, spec_ov_marks(o)[2]) == Option::Some(
            (o.target_temp as int, spec_ov_marks(o)[3]),
        ),
{
    let m = spec_ov_marks(o);
    assert(qkey_target() =~= lit_key_target().subrange(1, 14));
    lemma_field_key_at(s, m[1], lit_key_target(), qkey_target());
    assert(s[m[1] + 2] == lit_key_target()[2]) by {
        assert(s.subrange(m[1], m[2])[2] == s[m[1] + 2]);
    }
    lemma_key_mismatch(s, m[1] + 1, qkey_active(), 0x74);
    assert(s[m[3]] == lit_key_duration()[0]) by {
        assert(s.subrange(m[3], m[4])[0] == s[m[3]]);
    }
    lemma_field_value_at(s, m[2], o.target_temp as int);
}

#[verifier::rlimit(100)]
#[verifier::spinoff_prover]
proof fn lemma_ov_rt_step2(o: OverrideState, s: Seq<u8>, a0: bool)
    requires
        s.len() == spec_ov_marks(o)[9] + 1,
        spec_skip_jws(s, spec_ov_marks(o)[1]) == spec_ov_marks(o)[1],
        s[spec_ov_marks(o)[1]] == 0x2C,
        spec_skip_jws(s, spec_ov_marks(o)[1] + 1) == spec_ov_marks(o)[1] + 1,
        spec_match(s, spec_ov_marks(o)[1] + 1, qkey_active()) is None,
        spec_match(s, spec_ov_marks(o)[1] + 1, qkey_target()) == Option::Some(
            spec_ov_marks(o)[1] + 14,
        ),
        spec_skip_jws(s, spec_ov_marks(o)[1] + 14) == spec_ov_marks(o)[1] + 14,
        s[spec_ov_marks(o)[1] + 14] == 0x3A,
        spec_skip_jws(s, spec_ov_marks(o)[2]) == spec_ov_marks(o)[2],
        spec_parse_i64(s, spec_ov_marks(o)[2]) == Option::Some(
            (o.target_temp as int, spec_ov_marks(o)[3]),
        ),
    ensures
        spec_ov_next(
            s,
            spec_ov_marks(o)[1],
            Option::Some(a0),
            Option::None,
            Option::None,
            Option::None,
            Option::None,
        ) == spec_ov_next(
            s,
            spec_ov_marks(o)[3],
            Option::Some(a0),
            Option::Some(o.target_temp as int),
            Option::None,
            Option::None,
            Option::None,
        ),
{
}

#[verifier::rlimit(100)]
#[verifier::spinoff_prover]
proof fn lemma_ov_rt_step3_facts(o: OverrideState, s: Seq<u8>)
    requires
        s.len() == spec_ov_marks(o)[9] + 1,
        s.subrange(spec_ov_marks(o)[3], spec_ov_marks(o)[4]) == lit_key_duration(),
        s.subrange(spec_ov_marks(o)[4], spec_ov_marks(o)[5]) == spec_dec_signed(
            o.duration_minutes as int,
        ),
        s.subrange(spec_ov_marks(o)[5], spec_ov_marks(o)[6]) == lit_key_issued(),
    ensures
        spec_skip_jws(s, spec_ov_marks(o)[3]) == spec_ov_marks(o)[3],
        s[spec_ov_marks(o)[3]] == 0x2C,
        spec_skip_jws(s, spec_ov_marks(o)[3] + 1) == spec_ov_marks(o)[3] + 1,
        spec_match(s, spec_ov_marks(o)[3] + 1, qkey_active()) is None,
        spec_match(s, spec_ov_marks(o)[3] + 1, qkey_target()) is None,
        spec_match(s, spec_ov_marks(o)[3] + 1, qkey_duration()) == Option::Some(
            spec_ov_marks(o)[3] + 19,
        ),
        spec_skip_jws(s, spec_ov_marks(o)[3] + 19) == spec_ov_marks(o)[3] + 19,
        s[spec_ov_marks(o)[3] + 19] == 0x3A,
        spec_skip_jws(s, spec_ov_marks(o)[4]) == spec_ov_marks(o)[4],
        spec_parse_i64(s, spec_ov_marks(o)[4]) == Option::Some(
            (o.duration_minutes as int, spec_ov_marks(o)[5]),
        ),
{
    let m = spec_ov_marks(o);
    assert(qkey_duration() =~= lit_key_duration().subrange(1, 19));
    lemma_field_key_at(s, m[3], lit_key_duration(), qkey_duration());
    assert(s[m[3] + 2] == lit_key_duration()[2]) by {
        assert(s.subrange(m[3], m[4])[2] == s[m[3] + 2]);
    }
    lemma_key_mismatch(s, m[3] + 1, qkey_active(), 0x64);
    lemma_key_mismatch(s, m[3] + 1, qkey_target(), 0x64);
    assert(s[m[5]] == lit_key_issued()[0]) by {
        assert(s.subrange(m[5], m[6])[0] == s[m[5]]);
    }
    lemma_field_value_at(s, m[4], o.duration_minutes as int);
}

#[verifier::rlimit(100)]
#[verifier::spinoff_prover]
proof fn lemma_ov_rt_step3(o: OverrideState, s: Seq<u8>, a0: bool, t0: int)
    requires
        s.len() == spec_ov_marks(o)[9] + 1,
        spec_skip_jws(s, spec_ov_marks(o)[3]) == spec_ov_marks(o)[3],
        s[spec_ov_marks(o)[3]] == 0x2C,
        spec_skip_jws(s, spec_ov_marks(o)[3] + 1) == spec_ov_marks(o)[3] + 1,
        spec_match(s, spec_ov_marks(o)[3] + 1, qkey_active()) is None,
        spec_match(s, spec_ov_marks(o)[3] + 1, qkey_target()) is None,
        spec_match(s, spec_ov_marks(o)[3] + 1, qkey_duration()) == Option::Some(
            spec_ov_marks(o)[3] + 19,
        ),
        spec_skip_jws(s, spec_ov_marks(o)[3] + 19) == spec_ov_marks(o)[3] + 19,
        s[spec_ov_marks(o)[3] + 19] == 0x3A,
        spec_skip_jws(s, spec_ov_marks(o)[4]) == spec_ov_marks(o)[4],
        spec_parse_i64(s, spec_ov_marks(o)[4]) == Option::Some(
            (o.duration_minutes as int, spec_ov_marks(o)[5]),
        ),
    ensures
        spec_ov_next(
            s,
            spec_ov_marks(o)[3],
            Option::Some(a0),
            Option::Some(t0),
            Option::None,
            Option::None,
            Option::None,
        ) == spec_ov_next(
            s,
            spec_ov_marks(o)[5],
            Option::Some(a0),
            Option::Some(t0),
            Option::Some(o.duration_minutes as int),
            Option::None,
            Option::None,
        ),
{
}

#[verifier::rlimit(100)]
#[verifier::spinoff_prover]
proof fn lemma_ov_rt_step4_facts(o: OverrideState, s: Seq<u8>)
    requires
        s.len() == spec_ov_marks(o)[9] + 1,
        s.subrange(spec_ov_marks(o)[5], spec_ov_marks(o)[6]) == lit_key_issued(),
        s.subrange(spec_ov_marks(o)[6], spec_ov_marks(o)[7]) == spec_dec_signed(
            o.issued_at as int,
        ),
        s.subrange(spec_ov_marks(o)[7], spec_ov_marks(o)[8]) == lit_key_start(),
    ensures
        spec_skip_jws(s, spec_ov_marks(o)[5]) == spec_ov_marks(o)[5],
        s[spec_ov_marks(o)[5]] == 0x2C,
        spec_skip_jws(s, spec_ov_marks(o)[5] + 1) == spec_ov_marks(o)[5] + 1,
        spec_match(s, spec_ov_marks(o)[5] + 1, qkey_active()) is None,
        spec_match(s, spec_ov_marks(o)[5] + 1, qkey_target()) is None,
        spec_match(s, spec_ov_marks(o)[5] + 1, qkey_duration()) is None,
        spec_match(s, spec_ov_marks(o)[5] + 1, qkey_issued()) == Option::Some(
            spec_ov_marks(o)[5] + 12,
        ),
        spec_skip_jws(s, spec_ov_marks(o)[5] + 12) == spec_ov_marks(o)[5] + 12,
        s[spec_ov_marks(o)[5] + 12] == 0x3A,
        spec_skip_jws(s, spec_ov_marks(o)[6]) == spec_ov_marks(o)[6],
        spec_parse_i64(s, spec_ov_marks(o)[6]) == Option::Some(
            (o.issued_at as int, spec_ov_marks(o)[7]),
        ),
{
    let m = spec_ov_marks(o);
    assert(qkey_issued() =~= lit_key_issued().subrange(1, 12));
    lemma_field_key_at(s, m[5], lit_key_issued(), qkey_issued());
    assert(s[m[5] + 2] == lit_key_issued()[2]) by {
        assert(s.subrange(m[5], m[6])[2] == s[m[5] + 2]);
    }
    lemma_key_mismatch(s, m[5] + 1, qkey_active(), 0x69);
    lemma_key_mismatch(s, m[5] + 1, qkey_target(), 0x69);
    lemma_key_mismatch(s, m[5] + 1, qkey_duration(), 0x69);
    assert(s[m[7]] == lit_key_start()[0]) by {
        assert(s.subrange(m[7], m[8])[0] == s[m[7]]);
    }
    lemma_field_value_at(s, m[6], o.issued_at as int);
}

#[verifier::rlimit(100)]
#[verifier::spinoff_prover]
proof fn lemma_ov_rt_step4(o: OverrideState, s: Seq<u8>, a0: bool, t0: int, d0: int)
    requires
        s.len() == spec_ov_marks(o)[9] + 1,
        s.subrange(spec_ov_marks(o)[5], spec_ov_marks(o)[6]) == lit_key_issued(),
        s.subrange(spec_ov_marks(o)[6], spec_ov_marks(o)[7]) == spec_dec_signed(
            o.issued_at as int,
        ),
        s.subrange(spec_ov_marks(o)[7], spec_ov_marks(o)[8]) == lit_key_start(),
    ensures
        spec_ov_next(
            s,
            spec_ov_marks(o)[5],
            Option::Some(a0),
            Option::Some(t0),
            Option::Some(d0),
            Option::None,
            Option::None,
        ) == spec_ov_next(
            s,
            spec_ov_marks(o)[7],
            Option::Some(a0),
            Option::Some(t0),
            Option::Some(d0),
            Option::Some(o.issued_at as int),
            Option::None,
        ),
{
    lemma_ov_rt_step4_facts(o, s);
}

#[verifier::rlimit(100)]
#[verifier::spinoff_prover]
proof fn lemma_ov_rt_step5_facts(o: OverrideState, s: Seq<u8>)
    requires
        s.len() == spec_ov_marks(o)[9] + 1,
        s.subrange(spec_ov_marks(o)[7], spec_ov_marks(o)[8]) == lit_key_start(),
        s.subrange(spec_ov_marks(o)[8], spec_ov_marks(o)[9]) == spec_dec_signed(
            o.start_temp as int,
        ),
        s.subrange(spec_ov_marks(o)[9], spec_ov_marks(o)[9] + 1) == lit_obj_close(),
    ensures
        spec_skip_jws(s, spec_ov_marks(o)[7]) == spec_ov_marks(o)[7],
        s[spec_ov_marks(o)[7]] == 0x2C,
        spec_skip_jws(s, spec_ov_marks(o)[7] + 1) == spec_ov_marks(o)[7] + 1,
        spec_match(s, spec_ov_marks(o)[7] + 1, qkey_active()) is None,
        spec_match(s, spec_ov_marks(o)[7] + 1, qkey_target()) is None,
        spec_match(s, spec_ov_marks(o)[7] + 1, qkey_duration()) is None,
        spec_match(s, spec_ov_marks(o)[7] + 1, qkey_issued()) is None,
        spec_match(s, spec_ov_marks(o)[7] + 1, qkey_start()) == Option::Some(
            spec_ov_marks(o)[7] + 13,
        ),
        spec_skip_jws(s, spec_ov_marks(o)[7] + 13) == spec_ov_marks(o)[7] + 13,
        s[spec_ov_marks(o)[7] + 13] == 0x3A,
        spec_skip_jws(s, spec_ov_marks(o)[8]) == spec_ov_marks(o)[8],
        spec_parse_i64(s, spec_ov_marks(o)[8]) == Option::Some(
            (o.start_temp as int, spec_ov_marks(o)[9]),
        ),
        spec_skip_jws(s, spec_ov_marks(o)[9]) == spec_ov_marks(o)[9],
        s[spec_ov_marks(o)[9]] == 0x7D,
        spec_skip_jws(s, spec_ov_marks(o)[9] + 1) == s.len(),
{
    let m = spec_ov_marks(o);
    assert(qkey_start() =~= lit_key_start().subrange(1, 13));
    lemma_field_key_at(s, m[7], lit_key_start(), qkey_start());
    assert(s[m[7] + 2] == lit_key_start()[2]) by {
        assert(s.subrange(m[7], m[8])[2] == s[m[7] + 2]);
    }
    lemma_key_mismatch(s, m[7] + 1, qkey_active(), 0x73);
    lemma_key_mismatch(s, m[7] + 1, qkey_target(), 0x73);
    lemma_key_mismatch(s, m[7] + 1, qkey_duration(), 0x73);
    lemma_key_mismatch(s, m[7] + 1, qkey_issued(), 0x73);
    assert(s[m[9]] == 0x7D) by {
        assert(s.subrange(m[9], m[9] + 1)[0] == s[m[9]]);
    }
    lemma_field_value_at(s, m[8], o.start_temp as int);
}

#[verifier::rlimit(100)]
#[verifier::spinoff_prover]
proof fn lemma_ov_rt_step5(o: OverrideState, s: Seq<u8>, a0: bool, t0: int, d0: int, w0: int)
    requires
        s == spec_encode_override(o),
    ensures
        spec_ov_next(
            s,
            spec_ov_marks(o)[7],
            Option::Some(a0),
            Option::Some(t0),
            Option::Some(d0),
            Option::Some(w0),
            Option::None,
        ) == Option::Some((a0, t0, d0, w0, o.start_temp as int)),
{
    let m = spec_ov_marks(o);
    lemma_ov_segments_a(o, s);
    lemma_ov_segments_b(o, s);
    lemma_ov_rt_step5_facts(o, s);
    assert(spec_ov_next(
        s,
        m[9],
        Option::Some(a0),
        Option::Some(t0),
        Option::Some(d0),
        Option::Some(w0),
        Option::Some(o.start_temp as int),
    ) == Option::Some((a0, t0, d0, w0, o.start_temp as int)));
}

/// Round trip of the persisted override record: parsing the
/// canonical encoding of any record recovers it on all fields.
#[verifier::spinoff_prover]
pub proof fn lemma_override_roundtrip(o: OverrideState)
    ensures
        spec_parse_override(spec_encode_override(o)) == Option::Some(o),
{
    let s = spec_encode_override(o);
    let m = spec_ov_marks(o);
    assert(s.len() == m[9] + 1);
    assert(s[0] == 0x7B) by {
        assert(s.subrange(0, m[0]) =~= lit_obj_active());
    }
    assert(spec_skip_jws(s, 0) == 0);
    lemma_ov_segments_a(o, s);
    lemma_ov_segments_b(o, s);
    lemma_ov_rt_step1(o, s);
    lemma_ov_rt_step2_facts(o, s);
    lemma_ov_rt_step2(o, s, o.active);
    lemma_ov_rt_step3_facts(o, s);
    lemma_ov_rt_step3(o, s, o.active, o.target_temp as int);
    lemma_ov_rt_step4(o, s, o.active, o.target_temp as int, o.duration_minutes as int);
    lemma_ov_rt_step5(
        o,
        s,
        o.active,
        o.target_temp as int,
        o.duration_minutes as int,
        o.issued_at as int,
    );
    assert(spec_ov_fields(
        s,
        1,
        Option::None,
        Option::None,
        Option::None,
        Option::None,
        Option::None,
    ) == Option::Some(
        (
            o.active,
            o.target_temp as int,
            o.duration_minutes as int,
            o.issued_at as int,
            o.start_temp as int,
        ),
    ));
}




proof fn lemma_escape_front(f: Seq<u8>)
    requires
        f.len() >= 1,
    ensures
        spec_escape(f) == spec_escape_byte(f[0]) + spec_escape(f.drop_first()),
    decreases f.len(),
{
    if f.len() == 1 {
        assert(f.drop_last() =~= Seq::<u8>::empty());
        assert(f.drop_first() =~= Seq::<u8>::empty());
        assert(spec_escape(f) =~= spec_escape_byte(f[0]) + spec_escape(f.drop_first()));
    } else {
        let dl = f.drop_last();
        lemma_escape_front(dl);
        assert(dl[0] == f[0]);
        assert(dl.drop_first() =~= f.drop_first().drop_last());
        assert(f.drop_first().last() == f.last());
        assert(spec_escape(f.drop_first()) == spec_escape(f.drop_first().drop_last())
            + spec_escape_byte(f.last()));
        assert(spec_escape(f) =~= spec_escape_byte(f[0]) + spec_escape(f.drop_first()));
    }
}

/// In a buffer holding the escaped form of `f` at `i` and a closing
/// quote right after it, the string parser recovers exactly `f` and
/// stops past the quote.
pub proof fn lemma_escape_roundtrip(f: Seq<u8>, s: Seq<u8>, i: int)
    requires
        0 <= i,
        i + spec_escape(f).len() + 1 <= s.len(),
        s.subrange(i, i + spec_escape(f).len() as int) == spec_escape(f),
        s[i + spec_escape(f).len()] == 0x22,
    ensures
        spec_parse_jstring(s, i) == Option::Some((f, i + spec_escape(f).len() + 1)),
    decreases f.len(),
{
    let e = spec_escape(f);
    if f.len() == 0 {
        assert(e =~= Seq::<u8>::empty());
        assert(s[i] == 0x22);
        assert(f =~= Seq::<u8>::empty());
    } else {
        let h = f[0];
        let t = f.drop_first();
        lemma_escape_front(f);
        let eb = spec_escape_byte(h);
        let et = spec_escape(t);
        assert(e == eb + et);
        let p = i + eb.len();
        assert(s.subrange(p, p + et.len() as int) =~= et) by {
            assert forall|q: int| 0 <= q < et.len() implies s.subrange(p, p + et.len() as int)[q]
                == #[trigger] et[q] by {
                assert(s.subrange(p, p + et.len() as int)[q] == s[p + q]);
                assert(s[p + q] == s.subrange(i, i + e.len() as int)[eb.len() + q]);
                assert(e[eb.len() + q] == et[q]);
            }
        }
        assert(s[p + et.len()] == 0x22);
        lemma_escape_roundtrip(t, s, p);
        if h == 0x22 || h == 0x5C {
            assert(eb =~= seq![0x5Cu8, h]);
            assert(s[i] == 0x5C) by {
                assert(s[i] == s.subrange(i, i + e.len() as int)[0]);
            }
            assert(s[i + 1] == h) by {
                assert(s[i + 1] == s.subrange(i, i + e.len() as int)[1]);
            }
            assert(seq![s[i + 1]] + t =~= f);
        } else {
            assert(eb =~= seq![h]);
            assert(s[i] == h) by {
                assert(s[i] == s.subrange(i, i + e.len() as int)[0]);
            }
            assert(seq![s[i]] + t =~= f);
        }
    }
}

/// The positions of the snapshot layout's segments.
spec fn spec_weather_marks(cloud: int, f: Seq<u8>, temp: int, day: bool, fetched: int) -> Seq<int> {
    let p1 = lit_obj_cloud().len() as int;
    let p2 = p1 + spec_dec_signed(cloud).len();
    let p3 = p2 + lit_key_forecast().len();
    let p4 = p3 + spec_escape(f).len() + 1;
    let p5 = p4 + lit_key_temperature().len();
    let p6 = p5 + spec_dec_signed(temp).len();
    let p7 = p6 + lit_key_is_day().len();
    let p8 = p7 + spec_bool_lit(day).len();
    let p9 = p8 + lit_key_fetched().len();
    let p10 = p9 + spec_dec_signed(fetched).len();
    let p11 = p10 + lit_key_error().len();
    seq![p1, p2, p3, p4, p5, p6, p7, p8, p9, p10, p11]
}

/// The byte form the snapshot layout fixes.
spec fn spec_weather_layout(
    cloud: int,
    f: Seq<u8>,
    temp: int,
    day: bool,
    fetched: int,
    err: bool,
) -> Seq<u8> {
    lit_obj_cloud() + spec_dec_signed(cloud) + lit_key_forecast() + spec_escape(f)
        + seq![0x22u8] + lit_key_temperature() + spec_dec_signed(temp) + lit_key_is_day()
        + spec_bool_lit(day) + lit_key_fetched() + spec_dec_signed(fetched) + lit_key_error() + (
    if err {
        lit_err_fetch()
    } else {
        lit_err_null()
    })
}

#[verifier::rlimit(100)]
#[verifier::spinoff_prover]
proof fn lemma_weather_layout_head_a(
    s: Seq<u8>,
    cloud: int,
    f: Seq<u8>,
    temp: int,
    day: bool,
    fetched: int,
    err: bool,
)
    requires
        i32::MIN <= cloud <= i32::MAX,
        s == spec_weather_layout(cloud, f, temp, day, fetched, err),
    ensures
        ({
            let m = spec_weather_marks(cloud, f, temp, day, fetched);
            &&& spec_match(s, 0, lit_obj_cloud()) == Option::Some(m[0])
            &&& spec_parse_i32_field(s, m[0]) == Option::Some((cloud, m[1]))
            &&& spec_match(s, m[1], lit_key_forecast()) == Option::Some(m[2])
        }),
{
    let a = lit_obj_cloud();
    let n1 = spec_dec_signed(cloud);
    let b = lit_key_forecast();
    let p1 = a.len() as int;
    let p2 = p1 + n1.len();
    let p3 = p2 + b.len();

    assert(s.subrange(0, p1) =~= a);
    assert(spec_match(s, 0, a) == Option::Some(p1));

    assert(s.subrange(p1, p2) =~= n1);
    assert(s[p2] == 0x2C);
    lemma_parse_dec_signed_exact(s, p1, cloud);
    assert(spec_parse_i32_field(s, p1) == Option::Some((cloud, p2)));

    assert(s.subrange(p2, p3) =~= b);
    assert(spec_match(s, p2, b) == Option::Some(p3));
}

#[verifier::rlimit(100)]
#[verifier::spinoff_prover]
proof fn lemma_weather_layout_head_b(
    s: Seq<u8>,
    cloud: int,
    f: Seq<u8>,
    temp: int,
    day: bool,
    fetched: int,
    err: bool,
)
    requires
        i64::MIN <= temp <= i64::MAX,
        s == spec_weather_layout(cloud, f, temp, day, fetched, err),
    ensures
        ({
            let m = spec_weather_marks(cloud, f, temp, day, fetched);
            &&& spec_parse_jstring(s, m[2]) == Option::Some((f, m[3]))
            &&& spec_match(s, m[3], lit_key_temperature()) == Option::Some(m[4])
            &&& spec_parse_i64(s, m[4]) == Option::Some((temp, m[5]))
        }),
{
    let a = lit_obj_cloud();
    let n1 = spec_dec_signed(cloud);
    let b = lit_key_forecast();
    let e = spec_escape(f);
    let c = lit_key_temperature();
    let n2 = spec_dec_signed(temp);
    let p1 = a.len() as int;
    let p2 = p1 + n1.len();
    let p3 = p2 + b.len();
    let p4 = p3 + e.len() + 1;
    let p5 = p4 + c.len();
    let p6 = p5 + n2.len();

    assert(s.subrange(p3, p3 + e.len() as int) =~= e);
    assert(s[p3 + e.len()] == 0x22);
    lemma_escape_roundtrip(f, s, p3);
    assert(spec_parse_jstring(s, p3) == Option::Some((f, p4)));

    assert(s.subrange(p4, p5) =~= c);
    assert(spec_match(s, p4, c) == Option::Some(p5));

    assert(s.subrange(p5, p6) =~= n2);
    assert(s[p6] == 0x2C);
    lemma_parse_dec_signed_exact(s, p5, temp);
    assert(spec_parse_i64(s, p5) == Option::Some((temp, p6)));
}

#[verifier::rlimit(100)]
#[verifier::spinoff_prover]
proof fn lemma_weather_layout_tail(
    s: Seq<u8>,
    cloud: int,
    f: Seq<u8>,
    temp: int,
    day: bool,
    fetched: int,
    err: bool,
)
    requires
        i64::MIN <= fetched <= i64::MAX,
        s == spec_weather_layout(cloud, f, temp, day, fetched, err),
    ensures
        ({
            let m = spec_weather_marks(cloud, f, temp, day, fetched);
            &&& spec_match(s, m[5], lit_key_is_day()) == Option::Some(m[6])
            &&& spec_parse_bool(s, m[6]) == Option::Some((day, m[7]))
            &&& spec_match(s, m[7], lit_key_fetched()) == Option::Some(m[8])
            &&& spec_parse_i64(s, m[8]) == Option::Some((fetched, m[9]))
            &&& spec_match(s, m[9], lit_key_error()) == Option::Some(m[10])
            &&& (err ==> spec_match(s, m[10], lit_err_fetch()) == Option::Some(s.len() as int))
            &&& (!err ==> spec_match(s, m[10], lit_err_fetch()) is None && spec_match(
                s,
                m[10],
                lit_err_null(),
            ) == Option::Some(s.len() as int))
        }),
{
    let d = lit_key_is_day();
    let bl = spec_bool_lit(day);
    let g = lit_key_fetched();
    let n3 = spec_dec_signed(fetched);
    let h = lit_key_error();
    let m = spec_weather_marks(cloud, f, temp, day, fetched);
    let p6 = m[5];
    let p7 = p6 + d.len();
    let p8 = p7 + bl.len();
    let p9 = p8 + g.len();
    let p10 = p9 + n3.len();
    let p11 = p10 + h.len();

    assert(s.subrange(p6, p7) =~= d);
    assert(spec_match(s, p6, d) == Option::Some(p7));

    if day {
        assert(s.subrange(p7, p8) =~= lit_lit_true());
        assert(spec_parse_bool(s, p7) == Option::Some((true, p8)));
    } else {
        assert(s[p7] == 0x66);
        if spec_match(s, p7, lit_lit_true()) is Some {
            assert(s.subrange(p7, p7 + 4)[0] == s[p7]);
            assert(false);
        }
        assert(s.subrange(p7, p8) =~= lit_lit_false());
        assert(spec_parse_bool(s, p7) == Option::Some((false, p8)));
    }

    assert(s.subrange(p8, p9) =~= g);
    assert(spec_match(s, p8, g) == Option::Some(p9));

    assert(s.subrange(p9, p10) =~= n3);
    assert(s[p10] == 0x2C);
    lemma_parse_dec_signed_exact(s, p9, fetched);
    assert(spec_parse_i64(s, p9) == Option::Some((fetched, p10)));

    assert(s.subrange(p10, p11) =~= h);
    assert(spec_match(s, p10, h) == Option::Some(p11));

    if err {
        assert(s.subrange(p11, p11 + lit_err_fetch().len() as int) =~= lit_err_fetch());
        assert(spec_match(s, p11, lit_err_fetch()) == Option::Some(s.len() as int));
    } else {
        assert(p11 + lit_err_fetch().len() > s.len());
        assert(spec_match(s, p11, lit_err_fetch()) is None);
        assert(s.subrange(p11, p11 + lit_err_null().len() as int) =~= lit_err_null());
        assert(spec_match(s, p11, lit_err_null()) == Option::Some(s.len() as int));
    }
}

#[verifier::spinoff_prover]
proof fn lemma_weather_layout_parses(
    s: Seq<u8>,
    cloud: int,
    f: Seq<u8>,
    temp: int,
    day: bool,
    fetched: int,
    err: bool,
)
    requires
        i32::MIN <= cloud <= i32::MAX,
        i64::MIN <= temp <= i64::MAX,
        i64::MIN <= fetched <= i64::MAX,
        s == spec_weather_layout(cloud, f, temp, day, fetched, err),
    ensures
        spec_parse_weather(s) == Option::Some((cloud, f, temp, day, fetched, err)),
{
    lemma_weather_layout_head_a(s, cloud, f, temp, day, fetched, err);
    lemma_weather_layout_head_b(s, cloud, f, temp, day, fetched, err);
    lemma_weather_layout_tail(s, cloud, f, temp, day, fetched, err);
}

/// Round trip of the persisted weather snapshot: parsing the
/// canonical encoding of a good snapshot recovers every field with no
/// error mark, and parsing that of an error snapshot yields the
/// zeroed payload -- cloud cover included -- with the error mark set.
#[verifier::spinoff_prover]
pub proof fn lemma_weather_cache_roundtrip(wd: WeatherData)
    ensures
        wd.has_error ==> spec_parse_weather(spec_encode_weather(wd)) == Option::Some(
            (0int, Seq::<u8>::empty(), 0int, true, wd.fetched_at as int, true),
        ),
        !wd.has_error ==> spec_parse_weather(spec_encode_weather(wd)) == Option::Some(
            (
                wd.cloud_cover as int,
                wd.forecast@,
                wd.temperature as int,
                wd.is_day,
                wd.fetched_at as int,
                false,
            ),
        ),
{
    let s = spec_encode_weather(wd);
    if wd.has_error {
        assert(spec_escape(Seq::<u8>::empty()) =~= Seq::<u8>::empty());
        assert(s =~= spec_weather_layout(0, Seq::empty(), 0, true, wd.fetched_at as int, true));
        lemma_weather_layout_parses(s, 0, Seq::empty(), 0, true, wd.fetched_at as int, true);
    } else {
        assert(s =~= spec_weather_layout(
            wd.cloud_cover as int,
            wd.forecast@,
            wd.temperature as int,
            wd.is_day,
            wd.fetched_at as int,
            false,
        ));
        lemma_weather_layout_parses(
            s,
            wd.cloud_cover as int,
            wd.forecast@,
            wd.temperature as int,
            wd.is_day,
            wd.fetched_at as int,
            false,
        );
    }
}

} // verus!
