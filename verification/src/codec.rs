//! Canonical decimal numerals on byte buffers.
//!
//! The persisted-state files carry integers in canonical form: no
//! leading zeros, a single optional minus sign. Encoding and parsing
//! are exact inverses, which the round-trip lemmas at the bottom
//! establish for any value.

use vstd::prelude::*;
use vstd::arithmetic::div_mod::{
    lemma_div_decreases, lemma_div_pos_is_pos, lemma_fundamental_div_mod,
};
verus! {

/// ASCII digit test.
pub open spec fn is_digit(b: u8) -> bool {
    0x30 <= b <= 0x39
}

/// 10^n.
pub open spec fn pow10(n: nat) -> int
    decreases n,
{
    if n == 0 {
        1
    } else {
        10 * pow10((n - 1) as nat)
    }
}

proof fn lemma_pow10_pos(n: nat)
    ensures
        pow10(n) >= 1,
    decreases n,
{
    if n > 0 {
        lemma_pow10_pos((n - 1) as nat);
    }
}

pub proof fn lemma_pow10_le(a: nat, b: nat)
    requires
        a <= b,
    ensures
        pow10(a) <= pow10(b),
    decreases b,
{
    if a < b {
        lemma_pow10_le(a, (b - 1) as nat);
        lemma_pow10_pos((b - 1) as nat);
    }
}

/// Digit sequence of a positive value; empty for zero and below.
pub open spec fn spec_dec_digits(n: int) -> Seq<u8>
    decreases n,
{
    if n <= 0 {
        Seq::empty()
    } else {
        spec_dec_digits(n / 10).push((0x30 + n % 10) as u8)
    }
}

/// Canonical decimal numeral of a non-negative value.
pub open spec fn spec_dec(n: int) -> Seq<u8> {
    if n == 0 {
        seq![0x30u8]
    } else {
        spec_dec_digits(n)
    }
}

/// Canonical decimal numeral of any value, minus sign included.
pub open spec fn spec_dec_signed(n: int) -> Seq<u8> {
    if n < 0 {
        seq![0x2Du8] + spec_dec(-n)
    } else {
        spec_dec(n)
    }
}

/// Value of a digit string, most significant first.
pub open spec fn spec_dec_val(s: Seq<u8>) -> int
    decreases s.len(),
{
    if s.len() == 0 {
        0
    } else {
        spec_dec_val(s.drop_last()) * 10 + (s.last() - 0x30)
    }
}

/// Every byte of `spec_dec_digits` is a digit, the string is no
/// longer than any power of ten bounding the value, it is non-empty
/// for positive values, and it evaluates back to the value.
pub proof fn lemma_dec_digits_facts(n: int)
    requires
        n >= 0,
    ensures
        forall|i: int| 0 <= i < spec_dec_digits(n).len() ==> is_digit(#[trigger] spec_dec_digits(n)[i]),
        n > 0 ==> spec_dec_digits(n).len() >= 1,
        spec_dec_val(spec_dec_digits(n)) == n,
        n < pow10(spec_dec_digits(n).len() as nat + 1),
    decreases n,
{
    if n <= 0 {
        lemma_pow10_pos(spec_dec_digits(n).len() as nat + 1);
    } else {
        lemma_div_pos_is_pos(n, 10);
        lemma_div_decreases(n, 10);
        lemma_dec_digits_facts(n / 10);
        lemma_fundamental_div_mod(n, 10);
        let s = spec_dec_digits(n);
        assert(s.drop_last() =~= spec_dec_digits(n / 10));
        assert(n / 10 < pow10(spec_dec_digits(n / 10).len() as nat + 1));
        assert(n < pow10(s.len() as nat + 1));
    }
}

/// A value below 10^k has at most k digits.
pub proof fn lemma_dec_digits_len(n: int, k: nat)
    requires
        0 <= n < pow10(k),
    ensures
        spec_dec_digits(n).len() <= k,
    decreases n,
{
    if n > 0 {
        if k == 0 {
            lemma_pow10_pos(k);
            assert(false);
        } else {
            lemma_div_pos_is_pos(n, 10);
            lemma_div_decreases(n, 10);
            assert(n / 10 < pow10((k - 1) as nat)) by {
                lemma_fundamental_div_mod(n, 10);
            }
            lemma_dec_digits_len(n / 10, (k - 1) as nat);
        }
    }
}

/// A digit string's value stays below ten to its length.
pub proof fn lemma_dec_val_upper(d: Seq<u8>)
    requires
        forall|q: int| 0 <= q < d.len() ==> is_digit(#[trigger] d[q]),
    ensures
        0 <= spec_dec_val(d) < pow10(d.len() as nat),
    decreases d.len(),
{
    if d.len() == 0 {
    } else {
        let dl = d.drop_last();
        assert(forall|q: int| 0 <= q < dl.len() ==> #[trigger] dl[q] == d[q]);
        lemma_dec_val_upper(dl);
        assert(is_digit(d[d.len() - 1]));
        assert(d.last() == d[d.len() - 1]);
        assert(pow10(d.len() as nat) == 10 * pow10((d.len() - 1) as nat));
    }
}

/// Append the digits of `m` (nothing for zero).
fn push_dec_digits(m: u64, out: &mut Vec<u8>)
    ensures
        final(out)@ == old(out)@ + spec_dec_digits(m as int),
    decreases m,
{
    if m > 0 {
        proof {
            lemma_div_pos_is_pos(m as int, 10);
            lemma_div_decreases(m as int, 10);
        }
        push_dec_digits(m / 10, out);
        out.push(0x30 + (m % 10) as u8);
        assert(out@ =~= old(out)@ + spec_dec_digits(m as int));
    } else {
        assert(out@ =~= old(out)@ + spec_dec_digits(m as int));
    }
}

/// Append the canonical numeral of an unsigned value.
pub fn push_dec_u64(n: u64, out: &mut Vec<u8>)
    ensures
        final(out)@ == old(out)@ + spec_dec(n as int),
{
    if n == 0 {
        out.push(0x30);
        assert(out@ =~= old(out)@ + spec_dec(0));
    } else {
        push_dec_digits(n, out);
    }
}

/// Append the canonical numeral of a signed value.
pub fn push_dec_i64(n: i64, out: &mut Vec<u8>)
    ensures
        final(out)@ == old(out)@ + spec_dec_signed(n as int),
{
    if n < 0 {
        out.push(0x2D);
        let ghost mid = out@;
        let mag: u64 = if n == i64::MIN {
            9223372036854775808u64
        } else {
            (-n) as u64
        };
        push_dec_u64(mag, out);
        assert(out@ =~= old(out)@ + spec_dec_signed(n as int));
    } else {
        push_dec_u64(n as u64, out);
    }
}

/// End of the digit run starting at `i`.
pub open spec fn spec_digits_end(s: Seq<u8>, i: int) -> int
    decreases s.len() - i,
{
    if 0 <= i < s.len() && is_digit(s[i]) {
        spec_digits_end(s, i + 1)
    } else {
        i
    }
}

pub proof fn lemma_digits_end_bounds(s: Seq<u8>, i: int)
    requires
        0 <= i <= s.len(),
    ensures
        i <= spec_digits_end(s, i) <= s.len(),
        forall|j: int| i <= j < spec_digits_end(s, i) ==> is_digit(#[trigger] s[j]),
        spec_digits_end(s, i) < s.len() ==> !is_digit(s[spec_digits_end(s, i)]),
    decreases s.len() - i,
{
    if i < s.len() && is_digit(s[i]) {
        lemma_digits_end_bounds(s, i + 1);
    }
}

/// Greedy unsigned parse at `i`: the value and the index after the
/// digits, `None` without a digit or past 19 of them.
pub open spec fn spec_parse_u64(s: Seq<u8>, i: int) -> Option<(int, int)> {
    let e = spec_digits_end(s, i);
    if e == i || e - i > 19 {
        Option::None
    } else {
        Option::Some((spec_dec_val(s.subrange(i, e)), e))
    }
}

/// Signed parse at `i`: an optional minus sign, then digits; `None`
/// when the magnitude does not fit an `i64`.
pub open spec fn spec_parse_i64(s: Seq<u8>, i: int) -> Option<(int, int)> {
    if 0 <= i < s.len() && s[i] == 0x2D {
        match spec_parse_u64(s, i + 1) {
            Option::Some((v, e)) => if v <= 0x8000000000000000 {
                Option::Some((-v, e))
            } else {
                Option::None
            },
            Option::None => Option::None,
        }
    } else {
        match spec_parse_u64(s, i) {
            Option::Some((v, e)) => if v <= 0x7FFFFFFFFFFFFFFF {
                Option::Some((v, e))
            } else {
                Option::None
            },
            Option::None => Option::None,
        }
    }
}

/// Greedy unsigned decimal parse, exact per `spec_parse_u64`.
pub fn parse_u64(buf: &[u8], i: usize) -> (r: Option<(u64, usize)>)
    requires
        i <= buf@.len(),
    ensures
        match r {
            Option::Some((v, e)) => spec_parse_u64(buf@, i as int) == Option::Some(
                (v as int, e as int),
            ) && i < e <= buf@.len(),
            Option::None => spec_parse_u64(buf@, i as int) is None,
        },
{
    proof {
        lemma_digits_end_bounds(buf@, i as int);
    }
    let ghost ge = spec_digits_end(buf@, i as int);
    let mut j: usize = i;
    let mut val: u64 = 0;
    while j < buf.len() && buf[j] >= 0x30 && buf[j] <= 0x39 && j - i < 19
        invariant
            i <= j <= buf@.len(),
            j - i <= 19,
            j <= ge <= buf@.len(),
            ge == spec_digits_end(buf@, j as int),
            val == spec_dec_val(buf@.subrange(i as int, j as int)),
            val < pow10((j - i) as nat),
            forall|q: int| i <= q < ge ==> is_digit(#[trigger] buf@[q]),
            ge < buf@.len() ==> !is_digit(buf@[ge]),
        decreases buf@.len() - j,
    {
        proof {
            lemma_pow10_le((j - i) as nat, 18);
            assert(pow10(18) == 1000000000000000000) by {
                reveal_with_fuel(pow10, 19);
            }
            assert(buf@.subrange(i as int, j + 1).drop_last() =~= buf@.subrange(
                i as int,
                j as int,
            ));
        }
        val = val * 10 + (buf[j] - 0x30) as u64;
        j = j + 1;
    }
    if j == i {
        return Option::None;
    }
    if j < buf.len() && buf[j] >= 0x30 && buf[j] <= 0x39 {
        // a twentieth digit: magnitude out of range
        assert(ge - i > 19) by {
            assert(ge == spec_digits_end(buf@, j as int));
        }
        return Option::None;
    }
    assert(ge == j);
    Option::Some((val, j))
}

/// Signed decimal parse, exact per `spec_parse_i64`.
pub fn parse_i64(buf: &[u8], i: usize) -> (r: Option<(i64, usize)>)
    requires
        i <= buf@.len(),
    ensures
        match r {
            Option::Some((v, e)) => spec_parse_i64(buf@, i as int) == Option::Some(
                (v as int, e as int),
            ) && i < e <= buf@.len(),
            Option::None => spec_parse_i64(buf@, i as int) is None,
        },
{
    if i < buf.len() && buf[i] == 0x2D {
        match parse_u64(buf, i + 1) {
            Option::Some((v, e)) => {
                if v < 9223372036854775808u64 {
                    Option::Some((-(v as i64), e))
                } else if v == 9223372036854775808u64 {
                    Option::Some((i64::MIN, e))
                } else {
                    Option::None
                }
            },
            Option::None => Option::None,
        }
    } else {
        match parse_u64(buf, i) {
            Option::Some((v, e)) => {
                if v <= 0x7FFFFFFFFFFFFFFFu64 {
                    Option::Some((v as i64, e))
                } else {
                    Option::None
                }
            },
            Option::None => Option::None,
        }
    }
}

/// In a buffer that continues with the numeral of `n` at `i` and no
/// digit right after it, the unsigned parse returns exactly `n` and
/// stops exactly after the numeral.
pub proof fn lemma_parse_dec_exact(s: Seq<u8>, i: int, n: int)
    requires
        0 <= n <= 0x8000000000000000,
        0 <= i,
        i + spec_dec(n).len() <= s.len(),
        s.subrange(i, i + spec_dec(n).len() as int) == spec_dec(n),
        i + spec_dec(n).len() < s.len() ==> !is_digit(s[i + spec_dec(n).len()]),
    ensures
        spec_parse_u64(s, i) == Option::Some((n, i + spec_dec(n).len() as int)),
{
    let d = spec_dec(n);
    lemma_dec_digits_facts(n);
    assert(forall|q: int| 0 <= q < d.len() ==> is_digit(#[trigger] d[q]));
    lemma_digits_end_bounds(s, i);
    let e = spec_digits_end(s, i);
    assert forall|q: int| i <= q < i + d.len() implies is_digit(#[trigger] s[q]) by {
        assert(s[q] == s.subrange(i, i + d.len() as int)[q - i]);
    }
    // the digit run ends exactly at the end of the numeral
    lemma_digits_end_at(s, i, i + d.len() as int);
    assert(e == i + d.len());
    assert(n < pow10(19)) by {
        reveal_with_fuel(pow10, 20);
    }
    lemma_dec_digits_len(n, 19);
    assert(d.len() <= 19);
    assert(s.subrange(i, e) =~= d);
    assert(spec_dec_val(d) == n) by {
        if n == 0 {
            assert(d =~= seq![0x30u8]);
            assert(d.drop_last() =~= Seq::<u8>::empty());
        }
    }
}

/// A run of digits of length `l` starting at `i` with a non-digit (or
/// the buffer end) after it has its digit run ending exactly there.
proof fn lemma_digits_end_at(s: Seq<u8>, i: int, stop: int)
    requires
        0 <= i <= stop <= s.len(),
        forall|q: int| i <= q < stop ==> is_digit(#[trigger] s[q]),
        stop < s.len() ==> !is_digit(s[stop]),
    ensures
        spec_digits_end(s, i) == stop,
    decreases stop - i,
{
    if i < stop {
        lemma_digits_end_at(s, i + 1, stop);
    }
}

/// A digit string of length `l` starting with a non-zero digit has a
/// value of at least 10^(l-1); canonical numerals do start so.
proof fn lemma_dec_val_lower_bound(d: Seq<u8>)
    requires
        d.len() >= 1,
        forall|q: int| 0 <= q < d.len() ==> is_digit(#[trigger] d[q]),
        d[0] > 0x30,
    ensures
        spec_dec_val(d) >= pow10((d.len() - 1) as nat),
    decreases d.len(),
{
    assert(is_digit(d[d.len() - 1]));
    assert(d.last() == d[d.len() - 1]);
    if d.len() == 1 {
        assert(d.drop_last() =~= Seq::<u8>::empty());
        assert(spec_dec_val(d) == spec_dec_val(d.drop_last()) * 10 + (d.last() - 0x30));
        assert(spec_dec_val(d.drop_last()) == 0);
        assert(pow10(0) == 1);
    } else {
        let dl = d.drop_last();
        assert(dl[0] == d[0]);
        assert(forall|q: int| 0 <= q < d.len() - 1 ==> #[trigger] dl[q] == d[q]);
        lemma_dec_val_lower_bound(dl);
        lemma_pow10_pos((d.len() - 2) as nat);
        let p = pow10((d.len() - 2) as nat);
        assert(spec_dec_val(dl) >= p);
        assert(spec_dec_val(dl) * 10 >= p * 10);
        assert(pow10((d.len() - 1) as nat) == 10 * p);
        assert(spec_dec_val(d) == spec_dec_val(dl) * 10 + (d.last() - 0x30));
    }
}

/// Canonical numerals of positive values start with a non-zero digit.
proof fn lemma_dec_digits_leading(n: int)
    requires
        n > 0,
    ensures
        spec_dec_digits(n).len() >= 1,
        spec_dec_digits(n)[0] != 0x30,
    decreases n,
{
    lemma_dec_digits_facts(n);
    if n < 10 {
        assert(spec_dec_digits(n / 10) =~= Seq::<u8>::empty()) by {
            lemma_div_pos_is_pos(n, 10);
            vstd::arithmetic::div_mod::lemma_basic_div(n, 10);
        }
        lemma_fundamental_div_mod(n, 10);
    } else {
        lemma_div_pos_is_pos(n, 10);
        lemma_dec_digits_leading(n / 10);
    }
}

/// Signed variant of `lemma_parse_dec_exact`.
pub proof fn lemma_parse_dec_signed_exact(s: Seq<u8>, i: int, n: int)
    requires
        i64::MIN <= n <= i64::MAX,
        0 <= i,
        i + spec_dec_signed(n).len() <= s.len(),
        s.subrange(i, i + spec_dec_signed(n).len() as int) == spec_dec_signed(n),
        i + spec_dec_signed(n).len() < s.len() ==> !is_digit(s[i + spec_dec_signed(n).len()]),
    ensures
        spec_parse_i64(s, i) == Option::Some((n, i + spec_dec_signed(n).len() as int)),
{
    let d = spec_dec_signed(n);
    if n < 0 {
        let m = spec_dec(-n);
        assert(d =~= seq![0x2Du8] + m);
        assert(s[i] == 0x2D) by {
            assert(s[i] == s.subrange(i, i + d.len() as int)[0]);
        }
        assert(s.subrange(i + 1, i + 1 + m.len() as int) =~= m) by {
            assert forall|q: int|
                0 <= q < m.len() implies s.subrange(i + 1, i + 1 + m.len() as int)[q]
                == #[trigger] m[q] by {
                assert(s.subrange(i + 1, i + 1 + m.len() as int)[q] == s[i + 1 + q]);
                assert(s[i + 1 + q] == s.subrange(i, i + d.len() as int)[q + 1]);
                assert(d[q + 1] == m[q]);
            }
        }
        lemma_parse_dec_exact(s, i + 1, -n);
        assert(-n <= 0x8000000000000000);
    } else {
        assert(d =~= spec_dec(n));
        lemma_dec_digits_facts(n);
        assert(s[i] == d[0]) by {
            assert(s[i] == s.subrange(i, i + d.len() as int)[0]);
        }
        if n == 0 {
            assert(d[0] == 0x30);
        } else {
            lemma_dec_digits_leading(n);
            assert(is_digit(d[0]));
        }
        assert(s[i] != 0x2D);
        lemma_parse_dec_exact(s, i, n);
    }
}

/// Whether `buf[i..i+pat.len()]` equals `pat`.
pub open spec fn spec_bytes_at(s: Seq<u8>, i: int, pat: Seq<u8>) -> bool {
    0 <= i && i + pat.len() <= s.len() && s.subrange(i, i + pat.len() as int) == pat
}

/// Compare the bytes at `i` with `pat`.
pub fn bytes_match_at(buf: &[u8], i: usize, pat: &[u8]) -> (r: bool)
    requires
        i <= buf@.len(),
    ensures
        r == spec_bytes_at(buf@, i as int, pat@),
{
    if buf.len() - i < pat.len() {
        proof {
            assert(!spec_bytes_at(buf@, i as int, pat@));
        }
        return false;
    }
    let end: usize = i + pat.len();
    let mut j: usize = 0;
    while j < pat.len()
        invariant
            0 <= j <= pat@.len(),
            end == i + pat@.len(),
            end <= buf@.len(),
            forall|q: int| 0 <= q < j ==> buf@[i + q] == #[trigger] pat@[q],
        decreases pat@.len() - j,
    {
        proof {
            assert(i + j < end);
        }
        if buf[i + j] != pat[j] {
            proof {
                assert(buf@.subrange(i as int, i + pat@.len() as int)[j as int] == buf@[i + j]);
            }
            return false;
        }
        j = j + 1;
    }
    proof {
        assert(buf@.subrange(i as int, i + pat@.len() as int) =~= pat@);
    }
    true
}

/// JSON inter-token whitespace.
pub open spec fn is_jws(b: u8) -> bool {
    b == 0x20 || b == 0x09 || b == 0x0A || b == 0x0D
}

/// First index at or after `i` that is not JSON whitespace.
pub open spec fn spec_skip_jws(s: Seq<u8>, i: int) -> int
    decreases s.len() - i,
{
    if 0 <= i < s.len() && is_jws(s[i]) {
        spec_skip_jws(s, i + 1)
    } else {
        i
    }
}

/// The skip lands between `i` and the end, on a non-whitespace byte
/// if any input remains.
pub proof fn lemma_skip_jws_bounds(s: Seq<u8>, i: int)
    requires
        0 <= i <= s.len(),
    ensures
        i <= spec_skip_jws(s, i) <= s.len(),
        spec_skip_jws(s, i) < s.len() ==> !is_jws(s[spec_skip_jws(s, i)]),
    decreases s.len() - i,
{
    if i < s.len() && is_jws(s[i]) {
        lemma_skip_jws_bounds(s, i + 1);
    }
}

/// Skip JSON whitespace, exact per `spec_skip_jws`.
pub fn skip_jws(buf: &[u8], i: usize) -> (r: usize)
    requires
        i <= buf@.len(),
    ensures
        r == spec_skip_jws(buf@, i as int),
        i <= r <= buf@.len(),
{
    let mut j: usize = i;
    while j < buf.len() && (buf[j] == 0x20 || buf[j] == 0x09 || buf[j] == 0x0A || buf[j] == 0x0D)
        invariant
            i <= j <= buf@.len(),
            spec_skip_jws(buf@, i as int) == spec_skip_jws(buf@, j as int),
        decreases buf@.len() - j,
    {
        j = j + 1;
    }
    j
}

} // verus!
