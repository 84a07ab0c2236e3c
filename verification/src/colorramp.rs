//! Gamma-ramp synthesis: per-channel 16-bit lookup tables for a
//! Kelvin temperature and a brightness.
//!
//! The white point is a piecewise-linear table of per-channel scale
//! factors in Q8 (256 is 1.0), anchored at a handful of temperatures
//! between the warm and cool ends of the supported range. Every ramp
//! entry is `scale * brightness * i / (size - 1)` rescaled into the
//! 16-bit range and clamped; entries are monotonically non-decreasing
//! along each channel.

use vstd::prelude::*;
use vstd::arithmetic::div_mod::{lemma_div_is_ordered, lemma_div_pos_is_pos};
use vstd::arithmetic::mul::lemma_mul_inequality;
use crate::fixed::lemma_mul_div_le;
use crate::{TEMP_MAX, TEMP_MIN};

verus! {

/// Q8 unit of the white-point scale factors.
pub const SCALE_UNIT: u16 = 256;

/// Unit of the brightness argument: 1000 is full brightness.
pub const BRIGHT_UNIT: u32 = 1000;

/// Largest per-head ramp size the synthesis accepts.
pub const RAMP_SIZE_MAX: usize = 65536;

/// Linear interpolation between the anchor scales `s0` at `k0` and
/// `s1` at `k1`, evaluated at `k`.
pub open spec fn spec_interp_scale(k: int, k0: int, k1: int, s0: int, s1: int) -> int {
    if s1 >= s0 {
        s0 + (s1 - s0) * (k - k0) / (k1 - k0)
    } else {
        s0 - (s0 - s1) * (k - k0) / (k1 - k0)
    }
}

/// The white-point table: Q8 scale factors (red, green, blue) for a
/// supported Kelvin temperature. Warm ends keep red at unit and fade
/// green and blue out; cool ends keep blue at unit.
pub open spec fn spec_scales(k: int) -> (int, int, int) {
    if k < 2000 {
        (256, spec_interp_scale(k, 1000, 2000, 46, 137), spec_interp_scale(k, 1000, 2000, 0, 18))
    } else if k < 3000 {
        (256, spec_interp_scale(k, 2000, 3000, 137, 180), spec_interp_scale(k, 2000, 3000, 18, 89))
    } else if k < 4000 {
        (256, spec_interp_scale(k, 3000, 4000, 180, 209), spec_interp_scale(k, 3000, 4000, 89, 138))
    } else if k < 5000 {
        (
            256,
            spec_interp_scale(k, 4000, 5000, 209, 228),
            spec_interp_scale(k, 4000, 5000, 138, 179),
        )
    } else if k < 6500 {
        (
            256,
            spec_interp_scale(k, 5000, 6500, 228, 256),
            spec_interp_scale(k, 5000, 6500, 179, 256),
        )
    } else if k < 10000 {
        (
            spec_interp_scale(k, 6500, 10000, 256, 201),
            spec_interp_scale(k, 6500, 10000, 256, 216),
            256,
        )
    } else if k < 15000 {
        (
            spec_interp_scale(k, 10000, 15000, 201, 177),
            spec_interp_scale(k, 10000, 15000, 216, 198),
            256,
        )
    } else {
        (
            spec_interp_scale(k, 15000, 25000, 177, 160),
            spec_interp_scale(k, 15000, 25000, 198, 186),
            256,
        )
    }
}

/// Interpolate between two anchors; the result stays between them.
fn interp_scale(k: i32, k0: i32, k1: i32, s0: u16, s1: u16) -> (r: u16)
    requires
        k0 <= k <= k1,
        k0 < k1,
        TEMP_MIN <= k0,
        k1 <= TEMP_MAX,
        s0 <= SCALE_UNIT,
        s1 <= SCALE_UNIT,
    ensures
        r == spec_interp_scale(k as int, k0 as int, k1 as int, s0 as int, s1 as int),
        r <= SCALE_UNIT,
{
    let dk: i64 = (k1 - k0) as i64;
    let off: i64 = (k - k0) as i64;
    proof {
        assert(forall|d: int| 0 <= d <= 256 ==> #[trigger] (d * off) <= 256 * off) by {
            assert forall|d: int| 0 <= d <= 256 implies #[trigger] (d * off) <= 256 * off by {
                lemma_mul_inequality(d, 256, off as int);
            }
        }
        assert(256 * off <= 256 * 24000);
    }
    if s1 >= s0 {
        proof {
            lemma_mul_div_le((s1 - s0) as int, off as int, dk as int);
        }
        let add: i64 = (s1 - s0) as i64 * off / dk;
        (s0 as i64 + add) as u16
    } else {
        proof {
            lemma_mul_div_le((s0 - s1) as int, off as int, dk as int);
        }
        let sub: i64 = (s0 - s1) as i64 * off / dk;
        (s0 as i64 - sub) as u16
    }
}

/// White-point scale factors for a supported temperature.
pub fn kelvin_to_scales(k: i32) -> (r: (u16, u16, u16))
    requires
        TEMP_MIN <= k <= TEMP_MAX,
    ensures
        (r.0 as int, r.1 as int, r.2 as int) == spec_scales(k as int),
        r.0 <= SCALE_UNIT,
        r.1 <= SCALE_UNIT,
        r.2 <= SCALE_UNIT,
{
    if k < 2000 {
        (256, interp_scale(k, 1000, 2000, 46, 137), interp_scale(k, 1000, 2000, 0, 18))
    } else if k < 3000 {
        (256, interp_scale(k, 2000, 3000, 137, 180), interp_scale(k, 2000, 3000, 18, 89))
    } else if k < 4000 {
        (256, interp_scale(k, 3000, 4000, 180, 209), interp_scale(k, 3000, 4000, 89, 138))
    } else if k < 5000 {
        (256, interp_scale(k, 4000, 5000, 209, 228), interp_scale(k, 4000, 5000, 138, 179))
    } else if k < 6500 {
        (256, interp_scale(k, 5000, 6500, 228, 256), interp_scale(k, 5000, 6500, 179, 256))
    } else if k < 10000 {
        (interp_scale(k, 6500, 10000, 256, 201), interp_scale(k, 6500, 10000, 256, 216), 256)
    } else if k < 15000 {
        (interp_scale(k, 10000, 15000, 201, 177), interp_scale(k, 10000, 15000, 216, 198), 256)
    } else {
        (interp_scale(k, 15000, 25000, 177, 160), interp_scale(k, 15000, 25000, 198, 186), 256)
    }
}

/// Ramp entry `i` of `size` for a Q8 scale and a per-mille
/// brightness: the linear ramp scaled by both, rescaled to 16 bits.
pub open spec fn spec_ramp_entry(scale: int, bright: int, size: int, i: int) -> int {
    let v = scale * bright * i * 65535 / ((size - 1) * (SCALE_UNIT as int) * (BRIGHT_UNIT as int));
    if v > 65535 {
        65535
    } else {
        v
    }
}

/// Ramp entries never exceed the 16-bit range and grow with `i`.
pub proof fn lemma_ramp_entry_monotonic(scale: int, bright: int, size: int, i: int, j: int)
    requires
        0 <= scale,
        0 <= bright,
        2 <= size,
        0 <= i <= j,
    ensures
        0 <= spec_ramp_entry(scale, bright, size, i) <= spec_ramp_entry(scale, bright, size, j)
            <= 65535,
{
    let den = (size - 1) * (SCALE_UNIT as int) * (BRIGHT_UNIT as int);
    assert(den > 0) by (nonlinear_arith)
        requires
            den == (size - 1) * (SCALE_UNIT as int) * (BRIGHT_UNIT as int),
            size >= 2,
    ;
    assert(scale * bright * i * 65535 <= scale * bright * j * 65535) by (nonlinear_arith)
        requires
            0 <= scale,
            0 <= bright,
            0 <= i <= j,
    ;
    lemma_div_is_ordered(scale * bright * i * 65535, scale * bright * j * 65535, den);
    lemma_div_pos_is_pos(scale * bright * i * 65535, den);
}

/// Compute one ramp entry.
fn ramp_entry(scale: u16, bright: u32, size: usize, i: usize) -> (r: u16)
    requires
        scale <= SCALE_UNIT,
        1 <= bright <= BRIGHT_UNIT,
        2 <= size <= RAMP_SIZE_MAX,
        i < size,
    ensures
        r == spec_ramp_entry(scale as int, bright as int, size as int, i as int),
{
    proof {
        assert((scale as int) * (bright as int) <= 256000) by (nonlinear_arith)
            requires
                0 <= scale <= 256,
                0 <= bright <= 1000,
        ;
    }
    let a: u64 = scale as u64 * bright as u64;
    proof {
        assert((a as int) * (i as int) <= 256000 * 65535) by (nonlinear_arith)
            requires
                0 <= a <= 256000,
                0 <= i < 65536,
        ;
    }
    let m: u64 = a * i as u64;
    proof {
        assert((m as int) * 65535 <= 16780000000 * 65535) by (nonlinear_arith)
            requires
                0 <= m <= 16780000000,
        ;
    }
    let num: u64 = m * 65535;
    proof {
        assert(((size as int) - 1) * 256 <= 65535 * 256) by (nonlinear_arith)
            requires
                2 <= size <= 65536,
        ;
    }
    let d1: u64 = (size as u64 - 1) * SCALE_UNIT as u64;
    let den: u64 = d1 * BRIGHT_UNIT as u64;
    proof {
        assert(den > 0 && num == (scale as int) * (bright as int) * (i as int) * 65535 && den == (
        (size as int) - 1) * 256 * 1000) by (nonlinear_arith)
            requires
                a == (scale as int) * (bright as int),
                m == (a as int) * (i as int),
                num == (m as int) * 65535,
                d1 == ((size as int) - 1) * 256,
                den == (d1 as int) * 1000,
                size >= 2,
        ;
        lemma_div_pos_is_pos(num as int, den as int);
    }
    let v: u64 = num / den;
    if v > 65535 {
        65535
    } else {
        v as u16
    }
}

/// Fill the three per-channel ramps for `temp` and `bright`.
///
/// Every entry follows `spec_ramp_entry` over the white-point scales
/// of `temp`; consequently each channel is monotonically
/// non-decreasing and clamped into the 16-bit range.
pub fn fill_gamma_ramps(
    temp: i32,
    size: usize,
    r: &mut Vec<u16>,
    g: &mut Vec<u16>,
    b: &mut Vec<u16>,
    bright: u32,
) -> (res: Result<(), crate::gamma::Error>)
    requires
        2 <= size <= RAMP_SIZE_MAX,
        1 <= bright <= BRIGHT_UNIT,
    ensures
        match res {
            Ok(()) => {
                &&& TEMP_MIN <= temp <= TEMP_MAX
                &&& final(r)@.len() == size
                &&& final(g)@.len() == size
                &&& final(b)@.len() == size
                &&& forall|i: int|
                    0 <= i < size ==> final(r)@[i] == spec_ramp_entry(
                        spec_scales(temp as int).0,
                        bright as int,
                        size as int,
                        i,
                    )
                &&& forall|i: int|
                    0 <= i < size ==> final(g)@[i] == spec_ramp_entry(
                        spec_scales(temp as int).1,
                        bright as int,
                        size as int,
                        i,
                    )
                &&& forall|i: int|
                    0 <= i < size ==> final(b)@[i] == spec_ramp_entry(
                        spec_scales(temp as int).2,
                        bright as int,
                        size as int,
                        i,
                    )
                &&& forall|i: int, j: int|
                    0 <= i <= j < size ==> final(r)@[i] <= final(r)@[j] && final(g)@[i] <= final(g)@[j]
                        && final(b)@[i] <= final(b)@[j]
            },
            Err(e) => e == crate::gamma::Error::InvalidTemp && !(TEMP_MIN <= temp <= TEMP_MAX)
                && final(r)@ == old(r)@ && final(g)@ == old(g)@ && final(b)@ == old(b)@,
        },
{
    if temp < TEMP_MIN || temp > TEMP_MAX {
        return Err(crate::gamma::Error::InvalidTemp);
    }
    let (sr, sg, sb) = kelvin_to_scales(temp);

    r.clear();
    g.clear();
    b.clear();
    let mut i: usize = 0;
    while i < size
        invariant
            0 <= i <= size,
            2 <= size <= RAMP_SIZE_MAX,
            1 <= bright <= BRIGHT_UNIT,
            sr <= SCALE_UNIT,
            sg <= SCALE_UNIT,
            sb <= SCALE_UNIT,
            r@.len() == i,
            g@.len() == i,
            b@.len() == i,
            forall|q: int|
                0 <= q < i ==> r@[q] == spec_ramp_entry(sr as int, bright as int, size as int, q),
            forall|q: int|
                0 <= q < i ==> g@[q] == spec_ramp_entry(sg as int, bright as int, size as int, q),
            forall|q: int|
                0 <= q < i ==> b@[q] == spec_ramp_entry(sb as int, bright as int, size as int, q),
        decreases size - i,
    {
        r.push(ramp_entry(sr, bright, size, i));
        g.push(ramp_entry(sg, bright, size, i));
        b.push(ramp_entry(sb, bright, size, i));
        i = i + 1;
    }
    proof {
        assert forall|i: int, j: int| 0 <= i <= j < size implies r@[i] <= r@[j] && g@[i] <= g@[j]
            && b@[i] <= b@[j] by {
            lemma_ramp_entry_monotonic(sr as int, bright as int, size as int, i, j);
            lemma_ramp_entry_monotonic(sg as int, bright as int, size as int, i, j);
            lemma_ramp_entry_monotonic(sb as int, bright as int, size as int, i, j);
        }
    }
    Ok(())
}

} // verus!
