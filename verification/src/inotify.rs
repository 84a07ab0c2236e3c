//! Decoder for the packed event stream an inotify descriptor yields.
//!
//! Each record is a 16-byte header (watch descriptor, mask, cookie,
//! name length, all little-endian) followed by a NUL-padded file
//! name. The decoder walks the records in order, compares each name
//! up to its first NUL against the two watched file names, and
//! reports exactly the per-file flags whose name appears in some
//! complete record; truncated trailing records are ignored.

use vstd::prelude::*;
use crate::{FLAG_CONFIG, FLAG_OVERRIDE};

verus! {

/// Byte length of an inotify event header.
pub const EVENT_HEADER_SIZE: usize = 16;

/// The name-length word of the record at `off`: bytes 12..16 of the
/// header, little-endian.
pub open spec fn spec_name_len(s: Seq<u8>, off: int) -> int {
    s[off + 12] + 256 * (s[off + 13] + 256 * (s[off + 14] + 256 * s[off + 15]))
}

/// First index in [i, end) holding a NUL, or `end`.
pub open spec fn spec_nul_end(s: Seq<u8>, i: int, end: int) -> int
    decreases end - i,
{
    if i < end && s[i] != 0 {
        spec_nul_end(s, i + 1, end)
    } else {
        i
    }
}

proof fn lemma_nul_end_bounds(s: Seq<u8>, i: int, end: int)
    requires
        0 <= i <= end <= s.len(),
    ensures
        i <= spec_nul_end(s, i, end) <= end,
    decreases end - i,
{
    if i < end && s[i] != 0 {
        lemma_nul_end_bounds(s, i + 1, end);
    }
}

proof fn lemma_nul_end_at(s: Seq<u8>, i: int, end: int, stop: int)
    requires
        0 <= i <= stop <= end <= s.len(),
        forall|q: int| i <= q < stop ==> s[q] != 0,
        stop < end ==> s[stop] == 0,
    ensures
        spec_nul_end(s, i, end) == stop,
    decreases stop - i,
{
    if i < stop {
        lemma_nul_end_at(s, i + 1, end, stop);
    }
}

/// The name field of the record at `off`, up to its first NUL.
pub open spec fn spec_record_name(s: Seq<u8>, off: int) -> Seq<u8> {
    let name_start = off + EVENT_HEADER_SIZE as int;
    let name_end = name_start + spec_name_len(s, off);
    s.subrange(name_start, spec_nul_end(s, name_start, name_end))
}

/// Whether some complete record at or after `off` carries `name` as
/// its NUL-terminated name field.
pub open spec fn spec_has_name_from(s: Seq<u8>, off: int, name: Seq<u8>) -> bool
    decreases s.len() - off,
{
    if 0 <= off && off + EVENT_HEADER_SIZE as int <= s.len() {
        let nl = spec_name_len(s, off);
        let next = off + EVENT_HEADER_SIZE as int + nl;
        if next <= s.len() {
            spec_record_name(s, off) == name || spec_has_name_from(s, next, name)
        } else {
            false
        }
    } else {
        false
    }
}

/// Compare `buf[start..end]` with `pat`.
fn eq_range(buf: &[u8], start: usize, end: usize, pat: &[u8]) -> (r: bool)
    requires
        start <= end <= buf@.len(),
    ensures
        r <==> buf@.subrange(start as int, end as int) == pat@,
{
    if end - start != pat.len() {
        proof {
            assert(buf@.subrange(start as int, end as int).len() == end - start);
        }
        return false;
    }
    let mut j: usize = 0;
    while j < pat.len()
        invariant
            0 <= j <= pat@.len(),
            start + pat@.len() == end,
            end <= buf@.len(),
            forall|q: int| 0 <= q < j ==> buf@[start + q] == #[trigger] pat@[q],
        decreases pat@.len() - j,
    {
        proof {
            assert(start + j < end);
        }
        if buf[start + j] != pat[j] {
            proof {
                assert(buf@.subrange(start as int, end as int)[j as int] == buf@[start + j]);
            }
            return false;
        }
        j = j + 1;
    }
    proof {
        assert(buf@.subrange(start as int, end as int) =~= pat@);
    }
    true
}

/// Decode an inotify event buffer into per-file change flags.
///
/// The result carries `FLAG_OVERRIDE` exactly when some complete
/// record names the override file, and `FLAG_CONFIG` exactly when one
/// names the configuration file; no other bit is ever set, the walk
/// touches no byte out of bounds, and a truncated trailing record
/// contributes nothing.
pub fn parse_inotify_events(buf: &[u8], override_name: &[u8], config_name: &[u8]) -> (flags: u32)
    ensures
        flags == (if spec_has_name_from(buf@, 0, override_name@) {
            FLAG_OVERRIDE
        } else {
            0u32
        }) + (if spec_has_name_from(buf@, 0, config_name@) {
            FLAG_CONFIG
        } else {
            0u32
        }),
{
    let mut offset: usize = 0;
    let mut found_override: bool = false;
    let mut found_config: bool = false;

    while buf.len() - offset >= EVENT_HEADER_SIZE
        invariant
            0 <= offset <= buf@.len(),
            found_override || spec_has_name_from(buf@, offset as int, override_name@)
                <==> spec_has_name_from(buf@, 0, override_name@),
            found_config || spec_has_name_from(buf@, offset as int, config_name@)
                <==> spec_has_name_from(buf@, 0, config_name@),
        ensures
            found_override == spec_has_name_from(buf@, 0, override_name@),
            found_config == spec_has_name_from(buf@, 0, config_name@),
        decreases buf@.len() - offset,
    {
        let b0 = buf[offset + 12] as u32;
        let b1 = buf[offset + 13] as u32;
        let b2 = buf[offset + 14] as u32;
        let b3 = buf[offset + 15] as u32;
        let name_len: u32 = b0 + 256 * (b1 + 256 * (b2 + 256 * b3));
        assert(name_len == spec_name_len(buf@, offset as int));

        if (name_len as usize) > buf.len() - offset - EVENT_HEADER_SIZE {
            // truncated trailing record
            assert(offset + EVENT_HEADER_SIZE + name_len > buf@.len());
            assert(!spec_has_name_from(buf@, offset as int, override_name@));
            assert(!spec_has_name_from(buf@, offset as int, config_name@));
            break;
        }

        let name_start: usize = offset + EVENT_HEADER_SIZE;
        let name_end: usize = name_start + name_len as usize;
        proof {
            lemma_nul_end_bounds(buf@, name_start as int, name_end as int);
        }

        // find the first NUL in the name field
        let mut p: usize = name_start;
        while p < name_end && buf[p] != 0
            invariant
                name_start <= p <= name_end <= buf@.len(),
                forall|q: int| name_start <= q < p ==> buf@[q] != 0,
            decreases name_end - p,
        {
            p = p + 1;
        }
        proof {
            lemma_nul_end_at(buf@, name_start as int, name_end as int, p as int);
            assert(spec_record_name(buf@, offset as int) == buf@.subrange(
                name_start as int,
                p as int,
            ));
        }

        if eq_range(buf, name_start, p, override_name) {
            found_override = true;
        }
        if eq_range(buf, name_start, p, config_name) {
            found_config = true;
        }

        offset = name_end;
    }

    if found_override {
        if found_config {
            FLAG_OVERRIDE + FLAG_CONFIG
        } else {
            FLAG_OVERRIDE
        }
    } else {
        if found_config {
            FLAG_CONFIG
        } else {
            0
        }
    }
}

} // verus!
