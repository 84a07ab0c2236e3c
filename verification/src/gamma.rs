//! Gamma backend models: the capability contract over controllable
//! heads, with the ramp computation verified here and the device
//! transport (ioctl, compositor protocol, DBus, display server)
//! performed at the I/O edge.
//!
//! A backend holds per-head bookkeeping: the head identifier, its
//! ramp size, the ramps saved at initialization (empty where none
//! were captured), and reusable work buffers that `set_temperature`
//! and `restore` fill. The caller transfers the filled buffers to the
//! device and reports which heads succeeded.

use vstd::prelude::*;
use vstd::arithmetic::div_mod::{lemma_div_is_ordered, lemma_div_pos_is_pos};
use crate::colorramp::{fill_gamma_ramps, spec_ramp_entry, spec_scales, BRIGHT_UNIT, RAMP_SIZE_MAX};
use crate::{TEMP_MAX, TEMP_MIN};

verus! {

/// Error kinds of the gamma subsystem.
#[derive(Clone, Copy, PartialEq, Eq, Structural, Debug)]
pub enum Error {
    InvalidTemp,
    Open,
    Resources,
    Crtc,
    Gamma,
    NoCrtc,
    Permission,
    WaylandConnect,
    WaylandProtocol,
    GnomeDbus,
}

impl Error {
    /// A short human-readable description.
    pub fn message(&self) -> (r: &'static str)
        ensures
            match self {
                Error::InvalidTemp => r@ == "Invalid temperature"@,
                Error::Open => r@ == "Failed to open display device"@,
                Error::Resources => r@ == "Failed to get display resources"@,
                Error::Crtc => r@ == "Failed to get CRTC info"@,
                Error::Gamma => r@ == "Failed to set gamma ramp"@,
                Error::NoCrtc => r@ == "No usable CRTC found"@,
                Error::Permission => r@ == "Permission denied (need video group?)"@,
                Error::WaylandConnect => r@ == "Failed to connect to Wayland display"@,
                Error::WaylandProtocol => r@ == "Wayland compositor lacks gamma control protocol"@,
                Error::GnomeDbus => r@ == "Failed to communicate with Mutter via DBus"@,
            },
    {
        match self {
            Error::InvalidTemp => "Invalid temperature",
            Error::Open => "Failed to open display device",
            Error::Resources => "Failed to get display resources",
            Error::Crtc => "Failed to get CRTC info",
            Error::Gamma => "Failed to set gamma ramp",
            Error::NoCrtc => "No usable CRTC found",
            Error::Permission => "Permission denied (need video group?)",
            Error::WaylandConnect => "Failed to connect to Wayland display",
            Error::WaylandProtocol => "Wayland compositor lacks gamma control protocol",
            Error::GnomeDbus => "Failed to communicate with Mutter via DBus",
        }
    }
}

/// The four transports a backend can drive.
#[derive(Clone, Copy, PartialEq, Eq, Structural, Debug)]
pub enum BackendKind {
    Drm,
    Wayland,
    X11,
    Gnome,
}

/// Per-head bookkeeping: identifier, ramp size, ramps saved at
/// initialization, and reusable work buffers.
pub struct CrtcModel {
    pub id: u32,
    pub gamma_size: u32,
    pub saved_r: Vec<u16>,
    pub saved_g: Vec<u16>,
    pub saved_b: Vec<u16>,
    pub work_r: Vec<u16>,
    pub work_g: Vec<u16>,
    pub work_b: Vec<u16>,
}

/// The identity ramp entry: a linear ramp over the 16-bit range.
pub open spec fn spec_identity_entry(size: int, i: int) -> int {
    i * 65535 / (size - 1)
}

/// A head the backend may drive: the direct kernel transport needs a
/// hardware lookup of at least two entries, the others any head that
/// reported a ramp at all.
pub open spec fn spec_usable(kind: BackendKind, gamma_size: int) -> bool {
    match kind {
        BackendKind::Drm => gamma_size > 1,
        _ => gamma_size > 0,
    }
}

/// A head's ramp size is accepted by the synthesis.
pub open spec fn spec_crtc_sizes_ok(c: CrtcModel) -> bool {
    c.gamma_size <= RAMP_SIZE_MAX as int
}

/// A head whose work buffers `restore` fills: usable, with a real
/// lookup, and without captured original ramps.
pub open spec fn spec_restore_filled(st: GammaState, q: int) -> bool {
    let o = st.crtcs@[q];
    spec_usable(st.kind, o.gamma_size as int) && o.gamma_size >= 2 && o.saved_r@.len() == 0
}

/// Every head's ramp size is accepted by the synthesis.
pub open spec fn spec_all_sizes_ok(s: Seq<CrtcModel>) -> bool {
    forall|i: int| 0 <= i < s.len() ==> spec_crtc_sizes_ok(#[trigger] s[i])
}

/// Some head is usable under the given backend's policy.
pub open spec fn spec_any_usable(kind: BackendKind, s: Seq<CrtcModel>) -> bool {
    exists|i: int| 0 <= i < s.len() && spec_usable(kind, #[trigger] s[i].gamma_size as int)
}

/// Unified gamma backend state.
pub struct GammaState {
    pub kind: BackendKind,
    pub crtcs: Vec<CrtcModel>,
}

impl GammaState {
    /// All heads have sizes the synthesis accepts.
    pub open spec fn wf(&self) -> bool {
        spec_all_sizes_ok(self.crtcs@)
    }

    /// Whether any head is usable under this backend's policy.
    pub open spec fn spec_has_usable(&self) -> bool {
        spec_any_usable(self.kind, self.crtcs@)
    }

    /// How many of the first `n` heads are usable.
    pub open spec fn spec_usable_below(&self, n: int) -> int
        decreases n,
    {
        if n <= 0 {
            0
        } else {
            self.spec_usable_below(n - 1) + if spec_usable(
                self.kind,
                self.crtcs@[n - 1].gamma_size as int,
            ) {
                1int
            } else {
                0int
            }
        }
    }

    /// Short tag of the backend in use.
    pub fn backend_name(&self) -> (r: &'static str)
        ensures
            match self.kind {
                BackendKind::Drm => r@ == "drm"@,
                BackendKind::Wayland => r@ == "wayland"@,
                BackendKind::X11 => r@ == "x11"@,
                BackendKind::Gnome => r@ == "gnome"@,
            },
    {
        match self.kind {
            BackendKind::Drm => "drm",
            BackendKind::Wayland => "wayland",
            BackendKind::X11 => "x11",
            BackendKind::Gnome => "gnome",
        }
    }

    /// Number of heads the backend tracks.
    pub fn crtc_count(&self) -> (r: usize)
        ensures
            r == self.crtcs@.len(),
    {
        self.crtcs.len()
    }

    /// Ramp size of head `idx`, zero when out of range.
    pub fn gamma_size(&self, idx: usize) -> (r: usize)
        ensures
            r == if idx < self.crtcs@.len() {
                self.crtcs@[idx as int].gamma_size as int
            } else {
                0
            },
    {
        if idx < self.crtcs.len() {
            self.crtcs[idx].gamma_size as usize
        } else {
            0
        }
    }

    /// Count the usable heads.
    pub fn usable_count(&self) -> (r: usize)
        ensures
            r == self.spec_usable_below(self.crtcs@.len() as int),
            r > 0 <==> self.spec_has_usable(),
    {
        let mut n: usize = 0;
        let mut i: usize = 0;
        while i < self.crtcs.len()
            invariant
                0 <= i <= self.crtcs@.len(),
                n <= i,
                n == self.spec_usable_below(i as int),
                n > 0 <==> exists|q: int|
                    0 <= q < i && spec_usable(self.kind, #[trigger] self.crtcs@[q].gamma_size as int),
            decreases self.crtcs@.len() - i,
        {
            let gs = self.crtcs[i].gamma_size;
            let usable = match self.kind {
                BackendKind::Drm => gs > 1,
                _ => gs > 0,
            };
            if usable {
                n = n + 1;
            }
            i = i + 1;
        }
        n
    }
}

/// Validate a detected backend: it must expose at least one usable
/// head, and every head's ramp size must be within synthesis range.
pub fn init(kind: BackendKind, crtcs: Vec<CrtcModel>) -> (r: Result<GammaState, Error>)
    ensures
        match r {
            Ok(out) => out.kind == kind && out.crtcs@ == crtcs@ && out.spec_has_usable()
                && out.wf(),
            Err(e) => e == Error::NoCrtc && !(spec_any_usable(kind, crtcs@) && spec_all_sizes_ok(
                crtcs@,
            )),
        },
{
    let ghost v = crtcs@;
    let mut i: usize = 0;
    while i < crtcs.len()
        invariant
            v == crtcs@,
            0 <= i <= crtcs@.len(),
            forall|q: int| 0 <= q < i ==> spec_crtc_sizes_ok(#[trigger] crtcs@[q]),
        decreases crtcs@.len() - i,
    {
        if crtcs[i].gamma_size as usize > RAMP_SIZE_MAX {
            proof {
                assert(!spec_crtc_sizes_ok(v[i as int]));
                assert(!spec_all_sizes_ok(v));
            }
            return Err(Error::NoCrtc);
        }
        i = i + 1;
    }
    let st = GammaState { kind, crtcs };
    proof {
        assert(st.crtcs@ == v);
        assert(st.wf());
    }
    if st.usable_count() == 0 {
        return Err(Error::NoCrtc);
    }
    Ok(st)
}

impl GammaState {
    /// Fill the work buffers of every usable head with the ramps for
    /// `temp`, leaving the rest of the bookkeeping untouched. The
    /// caller transfers each filled buffer to its device.
    pub fn set_temperature(&mut self, temp: i32, bright: u32) -> (r: Result<(), Error>)
        requires
            old(self).wf(),
            1 <= bright <= BRIGHT_UNIT,
        ensures
            final(self).kind == old(self).kind,
            final(self).crtcs@.len() == old(self).crtcs@.len(),
            final(self).wf(),
            match r {
                Ok(()) => {
                    &&& TEMP_MIN <= temp <= TEMP_MAX
                    &&& old(self).spec_has_usable()
                    &&& forall|i: int|
                        0 <= i < final(self).crtcs@.len() ==> {
                            let c = #[trigger] final(self).crtcs@[i];
                            let o = old(self).crtcs@[i];
                            c.id == o.id && c.gamma_size == o.gamma_size && c.saved_r == o.saved_r
                                && c.saved_g == o.saved_g && c.saved_b == o.saved_b && (spec_usable(
                                old(self).kind,
                                o.gamma_size as int,
                            ) && o.gamma_size >= 2 ==> c.work_r@.len() == o.gamma_size
                                && c.work_g@.len() == o.gamma_size && c.work_b@.len()
                                == o.gamma_size && forall|q: int|
                                0 <= q < c.gamma_size ==> #[trigger] c.work_r@[q]
                                    == spec_ramp_entry(
                                    spec_scales(temp as int).0,
                                    bright as int,
                                    o.gamma_size as int,
                                    q,
                                ) && c.work_g@[q] == spec_ramp_entry(
                                    spec_scales(temp as int).1,
                                    bright as int,
                                    o.gamma_size as int,
                                    q,
                                ) && c.work_b@[q] == spec_ramp_entry(
                                    spec_scales(temp as int).2,
                                    bright as int,
                                    o.gamma_size as int,
                                    q,
                                ))
                        }
                },
                Err(Error::InvalidTemp) => !(TEMP_MIN <= temp <= TEMP_MAX),
                Err(Error::NoCrtc) => !old(self).spec_has_usable(),
                Err(_) => false,
            },
    {
        if temp < TEMP_MIN || temp > TEMP_MAX {
            return Err(Error::InvalidTemp);
        }
        if self.usable_count() == 0 {
            return Err(Error::NoCrtc);
        }
        let ghost orig = *self;
        let n = self.crtcs.len();
        let mut i: usize = 0;
        while i < n
            invariant
                orig == *old(self),
                n == self.crtcs@.len(),
                n == old(self).crtcs@.len(),
                0 <= i <= n,
                TEMP_MIN <= temp <= TEMP_MAX,
                1 <= bright <= BRIGHT_UNIT,
                self.kind == old(self).kind,
                self.wf(),
                forall|q: int|
                    0 <= q < n ==> {
                        let c = #[trigger] self.crtcs@[q];
                        let o = old(self).crtcs@[q];
                        c.id == o.id && c.gamma_size == o.gamma_size && c.saved_r == o.saved_r
                            && c.saved_g == o.saved_g && c.saved_b == o.saved_b
                    },
                forall|q: int|
                    i <= q < n ==> {
                        let c = #[trigger] self.crtcs@[q];
                        let o = old(self).crtcs@[q];
                        c.work_r == o.work_r && c.work_g == o.work_g && c.work_b == o.work_b
                    },
                forall|q: int|
                    0 <= q < i ==> {
                        let c = #[trigger] self.crtcs@[q];
                        let o = old(self).crtcs@[q];
                        spec_usable(old(self).kind, o.gamma_size as int) && o.gamma_size >= 2
                            ==> c.work_r@.len() == o.gamma_size && c.work_g@.len() == o.gamma_size
                            && c.work_b@.len() == o.gamma_size && forall|p: int|
                            0 <= p < c.gamma_size ==> #[trigger] c.work_r@[p] == spec_ramp_entry(
                                spec_scales(temp as int).0,
                                bright as int,
                                o.gamma_size as int,
                                p,
                            ) && c.work_g@[p] == spec_ramp_entry(
                                spec_scales(temp as int).1,
                                bright as int,
                                o.gamma_size as int,
                                p,
                            ) && c.work_b@[p] == spec_ramp_entry(
                                spec_scales(temp as int).2,
                                bright as int,
                                o.gamma_size as int,
                                p,
                            )
                    },
            decreases n - i,
        {
            let gs = self.crtcs[i].gamma_size as usize;
            let usable = match self.kind {
                BackendKind::Drm => gs > 1,
                _ => gs > 0,
            };
            if usable && gs >= 2 {
                let mut wr: Vec<u16> = Vec::new();
                let mut wg: Vec<u16> = Vec::new();
                let mut wb: Vec<u16> = Vec::new();
                let _ = fill_gamma_ramps(temp, gs, &mut wr, &mut wg, &mut wb, bright);
                let c = &mut self.crtcs[i];
                c.work_r = wr;
                c.work_g = wg;
                c.work_b = wb;
            }
            i = i + 1;
        }
        Ok(())
    }

    /// Fill the work buffers of heads whose original ramps were not
    /// captured with the identity ramp; heads with saved ramps keep
    /// them for the caller to reinstall.
    #[verifier::rlimit(30)]
    pub fn restore(&mut self) -> (r: Result<(), Error>)
        requires
            old(self).wf(),
        ensures
            r is Ok,
            final(self).kind == old(self).kind,
            final(self).crtcs@.len() == old(self).crtcs@.len(),
            final(self).wf(),
            forall|i: int|
                0 <= i < final(self).crtcs@.len() ==> {
                    let c = #[trigger] final(self).crtcs@[i];
                    let o = old(self).crtcs@[i];
                    c.id == o.id && c.gamma_size == o.gamma_size && c.saved_r == o.saved_r
                        && c.saved_g == o.saved_g && c.saved_b == o.saved_b && (spec_restore_filled(
                        *old(self),
                        i,
                    ) ==> c.work_r@.len() == o.gamma_size && c.work_g@.len() == o.gamma_size
                        && c.work_b@.len() == o.gamma_size)
                },
            forall|i: int, q: int|
                0 <= i < final(self).crtcs@.len() && spec_restore_filled(*old(self), i) && 0 <= q
                    < old(self).crtcs@[i].gamma_size ==> #[trigger] final(self).crtcs@[i].work_r@[q]
                    == spec_identity_entry(old(self).crtcs@[i].gamma_size as int, q)
                    && final(self).crtcs@[i].work_g@[q] == spec_identity_entry(
                    old(self).crtcs@[i].gamma_size as int,
                    q,
                ) && final(self).crtcs@[i].work_b@[q] == spec_identity_entry(
                    old(self).crtcs@[i].gamma_size as int,
                    q,
                ),
    {
        let ghost orig = *self;
        let n = self.crtcs.len();
        let mut i: usize = 0;
        while i < n
            invariant
                orig == *old(self),
                n == self.crtcs@.len(),
                n == orig.crtcs@.len(),
                0 <= i <= n,
                self.kind == orig.kind,
                self.wf(),
                forall|q: int|
                    0 <= q < n ==> {
                        let c = #[trigger] self.crtcs@[q];
                        let o = orig.crtcs@[q];
                        c.id == o.id && c.gamma_size == o.gamma_size && c.saved_r == o.saved_r
                            && c.saved_g == o.saved_g && c.saved_b == o.saved_b
                    },
                forall|q: int|
                    i <= q < n ==> {
                        let c = #[trigger] self.crtcs@[q];
                        let o = orig.crtcs@[q];
                        c.work_r == o.work_r && c.work_g == o.work_g && c.work_b == o.work_b
                    },
                forall|q: int|
                    0 <= q < i && spec_restore_filled(orig, q) ==> {
                        let c = #[trigger] self.crtcs@[q];
                        c.work_r@.len() == orig.crtcs@[q].gamma_size && c.work_g@.len()
                            == orig.crtcs@[q].gamma_size && c.work_b@.len()
                            == orig.crtcs@[q].gamma_size
                    },
                forall|q: int, p: int|
                    0 <= q < i && spec_restore_filled(orig, q) && 0 <= p
                        < orig.crtcs@[q].gamma_size ==> #[trigger] self.crtcs@[q].work_r@[p]
                        == spec_identity_entry(orig.crtcs@[q].gamma_size as int, p)
                        && self.crtcs@[q].work_g@[p] == spec_identity_entry(
                        orig.crtcs@[q].gamma_size as int,
                        p,
                    ) && self.crtcs@[q].work_b@[p] == spec_identity_entry(
                        orig.crtcs@[q].gamma_size as int,
                        p,
                    ),
            decreases n - i,
        {
            let gs = self.crtcs[i].gamma_size as usize;
            let usable = match self.kind {
                BackendKind::Drm => gs > 1,
                _ => gs > 0,
            };
            let saved_empty = self.crtcs[i].saved_r.len() == 0;
            let ghost prev = *self;
            if usable && gs >= 2 && saved_empty {
                let mut wr: Vec<u16> = Vec::new();
                let mut wg: Vec<u16> = Vec::new();
                let mut wb: Vec<u16> = Vec::new();
                fill_identity_ramp(gs, &mut wr);
                fill_identity_ramp(gs, &mut wg);
                fill_identity_ramp(gs, &mut wb);
                let c = &mut self.crtcs[i];
                c.work_r = wr;
                c.work_g = wg;
                c.work_b = wb;
            }
            proof {
                if usable && gs >= 2 && saved_empty {
                    let cc = self.crtcs@[i as int];
                    assert(cc.work_r@.len() == gs);
                    assert(forall|p: int|
                        0 <= p < gs ==> #[trigger] cc.work_r@[p] == spec_identity_entry(
                            gs as int,
                            p,
                        ) && cc.work_g@[p] == spec_identity_entry(gs as int, p) && cc.work_b@[p]
                            == spec_identity_entry(gs as int, p));
                } else {
                    assert(!spec_restore_filled(orig, i as int));
                }
                assert forall|q: int, p: int|
                    0 <= q < i + 1 && spec_restore_filled(orig, q) && 0 <= p
                        < orig.crtcs@[q].gamma_size implies #[trigger] self.crtcs@[q].work_r@[p]
                        == spec_identity_entry(orig.crtcs@[q].gamma_size as int, p)
                        && self.crtcs@[q].work_g@[p] == spec_identity_entry(
                        orig.crtcs@[q].gamma_size as int,
                        p,
                    ) && self.crtcs@[q].work_b@[p] == spec_identity_entry(
                        orig.crtcs@[q].gamma_size as int,
                        p,
                    ) by {
                    if q < i {
                        assert(self.crtcs@[q] == prev.crtcs@[q]);
                        assert(prev.crtcs@[q].work_r@[p] == spec_identity_entry(
                            orig.crtcs@[q].gamma_size as int,
                            p,
                        ));
                    } else {
                        assert(self.crtcs@[q].work_r@[p] == spec_identity_entry(gs as int, p));
                    }
                }
            }
            i = i + 1;
        }
        Ok(())
    }

}

/// Fill `out` with the linear identity ramp of `size` entries.
pub fn fill_identity_ramp(size: usize, out: &mut Vec<u16>)
    requires
        2 <= size <= RAMP_SIZE_MAX,
    ensures
        final(out)@.len() == size,
        forall|i: int| 0 <= i < size ==> final(out)@[i] == spec_identity_entry(size as int, i),
{
    out.clear();
    let mut i: usize = 0;
    while i < size
        invariant
            0 <= i <= size,
            2 <= size <= RAMP_SIZE_MAX,
            out@.len() == i,
            forall|q: int| 0 <= q < i ==> out@[q] == spec_identity_entry(size as int, q),
        decreases size - i,
    {
        let num: u64 = i as u64 * 65535;
        let den: u64 = size as u64 - 1;
        proof {
            let v = (i as int) * 65535 / (size - 1);
            assert((i as int) * 65535 <= (size - 1) * 65535) by (nonlinear_arith)
                requires
                    0 <= i <= size - 1,
            ;
            lemma_div_is_ordered((i as int) * 65535, (size - 1) * 65535, size - 1);
            vstd::arithmetic::div_mod::lemma_div_multiples_vanish(65535, size - 1);
            lemma_div_pos_is_pos((i as int) * 65535, size - 1);
        }
        out.push((num / den) as u16);
        i = i + 1;
    }
}

/// The DBus-transport backend's bookkeeping: the serial token from
/// the enumeration call, the head identifiers, and the fixed-size
/// work buffers its protocol transfers (256 entries per channel).
pub struct GnomeState {
    pub serial: u32,
    pub crtc_ids: Vec<u32>,
    pub work_r: Vec<u16>,
    pub work_g: Vec<u16>,
    pub work_b: Vec<u16>,
}

/// The fixed per-head ramp size of the DBus transport.
pub const GNOME_GAMMA_SIZE: usize = 256;

impl GnomeState {
    /// Validate an enumeration result: at least one head.
    pub fn init(serial: u32, crtc_ids: Vec<u32>) -> (r: Result<GnomeState, Error>)
        ensures
            match r {
                Ok(st) => st.serial == serial && st.crtc_ids@ == crtc_ids@ && st.crtc_ids@.len()
                    > 0,
                Err(e) => e == Error::NoCrtc && crtc_ids@.len() == 0,
            },
    {
        if crtc_ids.len() == 0 {
            return Err(Error::NoCrtc);
        }
        Ok(
            GnomeState {
                serial,
                crtc_ids,
                work_r: Vec::new(),
                work_g: Vec::new(),
                work_b: Vec::new(),
            },
        )
    }

    /// Number of heads the enumeration reported.
    pub fn crtc_count(&self) -> (r: usize)
        ensures
            r == self.crtc_ids@.len(),
    {
        self.crtc_ids.len()
    }

    /// Fill the work buffers with the fixed-size ramps for `temp`;
    /// the caller sends them to every head.
    pub fn set_temperature(&mut self, temp: i32, bright: u32) -> (r: Result<(), Error>)
        requires
            1 <= bright <= BRIGHT_UNIT,
        ensures
            final(self).serial == old(self).serial,
            final(self).crtc_ids == old(self).crtc_ids,
            match r {
                Ok(()) => {
                    &&& TEMP_MIN <= temp <= TEMP_MAX
                    &&& final(self).work_r@.len() == GNOME_GAMMA_SIZE
                    &&& final(self).work_g@.len() == GNOME_GAMMA_SIZE
                    &&& final(self).work_b@.len() == GNOME_GAMMA_SIZE
                    &&& forall|i: int|
                        0 <= i < GNOME_GAMMA_SIZE ==> #[trigger] final(self).work_r@[i]
                            == spec_ramp_entry(
                            spec_scales(temp as int).0,
                            bright as int,
                            GNOME_GAMMA_SIZE as int,
                            i,
                        ) && final(self).work_g@[i] == spec_ramp_entry(
                            spec_scales(temp as int).1,
                            bright as int,
                            GNOME_GAMMA_SIZE as int,
                            i,
                        ) && final(self).work_b@[i] == spec_ramp_entry(
                            spec_scales(temp as int).2,
                            bright as int,
                            GNOME_GAMMA_SIZE as int,
                            i,
                        )
                },
                Err(e) => e == Error::InvalidTemp && !(TEMP_MIN <= temp <= TEMP_MAX),
            },
    {
        fill_gamma_ramps(temp, GNOME_GAMMA_SIZE, &mut self.work_r, &mut self.work_g, &mut self.work_b, bright)
    }

    /// Fill the work buffers with the identity ramp; the caller sends
    /// them to every head to undo the daemon's changes.
    pub fn restore(&mut self) -> (r: Result<(), Error>)
        ensures
            r is Ok,
            final(self).serial == old(self).serial,
            final(self).crtc_ids == old(self).crtc_ids,
            final(self).work_r@.len() == GNOME_GAMMA_SIZE,
            final(self).work_g@.len() == GNOME_GAMMA_SIZE,
            final(self).work_b@.len() == GNOME_GAMMA_SIZE,
            forall|i: int|
                0 <= i < GNOME_GAMMA_SIZE ==> #[trigger] final(self).work_r@[i]
                    == spec_identity_entry(GNOME_GAMMA_SIZE as int, i) && final(self).work_g@[i]
                    == spec_identity_entry(GNOME_GAMMA_SIZE as int, i) && final(self).work_b@[i]
                    == spec_identity_entry(GNOME_GAMMA_SIZE as int, i),
    {
        fill_identity_ramp(GNOME_GAMMA_SIZE, &mut self.work_r);
        fill_identity_ramp(GNOME_GAMMA_SIZE, &mut self.work_g);
        fill_identity_ramp(GNOME_GAMMA_SIZE, &mut self.work_b);
        Ok(())
    }
}

} // verus!
