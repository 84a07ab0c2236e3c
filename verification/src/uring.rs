//! Submission/completion ring plumbing: entry layouts, the entries
//! the reactor submits, and the completion decoder.
//!
//! The ring itself lives at the I/O edge (kernel-shared mappings and
//! the enter syscall); this module fixes the exact bytes of each
//! submission entry and turns completions into event flags and poll
//! re-arm decisions.

use vstd::prelude::*;
use crate::{FLAG_SIGNAL, FLAG_TIMER, FLAG_WEATHER};

verus! {

/// Tag of the inotify poll entry.
pub const EV_INOTIFY: u64 = 1;

/// Tag of the signal-descriptor poll entry.
pub const EV_SIGNAL: u64 = 2;

/// Tag of the periodic timeout entry.
pub const EV_TIMEOUT: u64 = 3;

/// Tag of a timeout cancellation.
pub const EV_CANCEL: u64 = 4;

/// Tag of the weather-pipe poll entry.
pub const EV_WEATHER: u64 = 5;

/// Opcode of a readiness poll.
pub const IORING_OP_POLL_ADD: u8 = 6;

/// Opcode of a timeout.
pub const IORING_OP_TIMEOUT: u8 = 11;

/// Opcode of an asynchronous cancellation.
pub const IORING_OP_ASYNC_CANCEL: u8 = 14;

/// Completion flag: the multi-shot entry stays armed.
pub const IORING_CQE_F_MORE: u32 = 2;

/// Input-ready poll interest.
pub const POLLIN_EVENTS: u32 = 1;

/// A 64-byte submission entry in the kernel's flat layout.
#[derive(Clone, Copy, PartialEq, Eq, Structural, Debug)]
pub struct IoUringSqe {
    pub opcode: u8,
    pub flags: u8,
    pub ioprio: u16,
    pub fd: i32,
    pub off: u64,
    pub addr: u64,
    pub len: u32,
    pub rw_flags: u32,
    pub user_data: u64,
    pub buf_index: u16,
    pub personality: u16,
    pub splice_fd_in: i32,
    pub addr3: u64,
    pub pad2: u64,
}

/// A 16-byte completion entry.
#[derive(Clone, Copy, PartialEq, Eq, Structural, Debug)]
pub struct IoUringCqe {
    pub user_data: u64,
    pub res: i32,
    pub flags: u32,
}

/// The kernel timespec a timeout entry points at.
#[derive(Clone, Copy, PartialEq, Eq, Structural, Debug)]
pub struct KernelTimespec {
    pub tv_sec: i64,
    pub tv_nsec: i64,
}

/// An all-zero submission entry.
pub open spec fn spec_zero_sqe() -> IoUringSqe {
    IoUringSqe {
        opcode: 0,
        flags: 0,
        ioprio: 0,
        fd: 0,
        off: 0,
        addr: 0,
        len: 0,
        rw_flags: 0,
        user_data: 0,
        buf_index: 0,
        personality: 0,
        splice_fd_in: 0,
        addr3: 0,
        pad2: 0,
    }
}

fn zero_sqe() -> (s: IoUringSqe)
    ensures
        s == spec_zero_sqe(),
{
    IoUringSqe {
        opcode: 0,
        flags: 0,
        ioprio: 0,
        fd: 0,
        off: 0,
        addr: 0,
        len: 0,
        rw_flags: 0,
        user_data: 0,
        buf_index: 0,
        personality: 0,
        splice_fd_in: 0,
        addr3: 0,
        pad2: 0,
    }
}

/// An input-readiness wait on `fd`, tagged `user_data`; every other
/// field stays zero.
pub fn prep_poll(fd: i32, user_data: u64) -> (s: IoUringSqe)
    ensures
        s == (IoUringSqe {
            opcode: IORING_OP_POLL_ADD,
            fd: fd,
            rw_flags: POLLIN_EVENTS,
            user_data: user_data,
            ..spec_zero_sqe()
        }),
{
    let mut s = zero_sqe();
    s.opcode = IORING_OP_POLL_ADD;
    s.fd = fd;
    s.rw_flags = POLLIN_EVENTS;
    s.user_data = user_data;
    s
}

/// A one-shot timeout entry pointing at a timespec at address
/// `ts_addr`, completing after that duration or after one other
/// completion; every other field stays zero.
pub fn prep_timeout(ts_addr: u64, user_data: u64) -> (s: IoUringSqe)
    ensures
        s == (IoUringSqe {
            opcode: IORING_OP_TIMEOUT,
            fd: -1i32,
            addr: ts_addr,
            len: 1,
            user_data: user_data,
            ..spec_zero_sqe()
        }),
{
    let mut s = zero_sqe();
    s.opcode = IORING_OP_TIMEOUT;
    s.fd = -1;
    s.addr = ts_addr;
    s.len = 1;
    s.user_data = user_data;
    s
}

/// An asynchronous cancellation of the entry tagged
/// `target_user_data`; every other field stays zero.
pub fn prep_cancel(target_user_data: u64, user_data: u64) -> (s: IoUringSqe)
    ensures
        s == (IoUringSqe {
            opcode: IORING_OP_ASYNC_CANCEL,
            fd: -1i32,
            addr: target_user_data,
            user_data: user_data,
            ..spec_zero_sqe()
        }),
{
    let mut s = zero_sqe();
    s.opcode = IORING_OP_ASYNC_CANCEL;
    s.fd = -1;
    s.addr = target_user_data;
    s.user_data = user_data;
    s
}

/// Which long-lived poll entries are currently armed.
#[derive(Clone, Copy, PartialEq, Eq, Structural, Debug)]
pub struct PollState {
    pub inotify: bool,
    pub signal: bool,
    pub weather: bool,
}

/// The decoder's verdict per `process_cqe`.
pub open spec fn spec_process_cqe(cqe: IoUringCqe, polls: PollState) -> (PollState, u32, bool) {
    let more = cqe.flags & IORING_CQE_F_MORE != 0;
    if cqe.user_data == EV_TIMEOUT {
        (polls, FLAG_TIMER, false)
    } else if cqe.user_data == EV_SIGNAL {
        (
            if more {
                polls
            } else {
                PollState { signal: false, ..polls }
            },
            FLAG_SIGNAL,
            false,
        )
    } else if cqe.user_data == EV_INOTIFY {
        (
            if more {
                polls
            } else {
                PollState { inotify: false, ..polls }
            },
            0,
            cqe.res > 0,
        )
    } else if cqe.user_data == EV_WEATHER {
        (
            if more {
                polls
            } else {
                PollState { weather: false, ..polls }
            },
            if cqe.res > 0 {
                FLAG_WEATHER
            } else {
                0
            },
            false,
        )
    } else {
        (polls, 0, false)
    }
}

/// Decode one completion by its tag.
///
/// The timeout tag raises the timer flag; the signal tag raises the
/// signal flag; a readable weather pipe raises the weather flag; a
/// readable inotify descriptor asks the caller to drain and decode
/// that descriptor (second result). A completed single-shot poll
/// clears its armed bit so the loop re-arms it. Cancellation
/// completions and unknown tags decode to nothing.
pub fn process_cqe(cqe: &IoUringCqe, polls: &mut PollState) -> (r: (u32, bool))
    ensures
        *final(polls) == spec_process_cqe(*cqe, *old(polls)).0,
        r.0 == spec_process_cqe(*cqe, *old(polls)).1,
        r.1 == spec_process_cqe(*cqe, *old(polls)).2,
{
    let more = cqe.flags & IORING_CQE_F_MORE != 0;
    if cqe.user_data == EV_TIMEOUT {
        (FLAG_TIMER, false)
    } else if cqe.user_data == EV_SIGNAL {
        if !more {
            polls.signal = false;
        }
        (FLAG_SIGNAL, false)
    } else if cqe.user_data == EV_INOTIFY {
        if !more {
            polls.inotify = false;
        }
        (0, cqe.res > 0)
    } else if cqe.user_data == EV_WEATHER {
        if !more {
            polls.weather = false;
        }
        (if cqe.res > 0 {
            FLAG_WEATHER
        } else {
            0
        }, false)
    } else {
        (0, false)
    }
}

} // verus!
