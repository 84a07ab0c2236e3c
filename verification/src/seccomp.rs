//! The syscall-whitelist filter: classic BPF instructions and the
//! exact program the daemon installs.
//!
//! The program admits a fixed set of syscalls -- core I/O, memory,
//! ring I/O, time, subprocess spawn and wait, signals, file
//! operations, sockets, the poll family, event descriptors and
//! directory reads -- and kills the process on anything else, after
//! first killing any process of a foreign architecture. Installing
//! the program (a prctl) happens at the I/O edge; the whitelist
//! itself is part of the design and fixed here.

use vstd::prelude::*;

verus! {

/// BPF: load a 32-bit word at an absolute offset (LD | W | ABS).
pub const BPF_LOAD_ABS: u16 = 0x20;

/// BPF: jump if equal to the constant (JMP | JEQ | K).
pub const BPF_JUMP_EQ: u16 = 0x15;

/// BPF: return the constant (RET | K).
pub const BPF_RET_CONST: u16 = 0x06;

/// Filter action: kill the process.
pub const SECCOMP_RET_KILL_PROCESS: u32 = 0x80000000;

/// Filter action: allow the syscall.
pub const SECCOMP_RET_ALLOW: u32 = 0x7fff0000;

/// The audit architecture this filter accepts.
pub const AUDIT_ARCH_X86_64: u32 = 0xc000003e;

/// Offset of the architecture word in the seccomp data.
pub const SECCOMP_DATA_ARCH_OFFSET: u32 = 4;

/// Offset of the syscall number in the seccomp data.
pub const SECCOMP_DATA_NR_OFFSET: u32 = 0;

/// One classic BPF instruction.
#[derive(Clone, Copy, PartialEq, Eq, Structural, Debug)]
pub struct SockFilter {
    pub code: u16,
    pub jt: u8,
    pub jf: u8,
    pub k: u32,
}

/// A statement instruction: both jump offsets zero.
pub fn bpf_stmt(code: u16, k: u32) -> (r: SockFilter)
    ensures
        r == (SockFilter { code, jt: 0, jf: 0, k }),
{
    SockFilter { code, jt: 0, jf: 0, k }
}

/// A jump instruction.
pub fn bpf_jump(code: u16, k: u32, jt: u8, jf: u8) -> (r: SockFilter)
    ensures
        r == (SockFilter { code, jt, jf, k }),
{
    SockFilter { code, jt, jf, k }
}

/// The syscall numbers the daemon admits, in program order.
pub open spec fn spec_whitelist() -> Seq<u32> {
    seq![
        0, 1, 257, 3, 5, 262, 8, 17,
        9, 11, 10, 12, 25, 28, 425, 426,
        427, 228, 230, 35, 96, 16, 435, 56,
        59, 293, 33, 292, 61, 273, 334, 302,
        158, 218, 14, 13, 15, 131, 87, 263,
        83, 258, 21, 439, 72, 79, 89, 267,
        332, 318, 39, 102, 107, 104, 108, 62,
        157, 202, 60, 231, 289, 294, 254, 41,
        42, 49, 54, 55, 48, 44, 46, 307,
        45, 47, 299, 52, 51, 7, 271, 20,
        63, 291, 233, 232, 281, 290, 217, 24,
        204
    ]
}

/// The admitted syscall numbers as a buffer.
pub fn syscall_whitelist() -> (v: Vec<u32>)
    ensures
        v@ == spec_whitelist(),
{
    let mut v: Vec<u32> = Vec::new();
    v.push(0);  // read
    v.push(1);  // write
    v.push(257);  // openat
    v.push(3);  // close
    v.push(5);  // fstat
    v.push(262);  // newfstatat
    v.push(8);  // lseek
    v.push(17);  // pread64
    v.push(9);  // mmap
    v.push(11);  // munmap
    v.push(10);  // mprotect
    v.push(12);  // brk
    v.push(25);  // mremap
    v.push(28);  // madvise
    v.push(425);  // io_uring_setup
    v.push(426);  // io_uring_enter
    v.push(427);  // io_uring_register
    v.push(228);  // clock_gettime
    v.push(230);  // clock_nanosleep
    v.push(35);  // nanosleep
    v.push(96);  // gettimeofday
    v.push(16);  // ioctl
    v.push(435);  // clone3
    v.push(56);  // clone
    v.push(59);  // execve
    v.push(293);  // pipe2
    v.push(33);  // dup2
    v.push(292);  // dup3
    v.push(61);  // wait4
    v.push(273);  // set_robust_list
    v.push(334);  // rseq
    v.push(302);  // prlimit64
    v.push(158);  // arch_prctl
    v.push(218);  // set_tid_address
    v.push(14);  // rt_sigprocmask
    v.push(13);  // rt_sigaction
    v.push(15);  // rt_sigreturn
    v.push(131);  // sigaltstack
    v.push(87);  // unlink
    v.push(263);  // unlinkat
    v.push(83);  // mkdir
    v.push(258);  // mkdirat
    v.push(21);  // access
    v.push(439);  // faccessat2
    v.push(72);  // fcntl
    v.push(79);  // getcwd
    v.push(89);  // readlink
    v.push(267);  // readlinkat
    v.push(332);  // statx
    v.push(318);  // getrandom
    v.push(39);  // getpid
    v.push(102);  // getuid
    v.push(107);  // geteuid
    v.push(104);  // getgid
    v.push(108);  // getegid
    v.push(62);  // kill
    v.push(157);  // prctl
    v.push(202);  // futex
    v.push(60);  // exit
    v.push(231);  // exit_group
    v.push(289);  // signalfd4
    v.push(294);  // inotify_init1
    v.push(254);  // inotify_add_watch
    v.push(41);  // socket
    v.push(42);  // connect
    v.push(49);  // bind
    v.push(54);  // setsockopt
    v.push(55);  // getsockopt
    v.push(48);  // shutdown
    v.push(44);  // sendto
    v.push(46);  // sendmsg
    v.push(307);  // sendmmsg
    v.push(45);  // recvfrom
    v.push(47);  // recvmsg
    v.push(299);  // recvmmsg
    v.push(52);  // getpeername
    v.push(51);  // getsockname
    v.push(7);  // poll
    v.push(271);  // ppoll
    v.push(20);  // writev
    v.push(63);  // uname
    v.push(291);  // epoll_create1
    v.push(233);  // epoll_ctl
    v.push(232);  // epoll_wait
    v.push(281);  // epoll_pwait
    v.push(290);  // eventfd2
    v.push(217);  // getdents64
    v.push(24);  // sched_yield
    v.push(204);  // sched_getaffinity
    proof {
        assert(v@ =~= spec_whitelist());
    }
    v
}

/// Positions `4 + 2q` and `4 + 2q + 1` of the program hold the
/// equality test admitting syscall `nr` and its allow verdict.
pub open spec fn spec_allow_pair_at(v: Seq<SockFilter>, q: int, nr: u32) -> bool {
    v[4 + 2 * q] == (SockFilter { code: BPF_JUMP_EQ, jt: 0, jf: 1, k: nr }) && v[4 + 2 * q + 1]
        == (SockFilter { code: BPF_RET_CONST, jt: 0, jf: 0, k: SECCOMP_RET_ALLOW })
}

/// Build the whitelist program.
///
/// The prologue loads the architecture word, kills on a foreign
/// architecture, and loads the syscall number; each admitted syscall
/// contributes an equality test that allows it; the epilogue kills
/// anything that fell through.
pub fn build_filter() -> (r: Vec<SockFilter>)
    ensures
        r@.len() == 4 + 2 * spec_whitelist().len() + 1,
        r@[0] == (SockFilter { code: BPF_LOAD_ABS, jt: 0, jf: 0, k: SECCOMP_DATA_ARCH_OFFSET }),
        r@[1] == (SockFilter { code: BPF_JUMP_EQ, jt: 1, jf: 0, k: AUDIT_ARCH_X86_64 }),
        r@[2] == (SockFilter {
            code: BPF_RET_CONST,
            jt: 0,
            jf: 0,
            k: SECCOMP_RET_KILL_PROCESS,
        }),
        r@[3] == (SockFilter { code: BPF_LOAD_ABS, jt: 0, jf: 0, k: SECCOMP_DATA_NR_OFFSET }),
        forall|j: int|
            0 <= j < spec_whitelist().len() ==> #[trigger] spec_allow_pair_at(
                r@,
                j,
                spec_whitelist()[j],
            ),
        r@[r@.len() - 1] == (SockFilter {
            code: BPF_RET_CONST,
            jt: 0,
            jf: 0,
            k: SECCOMP_RET_KILL_PROCESS,
        }),
{
    let nums = syscall_whitelist();
    let mut v: Vec<SockFilter> = Vec::new();
    v.push(bpf_stmt(BPF_LOAD_ABS, SECCOMP_DATA_ARCH_OFFSET));
    v.push(bpf_jump(BPF_JUMP_EQ, AUDIT_ARCH_X86_64, 1, 0));
    v.push(bpf_stmt(BPF_RET_CONST, SECCOMP_RET_KILL_PROCESS));
    v.push(bpf_stmt(BPF_LOAD_ABS, SECCOMP_DATA_NR_OFFSET));

    let mut j: usize = 0;
    while j < nums.len()
        invariant
            0 <= j <= nums@.len(),
            nums@ == spec_whitelist(),
            v@.len() == 4 + 2 * j,
            v@[0] == (SockFilter { code: BPF_LOAD_ABS, jt: 0, jf: 0, k: SECCOMP_DATA_ARCH_OFFSET }),
            v@[1] == (SockFilter { code: BPF_JUMP_EQ, jt: 1, jf: 0, k: AUDIT_ARCH_X86_64 }),
            v@[2] == (SockFilter {
                code: BPF_RET_CONST,
                jt: 0,
                jf: 0,
                k: SECCOMP_RET_KILL_PROCESS,
            }),
            v@[3] == (SockFilter { code: BPF_LOAD_ABS, jt: 0, jf: 0, k: SECCOMP_DATA_NR_OFFSET }),
            forall|q: int|
                0 <= q < j ==> #[trigger] spec_allow_pair_at(v@, q, spec_whitelist()[q]),
        decreases nums@.len() - j,
    {
        let ghost vprev = v@;
        v.push(bpf_jump(BPF_JUMP_EQ, nums[j], 0, 1));
        v.push(bpf_stmt(BPF_RET_CONST, SECCOMP_RET_ALLOW));
        proof {
            assert forall|q: int|
                0 <= q < j + 1 implies #[trigger] spec_allow_pair_at(
                    v@,
                    q,
                    spec_whitelist()[q],
                ) by {
                if q < j {
                    assert(spec_allow_pair_at(vprev, q, spec_whitelist()[q]));
                    assert(v@[4 + 2 * q] == vprev[4 + 2 * q]);
                    assert(v@[4 + 2 * q + 1] == vprev[4 + 2 * q + 1]);
                } else {
                    assert(q == j);
                    assert(vprev.len() == 4 + 2 * q);
                    assert(v@[4 + 2 * q] == (SockFilter {
                        code: BPF_JUMP_EQ,
                        jt: 0,
                        jf: 1,
                        k: spec_whitelist()[q],
                    }));
                    assert(v@[4 + 2 * q + 1] == (SockFilter {
                        code: BPF_RET_CONST,
                        jt: 0,
                        jf: 0,
                        k: SECCOMP_RET_ALLOW,
                    }));
                }
            }
        }
        j = j + 1;
    }

    let ghost before_kill = v@;
    v.push(bpf_stmt(BPF_RET_CONST, SECCOMP_RET_KILL_PROCESS));
    proof {
        assert forall|q: int|
            0 <= q < spec_whitelist().len() implies #[trigger] spec_allow_pair_at(
                v@,
                q,
                spec_whitelist()[q],
            ) by {
            assert(spec_allow_pair_at(before_kill, q, spec_whitelist()[q]));
            assert(v@[4 + 2 * q] == before_kill[4 + 2 * q]);
            assert(v@[4 + 2 * q + 1] == before_kill[4 + 2 * q + 1]);
        }
    }
    v
}

} // verus!
