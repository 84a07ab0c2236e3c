use abraxas::inotify::parse_inotify_events;
use abraxas::seccomp::{
    build_filter, syscall_whitelist, AUDIT_ARCH_X86_64, BPF_JUMP_EQ, BPF_LOAD_ABS, BPF_RET_CONST,
    SECCOMP_RET_ALLOW, SECCOMP_RET_KILL_PROCESS,
};
use abraxas::uring::{
    prep_cancel, prep_poll, prep_timeout, process_cqe, IoUringCqe, PollState, EV_CANCEL,
    EV_INOTIFY, EV_SIGNAL, EV_TIMEOUT, EV_WEATHER, IORING_CQE_F_MORE, IORING_OP_ASYNC_CANCEL,
    IORING_OP_POLL_ADD, IORING_OP_TIMEOUT,
};
use abraxas::landlock::{
    landlock_rules, PathRule, ACCESS_CONFIG_DIR, ACCESS_FS_EXECUTE, ACCESS_FS_MAKE_DIR,
    ACCESS_FS_MAKE_REG, ACCESS_FS_READ_DIR, ACCESS_FS_READ_FILE, ACCESS_FS_REMOVE_FILE,
    ACCESS_FS_WRITE_FILE, ACCESS_READ_EXEC, ACCESS_READ_ONLY, ACCESS_TMP,
    LANDLOCK_HANDLED_ACCESS,
};
use abraxas::{FLAG_CONFIG, FLAG_OVERRIDE, FLAG_SIGNAL, FLAG_TIMER, FLAG_WEATHER};

/// Build one inotify record: 16-byte header with the name length in
/// bytes 12..16 (little-endian), then the NUL-padded name.
fn record(name: &[u8], pad_to: usize) -> Vec<u8> {
    let mut buf = vec![0u8; 12];
    let mut padded = name.to_vec();
    while padded.len() < pad_to {
        padded.push(0);
    }
    buf.extend_from_slice(&(padded.len() as u32).to_le_bytes());
    buf.extend_from_slice(&padded);
    buf
}

#[test]
fn inotify_detects_override_file() {
    let buf = record(b"override.json", 16);
    assert_eq!(
        parse_inotify_events(&buf, b"override.json", b"config.ini"),
        FLAG_OVERRIDE
    );
}

#[test]
fn inotify_detects_config_file() {
    let buf = record(b"config.ini", 16);
    assert_eq!(parse_inotify_events(&buf, b"override.json", b"config.ini"), FLAG_CONFIG);
}

#[test]
fn inotify_detects_both_across_records() {
    let mut buf = record(b"config.ini", 16);
    buf.extend_from_slice(&record(b"override.json", 16));
    assert_eq!(
        parse_inotify_events(&buf, b"override.json", b"config.ini"),
        FLAG_OVERRIDE + FLAG_CONFIG
    );
}

#[test]
fn inotify_ignores_unrelated_files() {
    let mut buf = record(b"something.else", 16);
    buf.extend_from_slice(&record(b"override.json.tmp", 20));
    assert_eq!(parse_inotify_events(&buf, b"override.json", b"config.ini"), 0);
}

#[test]
fn inotify_ignores_truncated_trailing_record() {
    let mut buf = record(b"config.ini", 16);
    // a header claiming a name longer than what follows
    let mut bad = vec![0u8; 12];
    bad.extend_from_slice(&64u32.to_le_bytes());
    bad.extend_from_slice(b"override.json\0");
    buf.extend_from_slice(&bad);
    assert_eq!(parse_inotify_events(&buf, b"override.json", b"config.ini"), FLAG_CONFIG);
}

#[test]
fn inotify_empty_and_short_buffers() {
    assert_eq!(parse_inotify_events(b"", b"override.json", b"config.ini"), 0);
    assert_eq!(parse_inotify_events(&[0u8; 10], b"override.json", b"config.ini"), 0);
}

#[test]
fn cqe_timeout_raises_timer_flag() {
    let mut polls = PollState { inotify: true, signal: true, weather: true };
    let cqe = IoUringCqe { user_data: EV_TIMEOUT, res: 0, flags: 0 };
    assert_eq!(process_cqe(&cqe, &mut polls), (FLAG_TIMER, false));
    assert!(polls.inotify && polls.signal && polls.weather);
}

#[test]
fn cqe_signal_clears_single_shot_poll() {
    let mut polls = PollState { inotify: true, signal: true, weather: true };
    let cqe = IoUringCqe { user_data: EV_SIGNAL, res: 8, flags: 0 };
    assert_eq!(process_cqe(&cqe, &mut polls), (FLAG_SIGNAL, false));
    assert!(!polls.signal);
}

#[test]
fn cqe_multishot_keeps_poll_armed() {
    let mut polls = PollState { inotify: true, signal: true, weather: true };
    let cqe = IoUringCqe { user_data: EV_SIGNAL, res: 8, flags: IORING_CQE_F_MORE };
    assert_eq!(process_cqe(&cqe, &mut polls), (FLAG_SIGNAL, false));
    assert!(polls.signal);
}

#[test]
fn cqe_inotify_requests_descriptor_read() {
    let mut polls = PollState { inotify: true, signal: true, weather: true };
    let cqe = IoUringCqe { user_data: EV_INOTIFY, res: 32, flags: 0 };
    assert_eq!(process_cqe(&cqe, &mut polls), (0, true));
    assert!(!polls.inotify);
    let cqe2 = IoUringCqe { user_data: EV_INOTIFY, res: 0, flags: 0 };
    let mut polls2 = PollState { inotify: true, signal: true, weather: true };
    assert_eq!(process_cqe(&cqe2, &mut polls2), (0, false));
}

#[test]
fn cqe_weather_flag_needs_readable_pipe() {
    let mut polls = PollState { inotify: true, signal: true, weather: true };
    let cqe = IoUringCqe { user_data: EV_WEATHER, res: 100, flags: 0 };
    assert_eq!(process_cqe(&cqe, &mut polls), (FLAG_WEATHER, false));
    assert!(!polls.weather);
}

#[test]
fn cqe_cancel_decodes_to_nothing() {
    let mut polls = PollState { inotify: true, signal: true, weather: true };
    let cqe = IoUringCqe { user_data: EV_CANCEL, res: 0, flags: 0 };
    assert_eq!(process_cqe(&cqe, &mut polls), (0, false));
}

#[test]
fn sqe_builders_fill_expected_fields() {
    let p = prep_poll(7, EV_INOTIFY);
    assert_eq!(p.opcode, IORING_OP_POLL_ADD);
    assert_eq!(p.fd, 7);
    assert_eq!(p.rw_flags, 1);
    assert_eq!(p.user_data, EV_INOTIFY);
    assert_eq!(p.len, 0);

    let t = prep_timeout(0xDEAD_BEEF, EV_TIMEOUT);
    assert_eq!(t.opcode, IORING_OP_TIMEOUT);
    assert_eq!(t.fd, -1);
    assert_eq!(t.addr, 0xDEAD_BEEF);
    assert_eq!(t.len, 1);
    assert_eq!(t.user_data, EV_TIMEOUT);

    let c = prep_cancel(EV_TIMEOUT, EV_CANCEL);
    assert_eq!(c.opcode, IORING_OP_ASYNC_CANCEL);
    assert_eq!(c.addr, EV_TIMEOUT);
    assert_eq!(c.user_data, EV_CANCEL);
}

#[test]
fn seccomp_filter_shape() {
    let nums = syscall_whitelist();
    let f = build_filter();
    assert_eq!(f.len(), 4 + 2 * nums.len() + 1);

    // prologue: load arch, check it, kill on mismatch, load nr
    assert_eq!(f[0].code, BPF_LOAD_ABS);
    assert_eq!(f[0].k, 4);
    assert_eq!(f[1].code, BPF_JUMP_EQ);
    assert_eq!(f[1].k, AUDIT_ARCH_X86_64);
    assert_eq!((f[1].jt, f[1].jf), (1, 0));
    assert_eq!(f[2].code, BPF_RET_CONST);
    assert_eq!(f[2].k, SECCOMP_RET_KILL_PROCESS);
    assert_eq!(f[3].code, BPF_LOAD_ABS);
    assert_eq!(f[3].k, 0);

    // every admitted syscall gets a test-and-allow pair
    for (j, nr) in nums.iter().enumerate() {
        let test = &f[4 + 2 * j];
        let allow = &f[4 + 2 * j + 1];
        assert_eq!(test.code, BPF_JUMP_EQ);
        assert_eq!(test.k, *nr);
        assert_eq!((test.jt, test.jf), (0, 1));
        assert_eq!(allow.code, BPF_RET_CONST);
        assert_eq!(allow.k, SECCOMP_RET_ALLOW);
    }

    // epilogue kills
    let last = f.last().unwrap();
    assert_eq!(last.code, BPF_RET_CONST);
    assert_eq!(last.k, SECCOMP_RET_KILL_PROCESS);
}

#[test]
fn seccomp_whitelist_covers_core_engine_syscalls() {
    let nums = syscall_whitelist();
    for nr in [0u32, 1, 16, 425, 426, 228, 289, 294, 254] {
        assert!(nums.contains(&nr), "syscall {nr} missing from whitelist");
    }
}

#[test]
fn landlock_masks_compose_from_the_access_bits() {
    let read_only = ACCESS_FS_READ_FILE | ACCESS_FS_READ_DIR;
    assert_eq!(ACCESS_READ_ONLY, read_only);
    assert_eq!(ACCESS_READ_EXEC, read_only | ACCESS_FS_EXECUTE);
    assert_eq!(
        ACCESS_CONFIG_DIR,
        read_only | ACCESS_FS_WRITE_FILE | ACCESS_FS_REMOVE_FILE | ACCESS_FS_MAKE_REG
            | ACCESS_FS_MAKE_DIR
    );
    assert_eq!(ACCESS_TMP, ACCESS_FS_READ_FILE | ACCESS_FS_WRITE_FILE | ACCESS_FS_MAKE_REG);
    assert_eq!(LANDLOCK_HANDLED_ACCESS, ACCESS_CONFIG_DIR | ACCESS_FS_EXECUTE);
}

#[test]
fn landlock_policy_table() {
    let rules = landlock_rules();
    assert_eq!(
        rules,
        vec![
            (PathRule::ConfigDir, ACCESS_CONFIG_DIR),
            (PathRule::Dev, ACCESS_READ_ONLY),
            (PathRule::Proc, ACCESS_READ_ONLY),
            (PathRule::Usr, ACCESS_READ_EXEC),
            (PathRule::Etc, ACCESS_READ_ONLY),
            (PathRule::Lib, ACCESS_READ_ONLY),
            (PathRule::Lib64, ACCESS_READ_ONLY),
            (PathRule::Tmp, ACCESS_TMP),
        ]
    );
    // the configuration directory is the only writable-and-removable
    // path; execute exists only on the binaries tree
    for (rule, access) in rules {
        if rule != PathRule::ConfigDir {
            assert_eq!(access & ACCESS_FS_REMOVE_FILE, 0);
        }
        if rule != PathRule::Usr {
            assert_eq!(access & ACCESS_FS_EXECUTE, 0);
        }
    }
}
