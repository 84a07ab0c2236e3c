//! The filesystem-restriction policy: which paths the daemon may
//! touch, and how.
//!
//! The path set and its access bits are part of the design, not
//! configuration: the configuration directory gets full
//! read/write/create/delete, a small fixed set of system paths gets
//! read-only (with execute on the binaries tree for the HTTPS child,
//! and scratch access on the temporary directory for its downloads).
//! Installing the policy (three syscalls) happens at the I/O edge;
//! the table itself is fixed here.

use vstd::prelude::*;

verus! {

/// Landlock access bit: execute a file.
pub const ACCESS_FS_EXECUTE: u64 = 0x1;

/// Landlock access bit: write to a file.
pub const ACCESS_FS_WRITE_FILE: u64 = 0x2;

/// Landlock access bit: read a file.
pub const ACCESS_FS_READ_FILE: u64 = 0x4;

/// Landlock access bit: read a directory.
pub const ACCESS_FS_READ_DIR: u64 = 0x8;

/// Landlock access bit: remove a file.
pub const ACCESS_FS_REMOVE_FILE: u64 = 0x20;

/// Landlock access bit: create a directory.
pub const ACCESS_FS_MAKE_DIR: u64 = 0x80;

/// Landlock access bit: create a regular file.
pub const ACCESS_FS_MAKE_REG: u64 = 0x100;

/// All access kinds the ruleset handles: read file and directory,
/// write, remove, create file and directory, execute (0x1AF is the
/// seven bits above combined).
pub const LANDLOCK_HANDLED_ACCESS: u64 = 0x1AF;

/// Full access to the configuration directory: everything handled
/// except execute (0x1AE).
pub const ACCESS_CONFIG_DIR: u64 = 0x1AE;

/// Read-only access: read file and read directory (0xC).
pub const ACCESS_READ_ONLY: u64 = 0xC;

/// Read-only plus execute, for the binaries tree (0xD).
pub const ACCESS_READ_EXEC: u64 = 0xD;

/// Scratch access for the HTTPS child's temporary files: read,
/// write, create (0x106).
pub const ACCESS_TMP: u64 = 0x106;

/// The fixed paths the policy speaks of. The configuration directory
/// is resolved at startup; the rest are absolute system paths.
#[derive(Clone, Copy, PartialEq, Eq, Structural, Debug)]
pub enum PathRule {
    /// The daemon's configuration directory.
    ConfigDir,
    /// `/dev`, read for the display-card ioctls.
    Dev,
    /// `/proc`, read for process information.
    Proc,
    /// `/usr`, execute for the HTTPS child, read for shared libraries.
    Usr,
    /// `/etc`, read for timezone and resolver data.
    Etc,
    /// `/lib`, shared libraries.
    Lib,
    /// `/lib64`, shared libraries.
    Lib64,
    /// `/tmp`, the HTTPS child's scratch files.
    Tmp,
}

/// The whole policy, in installation order: each path with its
/// allowed access bits.
pub open spec fn spec_landlock_rules() -> Seq<(PathRule, u64)> {
    seq![
        (PathRule::ConfigDir, ACCESS_CONFIG_DIR),
        (PathRule::Dev, ACCESS_READ_ONLY),
        (PathRule::Proc, ACCESS_READ_ONLY),
        (PathRule::Usr, ACCESS_READ_EXEC),
        (PathRule::Etc, ACCESS_READ_ONLY),
        (PathRule::Lib, ACCESS_READ_ONLY),
        (PathRule::Lib64, ACCESS_READ_ONLY),
        (PathRule::Tmp, ACCESS_TMP),
    ]
}

/// Build the policy table for the installer.
pub fn landlock_rules() -> (r: Vec<(PathRule, u64)>)
    ensures
        r@ == spec_landlock_rules(),
{
    let mut v: Vec<(PathRule, u64)> = Vec::new();
    v.push((PathRule::ConfigDir, ACCESS_CONFIG_DIR));
    v.push((PathRule::Dev, ACCESS_READ_ONLY));
    v.push((PathRule::Proc, ACCESS_READ_ONLY));
    v.push((PathRule::Usr, ACCESS_READ_EXEC));
    v.push((PathRule::Etc, ACCESS_READ_ONLY));
    v.push((PathRule::Lib, ACCESS_READ_ONLY));
    v.push((PathRule::Lib64, ACCESS_READ_ONLY));
    v.push((PathRule::Tmp, ACCESS_TMP));
    proof {
        assert(v@ =~= spec_landlock_rules());
    }
    v
}

} // verus!
