//! The numbers that the kernel takes for the flags of the plan.
//!
//! The plan speaks of flags by name. The system calls take bits, and the
//! bits come from the `nix` crate, which has them from `libc`. The two
//! functions that fetch them are believed, not proved; everything else here
//! is proved from what they promise.

use crate::plan::MountFlags;
use vstd::prelude::*;

verus! {

/// The bit of `MS_BIND`.
pub const MS_BIND: u64 = 0x1000;

/// The bit of `MS_REC`.
pub const MS_REC: u64 = 0x4000;

/// The bit of `MS_PRIVATE`.
pub const MS_PRIVATE: u64 = 0x4_0000;

/// The bit of `CLONE_NEWNS`.
pub const CLONE_NEWNS: u64 = 0x2_0000;

/// The bit of `CLONE_NEWUTS`.
pub const CLONE_NEWUTS: u64 = 0x400_0000;

/// The bit of `CLONE_NEWUSER`.
pub const CLONE_NEWUSER: u64 = 0x1000_0000;

/// Calls `nix::mount::MsFlags::bits` on `MS_BIND`, `MS_REC` and
/// `MS_PRIVATE`. Claimed without proof: the three results are the bits that
/// `libc` defines for Linux on every architecture, `0x1000`, `0x4000` and
/// `0x40000`.
#[verifier::external_body]
fn mount_flag_bits() -> (bits: (u64, u64, u64))
    ensures
        bits == (MS_BIND, MS_REC, MS_PRIVATE),
{
    (
        nix::mount::MsFlags::MS_BIND.bits() as u64,
        nix::mount::MsFlags::MS_REC.bits() as u64,
        nix::mount::MsFlags::MS_PRIVATE.bits() as u64,
    )
}

/// Calls `nix::sched::CloneFlags::bits` on `CLONE_NEWUSER`, `CLONE_NEWNS`
/// and `CLONE_NEWUTS`. Claimed without proof: the three results are the bits
/// that `libc` defines for Linux on every architecture, `0x10000000`,
/// `0x20000` and `0x4000000`.
#[verifier::external_body]
fn clone_flag_bits() -> (bits: (u64, u64, u64))
    ensures
        bits == (CLONE_NEWUSER, CLONE_NEWNS, CLONE_NEWUTS),
{
    (
        nix::sched::CloneFlags::CLONE_NEWUSER.bits() as u64,
        nix::sched::CloneFlags::CLONE_NEWNS.bits() as u64,
        nix::sched::CloneFlags::CLONE_NEWUTS.bits() as u64,
    )
}

/// `bit` if `on`, else no bit.
pub open spec fn bit_if(on: bool, bit: u64) -> u64 {
    if on {
        bit
    } else {
        0
    }
}

/// The bits of a set of mount flags.
pub open spec fn spec_mount_bits(flags: MountFlags) -> u64 {
    bit_if(flags.bind, MS_BIND) | bit_if(flags.recursive, MS_REC) | bit_if(
        flags.private,
        MS_PRIVATE,
    )
}

/// The bits of a set of namespaces to leave.
pub open spec fn spec_unshare_bits(user: bool, mount: bool, uts: bool) -> u64 {
    bit_if(user, CLONE_NEWUSER) | bit_if(mount, CLONE_NEWNS) | bit_if(uts, CLONE_NEWUTS)
}

/// The bits that a mount with the flags `flags` hands to the kernel.
pub fn mount_bits(flags: MountFlags) -> (bits: u64)
    ensures
        bits == spec_mount_bits(flags),
{
    let (bind, recursive, private) = mount_flag_bits();
    let b: u64 = if flags.bind {
        bind
    } else {
        0
    };
    let r: u64 = if flags.recursive {
        recursive
    } else {
        0
    };
    let p: u64 = if flags.private {
        private
    } else {
        0
    };
    b | r | p
}

/// The bits that leaving the given namespaces hands to the kernel.
pub fn unshare_bits(user: bool, mount: bool, uts: bool) -> (bits: u64)
    ensures
        bits == spec_unshare_bits(user, mount, uts),
{
    let (new_user, new_ns, new_uts) = clone_flag_bits();
    let a: u64 = if user {
        new_user
    } else {
        0
    };
    let b: u64 = if mount {
        new_ns
    } else {
        0
    };
    let c: u64 = if uts {
        new_uts
    } else {
        0
    };
    a | b | c
}

/// The mounts of the sandbox reach the kernel as `MS_BIND | MS_REC |
/// MS_PRIVATE`: the bit of `MS_PRIVATE` is set in every one of them.
pub proof fn lemma_private_bind_bits()
    ensures
        spec_mount_bits(MountFlags::spec_private_bind()) == 0x4_5000,
        spec_mount_bits(MountFlags::spec_private_bind()) & MS_PRIVATE == MS_PRIVATE,
{
    assert(0x1000u64 | 0x4000u64 | 0x4_0000u64 == 0x4_5000u64) by (bit_vector);
    assert(0x4_5000u64 & 0x4_0000u64 == 0x4_0000u64) by (bit_vector);
}

/// The sandbox leaves the user, mount and host-name namespaces at once.
pub proof fn lemma_unshare_all_bits()
    ensures
        spec_unshare_bits(true, true, true) == 0x1402_0000,
{
    assert(0x1000_0000u64 | 0x2_0000u64 | 0x400_0000u64 == 0x1402_0000u64) by (bit_vector);
}

} // verus!
