//! Darwin syscall → Linux syscall translation.
//!
//! This computes *what Linux syscall (number and arguments) to run
//! instead* of a Darwin one; it performs no syscall itself. The result is
//! meant to be written into the traced guest's registers so that the real
//! kernel executes it in the guest's own address space and fd table.
use vstd::prelude::*;
use crate::darwin;

verus! {

/// A syscall request as read out of a traced ARM64 process's registers:
/// `x16` (the Darwin convention for the syscall number) and `x0..x5`.
#[derive(Debug, Clone, Copy, PartialEq, Eq)]
pub struct SyscallRequest {
    pub number: i64,
    pub args: [u64; 6],
}

/// What to actually ask the Linux kernel to do: the Linux syscall number
/// (`x8` in Linux's arm64 convention) and its arguments.
#[derive(Debug, Clone, Copy, PartialEq, Eq)]
pub struct LinuxSyscall {
    pub number: i64,
    pub args: [u64; 6],
}

#[derive(Debug, Clone, Copy, PartialEq, Eq, Structural)]
pub enum TranslateError {
    Unsupported(i64),
}

/// The Linux ABI values that the translation targets: syscall numbers and
/// `mmap` flag bits, as the `libc` crate gives them for the build target.
#[derive(Debug, Clone, Copy, PartialEq, Eq)]
pub struct LinuxAbi {
    pub sys_exit: i64,
    pub sys_write: i64,
    pub sys_mprotect: i64,
    pub sys_mmap: i64,
    pub map_shared: i32,
    pub map_private: i32,
    pub map_fixed: i32,
    pub map_anonymous: i32,
}

/// `libc::SYS_exit` of the build target. Its value differs between
/// targets, so nothing is claimed of it.
#[verifier::external_body]
fn libc_sys_exit() -> i64 {
    libc::SYS_exit as i64
}

/// `libc::SYS_write` of the build target. Its value differs between
/// targets, so nothing is claimed of it.
#[verifier::external_body]
fn libc_sys_write() -> i64 {
    libc::SYS_write as i64
}

/// `libc::SYS_mprotect` of the build target. Its value differs between
/// targets, so nothing is claimed of it.
#[verifier::external_body]
fn libc_sys_mprotect() -> i64 {
    libc::SYS_mprotect as i64
}

/// `libc::SYS_mmap` of the build target. Its value differs between
/// targets, so nothing is claimed of it.
#[verifier::external_body]
fn libc_sys_mmap() -> i64 {
    libc::SYS_mmap as i64
}

/// `libc::MAP_SHARED`: `0x0001` on every Linux-like target of `libc`.
#[verifier::external_body]
fn libc_map_shared() -> (r: i32)
    ensures
        r == 0x1,
{
    libc::MAP_SHARED as i32
}

/// `libc::MAP_PRIVATE`: `0x0002` on every Linux-like target of `libc`.
#[verifier::external_body]
fn libc_map_private() -> (r: i32)
    ensures
        r == 0x2,
{
    libc::MAP_PRIVATE as i32
}

/// `libc::MAP_FIXED`: `0x0010` on every Linux-like target of `libc`.
#[verifier::external_body]
fn libc_map_fixed() -> (r: i32)
    ensures
        r == 0x10,
{
    libc::MAP_FIXED as i32
}

/// `libc::MAP_ANONYMOUS`: `0x20` on the Linux-like targets of `libc`,
/// except MIPS, where it is `0x800`.
#[verifier::external_body]
fn libc_map_anonymous() -> (r: i32)
    ensures
        r == 0x20 || r == 0x800,
{
    libc::MAP_ANONYMOUS as i32
}

/// Linux's `mmap` flag bits as `abi` holds them: `MAP_SHARED` `0x1`,
/// `MAP_PRIVATE` `0x2`, `MAP_FIXED` `0x10`, and `MAP_ANONYMOUS` `0x20`
/// (`0x800` on MIPS). The syscall numbers differ between architectures
/// and are not fixed here.
pub open spec fn has_linux_mmap_flags(abi: LinuxAbi) -> bool {
    &&& abi.map_shared == 0x1
    &&& abi.map_private == 0x2
    &&& abi.map_fixed == 0x10
    &&& (abi.map_anonymous == 0x20 || abi.map_anonymous == 0x800)
}

/// The Linux ABI of the build target, from the `libc` crate.
pub fn linux_abi() -> (r: LinuxAbi)
    ensures
        has_linux_mmap_flags(r),
{
    LinuxAbi {
        sys_exit: libc_sys_exit(),
        sys_write: libc_sys_write(),
        sys_mprotect: libc_sys_mprotect(),
        sys_mmap: libc_sys_mmap(),
        map_shared: libc_map_shared(),
        map_private: libc_map_private(),
        map_fixed: libc_map_fixed(),
        map_anonymous: libc_map_anonymous(),
    }
}

/// The Linux `mmap` flags for the Darwin flags `f`: each of `MAP_SHARED`,
/// `MAP_PRIVATE`, `MAP_FIXED` and `MAP_ANON` is carried over to its Linux
/// bit; every other Darwin bit is dropped.
pub open spec fn spec_mmap_flags(abi: LinuxAbi, f: u32) -> i32 {
    (if f & darwin::MAP_SHARED != 0 { abi.map_shared } else { 0i32 }) | (if f & darwin::MAP_PRIVATE
        != 0 {
        abi.map_private
    } else {
        0i32
    }) | (if f & darwin::MAP_FIXED != 0 { abi.map_fixed } else { 0i32 }) | (if f & darwin::MAP_ANON
        != 0 {
        abi.map_anonymous
    } else {
        0i32
    })
}

/// Under Linux's flag values, an `mmap`'s Darwin `MAP_ANON` bit (`0x1000`)
/// becomes Linux's `MAP_ANONYMOUS` bit and is never passed through as it
/// is: the Linux flags are anonymous exactly when the Darwin ones are, and
/// never hold `0x1000`.
pub proof fn law_map_anon_is_translated(abi: LinuxAbi, f: u32)
    requires
        has_linux_mmap_flags(abi),
    ensures
        (spec_mmap_flags(abi, f) & abi.map_anonymous != 0) <==> (f & darwin::MAP_ANON != 0),
        spec_mmap_flags(abi, f) & 0x1000 == 0,
{
    let s: i32 = if f & 0x1 != 0 { 0x1 } else { 0 };
    let p: i32 = if f & 0x2 != 0 { 0x2 } else { 0 };
    let x: i32 = if f & 0x10 != 0 { 0x10 } else { 0 };
    let a = abi.map_anonymous;
    let an: i32 = if f & 0x1000 != 0 { a } else { 0 };
    assert(spec_mmap_flags(abi, f) == s | p | x | an);
    assert((s == 0 || s == 1) && (p == 0 || p == 2) && (x == 0 || x == 0x10));
    assert((a == 0x20 || a == 0x800) && (an == 0 || an == a));
    assert(((s == 0 || s == 1) && (p == 0 || p == 2) && (x == 0 || x == 0x10) && (a == 0x20
        || a == 0x800) && (an == 0 || an == a)) ==> ((((s | p | x | an) & a) != 0) == (an != 0)
        && (s | p | x | an) & 0x1000 == 0)) by (bit_vector);
}

/// The Linux arguments of a translated `mmap`: the flags (`x3`) are
/// translated, and for an anonymous mapping the fd (`x4`) is forced to -1.
pub open spec fn spec_mmap_args(abi: LinuxAbi, args: Seq<u64>) -> Seq<u64> {
    let flags = spec_mmap_flags(abi, args[3] as u32);
    let with_flags = args.update(3, flags as u64);
    if flags & abi.map_anonymous != 0 {
        with_flags.update(4, (-1i64) as u64)
    } else {
        with_flags
    }
}

/// Under Linux's flag values, a translated `mmap` keeps its address,
/// length, protection and offset (`x0`, `x1`, `x2`, `x5`) as they are,
/// and forces the fd (`x4`) to -1 exactly when the Darwin flags ask for an
/// anonymous mapping: a file-backed mapping keeps its fd.
pub proof fn law_mmap_fd_forced_only_for_anonymous(abi: LinuxAbi, args: Seq<u64>)
    requires
        has_linux_mmap_flags(abi),
        args.len() == 6,
    ensures
        spec_mmap_args(abi, args).len() == 6,
        spec_mmap_args(abi, args)[0] == args[0],
        spec_mmap_args(abi, args)[1] == args[1],
        spec_mmap_args(abi, args)[2] == args[2],
        spec_mmap_args(abi, args)[5] == args[5],
        spec_mmap_args(abi, args)[4] == (if (#[verifier::truncate] (args[3] as u32)) & darwin::MAP_ANON != 0 {
            u64::MAX
        } else {
            args[4]
        }),
{
    law_map_anon_is_translated(abi, #[verifier::truncate] (args[3] as u32));
    assert((-1i64) as u64 == 0xffff_ffff_ffff_ffffu64) by (bit_vector);
}

/// Whether the translation knows the Darwin syscall `n`.
pub open spec fn is_supported(n: i64) -> bool {
    n == darwin::SYS_EXIT || n == darwin::SYS_WRITE || n == darwin::SYS_MPROTECT || n
        == darwin::SYS_MMAP
}

/// The Linux syscall number for the supported Darwin syscall `n`.
pub open spec fn spec_linux_number(abi: LinuxAbi, n: i64) -> i64 {
    if n == darwin::SYS_EXIT {
        abi.sys_exit
    } else if n == darwin::SYS_WRITE {
        abi.sys_write
    } else if n == darwin::SYS_MPROTECT {
        abi.sys_mprotect
    } else {
        abi.sys_mmap
    }
}

/// The Linux arguments for the supported Darwin syscall `n`: passed
/// through unchanged, but for `mmap`.
pub open spec fn spec_linux_args(abi: LinuxAbi, n: i64, args: Seq<u64>) -> Seq<u64> {
    if n == darwin::SYS_MMAP {
        spec_mmap_args(abi, args)
    } else {
        args
    }
}

/// `call` is the translation of `req` under `abi`.
pub open spec fn translates_to(abi: LinuxAbi, req: SyscallRequest, call: LinuxSyscall) -> bool {
    &&& is_supported(req.number)
    &&& call.number == spec_linux_number(abi, req.number)
    &&& call.args@ == spec_linux_args(abi, req.number, req.args@)
}

fn translate_mmap_flags(abi: &LinuxAbi, darwin_flags: u32) -> (r: i32)
    ensures
        r == spec_mmap_flags(*abi, darwin_flags),
{
    let shared = if darwin_flags & darwin::MAP_SHARED != 0 {
        abi.map_shared
    } else {
        0
    };
    let private = if darwin_flags & darwin::MAP_PRIVATE != 0 {
        abi.map_private
    } else {
        0
    };
    let fixed = if darwin_flags & darwin::MAP_FIXED != 0 {
        abi.map_fixed
    } else {
        0
    };
    let anonymous = if darwin_flags & darwin::MAP_ANON != 0 {
        abi.map_anonymous
    } else {
        0
    };
    shared | private | fixed | anonymous
}

/// The Linux syscall to run for `req` on a kernel with the ABI `abi`.
pub fn to_linux_with(abi: &LinuxAbi, req: &SyscallRequest) -> (r: Result<
    LinuxSyscall,
    TranslateError,
>)
    ensures
        match r {
            Ok(call) => translates_to(*abi, *req, call),
            Err(e) => !is_supported(req.number) && e == TranslateError::Unsupported(req.number),
        },
{
    let mut args = req.args;
    let number = if req.number == darwin::SYS_EXIT {
        abi.sys_exit
    } else if req.number == darwin::SYS_WRITE {
        abi.sys_write
    } else if req.number == darwin::SYS_MPROTECT {
        // Darwin's vm_prot_t bits are numerically identical to Linux's
        // PROT_* bits.
        abi.sys_mprotect
    } else if req.number == darwin::SYS_MMAP {
        let flags = translate_mmap_flags(abi, #[verifier::truncate] (args[3] as u32));
        args[3] = flags as u64;
        assert((flags as u64) as i32 == flags) by (bit_vector);
        if #[verifier::truncate] (args[3] as i32) & abi.map_anonymous != 0 {
            // Darwin requires fd == -1 for anonymous mappings too, but a
            // guest is not trusted to have got that right.
            args[4] = (-1i64) as u64;
        }
        abi.sys_mmap
    } else {
        return Err(TranslateError::Unsupported(req.number));
    };
    Ok(LinuxSyscall { number, args })
}

/// The Linux syscall to run for `req` on the build target.
pub fn to_linux(req: &SyscallRequest) -> (r: Result<LinuxSyscall, TranslateError>)
    ensures
        match r {
            Ok(call) => exists|abi: LinuxAbi|
                has_linux_mmap_flags(abi) && translates_to(abi, *req, call),
            Err(e) => !is_supported(req.number) && e == TranslateError::Unsupported(req.number),
        },
        r matches Ok(call) ==> (req.number != darwin::SYS_MMAP ==> call.args == req.args),
        r matches Ok(call) ==> req.number == darwin::SYS_MMAP ==> {
            &&& call.args[0] == req.args[0]
            &&& call.args[1] == req.args[1]
            &&& call.args[2] == req.args[2]
            &&& call.args[5] == req.args[5]
            &&& call.args[4] == (if (#[verifier::truncate] (req.args[3] as u32)) & darwin::MAP_ANON
                != 0 {
                u64::MAX
            } else {
                req.args[4]
            })
        },
{
    let abi = linux_abi();
    let r = to_linux_with(&abi, req);
    proof {
        law_mmap_fd_forced_only_for_anonymous(abi, req.args@);
        if let Ok(call) = r {
            assert(call.args@ =~= req.args@ ==> call.args == req.args);
        }
    }
    r
}

/// Darwin's arm64 return value for the raw Linux return `linux_ret`
/// (negative = `-errno`): on success `x0` holds the result and the carry
/// flag is clear; on error `x0` holds the positive `errno` and the carry
/// flag is set.
pub open spec fn spec_darwin_return(linux_ret: i64) -> (u64, bool) {
    if linux_ret < 0 {
        ((-linux_ret) as u64, true)
    } else {
        (linux_ret as u64, false)
    }
}

/// Converts a raw Linux syscall return value into Darwin's arm64 return
/// convention. Returns `(x0_value, carry_set)`.
pub fn to_darwin_return(linux_ret: i64) -> (r: (u64, bool))
    ensures
        r == spec_darwin_return(linux_ret),
        linux_ret < 0 ==> r.0 == -linux_ret,
{
    if linux_ret < 0 {
        ((-(linux_ret as i128)) as u64, true)
    } else {
        (linux_ret as u64, false)
    }
}

} // verus!
