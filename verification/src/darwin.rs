//! Darwin/XNU BSD syscall numbers and `mmap`/`mprotect` flag bits: public
//! ABI values from `bsd/kern/syscalls.master` and `bsd/sys/mman.h`.
use vstd::prelude::*;

verus! {

/// Terminate the calling thread (BSD `exit`).
pub const SYS_EXIT: i64 = 1;

pub const SYS_READ: i64 = 3;

pub const SYS_WRITE: i64 = 4;

pub const SYS_OPEN: i64 = 5;

pub const SYS_CLOSE: i64 = 6;

pub const SYS_MUNMAP: i64 = 73;

pub const SYS_MPROTECT: i64 = 74;

pub const SYS_MMAP: i64 = 197;

/// `vm_prot_t` bits: numerically identical to Linux's `PROT_*` (read `1`,
/// write `2`, exec `4`), which is why an `mprotect` request keeps its
/// protection argument as it is.
pub const PROT_READ: u32 = 0x01;

pub const PROT_WRITE: u32 = 0x02;

pub const PROT_EXEC: u32 = 0x04;

/// `mmap` flags from Darwin's `<sys/mman.h>`. Several differ from Linux's
/// `MAP_*` flags of the same name (`MAP_ANON`: `0x1000` on Darwin, `0x20`
/// on Linux).
pub const MAP_SHARED: u32 = 0x0001;

pub const MAP_PRIVATE: u32 = 0x0002;

pub const MAP_FIXED: u32 = 0x0010;

pub const MAP_ANON: u32 = 0x1000;

} // verus!
