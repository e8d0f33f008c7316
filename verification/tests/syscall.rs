//! Darwin-to-Linux syscall translation and the tracer's register steps.

use iosonandroid::darwin;
use iosonandroid::ptrace::{syscall_entry, syscall_entry_with, syscall_exit, UserPtRegs, PSTATE_CARRY_BIT};
use iosonandroid::translate::{
    linux_abi, to_darwin_return, to_linux, to_linux_with, LinuxAbi, LinuxSyscall, SyscallRequest,
    TranslateError,
};

fn req(number: i64, args: [u64; 6]) -> SyscallRequest {
    SyscallRequest { number, args }
}

#[test]
fn mprotect_prot_bits_match_linux() {
    assert_eq!(darwin::PROT_READ as i32, libc::PROT_READ);
    assert_eq!(darwin::PROT_WRITE as i32, libc::PROT_WRITE);
    assert_eq!(darwin::PROT_EXEC as i32, libc::PROT_EXEC);
}

#[test]
fn translates_exit() {
    let out = to_linux(&req(darwin::SYS_EXIT, [42, 0, 0, 0, 0, 0])).unwrap();
    assert_eq!(out.number, libc::SYS_exit);
    assert_eq!(out.args[0], 42);
}

#[test]
fn translates_write_args_passthrough() {
    let args = [1, 0xdead_beef, 3, 0, 0, 0];
    let out = to_linux(&req(darwin::SYS_WRITE, args)).unwrap();
    assert_eq!(out.number, libc::SYS_write);
    assert_eq!(out.args, args);
}

#[test]
fn translates_mprotect_args_passthrough() {
    let args = [0x1_0000, 0x1000, darwin::PROT_READ as u64, 0, 0, 0];
    let out = to_linux(&req(darwin::SYS_MPROTECT, args)).unwrap();
    assert_eq!(out.number, libc::SYS_mprotect);
    assert_eq!(out.args, args);
}

#[test]
fn translates_mmap_anon_private_flag_bits() {
    let darwin_flags = darwin::MAP_PRIVATE | darwin::MAP_ANON;
    // This genuinely differs bit-for-bit from a naive pass-through.
    assert_ne!(darwin_flags as i32, libc::MAP_PRIVATE | libc::MAP_ANONYMOUS);

    let args = [
        0,
        0x1000,
        darwin::PROT_READ as u64,
        darwin_flags as u64,
        5,
        0,
    ];
    let out = to_linux(&req(darwin::SYS_MMAP, args)).unwrap();
    assert_eq!(out.number, libc::SYS_mmap);
    assert_eq!(out.args[3] as i32, libc::MAP_PRIVATE | libc::MAP_ANONYMOUS);
    // fd forced to -1 for an anonymous mapping regardless of what the
    // guest passed.
    assert_eq!(out.args[4] as i64 as i32, -1);
}

#[test]
fn translates_mmap_shared_file_backed_flag_bits() {
    let darwin_flags = darwin::MAP_SHARED;
    let args = [
        0,
        0x1000,
        darwin::PROT_READ as u64,
        darwin_flags as u64,
        7,
        0x2000,
    ];
    let out = to_linux(&req(darwin::SYS_MMAP, args)).unwrap();
    assert_eq!(out.args[3] as i32, libc::MAP_SHARED);
    assert_eq!(out.args[4], 7); // fd left alone for file-backed mappings
    assert_eq!(out.args[5], 0x2000);
}

#[test]
fn unsupported_syscall_number_is_reported_not_guessed() {
    let err = to_linux(&req(9999, [0; 6])).unwrap_err();
    assert_eq!(err, TranslateError::Unsupported(9999));
}

#[test]
fn darwin_return_convention_success() {
    assert_eq!(to_darwin_return(3), (3, false));
    assert_eq!(to_darwin_return(0), (0, false));
}

#[test]
fn darwin_return_convention_error() {
    // Linux write() returning -EBADF (-9)
    assert_eq!(to_darwin_return(-9), (9, true));
}

// ---------------------------------------------------------------------
// Further cases
// ---------------------------------------------------------------------

#[test]
fn darwin_return_of_the_most_negative_value() {
    assert_eq!(to_darwin_return(i64::MIN), (1u64 << 63, true));
    assert_eq!(to_darwin_return(i64::MAX), (i64::MAX as u64, false));
}

#[test]
fn host_abi_is_the_libc_abi() {
    let abi = linux_abi();
    assert_eq!(abi.sys_exit, libc::SYS_exit as i64);
    assert_eq!(abi.sys_write, libc::SYS_write as i64);
    assert_eq!(abi.sys_mprotect, libc::SYS_mprotect as i64);
    assert_eq!(abi.sys_mmap, libc::SYS_mmap as i64);
    assert_eq!(abi.map_shared, libc::MAP_SHARED);
    assert_eq!(abi.map_private, libc::MAP_PRIVATE);
    assert_eq!(abi.map_fixed, libc::MAP_FIXED);
    assert_eq!(abi.map_anonymous, libc::MAP_ANONYMOUS);
}

fn synthetic_abi() -> LinuxAbi {
    LinuxAbi {
        sys_exit: 93,
        sys_write: 64,
        sys_mprotect: 226,
        sys_mmap: 222,
        map_shared: 0x1,
        map_private: 0x2,
        map_fixed: 0x10,
        map_anonymous: 0x20,
    }
}

#[test]
fn mmap_translation_under_a_given_abi() {
    let abi = synthetic_abi();
    let flags = (darwin::MAP_FIXED | darwin::MAP_ANON | 0x4000_0000) as u64;
    let out = to_linux_with(&abi, &req(darwin::SYS_MMAP, [1, 2, 3, flags, 9, 6])).unwrap();
    assert_eq!(
        out,
        LinuxSyscall {
            number: 222,
            args: [1, 2, 3, 0x30, u64::MAX, 6]
        }
    );
}

#[test]
fn unsupported_darwin_syscalls_are_errors() {
    let abi = synthetic_abi();
    for n in [darwin::SYS_READ, darwin::SYS_OPEN, darwin::SYS_CLOSE, darwin::SYS_MUNMAP, 0, -1] {
        assert_eq!(
            to_linux_with(&abi, &req(n, [0; 6])),
            Err(TranslateError::Unsupported(n))
        );
    }
}

#[test]
fn entry_step_rewrites_registers_for_linux() {
    let mut regs = UserPtRegs::default();
    regs.regs[16] = darwin::SYS_WRITE as u64;
    regs.regs[0] = 1;
    regs.regs[1] = 0x1000;
    regs.regs[2] = 3;
    regs.regs[8] = 0x77;
    regs.regs[9] = 0x99;
    regs.pc = 0x1_0010;
    let (request, rewritten) = syscall_entry(&regs);
    assert_eq!(request, req(darwin::SYS_WRITE, [1, 0x1000, 3, 0, 0, 0]));
    let new = rewritten.unwrap();
    assert_eq!(new.regs[8], libc::SYS_write as u64);
    assert_eq!(&new.regs[0..6], &[1, 0x1000, 3, 0, 0, 0]);
    assert_eq!(new.regs[9], 0x99);
    assert_eq!(new.regs[16], darwin::SYS_WRITE as u64);
    assert_eq!(new.pc, 0x1_0010);
}

#[test]
fn entry_step_reports_unsupported_syscalls() {
    let mut regs = UserPtRegs::default();
    regs.regs[16] = 9999;
    let (request, rewritten) = syscall_entry(&regs);
    assert_eq!(request.number, 9999);
    assert_eq!(rewritten.unwrap_err(), TranslateError::Unsupported(9999));
}

#[test]
fn exit_step_sets_the_carry_flag_on_error_only() {
    let mut regs = UserPtRegs::default();
    regs.regs[0] = (-9i64) as u64;
    regs.regs[1] = 5;
    let post = syscall_exit(&regs);
    assert_eq!(post.regs[0], 9);
    assert_eq!(post.regs[1], 5);
    assert_eq!(post.pstate & PSTATE_CARRY_BIT, PSTATE_CARRY_BIT);

    let mut ok = post;
    ok.regs[0] = 42;
    let post = syscall_exit(&ok);
    assert_eq!(post.regs[0], 42);
    assert_eq!(post.pstate & PSTATE_CARRY_BIT, 0);
}

#[test]
fn register_accessors_read_the_darwin_convention() {
    let mut regs = UserPtRegs::default();
    for (i, r) in regs.regs.iter_mut().enumerate() {
        *r = i as u64 * 10;
    }
    assert_eq!(regs.syscall_number(), 160);
    assert_eq!(regs.syscall_args(), [0, 10, 20, 30, 40, 50]);
    let call = LinuxSyscall {
        number: 64,
        args: [7, 6, 5, 4, 3, 2],
    };
    regs.rewrite_for_linux(&call);
    assert_eq!(&regs.regs[0..9], &[7, 6, 5, 4, 3, 2, 60, 70, 64]);
    regs.apply_darwin_return(-2);
    assert_eq!(regs.regs[0], 2);
    assert_ne!(regs.pstate & PSTATE_CARRY_BIT, 0);
}

#[test]
fn entry_step_uses_the_given_abi() {
    let mut regs = UserPtRegs::default();
    regs.regs[16] = darwin::SYS_EXIT as u64;
    regs.regs[0] = 7;
    regs.regs[8] = 0x55;
    let (request, rewritten) = syscall_entry_with(&synthetic_abi(), &regs);
    assert_eq!(request, req(darwin::SYS_EXIT, [7, 0, 0, 0, 0, 0]));
    let new = rewritten.unwrap();
    assert_eq!(new.regs[8], 93);
    assert_eq!(new.regs[0], 7);
    assert_eq!(new.regs[16], darwin::SYS_EXIT as u64);

    regs.regs[16] = 9999;
    let (_, refused) = syscall_entry_with(&synthetic_abi(), &regs);
    assert_eq!(refused.unwrap_err(), TranslateError::Unsupported(9999));
}

#[test]
fn linux_abi_mmap_flags_are_linux_values() {
    let abi = linux_abi();
    assert_eq!(abi.map_shared, 0x1);
    assert_eq!(abi.map_private, 0x2);
    assert_eq!(abi.map_fixed, 0x10);
    assert!(abi.map_anonymous == 0x20 || abi.map_anonymous == 0x800);
    assert_eq!(abi.map_anonymous, libc::MAP_ANONYMOUS);
}
