//! The register side of ptrace-based Darwin syscall interception on ARM64.
//!
//! At a syscall-entry stop the tracer reads the guest's registers, asks
//! [`syscall_entry`] what to do, and writes back the registers it returns,
//! so that the real kernel runs the translated Linux syscall in the
//! guest's own context; at the matching exit stop it writes back what
//! [`syscall_exit`] returns. The ptrace and waitpid calls themselves are
//! the tracer's I/O and live outside this library.
use vstd::prelude::*;
use crate::translate::{
    spec_darwin_return, to_darwin_return, to_linux_with, linux_abi, has_linux_mmap_flags, LinuxAbi, LinuxSyscall, SyscallRequest,
    TranslateError, translates_to,
};

verus! {

/// The kernel's `struct user_pt_regs` (`NT_PRSTATUS` on arm64): 31 general
/// registers, `sp`, `pc`, `pstate`.
#[derive(Debug, Clone, Copy, Default)]
pub struct UserPtRegs {
    pub regs: [u64; 31],
    pub sp: u64,
    pub pc: u64,
    pub pstate: u64,
}

/// The carry flag (C) of `pstate`.
pub const PSTATE_CARRY_BIT: u64 = 0x2000_0000;

/// `new` is `old` rewritten to request `call`: its number in `x8`, its
/// arguments in `x0..x5`, everything else kept.
pub open spec fn is_rewritten(old: UserPtRegs, call: LinuxSyscall, new: UserPtRegs) -> bool {
    &&& new.regs@ == call.args@ + old.regs@.subrange(6, 31).update(2, call.number as u64)
    &&& new.sp == old.sp
    &&& new.pc == old.pc
    &&& new.pstate == old.pstate
}

/// `new` is `old` with `x0` and the carry flag set as Darwin reports the
/// raw Linux return value `linux_x0`, everything else kept.
pub open spec fn has_darwin_return(old: UserPtRegs, linux_x0: i64, new: UserPtRegs) -> bool {
    let (value, carry) = spec_darwin_return(linux_x0);
    &&& new.regs@ == old.regs@.update(0, value)
    &&& new.sp == old.sp
    &&& new.pc == old.pc
    &&& new.pstate == if carry {
        old.pstate | PSTATE_CARRY_BIT
    } else {
        old.pstate & !PSTATE_CARRY_BIT
    }
}

/// After a syscall, `x0` holds the result on success and the positive
/// errno on failure, the carry flag is set exactly when the call failed,
/// and no other `pstate` bit changes.
pub proof fn law_carry_flag_reports_failure(old: UserPtRegs, linux_x0: i64, new: UserPtRegs)
    requires
        has_darwin_return(old, linux_x0, new),
    ensures
        (new.pstate & PSTATE_CARRY_BIT != 0) == (linux_x0 < 0),
        new.pstate & !PSTATE_CARRY_BIT == old.pstate & !PSTATE_CARRY_BIT,
        linux_x0 < 0 ==> new.regs@[0] == -linux_x0,
        linux_x0 >= 0 ==> new.regs@[0] == linux_x0,
{
    let p = old.pstate;
    assert((p | 0x2000_0000u64) & 0x2000_0000u64 != 0) by (bit_vector);
    assert((p & !0x2000_0000u64) & 0x2000_0000u64 == 0) by (bit_vector);
    assert((p | 0x2000_0000u64) & !0x2000_0000u64 == p & !0x2000_0000u64) by (bit_vector);
    assert((p & !0x2000_0000u64) & !0x2000_0000u64 == p & !0x2000_0000u64) by (bit_vector);
}

impl UserPtRegs {
    /// `x16`: the Darwin convention register for the syscall number.
    pub fn syscall_number(&self) -> (n: i64)
        ensures
            n == self.regs@[16] as i64,
    {
        #[verifier::truncate]
        (self.regs[16] as i64)
    }

    /// `x0..x5`.
    pub fn syscall_args(&self) -> (a: [u64; 6])
        ensures
            a@ == self.regs@.subrange(0, 6),
    {
        let a = [
            self.regs[0],
            self.regs[1],
            self.regs[2],
            self.regs[3],
            self.regs[4],
            self.regs[5],
        ];
        assert(a@ =~= self.regs@.subrange(0, 6));
        a
    }

    /// Rewrites this register set in place to request `linux_call` via
    /// Linux's own convention (syscall number in `x8`, arguments in
    /// `x0..x5`).
    pub fn rewrite_for_linux(&mut self, linux_call: &LinuxSyscall)
        ensures
            is_rewritten(*old(self), *linux_call, *final(self)),
    {
        self.regs[8] = #[verifier::truncate] (linux_call.number as u64);
        let mut i: usize = 0;
        while i < 6
            invariant
                i <= 6,
                self.regs@.len() == 31,
                forall|j: int| 0 <= j < i ==> self.regs@[j] == linux_call.args@[j],
                forall|j: int| 6 <= j < 31 ==> self.regs@[j] == (if j == 8 {
                    linux_call.number as u64
                } else {
                    old(self).regs@[j]
                }),
                self.sp == old(self).sp,
                self.pc == old(self).pc,
                self.pstate == old(self).pstate,
            decreases 6 - i,
        {
            self.regs[i] = linux_call.args[i];
            i = i + 1;
        }
        assert(self.regs@ =~= linux_call.args@ + old(self).regs@.subrange(6, 31).update(
            2,
            linux_call.number as u64,
        ));
    }

    /// Applies Darwin's carry-flag return convention after the real
    /// (Linux) syscall has run and its raw `x0` result has been read back.
    pub fn apply_darwin_return(&mut self, linux_x0: i64)
        ensures
            has_darwin_return(*old(self), linux_x0, *final(self)),
    {
        let (value, carry) = to_darwin_return(linux_x0);
        self.regs[0] = value;
        if carry {
            self.pstate = self.pstate | PSTATE_CARRY_BIT;
        } else {
            self.pstate = self.pstate & !PSTATE_CARRY_BIT;
        }
    }
}

/// What the tracer does at a syscall-entry stop with the guest registers
/// `regs`, for the Linux ABI `abi`: the Darwin request they make (number
/// from `x16`, arguments from `x0..x5`) and, when the request can be
/// translated, the registers to write back so that the kernel runs its
/// Linux equivalent under `abi`.
pub fn syscall_entry_with(abi: &LinuxAbi, regs: &UserPtRegs) -> (r: (
    SyscallRequest,
    Result<UserPtRegs, TranslateError>,
))
    ensures
        r.0.number == regs.regs@[16] as i64,
        r.0.args@ == regs.regs@.subrange(0, 6),
        match r.1 {
            Ok(new) => exists|call: LinuxSyscall|
                translates_to(*abi, r.0, call) && is_rewritten(*regs, call, new),
            Err(e) => e == TranslateError::Unsupported(r.0.number) && !crate::translate::is_supported(
                r.0.number,
            ),
        },
{
    let request = SyscallRequest { number: regs.syscall_number(), args: regs.syscall_args() };
    match to_linux_with(abi, &request) {
        Ok(call) => {
            let mut new = *regs;
            new.rewrite_for_linux(&call);
            let r = (request, Ok(new));
            assert(translates_to(*abi, r.0, call) && is_rewritten(*regs, call, r.1->Ok_0));
            r
        },
        Err(e) => (request, Err(e)),
    }
}

/// [`syscall_entry_with`] under the Linux ABI of the target this library
/// was built for.
pub fn syscall_entry(regs: &UserPtRegs) -> (r: (SyscallRequest, Result<UserPtRegs, TranslateError>))
    ensures
        r.0.number == regs.regs@[16] as i64,
        r.0.args@ == regs.regs@.subrange(0, 6),
        match r.1 {
            Ok(new) => exists|abi: LinuxAbi, call: LinuxSyscall|
                has_linux_mmap_flags(abi) && translates_to(abi, r.0, call) && is_rewritten(
                    *regs,
                    call,
                    new,
                ),
            Err(e) => e == TranslateError::Unsupported(r.0.number) && !crate::translate::is_supported(
                r.0.number,
            ),
        },
{
    let abi = linux_abi();
    syscall_entry_with(&abi, regs)
}

/// What the tracer writes back at the matching syscall-exit stop, given
/// the registers `post` there (`x0` holding the raw Linux result).
pub fn syscall_exit(post: &UserPtRegs) -> (r: UserPtRegs)
    ensures
        has_darwin_return(*post, post.regs@[0] as i64, r),
{
    let mut r = *post;
    let linux_x0 = #[verifier::truncate] (r.regs[0] as i64);
    r.apply_darwin_return(linux_x0);
    r
}

} // verus!
