//! The futex mutex protocol (Drepper's two/three-state algorithm, "Futexes
//! Are Tricky"): the lock word moves between unlocked, locked with no
//! waiters, and locked with waiters.
//!
//! The atomic steps on the lock word are here; sleeping on the word and
//! waking a sleeper are `futex(2)` calls, which the caller makes when a
//! step asks for them: after [`LockProgress::MustWait`], `FUTEX_WAIT` on
//! [`FutexMutex::futex_word`] while it holds [`LOCKED_WAITERS`], then try
//! [`FutexMutex::lock_step`] again; after [`FutexMutex::unlock_step`]
//! returns `true`, `FUTEX_WAKE` one waiter.
use std::sync::atomic::{AtomicI32, Ordering};
use vstd::prelude::*;

verus! {

pub const UNLOCKED: i32 = 0;

pub const LOCKED_NO_WAITERS: i32 = 1;

pub const LOCKED_WAITERS: i32 = 2;

#[derive(Debug, Clone, Copy, PartialEq, Eq, Structural)]
pub enum LockProgress {
    /// The caller now holds the lock.
    Acquired,
    /// The lock is held by someone else: sleep on the lock word, then try
    /// again.
    MustWait,
}

/// What a contended lock attempt means, given the state it replaced.
pub open spec fn progress_after(previous: i32) -> LockProgress {
    if previous == UNLOCKED {
        LockProgress::Acquired
    } else {
        LockProgress::MustWait
    }
}

/// What a contended lock attempt reports, given the state that its swap
/// replaced.
pub fn progress_of(previous: i32) -> (r: LockProgress)
    ensures
        r == progress_after(previous),
{
    if previous == UNLOCKED {
        LockProgress::Acquired
    } else {
        LockProgress::MustWait
    }
}

/// Whether an unlock that replaced the state `previous` must wake a
/// sleeper: only when someone announced that it waits.
pub fn must_wake(previous: i32) -> (r: bool)
    ensures
        r == (previous == LOCKED_WAITERS),
{
    previous == LOCKED_WAITERS
}

pub struct FutexMutex {
    state: AtomicI32,
}

impl FutexMutex {
    pub fn new() -> Self {
        FutexMutex { state: AtomicI32::new(UNLOCKED) }
    }

    /// Takes the lock if it is free, announcing no waiters.
    pub fn try_lock(&self) -> bool {
        self.state.compare_exchange(UNLOCKED, LOCKED_NO_WAITERS, Ordering::Acquire, Ordering::Relaxed).is_ok()
    }

    /// One round of a contended lock: marks the lock as having waiters,
    /// and reports [`progress_of`] the state that this replaced.
    pub fn lock_step(&self) -> (r: LockProgress)
        ensures
            exists|previous: i32| r == progress_after(previous),
    {
        progress_of(self.state.swap(LOCKED_WAITERS, Ordering::Acquire))
    }

    /// Releases the lock; reports [`must_wake`] of the state that this
    /// replaced: `true` when one sleeper must be woken.
    pub fn unlock_step(&self) -> bool {
        must_wake(self.state.swap(UNLOCKED, Ordering::Release))
    }

    /// The lock word, for the futex calls.
    pub fn futex_word(&self) -> (w: &AtomicI32)
        ensures
            *w == self.lock_word(),
    {
        &self.state
    }
}

impl FutexMutex {
    /// The atomic lock word that every step of this mutex operates on.
    pub closed spec fn lock_word(&self) -> AtomicI32 {
        self.state
    }
}

impl Default for FutexMutex {
    fn default() -> Self {
        Self::new()
    }
}

} // verus!
