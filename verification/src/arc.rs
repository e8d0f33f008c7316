//! Automatic Reference Counting's runtime half: `retain`/`release`
//! bookkeeping on a shared atomic count.
//!
//! An over-release is reported as [`ReleaseOutcome::AlreadyZero`] rather
//! than wrapping the count around.
//!
//! The count is shared between threads, so what a call observes depends on
//! the others: the contracts state the outcome as a function of the count
//! that the call itself observed.
use std::sync::atomic::{AtomicUsize, Ordering};
use vstd::prelude::*;

verus! {

pub struct RefCounted {
    count: AtomicUsize,
}

#[derive(Debug, Clone, Copy, PartialEq, Eq, Structural)]
pub enum ReleaseOutcome {
    /// The object is still referenced; carries the new count.
    StillAlive(usize),
    /// This was the release that brought the count to zero: the caller
    /// should run `dealloc` now.
    ShouldDeallocate,
    /// The count was already zero: an over-release bug in the caller.
    AlreadyZero,
}

/// The outcome of a release that observes the count `current`.
pub open spec fn release_outcome(current: usize) -> ReleaseOutcome {
    if current == 0 {
        ReleaseOutcome::AlreadyZero
    } else if current == 1 {
        ReleaseOutcome::ShouldDeallocate
    } else {
        ReleaseOutcome::StillAlive((current - 1) as usize)
    }
}

/// The count that a retain leaves behind `previous`.
pub open spec fn spec_retained(previous: usize) -> usize {
    if previous == usize::MAX {
        0
    } else {
        (previous + 1) as usize
    }
}

/// A release undoes a retain: releasing after a retain from the count `c`
/// reports the object alive with `c` references again.
pub proof fn law_release_undoes_retain(c: usize)
    requires
        1 <= c < usize::MAX,
    ensures
        release_outcome(spec_retained(c)) == ReleaseOutcome::StillAlive(c),
{
}

/// A release never takes the count below zero: releasing at zero is
/// reported as an over-release, only the release from one asks for
/// deallocation, and every other release leaves at least one reference.
pub proof fn law_release_never_underflows(c: usize)
    ensures
        (release_outcome(c) == ReleaseOutcome::AlreadyZero) <==> c == 0,
        (release_outcome(c) == ReleaseOutcome::ShouldDeallocate) <==> c == 1,
        release_outcome(c) matches ReleaseOutcome::StillAlive(n) ==> n >= 1 && n == c - 1,
{
}

/// The count that a release leaves behind `current`: `None` when there is
/// no reference left to release.
pub fn released_count(current: usize) -> (r: Option<usize>)
    ensures
        r == (if current == 0 {
            None
        } else {
            Some((current - 1) as usize)
        }),
{
    if current == 0 {
        None
    } else {
        Some(current - 1)
    }
}

/// What a release reports, given what the atomic update handed back:
/// `Ok(previous)` when it stored `previous - 1`, `Err(previous)` when it
/// declined; either way the outcome is that of the count it observed.
pub fn release_outcome_of(fetched: Result<usize, usize>) -> (r: ReleaseOutcome)
    ensures
        r == (match fetched {
            Ok(previous) => release_outcome(previous),
            Err(previous) => release_outcome(previous),
        }),
{
    let previous = match fetched {
        Ok(p) => p,
        Err(p) => p,
    };
    if previous == 0 {
        ReleaseOutcome::AlreadyZero
    } else if previous == 1 {
        ReleaseOutcome::ShouldDeallocate
    } else {
        ReleaseOutcome::StillAlive(previous - 1)
    }
}

/// The count that a retain reports, given the count it replaced.
pub fn retained_count(previous: usize) -> (r: usize)
    ensures
        r == spec_retained(previous),
{
    previous.wrapping_add(1)
}

/// `AtomicUsize::fetch_update` with [`released_count`] as the update: it
/// returns `Ok(previous)` when the update stored a new count, which happens
/// only for a nonzero previous count, and `Err(previous)` when the update
/// declined, which happens only for a zero count.
#[verifier::external_body]
fn fetch_release(count: &AtomicUsize) -> (r: Result<usize, usize>)
    ensures
        match r {
            Ok(previous) => previous != 0,
            Err(previous) => previous == 0,
        },
{
    count.fetch_update(Ordering::AcqRel, Ordering::Acquire, released_count)
}

impl RefCounted {
    /// A freshly allocated object starts with one implicit owning
    /// reference, matching `+alloc`/`+new`'s convention.
    pub fn new() -> Self {
        RefCounted { count: AtomicUsize::new(1) }
    }

    /// Adds a reference; returns the new count, [`retained_count`] of the
    /// count it replaced.
    pub fn retain(&self) -> usize {
        retained_count(self.count.fetch_add(1, Ordering::AcqRel))
    }

    /// Drops a reference, never taking the count below zero; the outcome is
    /// [`release_outcome_of`] what the atomic update observed.
    pub fn release(&self) -> (r: ReleaseOutcome)
        ensures
            exists|observed: usize| r == release_outcome(observed),
            r matches ReleaseOutcome::StillAlive(n) ==> n >= 1,
    {
        release_outcome_of(fetch_release(&self.count))
    }

    pub fn retain_count(&self) -> usize {
        self.count.load(Ordering::Acquire)
    }
}

impl Default for RefCounted {
    fn default() -> Self {
        Self::new()
    }
}

} // verus!
