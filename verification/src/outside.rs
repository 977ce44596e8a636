//! The types and functions of other crates, and of the standard library, that
//! the histogram is built on. Nothing here is proved: each item says what is
//! taken on trust.

use crate::counters::COUNTERS_PER_CACHE_LINE;
use crossbeam_utils::CachePadded;
use futures_util::task::AtomicWaker;
use std::sync::atomic::AtomicU64;
use std::sync::LockResult;
use std::sync::Mutex;
use std::sync::MutexGuard;
use std::sync::PoisonError;
use std::task::Context;
use std::task::Waker;
use vstd::prelude::*;

verus! {

/// `crossbeam_utils::CachePadded`: a value aligned to the length of a cache
/// line. Nothing inside it is visible to proofs.
#[verifier::external_type_specification]
#[verifier::external_body]
#[verifier::reject_recursive_types(T)]
pub struct ExCachePadded<T>(CachePadded<T>);

/// `std::sync::Mutex`, used as a lock with no data behind it.
#[verifier::external_type_specification]
#[verifier::external_body]
#[verifier::reject_recursive_types(T)]
pub struct ExMutex<T: ?Sized>(Mutex<T>);

/// `std::sync::MutexGuard`: the lock is held while the guard lives.
#[verifier::external_type_specification]
#[verifier::external_body]
#[verifier::reject_recursive_types(T)]
pub struct ExMutexGuard<'a, T: ?Sized + 'a>(MutexGuard<'a, T>);

/// `std::sync::PoisonError`: what `Mutex::lock` returns after a holder of the
/// lock panicked. It still carries the guard.
#[verifier::external_type_specification]
#[verifier::external_body]
#[verifier::reject_recursive_types(T)]
pub struct ExPoisonError<T>(PoisonError<T>);

/// `futures_util::task::AtomicWaker`: a slot for the wake handle of at most
/// one waiting task.
#[verifier::external_type_specification]
#[verifier::external_body]
pub struct ExAtomicWaker(AtomicWaker);

/// `std::task::Waker`: the wake handle of a task.
#[verifier::external_type_specification]
#[verifier::external_body]
pub struct ExWaker(Waker);

/// `std::task::Context`: what an executor hands to the task that it polls.
#[verifier::external_type_specification]
#[verifier::external_body]
pub struct ExContext<'a>(Context<'a>);

/// `CachePadded::new` wraps a value. Nothing is claimed of the result: the
/// padded value is opaque.
pub assume_specification<T>[ CachePadded::<T>::new ](t: T) -> (padded: CachePadded<T>);

/// The counters that a padded line of counters wraps, in their order: what
/// `Deref::deref` of `CachePadded` hands out for the line.
pub uninterp spec fn line_cells(
    line: CachePadded<[AtomicU64; COUNTERS_PER_CACHE_LINE]>,
) -> Seq<AtomicU64>;

/// `Deref::deref` of `CachePadded`, on a line of counters: hands out the
/// array that the line wraps. The function returns a reference to the one
/// field of the padded value, so the same line gives the same counters; the
/// contract says no more than that, by naming them.
#[verifier::external_body]
pub(crate) fn cells_of(
    line: &CachePadded<[AtomicU64; COUNTERS_PER_CACHE_LINE]>,
) -> (cells: &[AtomicU64; COUNTERS_PER_CACHE_LINE])
    ensures
        cells@ == line_cells(*line),
{
    std::ops::Deref::deref(line)
}

/// `Mutex::new` makes an open lock. Nothing is claimed of the result.
pub assume_specification<T>[ Mutex::<T>::new ](t: T) -> (mutex: Mutex<T>);

/// `Mutex::lock` blocks until the lock is free and returns its guard, inside
/// an error if an earlier holder panicked. Nothing is claimed of the result.
/// A thread that already holds the lock must not call it.
pub assume_specification<T: ?Sized>[ Mutex::<T>::lock ](mutex: &Mutex<T>) -> (guard: LockResult<
    MutexGuard<'_, T>,
>);

/// `PoisonError::into_inner` gives back the guard that the error carries.
/// Nothing is claimed of the result.
pub assume_specification<T>[ PoisonError::<T>::into_inner ](error: PoisonError<T>) -> (guard: T);

/// `Context::waker` hands out the wake handle of the task that is polled.
/// Nothing is claimed of the result.
pub assume_specification<'a>[ Context::<'a>::waker ](context: &Context<'a>) -> (waker: &'a Waker);

/// `AtomicWaker::new` makes an empty slot. Nothing is claimed of the result.
pub assume_specification[ AtomicWaker::new ]() -> (slot: AtomicWaker);

/// `AtomicWaker::register` stores a handle for the next `wake`, replacing an
/// earlier one; if a wake is under way, it wakes the handle at once.
pub assume_specification[ AtomicWaker::register ](slot: &AtomicWaker, waker: &Waker);

/// `AtomicWaker::wake` wakes the task whose handle is stored, and empties the
/// slot; with an empty slot it does nothing.
pub assume_specification[ AtomicWaker::wake ](slot: &AtomicWaker);

/// `AtomicWaker::take` empties the slot and returns the handle, if any. Which
/// of the two comes back depends on the other threads, so nothing is claimed.
pub assume_specification[ AtomicWaker::take ](slot: &AtomicWaker) -> (waker: Option<Waker>);

} // verus!
