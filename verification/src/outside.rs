//! The collaborators: the atomic cell of `atomic`, the lock and condition
//! variable of `monitor`, the clock and the durations of `time`.
//!
//! Nothing in this file is proved. Each contract here is read off the source
//! of the crate it speaks of, and says no more than that source does; of what
//! another thread, the scheduler or the clock decides it says nothing.

use atomic::Atomic;
use atomic::Ordering;
use monitor::Monitor;
use monitor::MonitorGuard;
use std::time::Duration;
use vstd::prelude::*;

verus! {

/// `atomic::Atomic<T>`: a cell that is read and written whole.
#[verifier::external_type_specification]
#[verifier::external_body]
#[verifier::reject_recursive_types(T)]
pub struct ExAtomic<T: Copy>(Atomic<T>);

/// `monitor::Monitor<T>`: a mutex with a condition variable.
#[verifier::external_type_specification]
#[verifier::external_body]
#[verifier::reject_recursive_types(T)]
pub struct ExMonitor<T: Sized>(Monitor<T>);

/// `monitor::MonitorGuard<'a, T>`: the held lock of a `Monitor`.
#[verifier::external_type_specification]
#[verifier::external_body]
#[verifier::reject_recursive_types(T)]
pub struct ExMonitorGuard<'a, T: 'a>(MonitorGuard<'a, T>);

/// `Atomic::new` returns a cell. That the cell holds `v` is a fact about
/// memory, which no contract here can speak of.
pub assume_specification<T: Copy>[ Atomic::<T>::new ](v: T) -> (cell: Atomic<T>);

/// `Atomic::load` returns what the cell holds at that moment, which any thread
/// may have written: nothing is claimed of it. It panics on the two orderings
/// that are for writing.
pub assume_specification<T: Copy>[ Atomic::<T>::load ](cell: &Atomic<T>, order: Ordering) -> (value:
    T)
    requires
        order != Ordering::Release,
        order != Ordering::AcqRel,
;

/// `Atomic::store` writes `val` into the cell and returns nothing. It panics
/// on the two orderings that are for reading.
pub assume_specification<T: Copy>[ Atomic::<T>::store ](cell: &Atomic<T>, val: T, order: Ordering)
    requires
        order != Ordering::Acquire,
        order != Ordering::AcqRel,
;

/// `Atomic::<u32>::fetch_add` adds `val` to the cell, wrapping, and returns
/// what the cell held before, of which nothing is claimed.
pub assume_specification[ Atomic::<u32>::fetch_add ](
    cell: &Atomic<u32>,
    val: u32,
    order: Ordering,
) -> (before: u32);

/// `Atomic::<u32>::fetch_sub` subtracts `val` from the cell, wrapping, and
/// returns what the cell held before, of which nothing is claimed.
pub assume_specification[ Atomic::<u32>::fetch_sub ](
    cell: &Atomic<u32>,
    val: u32,
    order: Ordering,
) -> (before: u32);

/// `Monitor::new` returns a monitor around `val`, unlocked.
pub assume_specification<T: Sized>[ Monitor::<T>::new ](val: T) -> (monitor: Monitor<T>);

/// `Monitor::with_lock` takes the lock, waiting for it while another thread
/// holds it, calls `f` once with the guard, and returns what `f` returned; the
/// lock is released when `f` drops the guard. So `f` must accept any guard,
/// and the result is one that `f` can give for some guard. It panics where a
/// thread has panicked under the same lock.
pub assume_specification<T: Sized, U, F>[ Monitor::<T>::with_lock ](
    monitor: &Monitor<T>,
    f: F,
) -> (out: U) where F: FnOnce(MonitorGuard<T>) -> U
    requires
        forall|guard: MonitorGuard<T>| call_requires(f, (guard,)),
    ensures
        exists|guard: MonitorGuard<T>| call_ensures(f, (guard,), out),
;

/// `MonitorGuard::wait` releases the lock, blocks until the condition variable
/// is notified or the wait ends of itself, and takes the lock again. It
/// returns nothing; when it returns is not ours to say. It panics where a
/// thread has panicked under the same lock.
pub assume_specification<'a, T: 'a>[ MonitorGuard::<'a, T>::wait ](
    guard: &mut MonitorGuard<'a, T>,
);

/// `MonitorGuard::notify_all` wakes every thread that is blocked on the
/// condition variable. It returns nothing.
pub assume_specification<'a, T: 'a>[ MonitorGuard::<'a, T>::notify_all ](
    guard: &MonitorGuard<'a, T>,
);

/// `MonitorGuard::wait_timeout`: as `wait`, but blocked for no longer than
/// `span`. What it returns, whether the time ran out, is dropped: a waiter
/// looks at the value and the clock itself.
#[verifier::external_body]
pub(crate) fn wait_timeout(guard: &mut MonitorGuard<()>, span: Duration) {
    guard.wait_timeout(span);
}

/// `time::precise_time_ns`: nanoseconds on a clock whose zero is not
/// specified. Nothing is claimed of the reading.
#[verifier::external_body]
pub(crate) fn precise_time_ns() -> (now: u64) {
    time::precise_time_ns()
}

/// `time::Duration::nanoseconds` followed by `time::Duration::to_std`: the
/// span of `nanos` nanoseconds as std's unsigned duration. The first splits
/// `nanos` into whole seconds, rounded down, and the nanoseconds above them;
/// the second fails exactly where the seconds are negative. So a span comes
/// back exactly for `nanos` that are not negative.
#[verifier::external_body]
pub(crate) fn std_span(nanos: i64) -> (span: Option<Duration>)
    ensures
        span.is_some() <==> nanos >= 0,
{
    time::Duration::nanoseconds(nanos).to_std().ok()
}

} // verus!
