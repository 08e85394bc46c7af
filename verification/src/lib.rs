//! A value that threads read and write atomically and on which they wait:
//! "block until the value satisfies this condition", with or without a
//! timeout, without a lock on the way in while nobody waits.
//!
//! [`AtomMonitor`] is made of an atomic cell for the value, an atomic count of
//! the calls that wait, and a lock with a condition variable that is touched
//! only to block and to wake.
//!
//! Every function here returns once the calls it makes return. What a wait
//! repeats without bound, one look under the lock after another, is therefore
//! the caller's loop around [`AtomMonitor::park`] or
//! [`AtomMonitor::park_until`], handed to [`AtomMonitor::wait_until`] or
//! [`AtomMonitor::wait_until_timeout`] as `block`.
//!
//! - [`atom_monitor`] holds the monitor and its operations.
//! - [`deadline`] holds the arithmetic of a timed wait.
//! - [`protocol`] says which moves one waiting call makes on the count and
//!   the lock, and in which order.
//! - [`interleaving`] lets any number of calls take their steps in any order,
//!   and proves that the count stays right and that no wake-up is missed.
//! - [`outside`] holds what is taken on trust: the contracts of the crates
//!   that the monitor is built on.

pub mod atom_monitor;
pub mod deadline;
pub mod interleaving;
pub mod outside;
pub mod protocol;

pub use atom_monitor::AtomMonitor;
pub use atom_monitor::Look;
pub use atomic::Atomic;
pub use deadline::Deadline;
pub use atomic::Ordering;
pub use monitor::MonitorGuard;
