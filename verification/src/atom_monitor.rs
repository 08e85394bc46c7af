//! The monitor itself: the value, the count of waiting calls, and the lock.
//!
//! What a function reads from the cell or the clock is whatever another thread
//! or the time has made it, so the contracts here say what holds whatever was
//! read. Where more can be said once a reading is known, the function that
//! takes the reading as an argument says it: `wait_until_from` and
//! `wait_until_timeout_from` for the first value read, `recheck` and
//! `recheck_until` for the second, `park_from` and `park_until_from` for a
//! value read under the lock and for the clock, `wake` for the count.

use crate::deadline::Deadline;
use crate::outside::precise_time_ns;
use crate::outside::std_span;
use crate::outside::wait_timeout;
use crate::protocol::lemma_three_ways;
use crate::protocol::whole;
use crate::protocol::Move;
use atomic::Atomic;
use atomic::Ordering;
use monitor::Monitor;
use monitor::MonitorGuard;
use vstd::prelude::*;

verus! {

/// A value of type `T` that is read and written atomically, and on which
/// threads wait until it satisfies a condition of their choice.
#[verifier::reject_recursive_types(T)]
pub struct AtomMonitor<T: Copy> {
    data: Atomic<T>,
    requesting: Atomic<u32>,
    monitor: Monitor<()>,
}

/// What one look under the lock came to, in a wait with a deadline.
#[derive(Debug, PartialEq, Eq)]
pub enum Look<T> {
    /// The value read satisfies the condition; it is held here.
    Satisfied(T),
    /// The value read does not satisfy the condition and the clock is past
    /// the deadline.
    Expired,
    /// The value read does not satisfy the condition and the clock is not
    /// past the deadline: the call has blocked for what was left, or not at
    /// all where nothing was left, and is to look again.
    Woken,
}

/// Whether `condition` can say nothing but yes to `value`.
pub open spec fn always<T, F: FnMut(T) -> bool>(condition: F, value: T) -> bool {
    forall|answer: bool| #[trigger] call_ensures(condition, (value,), answer) ==> answer
}

/// Whether `condition` can say nothing but no to `value`.
pub open spec fn never<T, F: FnMut(T) -> bool>(condition: F, value: T) -> bool {
    forall|answer: bool| #[trigger] call_ensures(condition, (value,), answer) ==> !answer
}

impl<T: Copy> AtomMonitor<T> {
    /// The cell that holds the value, as `mutate` hands it to a mutator.
    pub closed spec fn cell(&self) -> &Atomic<T> {
        &self.data
    }

    /// A monitor that holds `value`, with nobody waiting.
    pub fn new(value: T) -> (made: Self) {
        AtomMonitor {
            data: Atomic::new(value),
            requesting: Atomic::new(0),
            monitor: Monitor::new(()),
        }
    }

    /// Lets `mutator` work on the cell, then wakes the waiting calls if the
    /// count says there are any. Returns what `mutator` returned.
    pub fn mutate<O, F: FnMut(&Atomic<T>) -> O>(&self, mutator: F) -> (out: O)
        requires
            call_requires(mutator, (self.cell(),)),
        ensures
            call_ensures(mutator, (self.cell(),), out),
    {
        let mut mutator = mutator;
        let out = mutator(&self.data);
        let waiting = self.waiters();
        self.wake(waiting);
        out
    }

    /// The value at this moment.
    pub fn get(&self) -> (value: T) {
        self.data.load(Ordering::Acquire)
    }

    /// Writes `value` and wakes the waiting calls if the count says there are
    /// any.
    pub fn set(&self, value: T) {
        self.mutate(|cell: &Atomic<T>| cell.store(value, Ordering::Release));
    }

    /// Wakes every blocked call, whatever the count says.
    pub fn notify_all(&self) {
        self.monitor.with_lock(|guard: MonitorGuard<()>| guard.notify_all());
    }

    /// The count of waiting calls at this moment: those that have registered
    /// and not yet unregistered.
    pub fn waiters(&self) -> (count: u32) {
        self.requesting.load(Ordering::Acquire)
    }

    /// What a writer does once it has read the count as `waiting`: with a
    /// count above zero it takes the lock and wakes every blocked call, with
    /// zero it touches nothing. Returns whether it woke.
    pub fn wake(&self, waiting: u32) -> (woke: bool)
        ensures
            woke == (waiting > 0),
    {
        if waiting > 0 {
            self.notify_all();
            true
        } else {
            false
        }
    }

    /// Counts the calling call among those that wait, and notes the move.
    fn register(&self, trace: Ghost<Seq<Move>>) -> (after: Ghost<Seq<Move>>)
        ensures
            after@ == trace@.push(Move::Register),
    {
        self.requesting.fetch_add(1, Ordering::SeqCst);
        Ghost(trace@.push(Move::Register))
    }

    /// Takes the calling call from those that wait, and notes the move.
    fn unregister(&self, trace: Ghost<Seq<Move>>) -> (after: Ghost<Seq<Move>>)
        ensures
            after@ == trace@.push(Move::Unregister),
    {
        self.requesting.fetch_sub(1, Ordering::SeqCst);
        Ghost(trace@.push(Move::Unregister))
    }

    /// Takes the lock, runs `section` with it held, and notes the move.
    /// Returns what `section` returned.
    fn locked<R, S: FnOnce(MonitorGuard<()>) -> R>(
        &self,
        section: S,
        trace: Ghost<Seq<Move>>,
    ) -> (done: (R, Ghost<Seq<Move>>))
        requires
            forall|guard: MonitorGuard<()>| call_requires(section, (guard,)),
        ensures
            exists|guard: MonitorGuard<()>| call_ensures(section, (guard,), done.0),
            done.1@ == trace@.push(Move::Park),
    {
        let out = self.monitor.with_lock(section);
        let done = (out, Ghost(trace@.push(Move::Park)));
        assert(done.0 == out);
        done
    }

    /// One look under the lock, in a wait without a deadline: reads the value
    /// and does with it what `park_from` does.
    ///
    /// `guard` is the held lock of this monitor, as `wait_until` hands it to
    /// its `block`.
    pub fn park<F: FnMut(T) -> bool>(
        &self,
        guard: &mut MonitorGuard<()>,
        condition: &mut F,
    ) -> (seen: Option<T>)
        requires
            forall|value: T| call_requires(*old(condition), (value,)),
        ensures
            *final(condition) == *old(condition),
            seen matches Some(value) ==> call_ensures(*old(condition), (value,), true),
            (forall|value: T| always(*old(condition), value)) ==> seen is Some,
            (forall|value: T| never(*old(condition), value)) ==> seen is None,
    {
        let value = self.get();
        proof {
            let asked = *old(condition);
            assert((forall|any: T| always(asked, any)) ==> always(asked, value));
            assert((forall|any: T| never(asked, any)) ==> never(asked, value));
        }
        self.park_from(guard, value, condition)
    }

    /// What a call under the lock does with the `value` it has read, in a wait
    /// without a deadline: if `condition` accepts the value it is returned;
    /// else the call blocks until woken and returns `None`, for the caller to
    /// look again.
    pub fn park_from<F: FnMut(T) -> bool>(
        &self,
        guard: &mut MonitorGuard<()>,
        value: T,
        condition: &mut F,
    ) -> (seen: Option<T>)
        requires
            call_requires(*old(condition), (value,)),
        ensures
            *final(condition) == *old(condition),
            seen is Some ==> seen == Some(value) && call_ensures(*old(condition), (value,), true),
            seen is None ==> call_ensures(*old(condition), (value,), false),
            always(*old(condition), value) ==> seen == Some(value),
            never(*old(condition), value) ==> seen is None,
    {
        if condition(value) {
            Some(value)
        } else {
            guard.wait();
            None
        }
    }

    /// One look under the lock, in a wait with a deadline: reads the value and
    /// the clock and does with them what `park_until_from` does.
    ///
    /// `guard` is the held lock of this monitor, as `wait_until_timeout` hands
    /// it to its `block`.
    pub fn park_until<F: FnMut(T) -> bool>(
        &self,
        guard: &mut MonitorGuard<()>,
        condition: &mut F,
        deadline: Deadline,
    ) -> (seen: Look<T>)
        requires
            forall|value: T| call_requires(*old(condition), (value,)),
        ensures
            *final(condition) == *old(condition),
            seen matches Look::Satisfied(value) ==> call_ensures(
                *old(condition),
                (value,),
                true,
            ),
            (forall|value: T| always(*old(condition), value)) ==> seen is Satisfied,
            (forall|value: T| never(*old(condition), value)) ==> !(seen is Satisfied),
    {
        let value = self.get();
        let now = precise_time_ns();
        proof {
            let asked = *old(condition);
            assert((forall|any: T| always(asked, any)) ==> always(asked, value));
            assert((forall|any: T| never(asked, any)) ==> never(asked, value));
        }
        self.park_until_from(guard, value, now, condition, deadline)
    }

    /// What a call under the lock does with the `value` it has read and the
    /// reading `now` of the clock, in a wait with a deadline: if `condition`
    /// accepts the value it is held in the result, whatever the clock reads;
    /// else the call does what `block_until` does at `now`: past `deadline`
    /// it gives up, and else it is to look again.
    pub fn park_until_from<F: FnMut(T) -> bool>(
        &self,
        guard: &mut MonitorGuard<()>,
        value: T,
        now: u64,
        condition: &mut F,
        deadline: Deadline,
    ) -> (seen: Look<T>)
        requires
            call_requires(*old(condition), (value,)),
        ensures
            *final(condition) == *old(condition),
            seen is Satisfied ==> seen == Look::Satisfied(value) && call_ensures(
                *old(condition),
                (value,),
                true,
            ),
            !(seen is Satisfied) ==> call_ensures(*old(condition), (value,), false),
            seen is Expired ==> deadline.gone(now),
            seen is Woken ==> !deadline.gone(now),
            always(*old(condition), value) ==> seen == Look::Satisfied(value),
            never(*old(condition), value) ==> !(seen is Satisfied),
    {
        if condition(value) {
            Look::Satisfied(value)
        } else {
            self.block_until(guard, deadline, now)
        }
    }

    /// What a call whose look under the lock failed does when the clock reads
    /// `now`: past `deadline` it gives up; else it blocks for the span that is
    /// left until `deadline`, or until woken, and where no span is left it
    /// does not block; either way it is then to look again.
    pub fn block_until(
        &self,
        guard: &mut MonitorGuard<()>,
        deadline: Deadline,
        now: u64,
    ) -> (seen: Look<T>)
        ensures
            deadline.gone(now) ==> seen is Expired,
            !deadline.gone(now) ==> seen is Woken,
    {
        if deadline.passed(now) {
            Look::Expired
        } else {
            match deadline.remaining(now) {
                Some(nanos) => match std_span(nanos) {
                    Some(span) => wait_timeout(guard, span),
                    None => {},
                },
                None => {},
            }
            Look::Woken
        }
    }

    /// Blocks until the value satisfies `condition`, and returns the value
    /// that did.
    ///
    /// `block` is the wait under the lock: it is called with the lock held
    /// and with `condition`, and returns a value that satisfies it, by calling
    /// `park` until that returns one.
    pub fn wait_until<F, B>(&self, condition: F, block: B) -> (value: T) where
        F: FnMut(T) -> bool,
        B: FnOnce(MonitorGuard<()>, F) -> T,

        requires
            forall|value: T| call_requires(condition, (value,)),
            forall|guard: MonitorGuard<()>| call_requires(block, (guard, condition)),
            forall|guard: MonitorGuard<()>, value: T|
                call_ensures(block, (guard, condition), value) ==> call_ensures(
                    condition,
                    (value,),
                    true,
                ),
        ensures
            call_ensures(condition, (value,), true),
    {
        let first = self.get();
        let done = self.wait_until_from(first, condition, block);
        done.0
    }

    /// The wait of `wait_until`, from the first value read on. Returns the
    /// value that satisfied `condition`, and the moves made.
    ///
    /// If `condition` accepts `first` it is returned at once, with no move:
    /// neither the count nor the lock is touched. Else the call registers,
    /// reads the value again, and does with it what `recheck` does.
    pub fn wait_until_from<F, B>(&self, first: T, condition: F, block: B) -> (done: (
        T,
        Ghost<Seq<Move>>,
    )) where F: FnMut(T) -> bool, B: FnOnce(MonitorGuard<()>, F) -> T
        requires
            forall|value: T| call_requires(condition, (value,)),
            forall|guard: MonitorGuard<()>| call_requires(block, (guard, condition)),
            forall|guard: MonitorGuard<()>, value: T|
                call_ensures(block, (guard, condition), value) ==> call_ensures(
                    condition,
                    (value,),
                    true,
                ),
        ensures
            call_ensures(condition, (done.0,), true),
            whole(done.1@),
            done.1@.len() == 0 ==> done.0 == first,
            done.1@.len() > 0 ==> call_ensures(condition, (first,), false),
            done.1@ == seq![Move::Register, Move::Park, Move::Unregister] ==> exists|
                guard: MonitorGuard<()>,
            | call_ensures(block, (guard, condition), done.0),
            always(condition, first) ==> done.0 == first && done.1@.len() == 0,
            never(condition, first) ==> done.1@.len() > 0,
    {
        let mut condition = condition;
        if condition(first) {
            proof {
                lemma_three_ways();
            }
            return (first, Ghost(Seq::empty()));
        }
        let registered = self.register(Ghost(Seq::empty()));
        let second = self.get();
        let done = self.recheck(second, condition, block);
        let ghost trace = registered@ + done.1@;
        proof {
            lemma_three_ways();
            assert(done.1@ == seq![Move::Unregister] ==> trace =~= seq![
                Move::Register,
                Move::Unregister,
            ]);
            assert(done.1@ == seq![Move::Park, Move::Unregister] ==> trace =~= seq![
                Move::Register,
                Move::Park,
                Move::Unregister,
            ]);
        }
        (done.0, Ghost(trace))
    }

    /// What a call that has registered does with the `second` value it has
    /// read, in a wait without a deadline. Returns the value that satisfied
    /// `condition`, and the moves made from here on.
    ///
    /// If `condition` accepts `second` the call unregisters and returns it.
    /// Else it takes the lock, runs `block` with it held, unregisters, and
    /// returns what `block` returned.
    pub fn recheck<F, B>(&self, second: T, condition: F, block: B) -> (done: (
        T,
        Ghost<Seq<Move>>,
    )) where F: FnMut(T) -> bool, B: FnOnce(MonitorGuard<()>, F) -> T
        requires
            call_requires(condition, (second,)),
            forall|guard: MonitorGuard<()>| call_requires(block, (guard, condition)),
            forall|guard: MonitorGuard<()>, value: T|
                call_ensures(block, (guard, condition), value) ==> call_ensures(
                    condition,
                    (value,),
                    true,
                ),
        ensures
            call_ensures(condition, (done.0,), true),
            done.1@ == seq![Move::Unregister] || done.1@ == seq![Move::Park, Move::Unregister],
            done.1@ == seq![Move::Unregister] ==> done.0 == second,
            done.1@ == seq![Move::Park, Move::Unregister] ==> call_ensures(
                condition,
                (second,),
                false,
            ) && exists|guard: MonitorGuard<()>| call_ensures(block, (guard, condition), done.0),
            always(condition, second) ==> done.1@ == seq![Move::Unregister],
            never(condition, second) ==> done.1@ == seq![Move::Park, Move::Unregister],
    {
        let mut condition = condition;
        if condition(second) {
            let returned = self.unregister(Ghost(Seq::empty()));
            assert(returned@ =~= seq![Move::Unregister]);
            (second, returned)
        } else {
            let (value, parked) = self.locked(
                move |guard: MonitorGuard<()>| -> (value: T)
                    ensures
                        call_ensures(block, (guard, condition), value)
                    { block(guard, condition) },
                Ghost(Seq::empty()),
            );
            let returned = self.unregister(parked);
            assert(returned@ =~= seq![Move::Park, Move::Unregister]);
            (value, returned)
        }
    }

    /// Blocks until the value satisfies `condition` or `timeout` nanoseconds
    /// have gone by. Returns the value that satisfied the condition, or `None`
    /// if the time ran out first.
    ///
    /// The deadline is the reading of the clock at entry plus `timeout`.
    /// `block` is the wait under the lock: it is called with the lock held,
    /// with `condition` and with the deadline, and returns what `park_until`
    /// came to, by calling it until that is no longer `Woken`. The call gives
    /// up nowhere else: `None` is what `block` returned.
    pub fn wait_until_timeout<F, B>(&self, condition: F, timeout: i64, block: B) -> (value: Option<
        T,
    >) where F: FnMut(T) -> bool, B: FnOnce(MonitorGuard<()>, F, Deadline) -> Option<T>
        requires
            forall|value: T| call_requires(condition, (value,)),
            forall|guard: MonitorGuard<()>, deadline: Deadline|
                call_requires(block, (guard, condition, deadline)),
            forall|guard: MonitorGuard<()>, deadline: Deadline, value: T|
                call_ensures(block, (guard, condition, deadline), Some(value)) ==> call_ensures(
                    condition,
                    (value,),
                    true,
                ),
        ensures
            value matches Some(value) ==> call_ensures(condition, (value,), true),
            value is None ==> exists|guard: MonitorGuard<()>, deadline: Deadline|
                0 <= deadline@ - timeout <= u64::MAX && #[trigger] call_ensures(
                    block,
                    (guard, condition, deadline),
                    value,
                ),
            (forall|value: T| always(condition, value)) ==> value is Some,
            (forall|value: T| never(condition, value)) ==> value is None,
    {
        let deadline = Deadline::after(precise_time_ns(), timeout);
        let first = self.get();
        proof {
            assert((forall|any: T| always(condition, any)) ==> always(condition, first));
        }
        let done = self.wait_until_timeout_from(first, condition, deadline, block);
        done.0
    }

    /// The wait of `wait_until_timeout`, from the deadline and the first value
    /// read on. Returns the value that satisfied `condition`, or `None`, and
    /// the moves made.
    ///
    /// If `condition` accepts `first` it is returned at once, with no move,
    /// whatever the deadline. Else the call registers, reads the value again,
    /// and does with it what `recheck_until` does.
    pub fn wait_until_timeout_from<F, B>(
        &self,
        first: T,
        condition: F,
        deadline: Deadline,
        block: B,
    ) -> (done: (Option<T>, Ghost<Seq<Move>>)) where
        F: FnMut(T) -> bool,
        B: FnOnce(MonitorGuard<()>, F, Deadline) -> Option<T>,

        requires
            forall|value: T| call_requires(condition, (value,)),
            forall|guard: MonitorGuard<()>| call_requires(block, (guard, condition, deadline)),
            forall|guard: MonitorGuard<()>, value: T|
                call_ensures(block, (guard, condition, deadline), Some(value)) ==> call_ensures(
                    condition,
                    (value,),
                    true,
                ),
        ensures
            done.0 matches Some(value) ==> call_ensures(condition, (value,), true),
            whole(done.1@),
            done.1@.len() == 0 ==> done.0 == Some(first),
            done.1@.len() > 0 ==> call_ensures(condition, (first,), false),
            done.1@ == seq![Move::Register, Move::Unregister] ==> done.0 is Some,
            done.1@ == seq![Move::Register, Move::Park, Move::Unregister] ==> exists|
                guard: MonitorGuard<()>,
            | call_ensures(block, (guard, condition, deadline), done.0),
            done.0 is None ==> done.1@ == seq![Move::Register, Move::Park, Move::Unregister],
            always(condition, first) ==> done.0 == Some(first) && done.1@.len() == 0,
            never(condition, first) ==> done.1@.len() > 0,
            (forall|value: T| never(condition, value)) ==> done.0 is None,
    {
        let mut condition = condition;
        if condition(first) {
            proof {
                lemma_three_ways();
                assert(!never(condition, first));
            }
            return (Some(first), Ghost(Seq::empty()));
        }
        let registered = self.register(Ghost(Seq::empty()));
        let second = self.get();
        let done = self.recheck_until(second, condition, deadline, block);
        let ghost trace = registered@ + done.1@;
        proof {
            lemma_three_ways();
            assert(done.1@ == seq![Move::Unregister] ==> trace =~= seq![
                Move::Register,
                Move::Unregister,
            ]);
            assert(done.1@ == seq![Move::Park, Move::Unregister] ==> trace =~= seq![
                Move::Register,
                Move::Park,
                Move::Unregister,
            ]);
            assert(done.0 matches Some(found) ==> !never(condition, found));
        }
        (done.0, Ghost(trace))
    }

    /// What a call that has registered does with the `second` value it has
    /// read, in a wait with a deadline. Returns the value that satisfied
    /// `condition`, or `None`, and the moves made from here on.
    ///
    /// If `condition` accepts `second` the call unregisters and returns it,
    /// whatever the deadline. Else it takes the lock, runs `block` with it
    /// held and with `deadline`, unregisters, and returns what `block`
    /// returned: it gives up only if `block` did.
    pub fn recheck_until<F, B>(
        &self,
        second: T,
        condition: F,
        deadline: Deadline,
        block: B,
    ) -> (done: (Option<T>, Ghost<Seq<Move>>)) where
        F: FnMut(T) -> bool,
        B: FnOnce(MonitorGuard<()>, F, Deadline) -> Option<T>,

        requires
            call_requires(condition, (second,)),
            forall|guard: MonitorGuard<()>| call_requires(block, (guard, condition, deadline)),
            forall|guard: MonitorGuard<()>, value: T|
                call_ensures(block, (guard, condition, deadline), Some(value)) ==> call_ensures(
                    condition,
                    (value,),
                    true,
                ),
        ensures
            done.0 matches Some(value) ==> call_ensures(condition, (value,), true),
            done.1@ == seq![Move::Unregister] || done.1@ == seq![Move::Park, Move::Unregister],
            done.1@ == seq![Move::Unregister] ==> done.0 == Some(second),
            done.1@ == seq![Move::Park, Move::Unregister] ==> call_ensures(
                condition,
                (second,),
                false,
            ) && exists|guard: MonitorGuard<()>|
                call_ensures(block, (guard, condition, deadline), done.0),
            always(condition, second) ==> done.1@ == seq![Move::Unregister],
            never(condition, second) ==> done.1@ == seq![Move::Park, Move::Unregister],
    {
        let mut condition = condition;
        if condition(second) {
            let returned = self.unregister(Ghost(Seq::empty()));
            assert(returned@ =~= seq![Move::Unregister]);
            (Some(second), returned)
        } else {
            let (value, parked) = self.locked(
                move |guard: MonitorGuard<()>| -> (value: Option<T>)
                    ensures
                        call_ensures(block, (guard, condition, deadline), value)
                    { block(guard, condition, deadline) },
                Ghost(Seq::empty()),
            );
            let returned = self.unregister(parked);
            assert(returned@ =~= seq![Move::Park, Move::Unregister]);
            (value, returned)
        }
    }
}

} // verus!
