//! Any number of calls at once: the monitor as a transition system in which
//! waiting calls and writing calls take their steps in any order.
//!
//! A world holds the value, the count of waiting calls, the holder of the
//! lock, and every call with the step it is about to take. Each step is one
//! atomic action of the monitor's functions: a read or a write of the cell,
//! an addition to the count, taking or releasing the lock, blocking, waking.
//! The steps of a waiting call are those of `wait_until_from` and
//! `wait_until_timeout_from`, with `recheck` and `recheck_until`, around
//! `park` and `park_until`; the steps of a writing call are those of `mutate`
//! with `wake`, and of `notify_all`. The model is held to those functions by
//! reading, not by a contract: what ties the two is the trace of moves, which
//! the functions hand back and the calls of the model keep.
//!
//! The cell and the count are taken to be sequentially consistent, the count
//! not to wrap, the lock to be held by one call at a time, and a notification
//! to reach exactly the calls that are blocked when it is made. Time is left
//! out: a timed wait may give up at any look that fails, and any blocked call
//! may wake of itself.
//!
//! What is proved holds in every world that any interleaving reaches: each
//! waiting call keeps the protocol of its moves, the count is the number of
//! calls that have registered and not unregistered, and no call sleeps on a
//! condition that the value satisfies unless a writer is on its way to wake
//! it; so where nothing more can happen, whoever still waits has a condition
//! that the value does not satisfy. How soon a woken call returns is not
//! proved: nothing here speaks of time or of the scheduler.

use crate::protocol::count;
use crate::protocol::lemma_count_follows_stage;
use crate::protocol::lemma_run_push;
use crate::protocol::run;
use crate::protocol::whole;
use crate::protocol::Move;
use crate::protocol::Stage;
use vstd::prelude::*;

verus! {

/// The step that a waiting call is about to take.
pub enum Waiter {
    /// The first look, with nothing touched.
    Entering,
    /// The first look has failed: to add itself to the count.
    Registering,
    /// Counted: to look again outside the lock.
    Rechecking,
    /// The second look has failed: to take the lock.
    Locking,
    /// Holds the lock: to look.
    Looking,
    /// Holds the lock and the look has failed: to block, or in a timed wait
    /// whose time is up to give up.
    Blocking,
    /// Blocked on the condition variable, the lock released: to be woken, by
    /// a notification, by the end of its time, or by nothing.
    Blocked,
    /// Woken: to take the lock again.
    Woken,
    /// Holds the lock and is done looking: to release it.
    Unlocking,
    /// Done looking, the lock released: to take itself from the count.
    Leaving,
    /// Returned to its caller.
    Returned,
}

/// The step that a writing call is about to take.
pub enum Writer {
    /// The mutator runs and has not written.
    Writing,
    /// The mutator has written; it may write again, and then the count is
    /// read.
    Written,
    /// The count was above zero, or the call is a plain notification: to take
    /// the lock.
    Waking,
    /// Holds the lock: to notify and release it.
    Notifying,
    /// Returned to its caller.
    Done,
}

/// A call on a monitor of values of type `T`.
#[verifier::reject_recursive_types(T)]
pub enum Call<T> {
    /// A wait for a value that `wants` holds of, with the moves it has made.
    Wait { step: Waiter, wants: spec_fn(T) -> bool, moves: Seq<Move> },
    /// A mutation, or a plain notification.
    Write { turn: Writer },
}

/// What a call does where its step leaves it a choice.
pub enum Choice<T> {
    /// What the step is without a choice: a mutator ends, a call that is about
    /// to block blocks.
    Plain,
    /// A mutator writes this value, in place of ending.
    Write(T),
    /// A call that is about to block gives up, in place of blocking: a timed
    /// wait whose clock is past the deadline.
    GiveUp,
    /// A call that is about to block looks again, in place of blocking: a
    /// timed wait with no span left to block for.
    LookAgain,
}

impl<T> Call<T> {
    /// Whether the call is between registering and unregistering.
    pub open spec fn counted(self) -> bool {
        match self {
            Call::Wait { step, .. } => !(step is Entering || step is Registering
                || step is Returned),
            Call::Write { .. } => false,
        }
    }

    /// Whether the call holds the lock.
    pub open spec fn holds_lock(self) -> bool {
        match self {
            Call::Wait { step, .. } => step is Looking || step is Blocking || step is Unlocking,
            Call::Write { turn } => turn is Notifying,
        }
    }

    /// Whether the call is blocked, or has decided to block, although `value`
    /// satisfies its condition.
    pub open spec fn oversleeps(self, value: T) -> bool {
        match self {
            Call::Wait { step, wants, .. } => (step is Blocking || step is Blocked) && wants(
                value,
            ),
            Call::Write { .. } => false,
        }
    }

    /// Whether the call has written and has yet to read the count or to
    /// notify.
    pub open spec fn owes_wake(self) -> bool {
        match self {
            Call::Wait { .. } => false,
            Call::Write { turn } => turn is Written || turn is Waking || turn is Notifying,
        }
    }

    /// Whether the call has not taken a step yet.
    pub open spec fn fresh(self) -> bool {
        match self {
            Call::Wait { step, moves, .. } => step is Entering && moves.len() == 0,
            Call::Write { turn } => turn is Writing || turn is Waking,
        }
    }

    /// Whether the moves that a waiting call has made are those that lead to
    /// the step it is about to take.
    pub open spec fn on_track(self) -> bool {
        match self {
            Call::Wait { step, moves, .. } => match step {
                Waiter::Entering | Waiter::Registering => run(moves) == Some(Stage::FastCheck),
                Waiter::Leaving => run(moves) == Some(Stage::Registered) || run(moves) == Some(
                    Stage::Parked,
                ),
                Waiter::Returned => whole(moves),
                _ => run(moves) == Some(Stage::Registered),
            },
            Call::Write { .. } => true,
        }
    }
}

/// A monitor and the calls on it at one moment.
#[verifier::reject_recursive_types(T)]
pub struct World<T> {
    /// What the cell holds.
    pub value: T,
    /// What the count of waiting calls holds.
    pub count: int,
    /// The call that holds the lock.
    pub holder: Option<nat>,
    /// The calls that have arrived, each under a number of its own.
    pub calls: Map<nat, Call<T>>,
}

/// The calls with every blocked one woken.
pub open spec fn woken<T>(calls: Map<nat, Call<T>>) -> Map<nat, Call<T>> {
    Map::new(
        |id: nat| calls.dom().contains(id),
        |id: nat|
            match calls[id] {
                Call::Wait { step: Waiter::Blocked, wants, moves } => Call::Wait {
                    step: Waiter::Woken,
                    wants,
                    moves,
                },
                call => call,
            },
    )
}

impl<T> World<T> {
    /// A monitor that holds `value` and has not been called.
    pub open spec fn new(value: T) -> World<T> {
        World { value, count: 0, holder: None, calls: Map::empty() }
    }

    /// This world with the waiting call `id` about to take the step `at`.
    pub open spec fn waiter_at(self, id: nat, at: Waiter) -> World<T> {
        World {
            calls: self.calls.insert(
                id,
                Call::Wait {
                    step: at,
                    wants: self.calls[id]->wants,
                    moves: self.calls[id]->moves,
                },
            ),
            ..self
        }
    }

    /// This world with the waiting call `id` about to take the step `at`,
    /// having made the move `mv`.
    pub open spec fn waiter_moved(self, id: nat, at: Waiter, mv: Move) -> World<T> {
        World {
            calls: self.calls.insert(
                id,
                Call::Wait {
                    step: at,
                    wants: self.calls[id]->wants,
                    moves: self.calls[id]->moves.push(mv),
                },
            ),
            ..self
        }
    }

    /// This world with the writing call `id` about to take the step `at`.
    pub open spec fn writer_at(self, id: nat, at: Writer) -> World<T> {
        World { calls: self.calls.insert(id, Call::Write { turn: at }), ..self }
    }

    /// Whether `id` is a call that is blocked, or has decided to block,
    /// although the value satisfies its condition.
    pub open spec fn oversleeper(self, id: nat) -> bool {
        self.calls.dom().contains(id) && self.calls[id].oversleeps(self.value)
    }

    /// Whether `id` is a call that has written and has yet to read the count
    /// or to notify.
    pub open spec fn waker(self, id: nat) -> bool {
        self.calls.dom().contains(id) && self.calls[id].owes_wake()
    }

    /// The calls between registering and unregistering.
    pub open spec fn counted(self) -> Set<nat> {
        self.calls.dom().filter(|id: nat| self.calls[id].counted())
    }

    /// Whether the call `id` can take its step: it exists, has not returned,
    /// and if the step takes the lock the lock is free.
    pub open spec fn enabled(self, id: nat) -> bool {
        self.calls.dom().contains(id) && match self.calls[id] {
            Call::Wait { step, .. } => match step {
                Waiter::Locking | Waiter::Woken => self.holder is None,
                Waiter::Returned => false,
                _ => true,
            },
            Call::Write { turn } => match turn {
                Writer::Waking => self.holder is None,
                Writer::Done => false,
                _ => true,
            },
        }
    }

    /// The world after the call `id` has taken its step, with `choice` made
    /// where the step leaves one.
    pub open spec fn step(self, id: nat, choice: Choice<T>) -> World<T> {
        match self.calls[id] {
            Call::Wait { step, wants, .. } => {
                let satisfied = wants(self.value);
                match step {
                    Waiter::Entering => self.waiter_at(
                        id,
                        if satisfied {
                            Waiter::Returned
                        } else {
                            Waiter::Registering
                        },
                    ),
                    Waiter::Registering => World {
                        count: self.count + 1,
                        ..self.waiter_moved(id, Waiter::Rechecking, Move::Register)
                    },
                    Waiter::Rechecking => self.waiter_at(
                        id,
                        if satisfied {
                            Waiter::Leaving
                        } else {
                            Waiter::Locking
                        },
                    ),
                    Waiter::Locking | Waiter::Woken => World {
                        holder: Some(id),
                        ..self.waiter_at(id, Waiter::Looking)
                    },
                    Waiter::Looking => self.waiter_at(
                        id,
                        if satisfied {
                            Waiter::Unlocking
                        } else {
                            Waiter::Blocking
                        },
                    ),
                    Waiter::Blocking => match choice {
                        Choice::GiveUp => self.waiter_at(id, Waiter::Unlocking),
                        Choice::LookAgain => self.waiter_at(id, Waiter::Looking),
                        _ => World { holder: None, ..self.waiter_at(id, Waiter::Blocked) },
                    },
                    Waiter::Blocked => self.waiter_at(id, Waiter::Woken),
                    Waiter::Unlocking => World {
                        holder: None,
                        ..self.waiter_moved(id, Waiter::Leaving, Move::Park)
                    },
                    Waiter::Leaving => World {
                        count: self.count - 1,
                        ..self.waiter_moved(id, Waiter::Returned, Move::Unregister)
                    },
                    Waiter::Returned => self,
                }
            },
            Call::Write { turn } => match turn {
                Writer::Writing | Writer::Written => match choice {
                    Choice::Write(written) => World {
                        value: written,
                        ..self.writer_at(id, Writer::Written)
                    },
                    _ => self.writer_at(
                        id,
                        if self.count > 0 {
                            Writer::Waking
                        } else {
                            Writer::Done
                        },
                    ),
                },
                Writer::Waking => World {
                    holder: Some(id),
                    ..self.writer_at(id, Writer::Notifying)
                },
                Writer::Notifying => World {
                    holder: None,
                    calls: woken(self.calls).insert(id, Call::Write { turn: Writer::Done }),
                    ..self
                },
                Writer::Done => self,
            },
        }
    }

    /// Whether `next` is this world after one step of one call, or after the
    /// arrival of one new call.
    pub open spec fn leads_to(self, next: World<T>) -> bool {
        ||| exists|id: nat, choice: Choice<T>|
            self.enabled(id) && next == #[trigger] self.step(id, choice)
        ||| exists|id: nat, call: Call<T>|
            !self.calls.dom().contains(id) && call.fresh() && next == World {
                calls: #[trigger] self.calls.insert(id, call),
                ..self
            }
    }

    /// Whether nothing can happen but that a blocked call wakes of itself:
    /// no other call can take a step.
    pub open spec fn at_rest(self) -> bool {
        forall|id: nat| #[trigger]
            self.enabled(id) ==> self.calls[id] matches Call::Wait { step: Waiter::Blocked, .. }
    }

    /// What holds in every world that is reached.
    pub open spec fn inv(self) -> bool {
        &&& self.calls.dom().finite()
        &&& self.count == self.counted().len()
        &&& forall|id: nat|
            self.calls.dom().contains(id) ==> (#[trigger] self.calls[id].holds_lock()
                <==> self.holder == Some(id))
        &&& self.holder matches Some(id) ==> self.calls.dom().contains(id)
        &&& forall|id: nat| self.calls.dom().contains(id) ==> #[trigger] self.calls[id].on_track()
        &&& (exists|id: nat| self.oversleeper(id)) ==> exists|id: nat| self.waker(id)
    }
}

/// Whether `path` is a history of a monitor: it starts with a monitor that has
/// not been called, and each world leads to the next.
pub open spec fn history<T>(path: Seq<World<T>>) -> bool {
    &&& path.len() > 0
    &&& path[0] == World::new(path[0].value)
    &&& forall|i: int| 0 <= i < path.len() - 1 ==> #[trigger] path[i].leads_to(path[i + 1])
}

/// The set of counted calls after a change to the one call `id`.
proof fn lemma_counted_after<T>(before: World<T>, after: World<T>, id: nat)
    requires
        before.calls.dom().finite(),
        after.calls.dom() == before.calls.dom().insert(id),
        forall|other: nat|
            other != id && before.calls.dom().contains(other) ==> after.calls[other].counted()
                == before.calls[other].counted(),
    ensures
        after.calls.dom().finite(),
        after.counted().finite(),
        before.counted().finite(),
        after.calls[id].counted() ==> after.counted() == before.counted().insert(id),
        !after.calls[id].counted() ==> after.counted() == before.counted().remove(id),
{
    vstd::set_lib::lemma_set_subset_finite(before.calls.dom(), before.counted());
    vstd::set_lib::lemma_set_subset_finite(after.calls.dom(), after.counted());
    if after.calls[id].counted() {
        assert(after.counted() =~= before.counted().insert(id));
    } else {
        assert(after.counted() =~= before.counted().remove(id));
    }
}

/// A monitor that has not been called is as it should be.
pub proof fn lemma_new_world<T>(value: T)
    ensures
        World::new(value).inv(),
{
    let world = World::new(value);
    assert(world.counted() =~= Set::empty());
}

/// The arrival of a call changes nothing for the others.
pub proof fn lemma_arrival_keeps_inv<T>(before: World<T>, id: nat, call: Call<T>)
    requires
        before.inv(),
        !before.calls.dom().contains(id),
        call.fresh(),
    ensures
        (World { calls: before.calls.insert(id, call), ..before }).inv(),
{
    let after = World { calls: before.calls.insert(id, call), ..before };
    lemma_counted_after(before, after, id);
    assert(!before.counted().contains(id));
    assert(after.counted() =~= before.counted());
    if exists|x: nat| after.oversleeper(x) {
        let x = choose|x: nat| after.oversleeper(x);
        assert(before.oversleeper(x));
        let w = choose|w: nat| before.waker(w);
        assert(after.waker(w));
    }
}

/// A step of a call leaves the world as it should be.
pub proof fn lemma_step_keeps_inv<T>(before: World<T>, id: nat, choice: Choice<T>)
    requires
        before.inv(),
        before.enabled(id),
    ensures
        before.step(id, choice).inv(),
{
    let after = before.step(id, choice);
    assert forall|x: nat| after.calls.dom().contains(x) implies #[trigger] after.calls[x].on_track(
    ) by {
        if before.calls.dom().contains(x) {
            assert(before.calls[x].on_track());
        }
        if x == id && before.calls[id] is Wait {
            let made = before.calls[id]->moves;
            lemma_run_push(made, Move::Register);
            lemma_run_push(made, Move::Park);
            lemma_run_push(made, Move::Unregister);
        }
    }
    match before.calls[id] {
        Call::Write { turn: Writer::Notifying } => {
            assert(after.calls.dom() =~= before.calls.dom());
            assert(after.counted() =~= before.counted());
            assert(before.calls[id].holds_lock());
            assert forall|x: nat| !after.oversleeper(x) by {
                if x != id && before.calls.dom().contains(x) {
                    assert(before.calls[x].holds_lock() <==> before.holder == Some(x));
                }
            }
            assert forall|x: nat| after.calls.dom().contains(x) implies (
            #[trigger] after.calls[x].holds_lock() <==> after.holder == Some(x)) by {
                if x != id {
                    assert(before.calls[x].holds_lock() <==> before.holder == Some(x));
                }
            }
        },
        _ => {
            assert(after.calls.dom() =~= before.calls.dom().insert(id));
            lemma_counted_after(before, after, id);
            assert(before.counted().contains(id) == before.calls[id].counted());
            assert forall|x: nat| after.calls.dom().contains(x) implies (
            #[trigger] after.calls[x].holds_lock() <==> after.holder == Some(x)) by {
                assert(before.calls[id].holds_lock() <==> before.holder == Some(id));
                if x != id {
                    assert(before.calls[x].holds_lock() <==> before.holder == Some(x));
                }
            }
            if exists|x: nat| after.oversleeper(x) {
                let x = choose|x: nat| after.oversleeper(x);
                if after.calls[id].owes_wake() {
                    assert(after.waker(id));
                } else {
                    assert(after.value == before.value);
                    assert(before.oversleeper(x));
                    let w = choose|w: nat| before.waker(w);
                    if w == id {
                        assert(before.calls[id] matches Call::Write { turn: Writer::Written });
                        assert(before.count == 0);
                        assert(before.counted().contains(x));
                    } else {
                        assert(after.waker(w));
                    }
                }
            }
        },
    }
}

/// Every world of a history is as it should be.
pub proof fn lemma_history_keeps_inv<T>(path: Seq<World<T>>, at: int)
    requires
        history(path),
        0 <= at < path.len(),
    ensures
        path[at].inv(),
    decreases at,
{
    if at == 0 {
        lemma_new_world(path[0].value);
    } else {
        lemma_history_keeps_inv(path, at - 1);
        let before = path[at - 1];
        let after = path[at];
        assert(path[at - 1].leads_to(path[at - 1 + 1]));
        if exists|id: nat, choice: Choice<T>|
            before.enabled(id) && after == #[trigger] before.step(id, choice) {
            let (id, choice) = choose|id: nat, choice: Choice<T>|
                before.enabled(id) && after == #[trigger] before.step(id, choice);
            lemma_step_keeps_inv(before, id, choice);
        } else {
            let (id, call) = choose|id: nat, call: Call<T>|
                !before.calls.dom().contains(id) && call.fresh() && after == World {
                    calls: #[trigger] before.calls.insert(id, call),
                    ..before
                };
            lemma_arrival_keeps_inv(before, id, call);
        }
    }
}

/// Every call keeps the protocol: at every moment the moves that a waiting
/// call has made are allowed in their order, it is counted exactly while it
/// has registered once more than it has unregistered, and once it has returned
/// its moves are all that a call does from entry to return.
pub proof fn lemma_calls_keep_protocol<T>(path: Seq<World<T>>, at: int, id: nat)
    requires
        history(path),
        0 <= at < path.len(),
        path[at].calls.dom().contains(id),
        path[at].calls[id] is Wait,
    ensures
        run(path[at].calls[id]->moves) is Some,
        count(path[at].calls[id]->moves, Move::Register) - count(
            path[at].calls[id]->moves,
            Move::Unregister,
        ) == if path[at].calls[id].counted() {
            1int
        } else {
            0int
        },
        path[at].calls[id]->step is Returned ==> whole(path[at].calls[id]->moves),
{
    lemma_history_keeps_inv(path, at);
    assert(path[at].calls[id].on_track());
    lemma_count_follows_stage(path[at].calls[id]->moves);
}

/// Counter pairing, with any number of calls at once: at every moment the
/// count is the number of calls between registering and unregistering, so
/// whenever no call is in between, the count is zero.
pub proof fn lemma_count_is_zero_at_rest<T>(path: Seq<World<T>>, at: int)
    requires
        history(path),
        0 <= at < path.len(),
        forall|id: nat|
            path[at].calls.dom().contains(id) ==> !(#[trigger] path[at].calls[id].counted()),
    ensures
        path[at].count == 0,
{
    lemma_history_keeps_inv(path, at);
    assert(path[at].counted() =~= Set::empty());
}

/// No missed wake-up: at every moment, a call that is blocked although the
/// value satisfies its condition is counted, and some writer has written and
/// has yet to read the count or to notify; that writer, reading the count,
/// finds it above zero.
pub proof fn lemma_no_missed_wakeup<T>(path: Seq<World<T>>, at: int, sleeper: nat)
    requires
        history(path),
        0 <= at < path.len(),
        path[at].oversleeper(sleeper),
    ensures
        path[at].count > 0,
        exists|writer: nat| path[at].waker(writer),
{
    lemma_history_keeps_inv(path, at);
    let world = path[at];
    vstd::set_lib::lemma_set_subset_finite(world.calls.dom(), world.counted());
    assert(world.counted().contains(sleeper));
    assert(world.oversleeper(sleeper));
}

/// Once the writers are through, nobody oversleeps: at a moment at which every
/// writing call has yet to write or has returned, no call is blocked on a
/// condition that the value satisfies.
pub proof fn lemma_nobody_oversleeps_without_writers<T>(path: Seq<World<T>>, at: int, id: nat)
    requires
        history(path),
        0 <= at < path.len(),
        forall|writer: nat| !path[at].waker(writer),
    ensures
        !path[at].oversleeper(id),
{
    lemma_history_keeps_inv(path, at);
}

/// Nobody hangs on a satisfied condition: at a moment at which nothing can
/// happen but that blocked calls wake of themselves, every writing call has
/// returned, and every waiting call has returned or is blocked on a condition
/// that the value does not satisfy. So whoever still waits then waits for a
/// write that has not been made.
pub proof fn lemma_nobody_hangs_on_a_satisfied_condition<T>(path: Seq<World<T>>, at: int, id: nat)
    requires
        history(path),
        0 <= at < path.len(),
        path[at].at_rest(),
        path[at].calls.dom().contains(id),
    ensures
        match path[at].calls[id] {
            Call::Wait { step, wants, .. } => step is Returned || (step is Blocked && !wants(
                path[at].value,
            )),
            Call::Write { turn } => turn is Done,
        },
        path[at].holder is None,
{
    lemma_history_keeps_inv(path, at);
    let world = path[at];
    if world.holder is Some {
        let holder = world.holder.unwrap();
        assert(world.calls[holder].holds_lock());
        assert(world.enabled(holder));
    }
    assert forall|writer: nat| !world.waker(writer) by {
        if world.waker(writer) {
            assert(world.enabled(writer));
        }
    }
    assert(world.enabled(id) ==> world.calls[id] matches Call::Wait { step: Waiter::Blocked, .. });
    assert(!world.oversleeper(id));
}

/// A notification wakes and does nothing else: the step in which a call
/// notifies leaves the value and the count as they are and the lock free, and
/// changes another call only from blocked to woken. Where that call is not
/// blocked, as with nobody waiting, it is left as it is.
pub proof fn lemma_notification_only_wakes<T>(
    world: World<T>,
    id: nat,
    choice: Choice<T>,
    call: nat,
)
    requires
        world.calls.dom().contains(id),
        world.calls[id] == (Call::<T>::Write { turn: Writer::Notifying }),
        world.calls.dom().contains(call),
        call != id,
    ensures
        world.step(id, choice).value == world.value,
        world.step(id, choice).count == world.count,
        world.step(id, choice).holder is None,
        world.step(id, choice).calls.dom() == world.calls.dom(),
        world.step(id, choice).calls[id] == (Call::<T>::Write { turn: Writer::Done }),
        world.step(id, choice).calls[call] == match world.calls[call] {
            Call::Wait { step: Waiter::Blocked, wants, moves } => Call::Wait {
                step: Waiter::Woken,
                wants,
                moves,
            },
            same => same,
        },
{
    assert(world.step(id, choice).calls.dom() =~= world.calls.dom());
}

/// The fast path: the first look of a call whose condition the value satisfies
/// is its last step, and changes nothing but the call itself.
pub proof fn lemma_satisfied_first_look_returns<T>(world: World<T>, id: nat, choice: Choice<T>)
    requires
        world.calls.dom().contains(id),
        world.calls[id] matches Call::Wait { step: Waiter::Entering, wants, .. } && wants(
            world.value,
        ),
    ensures
        world.step(id, choice) == (World {
            calls: world.calls.insert(
                id,
                Call::Wait {
                    step: Waiter::Returned,
                    wants: world.calls[id]->wants,
                    moves: world.calls[id]->moves,
                },
            ),
            ..world
        }),
{
}

/// One holder: at every moment at most one call holds the lock.
pub proof fn lemma_one_holder<T>(path: Seq<World<T>>, at: int, one: nat, other: nat)
    requires
        history(path),
        0 <= at < path.len(),
        path[at].calls.dom().contains(one),
        path[at].calls.dom().contains(other),
        path[at].calls[one].holds_lock(),
        path[at].calls[other].holds_lock(),
    ensures
        one == other,
{
    lemma_history_keeps_inv(path, at);
}

} // verus!
