//! The protocol of one waiting call, as the moves it makes on what the calls
//! of a monitor share: the count of waiting calls and the lock.
//!
//! A call that finds its condition satisfied at the first look makes no move.
//! Any other call registers, looks again, parks under the lock if it must, and
//! unregisters. The functions that wait hand back the moves they made, as a
//! ghost trace, and promise that the trace is [`whole`]; the lemmas here say
//! what holds of every such trace.

use vstd::prelude::*;

verus! {

/// A move of a waiting call.
#[derive(Clone, Copy, Debug, PartialEq, Eq, Structural)]
pub enum Move {
    /// Adds one to the count of waiting calls.
    Register,
    /// Takes the lock, looks and blocks in turn until the wait is over, and
    /// releases the lock.
    Park,
    /// Takes one from the count of waiting calls.
    Unregister,
}

/// Where a waiting call stands between two moves.
#[derive(Clone, Copy, Debug, PartialEq, Eq, Structural)]
pub enum Stage {
    /// It has looked once, or not yet, and touched nothing.
    FastCheck,
    /// It is counted and has not held the lock.
    Registered,
    /// It is counted and has held the lock and released it.
    Parked,
    /// It is counted no more and has nothing left to do.
    Returned,
}

impl Stage {
    /// Whether a call at this stage is among those that the count counts.
    pub open spec fn counted(self) -> bool {
        self is Registered || self is Parked
    }

    /// Whether a call at this stage may return to its caller.
    pub open spec fn may_return(self) -> bool {
        self is FastCheck || self is Returned
    }

    /// The stage to which `mv` leads from this one, where the protocol allows
    /// the move here.
    pub open spec fn step(self, mv: Move) -> Option<Stage> {
        match (self, mv) {
            (Stage::FastCheck, Move::Register) => Some(Stage::Registered),
            (Stage::Registered, Move::Park) => Some(Stage::Parked),
            (Stage::Registered, Move::Unregister) => Some(Stage::Returned),
            (Stage::Parked, Move::Unregister) => Some(Stage::Returned),
            _ => None,
        }
    }
}

/// The stage of a call that has made the moves of `trace` in turn, from before
/// its first look; `None` where the protocol forbids one of them.
pub open spec fn run(trace: Seq<Move>) -> Option<Stage>
    decreases trace.len(),
{
    if trace.len() == 0 {
        Some(Stage::FastCheck)
    } else {
        match run(trace.drop_last()) {
            Some(stage) => stage.step(trace.last()),
            None => None,
        }
    }
}

/// Whether `trace` is all that a call does from entry to return.
pub open spec fn whole(trace: Seq<Move>) -> bool {
    match run(trace) {
        Some(stage) => stage.may_return(),
        None => false,
    }
}

/// How often `mv` occurs in `trace`.
pub open spec fn count(trace: Seq<Move>, mv: Move) -> nat
    decreases trace.len(),
{
    if trace.len() == 0 {
        0
    } else {
        count(trace.drop_last(), mv) + if trace.last() == mv {
            1nat
        } else {
            0nat
        }
    }
}

/// One more move: the stage after `trace` and then `mv` is the step by `mv`
/// from the stage after `trace`.
pub proof fn lemma_run_push(trace: Seq<Move>, mv: Move)
    ensures
        run(trace.push(mv)) == match run(trace) {
            Some(stage) => stage.step(mv),
            None => None,
        },
        forall|other: Move|
            count(trace.push(mv), other) == count(trace, other) + if mv == other {
                1nat
            } else {
                0nat
            },
{
    assert(trace.push(mv).drop_last() =~= trace);
    assert(trace.push(mv).last() == mv);
}

/// The count follows the calls: while the protocol is kept, a call has
/// registered once more than it has unregistered exactly while its stage is a
/// counted one, and as often otherwise.
pub proof fn lemma_count_follows_stage(trace: Seq<Move>)
    requires
        run(trace) is Some,
    ensures
        count(trace, Move::Register) - count(trace, Move::Unregister) == if run(
            trace,
        ).unwrap().counted() {
            1int
        } else {
            0int
        },
    decreases trace.len(),
{
    if trace.len() > 0 {
        lemma_count_follows_stage(trace.drop_last());
    }
}

/// The three ways through a wait, move by move: nothing at all; register and
/// unregister; register, park and unregister. Each is whole, and each
/// registers as often as it unregisters.
pub proof fn lemma_three_ways()
    ensures
        whole(seq![]),
        whole(seq![Move::Register, Move::Unregister]),
        whole(seq![Move::Register, Move::Park, Move::Unregister]),
        forall|mv: Move| count(seq![], mv) == 0,
        forall|mv: Move|
            count(seq![Move::Register, Move::Unregister], mv) == if mv == Move::Park {
                0nat
            } else {
                1nat
            },
        forall|mv: Move| count(seq![Move::Register, Move::Park, Move::Unregister], mv) == 1,
{
    let fast = Seq::<Move>::empty();
    let slow = fast.push(Move::Register);
    let parked = slow.push(Move::Park);
    lemma_run_push(fast, Move::Register);
    lemma_run_push(slow, Move::Park);
    lemma_run_push(slow, Move::Unregister);
    lemma_run_push(parked, Move::Unregister);
    assert(fast =~= seq![]);
    assert(slow.push(Move::Unregister) =~= seq![Move::Register, Move::Unregister]);
    assert(parked.push(Move::Unregister) =~= seq![
        Move::Register,
        Move::Park,
        Move::Unregister,
    ]);
}

/// Counter pairing: a call that has returned has unregistered as often as it
/// has registered, at most once, and has parked only if it registered.
pub proof fn lemma_whole_trace_is_paired(trace: Seq<Move>)
    requires
        whole(trace),
    ensures
        count(trace, Move::Register) == count(trace, Move::Unregister),
        count(trace, Move::Register) <= 1,
        count(trace, Move::Park) <= count(trace, Move::Register),
{
    lemma_whole_traces(trace);
    lemma_three_ways();
}

/// The three ways through a wait are all there are: no other trace is whole.
pub proof fn lemma_whole_traces(trace: Seq<Move>)
    ensures
        whole(trace) <==> trace =~= seq![] || trace =~= seq![Move::Register, Move::Unregister]
            || trace =~= seq![Move::Register, Move::Park, Move::Unregister],
{
    let fast = Seq::<Move>::empty();
    lemma_three_ways();
    if whole(trace) {
        lemma_stage_bounds_length(trace);
        if trace.len() == 2 {
            lemma_stage_bounds_length(trace.drop_last());
            assert(trace.drop_last().drop_last() =~= fast);
            assert(trace =~= seq![Move::Register, Move::Unregister]);
        } else if trace.len() == 3 {
            let two = trace.drop_last();
            let one = two.drop_last();
            lemma_stage_bounds_length(two);
            lemma_stage_bounds_length(one);
            assert(one.drop_last() =~= fast);
            assert(trace =~= seq![Move::Register, Move::Park, Move::Unregister]);
        } else {
            assert(trace.len() == 0);
        }
    }
}

/// A stage tells how many moves led to it: none to the first, one to
/// `Registered`, two to `Parked`, two or three to `Returned`.
pub proof fn lemma_stage_bounds_length(trace: Seq<Move>)
    requires
        run(trace) is Some,
    ensures
        match run(trace).unwrap() {
            Stage::FastCheck => trace.len() == 0,
            Stage::Registered => trace.len() == 1,
            Stage::Parked => trace.len() == 2,
            Stage::Returned => trace.len() == 2 || trace.len() == 3,
        },
    decreases trace.len(),
{
    if trace.len() > 0 {
        lemma_stage_bounds_length(trace.drop_last());
    }
}

/// A call parks only while it is counted: before every `Park` of a trace that
/// keeps the protocol stands a `Register`, and no `Unregister`.
pub proof fn lemma_park_is_counted(trace: Seq<Move>, at: int)
    requires
        run(trace) is Some,
        0 <= at < trace.len(),
        trace[at] == Move::Park,
    ensures
        run(trace.take(at)) == Some(Stage::Registered),
        count(trace.take(at), Move::Register) == 1,
        count(trace.take(at), Move::Unregister) == 0,
    decreases trace.len(),
{
    if at == trace.len() - 1 {
        let before = trace.take(at);
        assert(before =~= trace.drop_last());
        lemma_stage_bounds_length(before);
        assert(before =~= Seq::<Move>::empty().push(before[0]));
        lemma_run_push(Seq::<Move>::empty(), before[0]);
    } else {
        assert(trace.drop_last().take(at) =~= trace.take(at));
        lemma_park_is_counted(trace.drop_last(), at);
    }
}

} // verus!
