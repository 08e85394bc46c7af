//! The arithmetic of a timed wait: a point on the nanosecond clock, whether a
//! reading is past it, and how long a waiter may still block.

use vstd::prelude::*;

verus! {

/// The reading of the nanosecond clock after which a timed wait gives up.
///
/// It is the reading at entry plus the timeout, kept wide enough that no
/// reading and no timeout overflow it. Its view is that sum.
#[derive(Clone, Copy, Debug)]
pub struct Deadline {
    end: i128,
}

impl View for Deadline {
    type V = int;

    closed spec fn view(&self) -> int {
        self.end as int
    }
}

impl Deadline {
    /// Whether the reading `now` is past the deadline. The deadline itself is
    /// not past it.
    pub open spec fn gone(self, now: u64) -> bool {
        now > self@
    }

    /// How long a waiter may block at the reading `now`: the nanoseconds from
    /// `now` to the deadline, where they are more than none and fit a signed
    /// span. At the deadline, past it, or too far before it, there is no span
    /// to block for.
    pub open spec fn left(self, now: u64) -> Option<i64> {
        if 0 < self@ - now <= i64::MAX {
            Some((self@ - now) as i64)
        } else {
            None
        }
    }

    /// The deadline of a wait that starts at the reading `now` and may last
    /// `timeout` nanoseconds. A negative timeout puts it before `now`.
    pub fn after(now: u64, timeout: i64) -> (deadline: Deadline)
        ensures
            deadline@ == now + timeout,
    {
        Deadline { end: now as i128 + timeout as i128 }
    }

    /// Whether the reading `now` is past the deadline.
    pub fn passed(&self, now: u64) -> (gone: bool)
        ensures
            gone == self.gone(now),
    {
        now as i128 > self.end
    }

    /// The span for which a waiter may block at the reading `now`, if any.
    pub fn remaining(&self, now: u64) -> (span: Option<i64>)
        ensures
            span == self.left(now),
    {
        let now = now as i128;
        if self.end <= now {
            None
        } else {
            let gap: i128 = self.end - now;
            if gap <= i64::MAX as i128 {
                Some(gap as i64)
            } else {
                None
            }
        }
    }
}

/// A wait gives up no earlier than its timeout: a reading is past the deadline
/// of a wait exactly when more nanoseconds than the timeout lie between the
/// start of the wait and the reading.
pub proof fn lemma_gone_is_timeout_exceeded(deadline: Deadline, start: u64, timeout: i64, now: u64)
    requires
        deadline@ == start + timeout,
    ensures
        deadline.gone(now) <==> now - start > timeout,
        timeout >= 0 ==> !deadline.gone(start),
        timeout < 0 ==> deadline.gone(start),
{
}

/// A block ends at the deadline: the span that is left at `now` is at least
/// one nanosecond, and `now` plus the span is the deadline. So a reading that
/// leaves a span is not past the deadline.
pub proof fn lemma_left_reaches_deadline(deadline: Deadline, now: u64)
    ensures
        deadline.left(now) matches Some(span) ==> span >= 1 && now + span == deadline@
            && !deadline.gone(now),
{
}

/// Past the deadline nothing is left, and at the deadline neither: there a
/// waiter does not block, and is not yet told to give up.
pub proof fn lemma_nothing_left_from_deadline(deadline: Deadline, now: u64)
    ensures
        deadline.gone(now) ==> deadline.left(now) is None,
        now == deadline@ ==> deadline.left(now) is None && !deadline.gone(now),
{
}

/// While the clock does not run backwards no block outlasts the timeout: at a
/// reading not before the start, what is left is the timeout less what has
/// gone by, and only at the deadline itself is a waiter neither past it nor
/// left with a span.
pub proof fn lemma_left_within_timeout(deadline: Deadline, start: u64, timeout: i64, now: u64)
    requires
        deadline@ == start + timeout,
        start <= now,
    ensures
        deadline.left(now) matches Some(span) ==> span == timeout - (now - start) && span
            <= timeout,
        deadline.left(now) is None ==> deadline.gone(now) || now == deadline@,
{
}

/// Once past, always past: a later reading is past every deadline that an
/// earlier one is past.
pub proof fn lemma_gone_stays_gone(deadline: Deadline, earlier: u64, later: u64)
    requires
        earlier <= later,
        deadline.gone(earlier),
    ensures
        deadline.gone(later),
{
}

} // verus!
