//! Waiting: the emulated vertical blank, polling for a condition, and accepting a
//! host's connection.

use vstd::prelude::*;

verus! {

/// Time between two ticks of the emulated vertical blank, in nanoseconds.
pub const FRAME_INTERVAL_NS: u64 = 16_000_000;

/// The time that is left until the next tick, in nanoseconds.
pub open spec fn timeout(elapsed_ns: int) -> int {
    if elapsed_ns < FRAME_INTERVAL_NS {
        FRAME_INTERVAL_NS - elapsed_ns
    } else {
        0
    }
}

/// A tick is due after this much time.
pub open spec fn is_due(elapsed_ns: int) -> bool {
    elapsed_ns >= FRAME_INTERVAL_NS
}

/// How long the event loop may sleep, in nanoseconds, when this much time went by
/// since the last tick: until the next tick is due.
pub fn poll_timeout(elapsed_ns: u64) -> (r: u64)
    ensures
        r <= FRAME_INTERVAL_NS,
        elapsed_ns < FRAME_INTERVAL_NS ==> r + elapsed_ns == FRAME_INTERVAL_NS,
        elapsed_ns >= FRAME_INTERVAL_NS ==> r == 0,
        r == timeout(elapsed_ns as int),
{
    if elapsed_ns < FRAME_INTERVAL_NS {
        FRAME_INTERVAL_NS - elapsed_ns
    } else {
        0
    }
}

/// Whether a tick is due.
pub fn tick_due(elapsed_ns: u64) -> (b: bool)
    ensures
        b == is_due(elapsed_ns as int),
{
    elapsed_ns >= FRAME_INTERVAL_NS
}

/// What a wait does next.
#[derive(Clone, Copy, PartialEq, Eq, Debug, Structural)]
pub enum WaitStep {
    /// The wait is over; the condition held or did not.
    Done { held: bool },
    /// Sleep this many milliseconds and look again.
    Sleep { ms: u64 },
}

/// What one look at a condition leads to.
pub open spec fn look(holds: bool, past_deadline: bool) -> WaitStep {
    if holds {
        WaitStep::Done { held: true }
    } else if past_deadline {
        WaitStep::Done { held: false }
    } else {
        WaitStep::Sleep { ms: 100 }
    }
}

/// One look at a condition: a wait ends when it holds, or at the deadline.
pub fn wait_until(holds: bool, past_deadline: bool) -> (s: WaitStep)
    ensures
        s == look(holds, past_deadline),
{
    if holds {
        WaitStep::Done { held: true }
    } else if past_deadline {
        WaitStep::Done { held: false }
    } else {
        WaitStep::Sleep { ms: 100 }
    }
}

/// What accepting a connection gave.
#[derive(Clone, Copy, PartialEq, Eq, Debug, Structural)]
pub enum Accepted {
    Connected,
    /// Nobody is there yet.
    WouldBlock,
    Failed,
}

/// What the wait for a host does next.
#[derive(Clone, Copy, PartialEq, Eq, Debug, Structural)]
pub enum AcceptStep {
    /// Use the connection.
    Use,
    /// Sleep this many milliseconds and try again.
    Sleep { ms: u64 },
    /// The host does not come: its window is dropped.
    GiveUp,
}

/// What one try to accept a connection leads to.
pub open spec fn attempt(accepted: Accepted, past_deadline: bool) -> AcceptStep {
    match accepted {
        Accepted::Connected => AcceptStep::Use,
        Accepted::WouldBlock => if past_deadline {
            AcceptStep::GiveUp
        } else {
            AcceptStep::Sleep { ms: 5 }
        },
        Accepted::Failed => AcceptStep::GiveUp,
    }
}

/// One try to accept a host's connection. A host that never comes does not hold the
/// compositor up for longer than the deadline.
pub fn accept_step(accepted: Accepted, past_deadline: bool) -> (s: AcceptStep)
    ensures
        s == attempt(accepted, past_deadline),
{
    match accepted {
        Accepted::Connected => AcceptStep::Use,
        Accepted::WouldBlock => if past_deadline {
            AcceptStep::GiveUp
        } else {
            AcceptStep::Sleep { ms: 5 }
        },
        Accepted::Failed => AcceptStep::GiveUp,
    }
}

/// A loop that sleeps as long as it may wakes up just when a tick is due: not before, and
/// 16 milliseconds after the last one.
pub proof fn lemma_sleep_ends_with_the_tick(elapsed_ns: int)
    requires
        0 <= elapsed_ns,
    ensures
        timeout(elapsed_ns) >= 0,
        is_due(elapsed_ns) <==> elapsed_ns >= 16_000_000,
        is_due(elapsed_ns + timeout(elapsed_ns)),
        timeout(elapsed_ns) > 0 ==> !is_due(elapsed_ns + timeout(elapsed_ns) - 1),
        is_due(elapsed_ns) <==> timeout(elapsed_ns) == 0,
{
}

/// A wait that is over tells whether the condition held; it goes on only while there is
/// time and the condition does not hold.
pub proof fn lemma_wait_tells_the_truth(holds: bool, past_deadline: bool)
    ensures
        look(holds, past_deadline) is Done <==> holds || past_deadline,
        look(holds, past_deadline) matches WaitStep::Done { held } ==> held == holds,
        look(holds, past_deadline) matches WaitStep::Sleep { ms } ==> ms > 0,
{
}

/// A connection is used whenever there is one; the wait for it goes on only while there
/// is time and nothing failed.
pub proof fn lemma_connection_is_used(accepted: Accepted, past_deadline: bool)
    ensures
        attempt(accepted, past_deadline) == AcceptStep::Use <==> accepted == Accepted::Connected,
        attempt(accepted, past_deadline) is Sleep <==> accepted == Accepted::WouldBlock
            && !past_deadline,
        attempt(accepted, past_deadline) matches AcceptStep::Sleep { ms } ==> ms > 0,
{
}

} // verus!
