//! The readiness-poll decision of the socket handle.
//!
//! The socket caches event bits saying whether it is readable or writable
//! right now; beside it stands an edge-triggered readiness guard owned by
//! the reactor. One poll asks for one interest. If the cached bits already
//! satisfy it, the operation may proceed. Otherwise the guard is consulted:
//! if it reports ready, that edge is consumed (the guard is cleared) and one
//! wake is scheduled immediately, because the notification may be stale and
//! a consumer must not miss the next edge — the call still suspends. If the
//! guard is not ready, the call suspends and the reactor wakes it later.

use vstd::prelude::*;

verus! {

/// Which readiness a poll asks for.
#[derive(Clone, Copy, PartialEq, Eq, Structural, Debug)]
pub enum Interest {
    Read,
    Write,
}

/// The socket's cached event bits.
#[derive(Clone, Copy, PartialEq, Eq, Structural, Debug)]
pub struct EventState {
    pub readable: bool,
    pub writable: bool,
}

/// What one readiness poll decides.
#[derive(Clone, Copy, PartialEq, Eq, Structural, Debug)]
pub enum ReadinessStep {
    /// The requested interest is satisfied: the operation proceeds now.
    Proceed,
    /// Not satisfied, but the guard reported an edge: the caller must clear
    /// the guard and schedule exactly one wake, then suspend.
    PendingRearmed,
    /// Not satisfied and no edge: suspend and leave the wake to the reactor.
    PendingParked,
}

/// Whether the cached event bits satisfy the requested interest.
pub open spec fn interest_satisfied(ev: EventState, interest: Interest) -> bool {
    match interest {
        Interest::Read => ev.readable,
        Interest::Write => ev.writable,
    }
}

/// How many wakes one readiness poll schedules itself: exactly one when a
/// ready edge was consumed without the interest being satisfied (a spurious
/// wake must force one more poll), none otherwise — never a busy loop.
pub open spec fn wakes_scheduled(step: ReadinessStep) -> nat {
    if step is PendingRearmed {
        1
    } else {
        0
    }
}

/// One readiness poll: decides from the cached event bits, the requested
/// interest and the guard's edge state what the caller does next.
pub fn poll_readiness(ev: EventState, interest: Interest, guard_ready: bool) -> (step:
    ReadinessStep)
    ensures
        step is Proceed <==> interest_satisfied(ev, interest),
        step is PendingRearmed <==> !interest_satisfied(ev, interest) && guard_ready,
        step is PendingParked <==> !interest_satisfied(ev, interest) && !guard_ready,
        wakes_scheduled(step) == (if !interest_satisfied(ev, interest) && guard_ready {
            1nat
        } else {
            0nat
        }),
{
    let satisfied = match interest {
        Interest::Read => ev.readable,
        Interest::Write => ev.writable,
    };
    if satisfied {
        ReadinessStep::Proceed
    } else if guard_ready {
        ReadinessStep::PendingRearmed
    } else {
        ReadinessStep::PendingParked
    }
}

} // verus!
