//! The search for a listening port: the candidates 9000 to 9010 are tried
//! in rising order and the first that can be bound wins.
//!
//! Binding a socket is the embedding program's work. The search is a state
//! machine: the program performs the action that [`step`] hands out and
//! reports what happened as the next event.

use vstd::prelude::*;
use crate::text::{decimal_text, push_decimal};

verus! {

/// The first port that is tried.
pub const FIRST_PORT: u16 = 9000;

/// The last port that is tried.
pub const LAST_PORT: u16 = 9010;

/// The host on which the service listens: every local address.
pub const BIND_HOST: &'static str = "0.0.0.0";

/// Why a search ended without a listener.
#[derive(Debug, Clone, Copy, PartialEq, Eq, Structural)]
pub enum BindErrorKind {
    /// Every candidate port was unavailable.
    AddrInUse,
}

/// The failure of a search, with the range of ports that it went through.
#[derive(Debug, Clone, Copy, PartialEq, Eq, Structural)]
pub struct BindError {
    pub kind: BindErrorKind,
    pub first_port: u16,
    pub last_port: u16,
}

/// Where a search stands.
#[derive(Debug, Clone, Copy, PartialEq, Eq, Structural)]
pub enum BindState {
    /// Nothing was tried yet.
    Unstarted,
    /// An attempt on `port` is under way.
    Binding { port: u16 },
    /// The listener is bound to `port`. The search is over.
    Bound { port: u16 },
    /// Every candidate was unavailable. The search is over.
    Failed,
}

/// What the embedding program reports to the search.
#[derive(Debug, Clone, Copy, PartialEq, Eq, Structural)]
pub enum BindEvent {
    /// The service is asked to start.
    Start,
    /// The attempt under way could not bind its port.
    PortUnavailable,
    /// The attempt under way bound its port.
    PortBound,
}

/// What the embedding program is to do next.
#[derive(Debug, Clone, Copy, PartialEq, Eq, Structural)]
pub enum BindAction {
    /// Try to bind `port` and report how it went.
    TryBind { port: u16 },
    /// The listener on `port` is bound: serve on it.
    Serve { port: u16 },
    /// Give up and report the failure.
    Fail(BindError),
    /// The event does not fit the state. Nothing is to be done.
    Ignore,
}

/// The failure that a search over all candidates ends with.
pub open spec fn exhausted() -> BindError {
    BindError { kind: BindErrorKind::AddrInUse, first_port: FIRST_PORT, last_port: LAST_PORT }
}

/// A port of the candidate range.
pub open spec fn is_candidate(port: u16) -> bool {
    FIRST_PORT <= port <= LAST_PORT
}

impl BindState {
    /// A state that a search can reach: its port, if it has one, is a candidate.
    pub open spec fn wf(self) -> bool {
        match self {
            BindState::Binding { port } => is_candidate(port),
            BindState::Bound { port } => is_candidate(port),
            _ => true,
        }
    }

    /// The search is over.
    pub open spec fn is_terminal(self) -> bool {
        self is Bound || self is Failed
    }
}

/// The transition of the search: the next state and the action to perform.
///
/// A start is accepted once, before anything was tried. A report is accepted
/// while an attempt is under way: a bound port ends the search, an
/// unavailable one moves it to the next candidate, or to failure behind the
/// last. Any other event leaves the state as it is.
pub open spec fn next(state: BindState, event: BindEvent) -> (BindState, BindAction) {
    match (state, event) {
        (BindState::Unstarted, BindEvent::Start) => (
            BindState::Binding { port: FIRST_PORT },
            BindAction::TryBind { port: FIRST_PORT },
        ),
        (BindState::Binding { port }, BindEvent::PortBound) => (
            BindState::Bound { port },
            BindAction::Serve { port },
        ),
        (BindState::Binding { port }, BindEvent::PortUnavailable) => if port < LAST_PORT {
            (
                BindState::Binding { port: (port + 1) as u16 },
                BindAction::TryBind { port: (port + 1) as u16 },
            )
        } else {
            (BindState::Failed, BindAction::Fail(exhausted()))
        },
        _ => (state, BindAction::Ignore),
    }
}

/// Advances the search by one event.
pub fn step(state: BindState, event: BindEvent) -> (result: (BindState, BindAction))
    ensures
        result == next(state, event),
{
    match state {
        BindState::Unstarted => match event {
            BindEvent::Start => (
                BindState::Binding { port: FIRST_PORT },
                BindAction::TryBind { port: FIRST_PORT },
            ),
            _ => (state, BindAction::Ignore),
        },
        BindState::Binding { port } => match event {
            BindEvent::PortBound => (BindState::Bound { port }, BindAction::Serve { port }),
            BindEvent::PortUnavailable => if port < LAST_PORT {
                (BindState::Binding { port: port + 1 }, BindAction::TryBind { port: port + 1 })
            } else {
                (
                    BindState::Failed,
                    BindAction::Fail(
                        BindError {
                            kind: BindErrorKind::AddrInUse,
                            first_port: FIRST_PORT,
                            last_port: LAST_PORT,
                        },
                    ),
                )
            },
            BindEvent::Start => (state, BindAction::Ignore),
        },
        _ => (state, BindAction::Ignore),
    }
}

/// The text of a failure: the range of ports that were all in use.
pub open spec fn message_text(error: BindError) -> Seq<char> {
    "All ports in range "@ + decimal_text(error.first_port as nat) + seq!['-'] + decimal_text(
        error.last_port as nat,
    ) + " are in use"@
}

impl BindError {
    /// The failure as a sentence for the caller.
    pub fn message(&self) -> (text: String)
        ensures
            text@ == message_text(*self),
    {
        let mut text = "All ports in range ".to_owned();
        push_decimal(&mut text, self.first_port);
        text.push('-');
        push_decimal(&mut text, self.last_port);
        text.append(" are in use");
        assert(text@ =~= message_text(*self));
        text
    }
}

/// What an attempt on `port` reports when the ports of `occupied` cannot be bound.
pub open spec fn probe(port: u16, occupied: Set<u16>) -> BindEvent {
    if occupied.contains(port) {
        BindEvent::PortUnavailable
    } else {
        BindEvent::PortBound
    }
}

/// How many candidates a search that stands at `state` can still try.
pub open spec fn attempts_left(state: BindState) -> nat {
    match state {
        BindState::Binding { port } if port <= LAST_PORT => (LAST_PORT - port + 1) as nat,
        _ => 0,
    }
}

/// The state in which a search that stands at `state` ends when every
/// attempt is answered by [`probe`].
pub open spec fn settle(state: BindState, occupied: Set<u16>) -> BindState
    decreases attempts_left(state),
{
    match state {
        BindState::Binding { port } if port <= LAST_PORT => settle(
            next(state, probe(port, occupied)).0,
            occupied,
        ),
        _ => state,
    }
}

/// The state in which a fresh search ends, given the ports that cannot be bound.
pub open spec fn outcome(occupied: Set<u16>) -> BindState {
    settle(next(BindState::Unstarted, BindEvent::Start).0, occupied)
}

/// `port` is a candidate that can be bound, and every candidate below it cannot.
pub open spec fn is_lowest_free(port: u16, occupied: Set<u16>) -> bool {
    &&& is_candidate(port)
    &&& !occupied.contains(port)
    &&& forall|lower: u16| FIRST_PORT <= lower < port ==> occupied.contains(lower)
}

/// No candidate can be bound.
pub open spec fn all_occupied(occupied: Set<u16>) -> bool {
    forall|port: u16| is_candidate(port) ==> occupied.contains(port)
}

/// A step leads from a reachable state to a reachable state.
pub proof fn lemma_next_keeps_wf(state: BindState, event: BindEvent)
    requires
        state.wf(),
    ensures
        next(state, event).0.wf(),
{
}

/// A search that is over stays as it is, whatever is reported to it:
/// it neither tries another port nor starts again.
pub proof fn lemma_terminal_is_final(state: BindState, event: BindEvent)
    requires
        state.is_terminal(),
    ensures
        next(state, event) == (state, BindAction::Ignore),
{
}

/// A start is accepted only by a search that has tried nothing yet.
pub proof fn lemma_start_only_once(state: BindState)
    ensures
        next(state, BindEvent::Start).1 != BindAction::Ignore <==> state is Unstarted,
{
}

/// Ports are tried in rising order, one after the other: after an
/// unavailable port comes the next higher one, and no other.
pub proof fn lemma_attempts_rise(port: u16)
    requires
        is_candidate(port),
    ensures
        port < LAST_PORT ==> next(BindState::Binding { port }, BindEvent::PortUnavailable).1 == (
        BindAction::TryBind { port: (port + 1) as u16 }),
        port == LAST_PORT ==> next(BindState::Binding { port }, BindEvent::PortUnavailable)
            == (BindState::Failed, BindAction::Fail(exhausted())),
{
}

/// Where the search stands at `port` and every candidate from there on is
/// tried in turn, it ends on the lowest free one of them, or fails.
proof fn lemma_settle_from(port: u16, occupied: Set<u16>)
    requires
        is_candidate(port),
    ensures
        settle(BindState::Binding { port }, occupied) matches BindState::Bound { port: bound }
            ==> port <= bound <= LAST_PORT && !occupied.contains(bound) && forall|lower: u16|
            port <= lower < bound ==> occupied.contains(lower),
        settle(BindState::Binding { port }, occupied) is Failed ==> forall|other: u16|
            port <= other <= LAST_PORT ==> occupied.contains(other),
        settle(BindState::Binding { port }, occupied).is_terminal(),
    decreases LAST_PORT - port,
{
    let here = BindState::Binding { port };
    let after = next(here, probe(port, occupied)).0;
    assert(settle(here, occupied) == settle(after, occupied));
    if !occupied.contains(port) {
        assert(settle(after, occupied) == BindState::Bound { port });
    } else if port < LAST_PORT {
        lemma_settle_from((port + 1) as u16, occupied);
    } else {
        assert(settle(after, occupied) == BindState::Failed);
    }
}

/// The search is deterministic in the ports that cannot be bound: it ends
/// bound to the lowest free candidate, and it fails exactly when there is none.
pub proof fn lemma_outcome(occupied: Set<u16>)
    ensures
        outcome(occupied).is_terminal(),
        forall|port: u16|
            outcome(occupied) == (BindState::Bound { port }) <==> is_lowest_free(port, occupied),
        outcome(occupied) is Failed <==> all_occupied(occupied),
{
    lemma_settle_from(FIRST_PORT, occupied);
    let end = outcome(occupied);
    assert forall|port: u16| is_lowest_free(port, occupied) implies end == (BindState::Bound {
        port,
    }) by {
        match end {
            BindState::Bound { port: bound } => {
                if bound < port {
                    assert(occupied.contains(bound));
                } else if port < bound {
                    assert(occupied.contains(port));
                }
            },
            _ => {
                assert(occupied.contains(port));
            },
        }
    }
    if all_occupied(occupied) {
        if let BindState::Bound { port: bound } = end {
            assert(is_candidate(bound));
        }
    }
}

} // verus!
