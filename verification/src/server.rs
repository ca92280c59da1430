//! Lifecycle of the HTTP server: Starting, Listening, Draining, Stopped.
//! Binding the address decides whether the run starts at all; cancellation
//! moves the server out of `Listening` and it never accepts a connection
//! again; the run only ends once the server reaches `Stopped`.

use vstd::prelude::*;

verus! {

/// The server's lifecycle phase.
#[derive(Clone, Copy, PartialEq, Eq, Structural, Debug)]
pub enum ServerPhase {
    /// Binding the listening address.
    Starting,
    /// Accepting connections.
    Listening,
    /// Cancellation observed: no new connections, in-flight requests finish.
    Draining,
    /// Fully shut down (or never started, after a bind failure).
    Stopped,
}

/// What the server reacts to.
#[derive(Clone, Copy, PartialEq, Eq, Structural, Debug)]
pub enum ServerEvent {
    BindSucceeded,
    BindFailed,
    CancelObserved,
    InFlightComplete,
}

/// New connections are accepted only while listening.
pub open spec fn accepts_connections(p: ServerPhase) -> bool {
    p is Listening
}

/// The server is on its way out (or already out) and will never accept a
/// new connection again.
pub open spec fn shutting_down(p: ServerPhase) -> bool {
    p is Draining || p is Stopped
}

/// The server's transition table.
pub open spec fn server_transition(p: ServerPhase, e: ServerEvent) -> ServerPhase {
    match (p, e) {
        (ServerPhase::Starting, ServerEvent::BindSucceeded) => ServerPhase::Listening,
        (ServerPhase::Starting, ServerEvent::BindFailed) => ServerPhase::Stopped,
        (ServerPhase::Starting, ServerEvent::CancelObserved) => ServerPhase::Stopped,
        (ServerPhase::Listening, ServerEvent::CancelObserved) => ServerPhase::Draining,
        (ServerPhase::Draining, ServerEvent::InFlightComplete) => ServerPhase::Stopped,
        (ServerPhase::Stopped, _) => ServerPhase::Stopped,
        _ => p,
    }
}

/// One lifecycle step of the server.
pub fn server_step(p: ServerPhase, e: ServerEvent) -> (r: ServerPhase)
    ensures
        r == server_transition(p, e),
{
    match (p, e) {
        (ServerPhase::Starting, ServerEvent::BindSucceeded) => ServerPhase::Listening,
        (ServerPhase::Starting, ServerEvent::BindFailed) => ServerPhase::Stopped,
        (ServerPhase::Starting, ServerEvent::CancelObserved) => ServerPhase::Stopped,
        (ServerPhase::Listening, ServerEvent::CancelObserved) => ServerPhase::Draining,
        (ServerPhase::Draining, ServerEvent::InFlightComplete) => ServerPhase::Stopped,
        (ServerPhase::Stopped, _) => ServerPhase::Stopped,
        _ => p,
    }
}

/// The phase after processing a whole sequence of events.
pub open spec fn server_run(p: ServerPhase, evs: Seq<ServerEvent>) -> ServerPhase
    decreases evs.len(),
{
    if evs.len() == 0 {
        p
    } else {
        server_run(server_transition(p, evs[0]), evs.drop_first())
    }
}

/// Observing cancellation ends acceptance at once: from any phase, the
/// phase after `CancelObserved` accepts no new connection.
pub proof fn lemma_cancel_stops_accepting(p: ServerPhase)
    ensures
        !accepts_connections(server_transition(p, ServerEvent::CancelObserved)),
        shutting_down(server_transition(p, ServerEvent::CancelObserved)) || server_transition(
            p,
            ServerEvent::CancelObserved,
        ) is Starting,
{
}

/// Once the server is shutting down, no sequence of further events ever
/// makes it accept a connection again.
pub proof fn lemma_no_acceptance_after_shutdown(p: ServerPhase, evs: Seq<ServerEvent>)
    requires
        shutting_down(p),
    ensures
        shutting_down(server_run(p, evs)),
        !accepts_connections(server_run(p, evs)),
    decreases evs.len(),
{
    if evs.len() > 0 {
        lemma_no_acceptance_after_shutdown(server_transition(p, evs[0]), evs.drop_first());
    }
}

/// Shutdown completes within a bounded number of observations: whatever the
/// phase, once cancellation is observed and the in-flight requests have
/// completed, the server is `Stopped` — and it stays `Stopped`.
pub proof fn lemma_cancel_then_drain_stops(p: ServerPhase, evs: Seq<ServerEvent>)
    ensures
        server_run(p, seq![ServerEvent::CancelObserved, ServerEvent::InFlightComplete])
            is Stopped,
        server_run(ServerPhase::Stopped, evs) is Stopped,
    decreases evs.len(),
{
    reveal_with_fuel(server_run, 3);
    let two = seq![ServerEvent::CancelObserved, ServerEvent::InFlightComplete];
    assert(two.drop_first() =~= seq![ServerEvent::InFlightComplete]);
    assert(two.drop_first().drop_first() =~= Seq::<ServerEvent>::empty());
    if evs.len() > 0 {
        lemma_cancel_then_drain_stops(p, evs.drop_first());
    }
}

} // verus!
