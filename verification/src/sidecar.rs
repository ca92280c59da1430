//! The sidecar supervisor: owns the one external CSS-compiler child process
//! in watch mode, and races "child exited" against "cancellation observed".
//! Whichever arrives first decides the outcome; a child crash never brings
//! the rest of the run down.

use vstd::prelude::*;

verus! {

/// Lifecycle of the supervised child process.
#[derive(Clone, Copy, PartialEq, Eq, Structural, Debug)]
pub enum SidecarState {
    /// The child is running and being waited on.
    Running,
    /// The child exited on its own (crash or normal exit) before cancellation.
    Exited,
    /// Cancellation fired first and the supervisor terminated the child.
    Killed,
}

/// What the supervisor observes while waiting: whichever of the two resolves
/// first.
#[derive(Clone, Copy, PartialEq, Eq, Structural, Debug)]
pub enum SidecarEvent {
    CancelObserved,
    ChildExited,
}

/// What the supervisor asks its surroundings to do in response.
#[derive(Clone, Copy, PartialEq, Eq, Structural, Debug)]
pub struct SidecarAction {
    /// Forcibly terminate the child and await its exit.
    pub kill_child: bool,
    /// Report an unexpected child exit to the operator.
    pub report_exit: bool,
    /// Request that the whole run be cancelled. The supervisor never does.
    pub cancel_run: bool,
}

/// The child process is no longer running.
pub open spec fn sidecar_terminated(s: SidecarState) -> bool {
    !(s is Running)
}

/// The supervisor's decision table.
pub open spec fn sidecar_transition(s: SidecarState, e: SidecarEvent) -> (SidecarState, SidecarAction) {
    match (s, e) {
        (SidecarState::Running, SidecarEvent::CancelObserved) => (
            SidecarState::Killed,
            SidecarAction { kill_child: true, report_exit: false, cancel_run: false },
        ),
        (SidecarState::Running, SidecarEvent::ChildExited) => (
            SidecarState::Exited,
            SidecarAction { kill_child: false, report_exit: true, cancel_run: false },
        ),
        _ => (s, SidecarAction { kill_child: false, report_exit: false, cancel_run: false }),
    }
}

/// One step of the supervisor: from the current state and the observed
/// event to the next state and the action to perform.
pub fn sidecar_step(s: SidecarState, e: SidecarEvent) -> (r: (SidecarState, SidecarAction))
    ensures
        r == sidecar_transition(s, e),
{
    match (s, e) {
        (SidecarState::Running, SidecarEvent::CancelObserved) => (
            SidecarState::Killed,
            SidecarAction { kill_child: true, report_exit: false, cancel_run: false },
        ),
        (SidecarState::Running, SidecarEvent::ChildExited) => (
            SidecarState::Exited,
            SidecarAction { kill_child: false, report_exit: true, cancel_run: false },
        ),
        _ => (s, SidecarAction { kill_child: false, report_exit: false, cancel_run: false }),
    }
}

/// Observing cancellation terminates the child within one step: from any
/// state, the state after `CancelObserved` is a terminated one, and if the
/// child was still running the supervisor kills it.
pub proof fn lemma_cancel_terminates_sidecar(s: SidecarState)
    ensures
        sidecar_terminated(sidecar_transition(s, SidecarEvent::CancelObserved).0),
        s is Running ==> sidecar_transition(s, SidecarEvent::CancelObserved).1.kill_child,
{
}

/// A terminated child stays terminated, whatever is observed afterwards.
pub proof fn lemma_sidecar_terminated_is_final(s: SidecarState, e: SidecarEvent)
    requires
        sidecar_terminated(s),
    ensures
        sidecar_transition(s, e).0 == s,
{
}

/// The supervisor never asks for the run to be cancelled: a child exit is
/// reported but does not bring the HTTP server down.
pub proof fn lemma_sidecar_never_cancels_run(s: SidecarState, e: SidecarEvent)
    ensures
        !sidecar_transition(s, e).1.cancel_run,
{
}

} // verus!
