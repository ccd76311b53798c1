//! Graceful shutdown as a sequence of decisions: stop accepting, give
//! in-flight requests the grace period to finish, cancel whatever still
//! runs and give it a short drain, then stop the event loops. The waiting
//! and cancelling are done by the caller, which reports what happened.

use vstd::prelude::*;

verus! {

/// Where a shutdown stands.
#[derive(PartialEq, Eq, Structural, Debug, Clone, Copy)]
pub enum ShutdownPhase {
    /// The shutdown signal is sent; the server's completion handle is
    /// being taken.
    Starting,
    /// Waiting for in-flight requests to finish within the grace period.
    DrainingNaturally,
    /// In-flight requests were cancelled; waiting for them to resolve.
    DrainingCancelled,
    /// The event loops are being stopped.
    Stopping,
    Stopped,
}

/// What the caller reports.
#[derive(PartialEq, Eq, Structural, Debug, Clone, Copy)]
pub enum ShutdownEvent {
    /// The server's completion handle was taken: `true` if it was still
    /// there (the first shutdown), `false` if an earlier one took it.
    HandleTaken(bool),
    /// The wait ended: `true` if serving finished in time.
    Drained(bool),
    /// The event loops are stopped.
    LoopsStopped,
}

/// What the caller does next.
#[derive(PartialEq, Eq, Structural, Debug, Clone, Copy)]
pub enum ShutdownAction {
    /// Wait for serving to finish, up to the grace period.
    WaitGrace,
    /// Cancel every in-flight request, then wait for serving to finish,
    /// up to the cancelled-drain period.
    CancelAndWaitDrain,
    /// Stop the event loops.
    StopLoops,
    /// Report that connections are still draining, then stop the loops.
    WarnAndStopLoops,
    Nothing,
}

/// The shutdown transitions; an event that does not fit the phase changes
/// nothing.
pub open spec fn shutdown_step(phase: ShutdownPhase, event: ShutdownEvent) -> (ShutdownPhase, ShutdownAction) {
    match (phase, event) {
        (ShutdownPhase::Starting, ShutdownEvent::HandleTaken(true)) => (
            ShutdownPhase::DrainingNaturally,
            ShutdownAction::WaitGrace,
        ),
        (ShutdownPhase::Starting, ShutdownEvent::HandleTaken(false)) => (
            ShutdownPhase::Stopping,
            ShutdownAction::StopLoops,
        ),
        (ShutdownPhase::DrainingNaturally, ShutdownEvent::Drained(true)) => (
            ShutdownPhase::Stopping,
            ShutdownAction::StopLoops,
        ),
        (ShutdownPhase::DrainingNaturally, ShutdownEvent::Drained(false)) => (
            ShutdownPhase::DrainingCancelled,
            ShutdownAction::CancelAndWaitDrain,
        ),
        (ShutdownPhase::DrainingCancelled, ShutdownEvent::Drained(true)) => (
            ShutdownPhase::Stopping,
            ShutdownAction::StopLoops,
        ),
        (ShutdownPhase::DrainingCancelled, ShutdownEvent::Drained(false)) => (
            ShutdownPhase::Stopping,
            ShutdownAction::WarnAndStopLoops,
        ),
        (ShutdownPhase::Stopping, ShutdownEvent::LoopsStopped) => (
            ShutdownPhase::Stopped,
            ShutdownAction::Nothing,
        ),
        _ => (phase, ShutdownAction::Nothing),
    }
}

/// Advances a shutdown by one reported event.
pub fn shutdown_next(phase: ShutdownPhase, event: ShutdownEvent) -> (next: (ShutdownPhase, ShutdownAction))
    ensures
        next == shutdown_step(phase, event),
{
    match (phase, event) {
        (ShutdownPhase::Starting, ShutdownEvent::HandleTaken(true)) => (
            ShutdownPhase::DrainingNaturally,
            ShutdownAction::WaitGrace,
        ),
        (ShutdownPhase::Starting, ShutdownEvent::HandleTaken(false)) => (
            ShutdownPhase::Stopping,
            ShutdownAction::StopLoops,
        ),
        (ShutdownPhase::DrainingNaturally, ShutdownEvent::Drained(true)) => (
            ShutdownPhase::Stopping,
            ShutdownAction::StopLoops,
        ),
        (ShutdownPhase::DrainingNaturally, ShutdownEvent::Drained(false)) => (
            ShutdownPhase::DrainingCancelled,
            ShutdownAction::CancelAndWaitDrain,
        ),
        (ShutdownPhase::DrainingCancelled, ShutdownEvent::Drained(true)) => (
            ShutdownPhase::Stopping,
            ShutdownAction::StopLoops,
        ),
        (ShutdownPhase::DrainingCancelled, ShutdownEvent::Drained(false)) => (
            ShutdownPhase::Stopping,
            ShutdownAction::WarnAndStopLoops,
        ),
        (ShutdownPhase::Stopping, ShutdownEvent::LoopsStopped) => (
            ShutdownPhase::Stopped,
            ShutdownAction::Nothing,
        ),
        _ => (phase, ShutdownAction::Nothing),
    }
}

/// The events a shutdown receives: the handle, then as many drain reports
/// as it asks for.
pub open spec fn shutdown_events(handle_present: bool, natural: bool, cancelled: bool) -> Seq<ShutdownEvent> {
    seq![ShutdownEvent::HandleTaken(handle_present), ShutdownEvent::Drained(natural), ShutdownEvent::Drained(cancelled)]
}

/// The actions a shutdown takes for a sequence of events, from a phase.
pub open spec fn shutdown_actions(phase: ShutdownPhase, events: Seq<ShutdownEvent>) -> Seq<ShutdownAction>
    decreases events.len(),
{
    if events.len() == 0 {
        Seq::empty()
    } else {
        let (next, action) = shutdown_step(phase, events[0]);
        seq![action] + shutdown_actions(next, events.drop_first())
    }
}

/// The phase a sequence of events leads to.
pub open spec fn shutdown_phase_after(phase: ShutdownPhase, events: Seq<ShutdownEvent>) -> ShutdownPhase
    decreases events.len(),
{
    if events.len() == 0 {
        phase
    } else {
        shutdown_phase_after(shutdown_step(phase, events[0]).0, events.drop_first())
    }
}

/// Every shutdown stops the event loops, exactly once, whatever the drains
/// report: the first shutdown waits out the grace period, cancels
/// in-flight requests only if they did not finish in it, gives them the
/// cancelled drain, and warns if even that did not finish; a repeated
/// shutdown (the handle already taken) goes straight to stopping the loops.
pub proof fn shutdown_always_stops_loops(handle_present: bool, natural: bool, cancelled: bool)
    ensures
        shutdown_phase_after(ShutdownPhase::Starting, shutdown_events(handle_present, natural, cancelled))
            == ShutdownPhase::Stopping,
        shutdown_actions(ShutdownPhase::Starting, shutdown_events(handle_present, natural, cancelled)) == if !handle_present {
            seq![ShutdownAction::StopLoops, ShutdownAction::Nothing, ShutdownAction::Nothing]
        } else if natural {
            seq![ShutdownAction::WaitGrace, ShutdownAction::StopLoops, ShutdownAction::Nothing]
        } else if cancelled {
            seq![ShutdownAction::WaitGrace, ShutdownAction::CancelAndWaitDrain, ShutdownAction::StopLoops]
        } else {
            seq![ShutdownAction::WaitGrace, ShutdownAction::CancelAndWaitDrain, ShutdownAction::WarnAndStopLoops]
        },
{
    let events = shutdown_events(handle_present, natural, cancelled);
    let e1 = events.drop_first();
    let e2 = e1.drop_first();
    let e3 = e2.drop_first();
    assert(e3 =~= Seq::<ShutdownEvent>::empty());
    let (p1, a1) = shutdown_step(ShutdownPhase::Starting, events[0]);
    let (p2, a2) = shutdown_step(p1, e1[0]);
    let (p3, a3) = shutdown_step(p2, e2[0]);
    assert(shutdown_actions(p3, e3) == Seq::<ShutdownAction>::empty());
    assert(shutdown_phase_after(p3, e3) == p3);
    assert(shutdown_actions(p2, e2) == seq![a3] + shutdown_actions(p3, e3));
    assert(shutdown_phase_after(p2, e2) == shutdown_phase_after(p3, e3));
    assert(shutdown_actions(p1, e1) == seq![a2] + shutdown_actions(p2, e2));
    assert(shutdown_phase_after(p1, e1) == shutdown_phase_after(p2, e2));
    assert(shutdown_actions(ShutdownPhase::Starting, events) == seq![a1] + shutdown_actions(p1, e1));
    assert(shutdown_phase_after(ShutdownPhase::Starting, events) == shutdown_phase_after(p1, e1));
    assert(shutdown_actions(ShutdownPhase::Starting, events) =~= seq![a1, a2, a3]);
}

} // verus!
