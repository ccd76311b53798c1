use rayo::shutdown::{shutdown_next, ShutdownAction, ShutdownEvent, ShutdownPhase};

fn run(events: &[ShutdownEvent]) -> (ShutdownPhase, Vec<ShutdownAction>) {
    let mut phase = ShutdownPhase::Starting;
    let mut actions = Vec::new();
    for event in events {
        let (next, action) = shutdown_next(phase, *event);
        phase = next;
        actions.push(action);
    }
    (phase, actions)
}

#[test]
fn graceful_drain_stops_loops() {
    let (phase, actions) = run(&[
        ShutdownEvent::HandleTaken(true),
        ShutdownEvent::Drained(true),
        ShutdownEvent::LoopsStopped,
    ]);
    assert_eq!(actions, vec![ShutdownAction::WaitGrace, ShutdownAction::StopLoops, ShutdownAction::Nothing]);
    assert_eq!(phase, ShutdownPhase::Stopped);
}

#[test]
fn expired_grace_cancels_then_warns() {
    let (_, actions) = run(&[
        ShutdownEvent::HandleTaken(true),
        ShutdownEvent::Drained(false),
        ShutdownEvent::Drained(false),
    ]);
    assert_eq!(
        actions,
        vec![ShutdownAction::WaitGrace, ShutdownAction::CancelAndWaitDrain, ShutdownAction::WarnAndStopLoops]
    );
}

#[test]
fn second_shutdown_only_stops_loops() {
    let (phase, actions) = run(&[ShutdownEvent::HandleTaken(false)]);
    assert_eq!(actions, vec![ShutdownAction::StopLoops]);
    assert_eq!(phase, ShutdownPhase::Stopping);
}

#[test]
fn unexpected_events_change_nothing() {
    assert_eq!(
        shutdown_next(ShutdownPhase::Stopped, ShutdownEvent::Drained(true)),
        (ShutdownPhase::Stopped, ShutdownAction::Nothing)
    );
}
