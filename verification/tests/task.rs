use rayo::task::{
    park_check, pending_throw, wake_move, WakeMove, protocol_error_message, step_action, throw_plan, Completion,
    ParkCheck, StepAction, StepResult, TaskOutcome, TaskState, ThrowPlan,
};

#[test]
fn new_task_is_pending_and_not_cancelled() {
    let state: TaskState<&str> = TaskState::new();
    assert!(!state.done());
    assert!(!state.cancelled());
    assert_eq!(state.cancelling(), 0);
    assert!(matches!(state.outcome(), TaskOutcome::Pending));
}

#[test]
fn finish_records_the_first_outcome_only() {
    let mut state: TaskState<&str> = TaskState::new();
    assert!(state.add_done_callback("cb1", "ctx1").is_none());
    assert!(state.add_done_callback("cb2", "ctx2").is_none());
    state.mark_registered();
    let handed = state.finish(Completion::Returned("value"));
    let Some((registered, callbacks)) = handed else { panic!("first finish hands out") };
    assert!(registered);
    assert_eq!(callbacks, vec![("cb1", "ctx1"), ("cb2", "ctx2")]);
    assert!(state.done());
    assert!(state.finish(Completion::Raised("late")).is_none());
    assert!(matches!(state.outcome(), TaskOutcome::Returned(Some(&"value"))));
}

#[test]
fn callbacks_after_finish_fire_immediately() {
    let mut state: TaskState<u8> = TaskState::new();
    state.finish(Completion::Aborted);
    assert_eq!(state.add_done_callback(1, 2), Some((1, 2)));
    assert_eq!(state.done_callback_count(), 0);
    assert!(matches!(state.outcome(), TaskOutcome::Returned(None)));
}

#[test]
fn raised_and_cancelled_outcomes() {
    let mut raised: TaskState<&str> = TaskState::new();
    raised.finish(Completion::Raised("boom"));
    assert!(matches!(raised.outcome(), TaskOutcome::Raised(&"boom")));
    assert!(!raised.cancelled());

    let mut cancelled: TaskState<&str> = TaskState::new();
    cancelled.finish(Completion::Cancelled(Some("bye")));
    assert!(cancelled.cancelled());
    assert!(matches!(cancelled.outcome(), TaskOutcome::Cancelled(Some(&"bye"))));
}

#[test]
fn cancel_counts_and_uncancel_restores() {
    let mut state: TaskState<&str> = TaskState::new();
    assert!(state.request_cancel(Some("m")));
    assert_eq!(state.cancelling(), 1);
    assert!(state.cancel_unabsorbed());
    assert_eq!(state.uncancel(), 0);
    let wake = state.begin_wake().unwrap();
    assert!(!wake.must_cancel, "uncancel to zero clears the pending cancellation");
    assert_eq!(state.uncancel(), 0, "never below zero");
}

#[test]
fn cancel_on_finished_task_is_refused() {
    let mut state: TaskState<&str> = TaskState::new();
    state.finish(Completion::Aborted);
    assert!(!state.request_cancel(None));
    assert!(!state.cancel_unabsorbed());
    assert_eq!(state.cancelling(), 0);
    assert!(state.begin_wake().is_none());
}

#[test]
fn wake_takes_pending_work() {
    let mut state: TaskState<&str> = TaskState::new();
    state.request_cancel(Some("why"));
    state.cancel_unabsorbed();
    state.defer_throw("protocol");
    let wake = state.begin_wake().unwrap();
    assert!(wake.must_cancel);
    assert_eq!(wake.cancel_message, Some("why"));
    assert_eq!(wake.deferred_throw, Some("protocol"));
    assert!(wake.needs_start);
    state.record_start("coro", "ctx");
    let again = state.begin_wake().unwrap();
    assert!(!again.must_cancel);
    assert_eq!(again.deferred_throw, None);
    assert!(!again.needs_start);
    assert_eq!(state.running_parts(), Some((&"coro", &"ctx")));
}

#[test]
fn parked_cancellation_is_reapplied() {
    let mut state: TaskState<&str> = TaskState::new();
    state.request_cancel(Some("msg"));
    state.cancel_unabsorbed();
    assert!(state.cancel_after_park().is_none());
    state.park("future");
    assert_eq!(state.cancel_after_park(), Some((&"future", Some(&"msg"))));
    state.cancel_absorbed();
    assert!(state.cancel_after_park().is_none());
    state.unpark();
    assert!(state.waiting_on().is_none());
}

#[test]
fn remove_done_callbacks_keeps_unmarked_in_order() {
    let mut state: TaskState<u32> = TaskState::new();
    for i in 0..5 {
        state.add_done_callback(i, i + 100);
    }
    let removed = state.remove_done_callbacks(&vec![true, false, true, false, false]);
    assert_eq!(removed, 2);
    assert_eq!(state.done_callbacks(), &vec![(1, 101), (3, 103), (4, 104)]);
}

#[test]
fn step_results_map_to_actions() {
    assert_eq!(step_action(StepResult::Returned), StepAction::FinishReturned);
    assert_eq!(step_action(StepResult::RaisedCancellation), StepAction::FinishCancelled);
    assert_eq!(step_action(StepResult::Raised), StepAction::FinishRaised);
    assert_eq!(step_action(StepResult::YieldedNothing), StepAction::Reschedule);
    assert_eq!(step_action(StepResult::YieldedObject), StepAction::Park);
}

#[test]
fn park_checks_follow_the_future_protocol() {
    assert_eq!(park_check(false, true, Some(true)), ParkCheck::NotAFuture);
    assert_eq!(park_check(true, false, Some(true)), ParkCheck::YieldInsteadOfAwait);
    assert_eq!(park_check(true, true, Some(false)), ParkCheck::ForeignLoop);
    assert_eq!(park_check(true, true, None), ParkCheck::Proceed);
    assert_eq!(park_check(true, true, Some(true)), ParkCheck::Proceed);
    let text = protocol_error_message(ParkCheck::NotAFuture, "int");
    assert_eq!(
        text,
        "handler awaited an object Rayo's scheduler does not understand (type int); only asyncio futures and things built on them can be awaited"
    );
    assert!(protocol_error_message(ParkCheck::ForeignLoop, "x").contains("another \u{2014} create"));
}

#[test]
fn throw_selection_priorities() {
    assert_eq!(pending_throw(Some("deferred"), Some("wake")), Some("wake"));
    assert_eq!(pending_throw(Some("deferred"), None), Some("deferred"));
    assert!(matches!(throw_plan::<&str>(None, false, false, None), ThrowPlan::Send));
    assert!(matches!(throw_plan(Some("e"), false, false, None), ThrowPlan::Throw("e")));
    assert!(matches!(throw_plan(Some("e"), true, false, Some("m")), ThrowPlan::ThrowCancellation(Some("m"))));
    assert!(matches!(throw_plan(Some("c"), true, true, Some("m")), ThrowPlan::Throw("c")));
    assert!(matches!(throw_plan::<&str>(None, true, false, None), ThrowPlan::ThrowCancellation(None)));
}

#[test]
fn names_are_kept() {
    let mut state: TaskState<&str> = TaskState::new();
    assert!(state.name().is_none());
    state.set_name("handler");
    assert_eq!(state.name(), Some(&"handler"));
    assert!(state.coroutine().is_none());
    assert!(state.context().is_none());
}

#[test]
fn turn_moves() {
    assert_eq!(wake_move(true, true), WakeMove::CancelBeforeStart);
    assert_eq!(wake_move(true, false), WakeMove::StartThenStep);
    assert_eq!(wake_move(false, true), WakeMove::Step);
    assert_eq!(wake_move(false, false), WakeMove::Step);
}

#[test]
fn handler_is_started_once_then_stepped() {
    let mut state: TaskState<&str> = TaskState::new();
    let first = state.begin_wake().expect("unfinished task wakes");
    assert!(first.needs_start);
    assert_eq!(wake_move(first.needs_start, first.must_cancel), WakeMove::StartThenStep);
    state.record_start("coroutine", "context");
    state.park("future");
    assert!(state.request_cancel(Some("stop")));
    state.cancel_unabsorbed();
    let second = state.begin_wake().expect("unfinished task wakes");
    assert!(!second.needs_start);
    assert!(second.must_cancel);
    assert_eq!(wake_move(second.needs_start, second.must_cancel), WakeMove::Step);
    assert_eq!(state.running_parts(), Some((&"coroutine", &"context")));
}
