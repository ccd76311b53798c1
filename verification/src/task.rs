//! The bookkeeping of one request's handler task: the task-like object that
//! steps a handler coroutine and answers the asyncio Task and Future
//! protocols (cancel, uncancel, done, result, done callbacks).
//!
//! The Python objects the task holds (coroutine, context, awaited future,
//! exceptions, callbacks) are opaque here: the state is generic over their
//! type `P`, and every decision is made on which of them are present and on
//! the flags and counters beside them.

use vstd::prelude::*;

verus! {

/// How a request ended.
pub enum Completion<P> {
    /// The handler returned this value.
    Returned(P),
    /// The handler raised this exception.
    Raised(P),
    /// The handler was cancelled, with the cancellation message if any.
    Cancelled(Option<P>),
    /// An internal scheduler failure: no handler outcome exists.
    Aborted,
}

/// The abstract state of a task.
pub struct TaskView<P> {
    pub coroutine: Option<P>,
    pub context: Option<P>,
    /// The future the coroutine is suspended on.
    pub waiting_on: Option<P>,
    /// A protocol error to deliver at the next step.
    pub deferred_throw: Option<P>,
    /// A cancellation no future absorbed: deliver it at the next step.
    pub must_cancel: bool,
    pub cancel_message: Option<P>,
    /// The Task-protocol `cancelling()` counter.
    pub cancel_requests: u32,
    pub registered_with_asyncio: bool,
    pub name: Option<P>,
    /// (callback, context) pairs, in the order they were added.
    pub done_callbacks: Seq<(P, P)>,
    pub finished: bool,
    pub finished_cancelled: bool,
    pub cancelled_message: Option<P>,
    pub stored_result: Option<P>,
    pub stored_exception: Option<P>,
}

/// The state of a task that has not run yet.
pub open spec fn initial_view<P>() -> TaskView<P> {
    TaskView {
        coroutine: None,
        context: None,
        waiting_on: None,
        deferred_throw: None,
        must_cancel: false,
        cancel_message: None,
        cancel_requests: 0,
        registered_with_asyncio: false,
        name: None,
        done_callbacks: Seq::empty(),
        finished: false,
        finished_cancelled: false,
        cancelled_message: None,
        stored_result: None,
        stored_exception: None,
    }
}

/// What every reachable task state satisfies: a finished task keeps no
/// done callback; an unfinished one has no recorded outcome (no result,
/// exception, cancellation or cancellation message); a finished one has at
/// most one of result, exception and cancellation.
pub open spec fn view_wf<P>(v: TaskView<P>) -> bool {
    &&& v.finished ==> v.done_callbacks.len() == 0
    &&& !v.finished ==> {
        &&& !v.finished_cancelled
        &&& v.stored_result is None
        &&& v.stored_exception is None
        &&& v.cancelled_message is None
    }
    &&& v.stored_result is Some ==> v.stored_exception is None && !v.finished_cancelled
    &&& v.stored_exception is Some ==> !v.finished_cancelled
}

/// The terminal transition: record the outcome, leave the asyncio
/// registry, hand out the done callbacks. A finished task does not change.
pub open spec fn finish_view<P>(v: TaskView<P>, completion: Completion<P>) -> TaskView<P> {
    if v.finished {
        v
    } else {
        TaskView {
            finished: true,
            waiting_on: None,
            deferred_throw: None,
            registered_with_asyncio: false,
            done_callbacks: Seq::empty(),
            stored_result: match completion {
                Completion::Returned(value) => Some(value),
                _ => v.stored_result,
            },
            stored_exception: match completion {
                Completion::Raised(exception) => Some(exception),
                _ => v.stored_exception,
            },
            finished_cancelled: completion is Cancelled || v.finished_cancelled,
            cancelled_message: match completion {
                Completion::Cancelled(message) => message,
                _ => v.cancelled_message,
            },
            ..v
        }
    }
}

/// The start of a scheduler turn: a wake of a finished task is spurious;
/// otherwise the task is no longer parked, and the pending cancellation,
/// its message and any deferred throw are taken for this turn.
pub open spec fn wake_view<P>(v: TaskView<P>) -> TaskView<P> {
    if v.finished {
        v
    } else {
        TaskView { waiting_on: None, must_cancel: false, cancel_message: None, deferred_throw: None, ..v }
    }
}

/// A cancellation request: counted, with its message kept; a finished task
/// does not change.
pub open spec fn cancel_view<P>(v: TaskView<P>, message: Option<P>) -> TaskView<P> {
    if v.finished {
        v
    } else {
        TaskView { cancel_requests: (v.cancel_requests + 1) as u32, cancel_message: message, ..v }
    }
}

/// A cancellation that no awaited future absorbed: the next step throws.
pub open spec fn cancel_unabsorbed_view<P>(v: TaskView<P>) -> TaskView<P> {
    if v.finished {
        v
    } else {
        TaskView { must_cancel: true, ..v }
    }
}

/// `uncancel`: one request fewer (never below zero); none left means no
/// cancellation is pending.
pub open spec fn uncancel_view<P>(v: TaskView<P>) -> TaskView<P> {
    let count: u32 = if v.cancel_requests == 0 { 0 } else { (v.cancel_requests - 1) as u32 };
    TaskView { cancel_requests: count, must_cancel: if count == 0 { false } else { v.must_cancel }, ..v }
}

/// Adds a done callback: kept by an unfinished task; a finished task does
/// not change (the callback is scheduled at once).
pub open spec fn add_callback_view<P>(v: TaskView<P>, callback: (P, P)) -> TaskView<P> {
    if v.finished {
        v
    } else {
        TaskView { done_callbacks: v.done_callbacks.push(callback), ..v }
    }
}

/// The done callbacks a finish hands out: all the kept ones, the first
/// time; nothing afterwards.
pub open spec fn finish_handout<P>(v: TaskView<P>) -> Option<Seq<(P, P)>> {
    if v.finished {
        None
    } else {
        Some(v.done_callbacks)
    }
}

/// What a scheduler turn takes from the task.
pub struct WakeStart<P> {
    /// A cancellation is pending.
    pub must_cancel: bool,
    pub cancel_message: Option<P>,
    /// A protocol error to throw into the coroutine.
    pub deferred_throw: Option<P>,
    /// The coroutine has not been built yet: this is the first step.
    pub needs_start: bool,
}

/// How the request has ended, for the Future-protocol accessors.
pub enum TaskOutcome<'a, P> {
    /// Still running.
    Pending,
    /// Cancelled, with the cancellation message if any.
    Cancelled(Option<&'a P>),
    /// The handler raised this exception.
    Raised(&'a P),
    /// The handler returned this value (`None` for an aborted task).
    Returned(Option<&'a P>),
}

/// The outcome a task's state shows.
pub open spec fn outcome_view<'a, P>(v: TaskView<P>, outcome: TaskOutcome<'a, P>) -> bool {
    if !v.finished {
        outcome is Pending
    } else if v.finished_cancelled {
        match outcome {
            TaskOutcome::Cancelled(m) => match (m, v.cancelled_message) {
                (Some(a), Some(b)) => *a == b,
                (None, None) => true,
                _ => false,
            },
            _ => false,
        }
    } else if v.stored_exception is Some {
        outcome matches TaskOutcome::Raised(e) && *e == v.stored_exception->0
    } else {
        match outcome {
            TaskOutcome::Returned(r) => match (r, v.stored_result) {
                (Some(a), Some(b)) => *a == b,
                (None, None) => true,
                _ => false,
            },
            _ => false,
        }
    }
}

/// The mutable half of a handler task.
pub struct TaskState<P> {
    coroutine: Option<P>,
    context: Option<P>,
    waiting_on: Option<P>,
    deferred_throw: Option<P>,
    must_cancel: bool,
    cancel_message: Option<P>,
    cancel_requests: u32,
    registered_with_asyncio: bool,
    name: Option<P>,
    done_callbacks: Vec<(P, P)>,
    finished: bool,
    finished_cancelled: bool,
    cancelled_message: Option<P>,
    stored_result: Option<P>,
    stored_exception: Option<P>,
}

impl<P> View for TaskState<P> {
    type V = TaskView<P>;

    open spec fn view(&self) -> TaskView<P> {
        self.model()
    }
}

impl<P> TaskState<P> {
    /// The abstract state.
    pub closed spec fn model(&self) -> TaskView<P> {
        TaskView {
            coroutine: self.coroutine,
            context: self.context,
            waiting_on: self.waiting_on,
            deferred_throw: self.deferred_throw,
            must_cancel: self.must_cancel,
            cancel_message: self.cancel_message,
            cancel_requests: self.cancel_requests,
            registered_with_asyncio: self.registered_with_asyncio,
            name: self.name,
            done_callbacks: self.done_callbacks@,
            finished: self.finished,
            finished_cancelled: self.finished_cancelled,
            cancelled_message: self.cancelled_message,
            stored_result: self.stored_result,
            stored_exception: self.stored_exception,
        }
    }

    /// A task that has not run yet.
    pub fn new() -> (state: Self)
        ensures
            state@ == initial_view::<P>(),
    {
        TaskState {
            coroutine: None,
            context: None,
            waiting_on: None,
            deferred_throw: None,
            must_cancel: false,
            cancel_message: None,
            cancel_requests: 0,
            registered_with_asyncio: false,
            name: None,
            done_callbacks: Vec::new(),
            finished: false,
            finished_cancelled: false,
            cancelled_message: None,
            stored_result: None,
            stored_exception: None,
        }
    }

    /// Terminal bookkeeping, exactly once: records the outcome for the
    /// Future-protocol accessors and hands out whether the task was
    /// registered with asyncio and its done callbacks, which the caller
    /// unregisters and fires. `None` if the task had already finished.
    pub fn finish(&mut self, completion: Completion<P>) -> (handed_out: Option<(bool, Vec<(P, P)>)>)
        ensures
            final(self)@ == finish_view(old(self)@, completion),
            handed_out is Some <==> finish_handout(old(self)@) is Some,
            handed_out matches Some((registered, callbacks)) ==> registered
                == old(self)@.registered_with_asyncio && Some(callbacks@) == finish_handout(old(self)@),
    {
        if self.finished {
            return None;
        }
        self.finished = true;
        self.waiting_on = None;
        self.deferred_throw = None;
        match completion {
            Completion::Returned(value) => {
                self.stored_result = Some(value);
            },
            Completion::Raised(exception) => {
                self.stored_exception = Some(exception);
            },
            Completion::Cancelled(message) => {
                self.finished_cancelled = true;
                self.cancelled_message = message;
            },
            Completion::Aborted => {},
        }
        let registered = self.registered_with_asyncio;
        self.registered_with_asyncio = false;
        let mut callbacks: Vec<(P, P)> = Vec::new();
        std::mem::swap(&mut callbacks, &mut self.done_callbacks);
        Some((registered, callbacks))
    }

    /// The start of a scheduler turn (`None` for a spurious wake of a
    /// finished task).
    pub fn begin_wake(&mut self) -> (start: Option<WakeStart<P>>)
        ensures
            final(self)@ == wake_view(old(self)@),
            old(self)@.finished <==> start is None,
            start matches Some(s) ==> {
                &&& s.must_cancel == old(self)@.must_cancel
                &&& s.cancel_message == old(self)@.cancel_message
                &&& s.deferred_throw == old(self)@.deferred_throw
                &&& s.needs_start == (old(self)@.coroutine is None)
            },
    {
        if self.finished {
            return None;
        }
        self.waiting_on = None;
        let must_cancel = self.must_cancel;
        self.must_cancel = false;
        let cancel_message = self.cancel_message.take();
        let deferred_throw = self.deferred_throw.take();
        let needs_start = self.coroutine.is_none();
        Some(WakeStart { must_cancel, cancel_message, deferred_throw, needs_start })
    }

    /// Keeps the coroutine and per-request context built at the first step.
    pub fn record_start(&mut self, coroutine: P, context: P)
        ensures
            final(self)@ == (TaskView { coroutine: Some(coroutine), context: Some(context), ..old(self)@ }),
    {
        self.coroutine = Some(coroutine);
        self.context = Some(context);
    }

    /// Notes that the task is registered with asyncio (visible in
    /// `asyncio.all_tasks()`).
    pub fn mark_registered(&mut self)
        ensures
            final(self)@ == (TaskView { registered_with_asyncio: true, ..old(self)@ }),
    {
        self.registered_with_asyncio = true;
    }

    /// The coroutine and context to step, once both exist.
    pub fn running_parts(&self) -> (parts: Option<(&P, &P)>)
        ensures
            parts matches Some((c, x)) ==> self@.coroutine == Some(*c) && self@.context == Some(*x),
            parts is None ==> self@.coroutine is None || self@.context is None,
    {
        match (&self.coroutine, &self.context) {
            (Some(coroutine), Some(context)) => Some((coroutine, context)),
            _ => None,
        }
    }

    /// The coroutine, once built.
    pub fn coroutine(&self) -> (coroutine: Option<&P>)
        ensures
            coroutine matches Some(c) ==> self@.coroutine == Some(*c),
            coroutine is None ==> self@.coroutine is None,
    {
        self.coroutine.as_ref()
    }

    /// The per-request context, once built.
    pub fn context(&self) -> (context: Option<&P>)
        ensures
            context matches Some(c) ==> self@.context == Some(*c),
            context is None ==> self@.context is None,
    {
        self.context.as_ref()
    }

    /// The future the coroutine is suspended on.
    pub fn waiting_on(&self) -> (future: Option<&P>)
        ensures
            future matches Some(f) ==> self@.waiting_on == Some(*f),
            future is None ==> self@.waiting_on is None,
    {
        self.waiting_on.as_ref()
    }

    /// The protocol error kept for the next step.
    pub fn deferred_throw(&self) -> (held: Option<&P>)
        ensures
            held matches Some(x) ==> self@.deferred_throw == Some(*x),
            held is None ==> self@.deferred_throw is None,
    {
        self.deferred_throw.as_ref()
    }

    /// The message of the last cancellation request.
    pub fn cancel_message(&self) -> (held: Option<&P>)
        ensures
            held matches Some(x) ==> self@.cancel_message == Some(*x),
            held is None ==> self@.cancel_message is None,
    {
        self.cancel_message.as_ref()
    }

    /// The message the task was cancelled with.
    pub fn cancelled_message(&self) -> (held: Option<&P>)
        ensures
            held matches Some(x) ==> self@.cancelled_message == Some(*x),
            held is None ==> self@.cancelled_message is None,
    {
        self.cancelled_message.as_ref()
    }

    /// The handler's return value, once it returned.
    pub fn stored_result(&self) -> (held: Option<&P>)
        ensures
            held matches Some(x) ==> self@.stored_result == Some(*x),
            held is None ==> self@.stored_result is None,
    {
        self.stored_result.as_ref()
    }

    /// The exception the handler raised, once it raised.
    pub fn stored_exception(&self) -> (held: Option<&P>)
        ensures
            held matches Some(x) ==> self@.stored_exception == Some(*x),
            held is None ==> self@.stored_exception is None,
    {
        self.stored_exception.as_ref()
    }

    /// Parks the coroutine on `future`.
    pub fn park(&mut self, future: P)
        ensures
            final(self)@ == (TaskView { waiting_on: Some(future), ..old(self)@ }),
    {
        self.waiting_on = Some(future);
    }

    /// Forgets the awaited future (its done callback could not be set).
    pub fn unpark(&mut self)
        ensures
            final(self)@ == (TaskView { waiting_on: None, ..old(self)@ }),
    {
        self.waiting_on = None;
    }

    /// Keeps a protocol error to throw into the coroutine at the next step.
    pub fn defer_throw(&mut self, exception: P)
        ensures
            final(self)@ == (TaskView { deferred_throw: Some(exception), ..old(self)@ }),
    {
        self.deferred_throw = Some(exception);
    }

    /// Task-protocol `cancel`, first half: counts the request and keeps its
    /// message. `false` if the task has finished (nothing changes); the
    /// caller then offers the cancellation to the awaited future.
    pub fn request_cancel(&mut self, message: Option<P>) -> (accepted: bool)
        requires
            !old(self)@.finished ==> old(self)@.cancel_requests < u32::MAX,
        ensures
            final(self)@ == cancel_view(old(self)@, message),
            accepted == !old(self)@.finished,
    {
        if self.finished {
            return false;
        }
        self.cancel_requests = self.cancel_requests + 1;
        self.cancel_message = message;
        true
    }

    /// Task-protocol `cancel`, second half, when no awaited future absorbed
    /// the cancellation: the next step throws `CancelledError` instead of
    /// sending. `false` if the task finished meanwhile.
    pub fn cancel_unabsorbed(&mut self) -> (accepted: bool)
        ensures
            final(self)@ == cancel_unabsorbed_view(old(self)@),
            accepted == !old(self)@.finished,
    {
        if self.finished {
            return false;
        }
        self.must_cancel = true;
        true
    }

    /// A cancellation requested while the coroutine was mid-step found no
    /// parked future: the future the step just parked on, and the message,
    /// to re-apply it to.
    pub fn cancel_after_park(&self) -> (target: Option<(&P, Option<&P>)>)
        ensures
            target is Some <==> self@.must_cancel && self@.waiting_on is Some,
            target matches Some((f, m)) ==> (self@.waiting_on == Some(*f) && match (m, self@.cancel_message) {
                (Some(a), Some(b)) => *a == b,
                (None, None) => true,
                _ => false,
            }),
    {
        if self.must_cancel {
            match &self.waiting_on {
                Some(future) => Some((future, self.cancel_message.as_ref())),
                None => None,
            }
        } else {
            None
        }
    }

    /// The parked future absorbed the pending cancellation: it delivers the
    /// `CancelledError` through the normal wake path.
    pub fn cancel_absorbed(&mut self)
        ensures
            final(self)@ == (TaskView { must_cancel: false, ..old(self)@ }),
    {
        self.must_cancel = false;
    }

    /// Task-protocol `uncancel`: the count of requests left.
    pub fn uncancel(&mut self) -> (left: u32)
        ensures
            final(self)@ == uncancel_view(old(self)@),
            left == final(self)@.cancel_requests,
    {
        self.cancel_requests = if self.cancel_requests == 0 { 0 } else { self.cancel_requests - 1 };
        if self.cancel_requests == 0 {
            self.must_cancel = false;
        }
        self.cancel_requests
    }

    /// Task-protocol `cancelling`.
    pub fn cancelling(&self) -> (count: u32)
        ensures
            count == self@.cancel_requests,
    {
        self.cancel_requests
    }

    /// Future-protocol `done`.
    pub fn done(&self) -> (done: bool)
        ensures
            done == self@.finished,
    {
        self.finished
    }

    /// Future-protocol `cancelled`.
    pub fn cancelled(&self) -> (cancelled: bool)
        ensures
            cancelled == (self@.finished && self@.finished_cancelled),
    {
        self.finished && self.finished_cancelled
    }

    /// How the request has ended, for `result()` and `exception()`.
    pub fn outcome(&self) -> (outcome: TaskOutcome<'_, P>)
        ensures
            outcome_view(self@, outcome),
    {
        if !self.finished {
            TaskOutcome::Pending
        } else if self.finished_cancelled {
            TaskOutcome::Cancelled(self.cancelled_message.as_ref())
        } else {
            match &self.stored_exception {
                Some(exception) => TaskOutcome::Raised(exception),
                None => TaskOutcome::Returned(self.stored_result.as_ref()),
            }
        }
    }

    /// The task's name, if one was set.
    pub fn name(&self) -> (name: Option<&P>)
        ensures
            name matches Some(n) ==> self@.name == Some(*n),
            name is None ==> self@.name is None,
    {
        self.name.as_ref()
    }

    /// Task-protocol `set_name`.
    pub fn set_name(&mut self, name: P)
        ensures
            final(self)@ == (TaskView { name: Some(name), ..old(self)@ }),
    {
        self.name = Some(name);
    }

    /// Future-protocol `add_done_callback`: kept until the task finishes;
    /// handed back to be scheduled at once if it already has.
    pub fn add_done_callback(&mut self, callback: P, context: P) -> (fire_now: Option<(P, P)>)
        ensures
            final(self)@ == add_callback_view(old(self)@, (callback, context)),
            old(self)@.finished <==> fire_now is Some,
            fire_now matches Some(c) ==> c == (callback, context),
    {
        if self.finished {
            return Some((callback, context));
        }
        self.done_callbacks.push((callback, context));
        None
    }

    /// The number of done callbacks kept.
    pub fn done_callback_count(&self) -> (count: usize)
        ensures
            count == self@.done_callbacks.len(),
    {
        self.done_callbacks.len()
    }

    /// The kept done callbacks, in the order they were added.
    pub fn done_callbacks(&self) -> (callbacks: &Vec<(P, P)>)
        ensures
            callbacks@ == self@.done_callbacks,
    {
        &self.done_callbacks
    }

    /// Future-protocol `remove_done_callback`: removes every kept callback
    /// that `matching` marks (one mark per kept callback, in order), keeps
    /// the others in order, and counts the removed ones.
    pub fn remove_done_callbacks(&mut self, matching: &Vec<bool>) -> (removed: usize)
        requires
            matching@.len() == old(self)@.done_callbacks.len(),
        ensures
            final(self)@ == (TaskView {
                done_callbacks: kept_callbacks(old(self)@.done_callbacks, matching@),
                ..old(self)@
            }),
            removed == old(self)@.done_callbacks.len() - final(self)@.done_callbacks.len(),
    {
        let mut callbacks: Vec<(P, P)> = Vec::new();
        std::mem::swap(&mut callbacks, &mut self.done_callbacks);
        let ghost all = callbacks@;
        let n = callbacks.len();
        let mut kept: Vec<(P, P)> = Vec::new();
        let mut rest: Vec<(P, P)> = Vec::new();
        // Take the callbacks from the back, so each one is moved out once.
        let mut i: usize = n;
        while i > 0
            invariant
                n == all.len(),
                n == matching@.len(),
                i <= n,
                callbacks@ == all.take(i as int),
                rest@ == kept_callbacks(all.skip(i as int), matching@.skip(i as int)).reverse(),
            decreases i,
        {
            let callback = callbacks.pop().unwrap();
            i = i - 1;
            proof {
                assert(all.take(i + 1).last() == all[i as int]);
                assert(all.take(i + 1).drop_last() =~= all.take(i as int));
                assert(all.skip(i as int).drop_first() =~= all.skip(i + 1));
                assert(matching@.skip(i as int).drop_first() =~= matching@.skip(i + 1));
            }
            if !matching[i] {
                rest.push(callback);
                proof {
                    assert(rest@ =~= kept_callbacks(all.skip(i as int), matching@.skip(i as int)).reverse());
                }
            }
        }
        assert(all.skip(0) =~= all);
        assert(matching@.skip(0) =~= matching@);
        let m = rest.len();
        while rest.len() > 0
            invariant
                m == kept_callbacks(all, matching@).len(),
                rest@.len() <= m,
                kept@ + rest@.reverse() == kept_callbacks(all, matching@),
            decreases rest.len(),
        {
            let ghost before = rest@;
            let callback = rest.pop().unwrap();
            kept.push(callback);
            proof {
                assert(before.reverse() =~= seq![before.last()] + rest@.reverse());
            }
        }
        assert(kept@ =~= kept_callbacks(all, matching@));
        proof {
            lemma_kept_len(all, matching@);
        }
        let removed = n - kept.len();
        self.done_callbacks = kept;
        removed
    }
}

/// The callbacks whose mark is `false`, in order.
pub open spec fn kept_callbacks<P>(callbacks: Seq<(P, P)>, matching: Seq<bool>) -> Seq<(P, P)>
    decreases callbacks.len(),
{
    if callbacks.len() == 0 {
        Seq::empty()
    } else if matching.len() > 0 && matching[0] {
        kept_callbacks(callbacks.drop_first(), matching.drop_first())
    } else {
        seq![callbacks[0]] + kept_callbacks(callbacks.drop_first(), matching.drop_first())
    }
}

proof fn lemma_kept_len<P>(callbacks: Seq<(P, P)>, matching: Seq<bool>)
    ensures
        kept_callbacks(callbacks, matching).len() <= callbacks.len(),
    decreases callbacks.len(),
{
    if callbacks.len() > 0 {
        lemma_kept_len(callbacks.drop_first(), matching.drop_first());
    }
}

/// How a scheduler turn proceeds once it has taken its work.
#[derive(PartialEq, Eq, Structural, Debug)]
pub enum WakeMove {
    /// Cancelled before the first step: the coroutine is never built, so
    /// the task finishes as cancelled with nothing to unwind.
    CancelBeforeStart,
    /// First step: build the coroutine and context, then step.
    StartThenStep,
    /// Step the coroutine that exists.
    Step,
}

/// The move of a turn, from what it took (`WakeStart`).
pub open spec fn wake_move_spec(needs_start: bool, must_cancel: bool) -> WakeMove {
    if needs_start && must_cancel {
        WakeMove::CancelBeforeStart
    } else if needs_start {
        WakeMove::StartThenStep
    } else {
        WakeMove::Step
    }
}

/// Decides how a turn proceeds.
pub fn wake_move(needs_start: bool, must_cancel: bool) -> (next: WakeMove)
    ensures
        next == wake_move_spec(needs_start, must_cancel),
{
    if needs_start && must_cancel {
        WakeMove::CancelBeforeStart
    } else if needs_start {
        WakeMove::StartThenStep
    } else {
        WakeMove::Step
    }
}

/// What one advance of the coroutine produced.
pub enum StepResult {
    /// The coroutine returned.
    Returned,
    /// The coroutine raised `CancelledError`.
    RaisedCancellation,
    /// The coroutine raised any other exception.
    Raised,
    /// A bare `yield` (e.g. `asyncio.sleep(0)`).
    YieldedNothing,
    /// The coroutine yielded an object, to be awaited.
    YieldedObject,
}

/// What the scheduler does with a step's result.
#[derive(PartialEq, Eq, Structural, Debug)]
pub enum StepAction {
    /// Finish with the handler's return value as the response.
    FinishReturned,
    /// Finish as cancelled, quietly (the client is gone or a timeout
    /// already surfaced the outcome); the response is the opaque 500.
    FinishCancelled,
    /// Finish with the exception logged; the response is the opaque 500.
    FinishRaised,
    /// Take one trip through the event loop, then resume.
    Reschedule,
    /// Park the coroutine on the yielded object.
    Park,
}

/// The action for each step result.
pub open spec fn step_action_spec(result: StepResult) -> StepAction {
    match result {
        StepResult::Returned => StepAction::FinishReturned,
        StepResult::RaisedCancellation => StepAction::FinishCancelled,
        StepResult::Raised => StepAction::FinishRaised,
        StepResult::YieldedNothing => StepAction::Reschedule,
        StepResult::YieldedObject => StepAction::Park,
    }
}

/// Disposes of one step's result: finish on return or raise, reschedule on
/// a bare yield, park on a yielded object.
pub fn step_action(result: StepResult) -> (action: StepAction)
    ensures
        action == step_action_spec(result),
{
    match result {
        StepResult::Returned => StepAction::FinishReturned,
        StepResult::RaisedCancellation => StepAction::FinishCancelled,
        StepResult::Raised => StepAction::FinishRaised,
        StepResult::YieldedNothing => StepAction::Reschedule,
        StepResult::YieldedObject => StepAction::Park,
    }
}

/// Whether a yielded object may be parked on, by the future protocol.
#[derive(PartialEq, Eq, Structural, Debug)]
pub enum ParkCheck {
    /// It has no `_asyncio_future_blocking` attribute: not a future.
    NotAFuture,
    /// Its blocking flag is not set: `yield` was used where `await` was
    /// expected.
    YieldInsteadOfAwait,
    /// It belongs to another event loop.
    ForeignLoop,
    /// It may be parked on.
    Proceed,
}

/// The protocol check, as `asyncio.Task` makes it: the blocking attribute
/// must exist and be set, and the future's loop, when it can be asked, must
/// be the task's.
pub open spec fn park_check_spec(has_blocking_flag: bool, flag_set: bool, same_loop: Option<bool>) -> ParkCheck {
    if !has_blocking_flag {
        ParkCheck::NotAFuture
    } else if !flag_set {
        ParkCheck::YieldInsteadOfAwait
    } else if same_loop == Some(false) {
        ParkCheck::ForeignLoop
    } else {
        ParkCheck::Proceed
    }
}

/// Checks a yielded object against the future protocol. `same_loop` is
/// `None` when the object's `get_loop()` could not be called.
pub fn park_check(has_blocking_flag: bool, flag_set: bool, same_loop: Option<bool>) -> (check: ParkCheck)
    ensures
        check == park_check_spec(has_blocking_flag, flag_set, same_loop),
{
    if !has_blocking_flag {
        ParkCheck::NotAFuture
    } else if !flag_set {
        ParkCheck::YieldInsteadOfAwait
    } else {
        match same_loop {
            Some(false) => ParkCheck::ForeignLoop,
            _ => ParkCheck::Proceed,
        }
    }
}

/// The text of the `RuntimeError` delivered into a coroutine that broke
/// the future protocol.
pub open spec fn protocol_error_text(check: ParkCheck, yielded_type: Seq<char>) -> Seq<char> {
    match check {
        ParkCheck::NotAFuture => "handler awaited an object Rayo's scheduler does not understand (type "@
            + yielded_type + "); only asyncio futures and things built on them can be awaited"@,
        ParkCheck::YieldInsteadOfAwait =>
            "handler coroutine used `yield` where `await` was expected (a future was passed through without its blocking flag set)"@,
        ParkCheck::ForeignLoop =>
            "handler awaited a future attached to a different event loop; Rayo runs one event loop per core, so loop-bound objects (futures, locks, queues) created on one loop cannot be awaited from a request running on another \u{2014} create them inside the handler, or pin them to a single loop"@,
        ParkCheck::Proceed => Seq::empty(),
    }
}

/// The message for a failed protocol check; `yielded_type` names the type of
/// the yielded object.
pub fn protocol_error_message(check: ParkCheck, yielded_type: &str) -> (text: String)
    ensures
        text@ == protocol_error_text(check, yielded_type@),
{
    let mut text = String::new();
    match check {
        ParkCheck::NotAFuture => {
            text.append("handler awaited an object Rayo's scheduler does not understand (type ");
            text.append(yielded_type);
            text.append("); only asyncio futures and things built on them can be awaited");
        },
        ParkCheck::YieldInsteadOfAwait => {
            text.append(
                "handler coroutine used `yield` where `await` was expected (a future was passed through without its blocking flag set)",
            );
        },
        ParkCheck::ForeignLoop => {
            text.append(
                "handler awaited a future attached to a different event loop; Rayo runs one event loop per core, so loop-bound objects (futures, locks, queues) created on one loop cannot be awaited from a request running on another \u{2014} create them inside the handler, or pin them to a single loop",
            );
        },
        ParkCheck::Proceed => {},
    }
    text
}

/// What to deliver into the coroutine at a step.
pub enum ThrowPlan<P> {
    /// Send `None`.
    Send,
    /// Throw this exception.
    Throw(P),
    /// Throw a new `CancelledError` with this message.
    ThrowCancellation(Option<P>),
}

/// The exception a step delivers: the error of the future that woke the
/// task overrides a deferred protocol error; a pending cancellation
/// overrides both unless what would be thrown is already a cancellation.
pub open spec fn throw_plan_spec<P>(
    deferred: Option<P>,
    wake_error: Option<P>,
    must_cancel: bool,
    pending_is_cancellation: bool,
    cancel_message: Option<P>,
) -> ThrowPlan<P> {
    let pending = if wake_error is Some { wake_error } else { deferred };
    if must_cancel && !(pending is Some && pending_is_cancellation) {
        ThrowPlan::ThrowCancellation(cancel_message)
    } else {
        match pending {
            Some(e) => ThrowPlan::Throw(e),
            None => ThrowPlan::Send,
        }
    }
}

/// The exception that would be thrown before cancellation is considered:
/// the waking future's error, else the deferred protocol error.
pub fn pending_throw<P>(deferred: Option<P>, wake_error: Option<P>) -> (pending: Option<P>)
    ensures
        pending == (if wake_error is Some { wake_error } else { deferred }),
{
    match wake_error {
        Some(e) => Some(e),
        None => deferred,
    }
}

/// Decides what a step delivers. `pending_is_cancellation` tells whether
/// `pending` is a `CancelledError`.
pub fn throw_plan<P>(
    pending: Option<P>,
    must_cancel: bool,
    pending_is_cancellation: bool,
    cancel_message: Option<P>,
) -> (plan: ThrowPlan<P>)
    ensures
        plan == throw_plan_spec(None, pending, must_cancel, pending_is_cancellation, cancel_message),
{
    if must_cancel && !(pending.is_some() && pending_is_cancellation) {
        ThrowPlan::ThrowCancellation(cancel_message)
    } else {
        match pending {
            Some(e) => ThrowPlan::Throw(e),
            None => ThrowPlan::Send,
        }
    }
}

/// A finished task is final: finishing again, waking, cancelling and adding
/// callbacks change nothing, and it hands out no more callbacks.
pub proof fn finished_task_is_final<P>(v: TaskView<P>, completion: Completion<P>, message: Option<P>, callback: (P, P))
    requires
        v.finished,
    ensures
        finish_view(v, completion) == v,
        wake_view(v) == v,
        cancel_view(v, message) == v,
        cancel_unabsorbed_view(v) == v,
        add_callback_view(v, callback) == v,
        finish_handout(v) is None,
{
}

/// A request finishes once: after the first finish, a second changes
/// nothing, so the outcome the first recorded is the one reported.
pub proof fn finish_happens_once<P>(v: TaskView<P>, first: Completion<P>, second: Completion<P>)
    requires
        view_wf(v),
        !v.finished,
    ensures
        finish_view(v, first).finished,
        finish_view(finish_view(v, first), second) == finish_view(v, first),
        finish_handout(finish_view(v, first)) is None,
        finish_view(v, first).finished_cancelled == (first is Cancelled),
{
}

/// A task's handler is started at most once: a turn starts it only while
/// no coroutine is recorded, and once a coroutine and its context are
/// recorded every transition keeps both, so every later turn steps that
/// same coroutine, cancelled or not. A turn on a task never started and
/// not cancelled starts it.
pub proof fn handler_started_at_most_once<P>(
    v: TaskView<P>,
    completion: Completion<P>,
    message: Option<P>,
    callback: (P, P),
    must_cancel: bool,
)
    requires
        v.coroutine is Some,
        v.context is Some,
    ensures
        wake_view(v).coroutine == v.coroutine && wake_view(v).context == v.context,
        finish_view(v, completion).coroutine == v.coroutine && finish_view(v, completion).context == v.context,
        cancel_view(v, message).coroutine == v.coroutine && cancel_view(v, message).context == v.context,
        cancel_unabsorbed_view(v).coroutine == v.coroutine && cancel_unabsorbed_view(v).context == v.context,
        uncancel_view(v).coroutine == v.coroutine && uncancel_view(v).context == v.context,
        add_callback_view(v, callback).coroutine == v.coroutine && add_callback_view(v, callback).context
            == v.context,
        wake_move_spec(v.coroutine is None, must_cancel) == WakeMove::Step,
        wake_move_spec(true, false) == WakeMove::StartThenStep,
{
}

/// Every state the transitions reach is well formed: a cancelled task is
/// finished, and a finished task keeps no done callback.
pub proof fn transitions_keep_wf<P>(v: TaskView<P>, completion: Completion<P>, message: Option<P>, callback: (P, P))
    requires
        view_wf(v),
    ensures
        view_wf(initial_view::<P>()),
        view_wf(finish_view(v, completion)),
        view_wf(wake_view(v)),
        view_wf(cancel_view(v, message)),
        view_wf(cancel_unabsorbed_view(v)),
        view_wf(uncancel_view(v)),
        view_wf(add_callback_view(v, callback)),
{
}

/// A task that finished by returning reports its value and no exception;
/// one that finished by raising reports that exception; one that was
/// cancelled reports the cancellation.
pub proof fn outcome_is_the_completion<P>(v: TaskView<P>, completion: Completion<P>)
    requires
        view_wf(v),
        !v.finished,
    ensures
        ({
            let done = finish_view(v, completion);
            match completion {
                Completion::Returned(value) => done.stored_result == Some(value) && done.stored_exception is None
                    && !done.finished_cancelled,
                Completion::Raised(exception) => done.stored_exception == Some(exception) && done.stored_result is None
                    && !done.finished_cancelled,
                Completion::Cancelled(message) => done.finished_cancelled && done.cancelled_message == message
                    && done.stored_result is None && done.stored_exception is None,
                Completion::Aborted => !done.finished_cancelled && done.stored_result is None
                    && done.stored_exception is None,
            }
        }),
{
}

/// What the Future protocol answers for a task (`TaskState::outcome`): a
/// running task is pending; a finished, cancelled task reports a
/// cancellation, with its message when it has one and without one when it
/// has none; a finished task that was not cancelled reports its exception
/// if it raised, else its return value (nothing for an aborted task).
pub proof fn outcome_answers_the_future_protocol<'a, P>(v: TaskView<P>, outcome: TaskOutcome<'a, P>)
    requires
        outcome_view(v, outcome),
    ensures
        outcome is Pending <==> !v.finished,
        outcome is Cancelled <==> v.finished && v.finished_cancelled,
        outcome matches TaskOutcome::Cancelled(m) ==> (m is None <==> v.cancelled_message is None) && (
        m matches Some(a) ==> v.cancelled_message == Some(*a)),
        outcome is Raised <==> v.finished && !v.finished_cancelled && v.stored_exception is Some,
        outcome matches TaskOutcome::Raised(e) ==> v.stored_exception == Some(*e),
        outcome is Returned <==> v.finished && !v.finished_cancelled && v.stored_exception is None,
        outcome matches TaskOutcome::Returned(r) ==> (r is None <==> v.stored_result is None) && (
        r matches Some(a) ==> v.stored_result == Some(*a)),
{
}

/// Once a running task finishes, the Future protocol answers with that
/// completion: a cancellation carries the message it was finished with
/// (none if it had none), a raise its exception, a return its value, and
/// an abort returns nothing.
pub proof fn finished_task_answers_its_completion<'a, P>(
    v: TaskView<P>,
    completion: Completion<P>,
    outcome: TaskOutcome<'a, P>,
)
    requires
        view_wf(v),
        !v.finished,
        outcome_view(finish_view(v, completion), outcome),
    ensures
        match completion {
            Completion::Cancelled(message) => match outcome {
                TaskOutcome::Cancelled(m) => match (m, message) {
                    (Some(a), Some(b)) => *a == b,
                    (None, None) => true,
                    _ => false,
                },
                _ => false,
            },
            Completion::Raised(exception) => outcome matches TaskOutcome::Raised(e) && *e == exception,
            Completion::Returned(value) => outcome matches TaskOutcome::Returned(r) && r matches Some(a) && *a
                == value,
            Completion::Aborted => outcome matches TaskOutcome::Returned(r) && r is None,
        },
{
}

/// `uncancel` undoes `cancel`: the `cancelling()` count returns to what it
/// was.
pub proof fn uncancel_undoes_cancel<P>(v: TaskView<P>, message: Option<P>)
    requires
        !v.finished,
        v.cancel_requests < u32::MAX,
    ensures
        uncancel_view(cancel_view(v, message)).cancel_requests == v.cancel_requests,
        cancel_view(v, message).cancel_requests == v.cancel_requests + 1,
{
}

/// Once no cancellation request is left, no cancellation is pending.
pub proof fn no_requests_no_pending_cancellation<P>(v: TaskView<P>)
    ensures
        uncancel_view(v).cancel_requests == 0 ==> !uncancel_view(v).must_cancel,
{
}

/// Every done callback added before the task finishes is handed out by the
/// finish, after the ones added before it; one added afterwards is
/// scheduled at once and never kept.
pub proof fn callbacks_are_handed_out_once<P>(v: TaskView<P>, callback: (P, P), completion: Completion<P>)
    requires
        view_wf(v),
    ensures
        !v.finished ==> finish_handout(add_callback_view(v, callback)) == Some(v.done_callbacks.push(callback)),
        finish_handout(finish_view(add_callback_view(v, callback), completion)) is None,
        add_callback_view(finish_view(v, completion), callback).done_callbacks.len() == 0,
{
}

/// A cancellation that no future absorbed is delivered at the next turn: the
/// turn takes it, and the step throws a `CancelledError` with the request's
/// message unless a cancellation is already being thrown.
pub proof fn unabsorbed_cancel_reaches_next_step<P>(v: TaskView<P>, message: Option<P>, wake_error: Option<P>)
    requires
        !v.finished,
        v.cancel_requests < u32::MAX,
        wake_error is None,
        v.deferred_throw is None,
    ensures
        ({
            let cancelled = cancel_unabsorbed_view(cancel_view(v, message));
            &&& cancelled.must_cancel
            &&& cancelled.cancel_message == message
            &&& throw_plan_spec(cancelled.deferred_throw, wake_error, cancelled.must_cancel, false, cancelled.cancel_message)
                == ThrowPlan::<P>::ThrowCancellation(message)
            &&& !wake_view(cancelled).must_cancel
        }),
{
}

} // verus!
