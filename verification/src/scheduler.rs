//! Placement of requests on event loops and the in-flight accounting
//! around it: N event loops, requests to the least-loaded one, a request's
//! response delivered at most once.

use vstd::prelude::*;
use vstd::string::StringExecFns;
use crate::text::{decimal_text, push_decimal};

verus! {

/// The loop at position `k` of a scan of `n` loops that starts at
/// `scan_start`: loop `(scan_start + k) mod n`.
pub open spec fn scan_position(scan_start: int, k: int, n: int) -> int {
    let base = scan_start % n;
    if base + k < n { base + k } else { base + k - n }
}

/// Whether `chosen` is the loop the scan settles on: the first loop, in
/// scan order, whose load is the lowest of all.
pub open spec fn is_least_loaded_choice(loads: Seq<usize>, scan_start: int, chosen: int) -> bool {
    let n = loads.len() as int;
    &&& 0 <= chosen < n
    &&& forall|j: int| 0 <= j < n ==> loads[chosen] <= #[trigger] loads[j]
    &&& exists|k: int|
        0 <= k < n && #[trigger] scan_position(scan_start, k, n) == chosen && forall|i: int|
            0 <= i < k ==> loads[scan_position(scan_start, i, n)] > loads[chosen]
}

proof fn lemma_scan_covers(scan_start: int, n: int, j: int) -> (k: int)
    requires
        n > 0,
        scan_start >= 0,
        0 <= j < n,
    ensures
        0 <= k < n,
        scan_position(scan_start, k, n) == j,
{
    let base = scan_start % n;
    if j >= base {
        j - base
    } else {
        j + n - base
    }
}

/// Chooses the loop for a new request: the least-loaded one, by in-flight
/// count, scanning from a rotating offset so that ties spread instead of
/// piling onto loop 0; the scan stops early at an idle loop, which cannot
/// be beaten.
pub fn least_loaded(loads: &Vec<usize>, scan_start: usize) -> (chosen: usize)
    requires
        loads@.len() > 0,
    ensures
        is_least_loaded_choice(loads@, scan_start as int, chosen as int),
{
    let n = loads.len();
    let base = scan_start % n;
    let mut chosen = base;
    let mut lowest = loads[base];
    let ghost mut chosen_k: int = 0;
    assert(scan_position(scan_start as int, 0, n as int) == base);
    let mut k: usize = 1;
    while k < n
        invariant_except_break
            forall|i: int| 0 <= i < k ==> loads@[scan_position(scan_start as int, i, n as int)] >= lowest,
        invariant
            n == loads@.len(),
            n > 0,
            base == scan_start % n,
            1 <= k <= n,
            0 <= chosen_k < k,
            chosen as int == scan_position(scan_start as int, chosen_k, n as int),
            chosen < n,
            lowest == loads@[chosen as int],
            forall|i: int| 0 <= i < chosen_k ==> loads@[scan_position(scan_start as int, i, n as int)] > lowest,
        ensures
            lowest == 0 || forall|i: int| 0 <= i < n ==> loads@[scan_position(scan_start as int, i, n as int)] >= lowest,
        decreases n - k,
    {
        if lowest == 0 {
            break;
        }
        let candidate = if k < n - base { base + k } else { k - (n - base) };
        assert(candidate as int == scan_position(scan_start as int, k as int, n as int));
        let load = loads[candidate];
        if load < lowest {
            chosen = candidate;
            lowest = load;
            proof {
                chosen_k = k as int;
            }
        }
        k = k + 1;
    }
    assert forall|j: int| 0 <= j < n implies loads@[chosen as int] <= #[trigger] loads@[j] by {
        let kj = lemma_scan_covers(scan_start as int, n as int, j);
        assert(loads@[scan_position(scan_start as int, kj, n as int)] >= lowest);
    }
    assert(scan_position(scan_start as int, chosen_k, n as int) == chosen);
    chosen
}

/// The sum of the loads.
pub open spec fn total_load(loads: Seq<usize>) -> nat
    decreases loads.len(),
{
    if loads.len() == 0 {
        0
    } else {
        total_load(loads.drop_last()) + loads.last() as nat
    }
}

proof fn lemma_total_load_prefix(loads: Seq<usize>, k: int)
    requires
        0 <= k <= loads.len(),
    ensures
        total_load(loads.take(k)) <= total_load(loads),
    decreases loads.len() - k,
{
    if k < loads.len() {
        lemma_total_load_prefix(loads, k + 1);
        assert(loads.take(k + 1).drop_last() =~= loads.take(k));
    } else {
        assert(loads.take(k) =~= loads);
    }
}

/// Requests scheduled and not yet completed, across all loops.
pub fn total_in_flight(loads: &Vec<usize>) -> (total: usize)
    requires
        total_load(loads@) <= usize::MAX,
    ensures
        total == total_load(loads@),
{
    let n = loads.len();
    let mut total: usize = 0;
    let mut i: usize = 0;
    while i < n
        invariant
            n == loads@.len(),
            i <= n,
            total == total_load(loads@.take(i as int)),
            total_load(loads@) <= usize::MAX,
        decreases n - i,
    {
        proof {
            assert(loads@.take(i + 1).drop_last() =~= loads@.take(i as int));
            lemma_total_load_prefix(loads@, i + 1);
        }
        total = total + loads[i];
        i = i + 1;
    }
    assert(loads@.take(n as int) =~= loads@);
    total
}

/// The message of a pool asked for no loop.
pub open spec fn empty_pool_text() -> Seq<char> {
    "loop_threads must be at least 1 (use None to let Rayo pick: one per core on free-threaded builds, one total on GIL builds)"@
}

/// A pool needs at least one loop: asking for none is a startup error,
/// reported at once and specifically.
pub fn check_pool_size(size: usize) -> (checked: Result<(), &'static str>)
    ensures
        checked is Ok <==> size > 0,
        checked matches Err(text) ==> text@ == empty_pool_text(),
{
    if size == 0 {
        Err(
            "loop_threads must be at least 1 (use None to let Rayo pick: one per core on free-threaded builds, one total on GIL builds)",
        )
    } else {
        Ok(())
    }
}

/// The name of the thread that runs loop `index`.
pub open spec fn loop_thread_text(index: nat) -> Seq<char> {
    "rayo-loop-"@ + decimal_text(index)
}

/// The name of the thread that runs loop `index`: `rayo-loop-<index>`.
pub fn loop_thread_name(index: usize) -> (name: String)
    ensures
        name@ == loop_thread_text(index as nat),
{
    let mut name = String::new();
    name.append("rayo-loop-");
    push_decimal(&mut name, index);
    name
}

/// The sending half of one request's response channel. The response is
/// sent at most once, whether by the task or, when the task goes away
/// without sending, by the channel's disposal: the first of them takes the
/// sender, and the owning loop's in-flight count goes down exactly then.
pub struct ResponseSlot<S> {
    sender: Option<S>,
}

impl<S> ResponseSlot<S> {
    /// The sender, while no response has been sent.
    pub closed spec fn pending(&self) -> Option<S> {
        self.sender
    }

    /// A slot holding the sender of a freshly scheduled request.
    pub fn new(sender: S) -> (slot: Self)
        ensures
            slot.pending() == Some(sender),
    {
        ResponseSlot { sender: Some(sender) }
    }

    /// Takes the sender, the first time only. The caller sends (or drops
    /// it) and decrements the in-flight count iff it got one.
    pub fn take(&mut self) -> (sender: Option<S>)
        ensures
            sender == old(self).pending(),
            final(self).pending() is None,
    {
        self.sender.take()
    }
}

/// How many of a loop's response slots still hold their sender, given
/// what each slot's `pending` is: the loop's requests scheduled and not
/// yet answered.
pub open spec fn pending_count<S>(pending: Seq<Option<S>>) -> nat
    decreases pending.len(),
{
    if pending.len() == 0 {
        0
    } else {
        pending_count(pending.drop_last()) + if pending.last() is Some {
            1nat
        } else {
            0nat
        }
    }
}

/// The in-flight count of a loop is what its slots say: it starts at zero
/// with no slot, goes up by one with each scheduled request (a new slot,
/// `ResponseSlot::new`) and down by one when a slot's sender is taken for
/// the first time (`ResponseSlot::take` giving `Some`); a second take
/// changes nothing. So it equals the requests scheduled minus those
/// answered, the slots still pending, and never exceeds the requests
/// scheduled.
pub proof fn in_flight_counts_pending_slots<S>(pending: Seq<Option<S>>, sender: S, j: int)
    requires
        0 <= j < pending.len(),
    ensures
        pending_count(Seq::<Option<S>>::empty()) == 0,
        pending_count(pending.push(Some(sender))) == pending_count(pending) + 1,
        pending_count(pending.update(j, None)) + (if pending[j] is Some {
            1int
        } else {
            0int
        }) == pending_count(pending),
        pending_count(pending) <= pending.len(),
    decreases pending.len(),
{
    assert(pending.push(Some(sender)).drop_last() =~= pending);
    lemma_pending_count_bound(pending);
    let updated = pending.update(j, None);
    if j == pending.len() - 1 {
        assert(updated.drop_last() =~= pending.drop_last());
    } else {
        assert(updated.drop_last() =~= pending.drop_last().update(j, None));
        in_flight_counts_pending_slots(pending.drop_last(), sender, j);
    }
}

proof fn lemma_pending_count_bound<S>(pending: Seq<Option<S>>)
    ensures
        pending_count(pending) <= pending.len(),
    decreases pending.len(),
{
    if pending.len() > 0 {
        lemma_pending_count_bound(pending.drop_last());
    }
}

} // verus!
