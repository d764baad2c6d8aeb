//! A whole readiness wait over a given sequence of check outcomes: the
//! mathematical model of the poll loop, a driver that runs the `Poller`
//! against the sequence, and the laws of the loop, proved of the model.

use vstd::prelude::*;
use crate::condition::ReadyCondition;
use crate::poller::{
    event_decisive, event_fatal, event_ready, CheckEvent, PollStatus, PollStep, Poller,
};

verus! {

/// The model of a bounded poll over `events`, where `events[k]` is what the
/// check comes back with on invocation `k + 1`: the terminal status and how
/// many invocations were made. The wait stops at the first decisive event,
/// or after `max` attempts.
pub open spec fn spec_poll(
    condition: ReadyCondition,
    fail_fast: bool,
    events: Seq<CheckEvent>,
    max: nat,
) -> (PollStatus, nat)
    recommends
        max >= 1,
        events.len() >= max,
    decreases max,
{
    if max == 0 {
        (PollStatus::TimedOut, 0)
    } else if event_ready(condition, events.first()) {
        (PollStatus::Ready, 1)
    } else if event_fatal(fail_fast, events.first()) {
        (PollStatus::Fatal, 1)
    } else if max == 1 {
        (PollStatus::TimedOut, 1)
    } else {
        let rest = spec_poll(condition, fail_fast, events.drop_first(), (max - 1) as nat);
        (rest.0, rest.1 + 1)
    }
}

/// Milliseconds spent waiting by a poll that made `invocations` attempts:
/// one interval between consecutive attempts, none after the last.
pub open spec fn total_wait_ms(invocations: int, interval_ms: int) -> int {
    (invocations - 1) * interval_ms
}

/// Skipping a non-decisive prefix of the events does not change the status,
/// and shortens the invocation count by the prefix's length.
pub proof fn lemma_poll_after_skip(
    condition: ReadyCondition,
    fail_fast: bool,
    events: Seq<CheckEvent>,
    max: nat,
    i: nat,
)
    requires
        i < max,
        max <= events.len(),
        forall|j: int| 0 <= j < i ==> !event_decisive(condition, fail_fast, events[j]),
    ensures
        spec_poll(condition, fail_fast, events, max).0 == spec_poll(
            condition,
            fail_fast,
            events.skip(i as int),
            (max - i) as nat,
        ).0,
        spec_poll(condition, fail_fast, events, max).1 == spec_poll(
            condition,
            fail_fast,
            events.skip(i as int),
            (max - i) as nat,
        ).1 + i,
    decreases i,
{
    if i == 0 {
        assert(events.skip(0) =~= events);
    } else {
        assert(!event_decisive(condition, fail_fast, events[0]));
        assert(forall|j: int|
            0 <= j < i - 1 ==> events.drop_first()[j] == events[j + 1]
                && !event_decisive(condition, fail_fast, events[j + 1]));
        lemma_poll_after_skip(
            condition,
            fail_fast,
            events.drop_first(),
            (max - 1) as nat,
            (i - 1) as nat,
        );
        assert(events.drop_first().skip(i - 1) =~= events.skip(i as int));
    }
}

/// A check that never comes back ready or fatal uses exactly the whole
/// budget: `max` invocations, and the wait times out.
pub proof fn lemma_never_ready_times_out(
    condition: ReadyCondition,
    fail_fast: bool,
    events: Seq<CheckEvent>,
    max: nat,
)
    requires
        max >= 1,
        max <= events.len(),
        forall|j: int| 0 <= j < max ==> !event_decisive(condition, fail_fast, events[j]),
    ensures
        spec_poll(condition, fail_fast, events, max) == (PollStatus::TimedOut, max),
    decreases max,
{
    assert(!event_decisive(condition, fail_fast, events[0]));
    if max > 1 {
        assert(forall|j: int|
            0 <= j < max - 1 ==> events.drop_first()[j] == events[j + 1] && !event_decisive(
                condition,
                fail_fast,
                events[j + 1],
            ));
        lemma_never_ready_times_out(condition, fail_fast, events.drop_first(), (max - 1) as nat);
    }
}

/// A check whose first decisive outcome is a ready one, on invocation
/// `k + 1 <= max`, ends the wait `Ready` after exactly `k + 1` invocations.
pub proof fn lemma_first_ready_wins(
    condition: ReadyCondition,
    fail_fast: bool,
    events: Seq<CheckEvent>,
    max: nat,
    k: nat,
)
    requires
        k < max,
        max <= events.len(),
        forall|j: int| 0 <= j < k ==> !event_decisive(condition, fail_fast, events[j]),
        event_ready(condition, events[k as int]),
    ensures
        spec_poll(condition, fail_fast, events, max) == (PollStatus::Ready, (k + 1) as nat),
{
    lemma_poll_after_skip(condition, fail_fast, events, max, k);
    assert(events.skip(k as int).first() == events[k as int]);
}

/// With a budget of one, the check is invoked exactly once, whatever it
/// comes back with.
pub proof fn lemma_single_attempt(
    condition: ReadyCondition,
    fail_fast: bool,
    events: Seq<CheckEvent>,
)
    requires
        events.len() >= 1,
    ensures
        spec_poll(condition, fail_fast, events, 1).1 == 1,
{
}

/// An unavailable check on the first invocation ends the wait `Fatal` at
/// once: one invocation, no retry, no wait at all.
pub proof fn lemma_unavailable_is_fatal_at_once(
    condition: ReadyCondition,
    fail_fast: bool,
    events: Seq<CheckEvent>,
    max: nat,
)
    requires
        max >= 1,
        events.len() >= 1,
        events[0] is Unavailable,
    ensures
        spec_poll(condition, fail_fast, events, max) == (PollStatus::Fatal, 1nat),
{
}

/// A timed-out wait over a budget of `max` with interval `d` waits exactly
/// `(max - 1) * d` milliseconds in all.
pub proof fn lemma_timed_out_wait(
    condition: ReadyCondition,
    fail_fast: bool,
    events: Seq<CheckEvent>,
    max: nat,
    interval_ms: nat,
)
    requires
        max >= 1,
        max <= events.len(),
        forall|j: int| 0 <= j < max ==> !event_decisive(condition, fail_fast, events[j]),
    ensures
        total_wait_ms(
            spec_poll(condition, fail_fast, events, max).1 as int,
            interval_ms as int,
        ) == (max - 1) * interval_ms,
{
    lemma_never_ready_times_out(condition, fail_fast, events, max);
}

/// The outcome of a whole readiness wait.
#[derive(Clone, Copy, Debug, PartialEq, Eq, Structural)]
pub struct PollReport {
    /// The terminal status.
    pub status: PollStatus,
    /// How many times the check was invoked.
    pub invocations: u64,
    /// Milliseconds spent waiting between attempts.
    pub slept_ms: u64,
}

/// Run a whole readiness wait over a recorded sequence of check outcomes,
/// driving the `Poller` one event at a time. `events[k]` is what the check
/// came back with on invocation `k + 1`; the sequence must cover the whole
/// budget, though a decisive event ends the run early. The waiting between
/// attempts is accounted, not performed.
pub fn run_poll(
    condition: ReadyCondition,
    fail_fast: bool,
    max_attempts: u64,
    interval_ms: u64,
    events: Vec<CheckEvent>,
) -> (r: PollReport)
    requires
        max_attempts >= 1,
        interval_ms >= 1,
        events@.len() >= max_attempts,
        (max_attempts - 1) * interval_ms <= u64::MAX,
    ensures
        r.status == spec_poll(condition, fail_fast, events@, max_attempts as nat).0,
        r.invocations == spec_poll(condition, fail_fast, events@, max_attempts as nat).1,
        1 <= r.invocations <= max_attempts,
        r.slept_ms == total_wait_ms(r.invocations as int, interval_ms as int),
{
    let ghost all_events = events@;
    let mut poller = Poller::new(condition, max_attempts, interval_ms, fail_fast);
    let mut remaining = events;
    let mut slept_ms: u64 = 0;
    let mut i: u64 = 0;
    proof {
        assert(all_events.skip(0) =~= all_events);
    }
    loop
        invariant_except_break
            poller.wf(),
            poller.in_progress(),
            poller.condition == condition,
            poller.fail_fast == fail_fast,
            poller.max_attempts == max_attempts,
            poller.interval_ms == interval_ms,
            poller.attempts_made == i,
            i < max_attempts,
            interval_ms >= 1,
            (max_attempts - 1) * interval_ms <= u64::MAX,
            remaining@ == all_events.skip(i as int),
            all_events.len() >= max_attempts,
            forall|j: int| 0 <= j < i ==> !event_decisive(condition, fail_fast, all_events[j]),
            slept_ms == i * interval_ms,
        ensures
            ({
                let model = spec_poll(condition, fail_fast, all_events, max_attempts as nat);
                &&& poller.outcome matches Some(status) && status == model.0
                &&& poller.attempts_made == model.1
                &&& 1 <= poller.attempts_made <= max_attempts
                &&& slept_ms == total_wait_ms(poller.attempts_made as int, interval_ms as int)
            }),
        decreases max_attempts - i,
    {
        let event = remaining.remove(0);
        proof {
            assert(event == all_events[i as int]);
            assert(remaining@ =~= all_events.skip(i as int + 1));
        }
        let step = poller.observe(event);
        i = i + 1;
        match step {
            PollStep::Done(_status) => {
                proof {
                    lemma_poll_after_skip(
                        condition,
                        fail_fast,
                        all_events,
                        max_attempts as nat,
                        (i - 1) as nat,
                    );
                    assert(all_events.skip(i - 1).first() == all_events[i - 1]);
                    assert(slept_ms == (i - 1) * interval_ms);
                }
                break;
            },
            PollStep::Retry { sleep_ms } => {
                proof {
                    vstd::arithmetic::mul::lemma_mul_inequality(
                        i as int,
                        max_attempts - 1,
                        interval_ms as int,
                    );
                    vstd::arithmetic::mul::lemma_mul_is_distributive_add_other_way(
                        interval_ms as int,
                        i - 1,
                        1,
                    );
                }
                slept_ms = slept_ms + sleep_ms;
            },
        }
    }
    PollReport { status: poller.outcome.unwrap(), invocations: poller.attempts_made, slept_ms }
}

} // verus!
