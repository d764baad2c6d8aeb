//! The bounded readiness poller as a state machine. The caller runs the
//! external status check and the waits; the poller takes each check's outcome
//! as an event, counts the attempt, and decides whether to stop (ready,
//! exhausted, fatal, cancelled) or to wait for the configured interval and
//! check again. Attempts are strictly sequential: one event is recorded fully
//! before the next check is due.

use vstd::prelude::*;
use crate::condition::ReadyCondition;

verus! {

/// Terminal result of a readiness wait.
#[derive(Clone, Copy, Debug, PartialEq, Eq, Structural)]
pub enum PollStatus {
    /// The condition was met by some attempt within the budget.
    Ready,
    /// Every attempt in the budget ran and none met the condition.
    TimedOut,
    /// A check signalled a non-recoverable error.
    Fatal,
    /// The caller cancelled the wait before it could finish.
    Cancelled,
}

/// What one invocation of the external status check came back with.
#[derive(Debug)]
pub enum CheckEvent {
    /// The check ran: whether it succeeded (exit status) and what it printed.
    Completed { succeeded: bool, output: Vec<u8> },
    /// The check could not run at all, and never will (the tool is absent).
    Unavailable,
}

/// What the caller must do after recording an event.
#[derive(Clone, Copy, Debug, PartialEq, Eq, Structural)]
pub enum PollStep {
    /// Wait `sleep_ms` milliseconds, run the check again, and record it.
    Retry { sleep_ms: u64 },
    /// The wait is over with this result.
    Done(PollStatus),
}

/// The event satisfies the readiness condition: the check succeeded and its
/// output meets the rule.
pub open spec fn event_ready(condition: ReadyCondition, event: CheckEvent) -> bool {
    &&& event matches CheckEvent::Completed { succeeded, output }
    &&& succeeded
    &&& condition.holds_on(output@)
}

/// The event ends the wait without success: the check can never run, or it
/// failed and failures are escalated rather than retried.
pub open spec fn event_fatal(fail_fast: bool, event: CheckEvent) -> bool {
    ||| event is Unavailable
    ||| (fail_fast && (event matches CheckEvent::Completed { succeeded, .. } && !succeeded))
}

/// The event ends the wait, one way or the other.
pub open spec fn event_decisive(condition: ReadyCondition, fail_fast: bool, event: CheckEvent) -> bool {
    event_ready(condition, event) || event_fatal(fail_fast, event)
}

/// A readiness wait in progress. `attempts_made` counts the check invocations
/// recorded so far; `outcome` is set exactly when the wait is over.
pub struct Poller {
    /// The rule that decides "ready" on a check's output.
    pub condition: ReadyCondition,
    /// How many check invocations the wait may use, at least one.
    pub max_attempts: u64,
    /// The fixed wait between two attempts, in milliseconds, at least one.
    pub interval_ms: u64,
    /// Whether a failed check invocation ends the wait instead of counting
    /// as "not ready yet".
    pub fail_fast: bool,
    /// Check invocations recorded so far.
    pub attempts_made: u64,
    /// The terminal result, once the wait is over.
    pub outcome: Option<PollStatus>,
}

impl Poller {
    /// The poller's invariant: a positive budget and interval, never more
    /// attempts than the budget, and a timed-out wait used the whole budget.
    pub open spec fn wf(self) -> bool {
        &&& self.max_attempts >= 1
        &&& self.interval_ms >= 1
        &&& self.attempts_made <= self.max_attempts
        &&& (self.outcome is None ==> self.attempts_made < self.max_attempts)
        &&& (self.outcome == Some(PollStatus::TimedOut) ==> self.attempts_made
            == self.max_attempts)
    }

    /// The wait is not over: another check invocation is due.
    pub open spec fn in_progress(self) -> bool {
        self.outcome is None
    }

    /// What recording `event` answers, given the state before it.
    pub open spec fn spec_step(self, event: CheckEvent) -> PollStep {
        if event_ready(self.condition, event) {
            PollStep::Done(PollStatus::Ready)
        } else if event_fatal(self.fail_fast, event) {
            PollStep::Done(PollStatus::Fatal)
        } else if self.attempts_made + 1 == self.max_attempts {
            PollStep::Done(PollStatus::TimedOut)
        } else {
            PollStep::Retry { sleep_ms: self.interval_ms }
        }
    }

    /// The state after recording `event`, given the state before it.
    pub open spec fn spec_next(self, event: CheckEvent) -> Poller {
        Poller {
            attempts_made: (self.attempts_made + 1) as u64,
            outcome: match self.spec_step(event) {
                PollStep::Done(status) => Some(status),
                PollStep::Retry { .. } => None,
            },
            ..self
        }
    }

    /// Begin a readiness wait: no attempt made yet, no outcome.
    pub fn new(condition: ReadyCondition, max_attempts: u64, interval_ms: u64, fail_fast: bool) -> (p:
        Poller)
        requires
            max_attempts >= 1,
            interval_ms >= 1,
        ensures
            p.wf(),
            p.in_progress(),
            p == (Poller {
                condition,
                max_attempts,
                interval_ms,
                fail_fast,
                attempts_made: 0u64,
                outcome: None::<PollStatus>,
            }),
    {
        Poller { condition, max_attempts, interval_ms, fail_fast, attempts_made: 0, outcome: None }
    }

    /// Record what one invocation of the check came back with, and learn
    /// whether to retry after the interval or stop. A ready event wins
    /// immediately; a fatal event stops the wait at once; otherwise the
    /// attempt is spent, and an exhausted budget times the wait out.
    pub fn observe(&mut self, event: CheckEvent) -> (step: PollStep)
        requires
            old(self).wf(),
            old(self).in_progress(),
        ensures
            final(self).wf(),
            step == old(self).spec_step(event),
            *final(self) == old(self).spec_next(event),
    {
        self.attempts_made = self.attempts_made + 1;
        let decided: PollStep = match &event {
            CheckEvent::Completed { succeeded, output } => {
                if *succeeded && self.condition.eval(output.as_slice()) {
                    PollStep::Done(PollStatus::Ready)
                } else if self.fail_fast && !*succeeded {
                    PollStep::Done(PollStatus::Fatal)
                } else if self.attempts_made == self.max_attempts {
                    PollStep::Done(PollStatus::TimedOut)
                } else {
                    PollStep::Retry { sleep_ms: self.interval_ms }
                }
            },
            CheckEvent::Unavailable => PollStep::Done(PollStatus::Fatal),
        };
        match decided {
            PollStep::Done(status) => {
                self.outcome = Some(status);
            },
            PollStep::Retry { .. } => {},
        }
        decided
    }

    /// Cancel the wait before its next check: the terminal result is
    /// `Cancelled` and no further attempt is counted.
    pub fn cancel(&mut self) -> (status: PollStatus)
        requires
            old(self).wf(),
            old(self).in_progress(),
        ensures
            final(self).wf(),
            status == PollStatus::Cancelled,
            *final(self) == (Poller { outcome: Some(PollStatus::Cancelled), ..*old(self) }),
    {
        self.outcome = Some(PollStatus::Cancelled);
        PollStatus::Cancelled
    }
}

} // verus!
