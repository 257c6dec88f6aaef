//! The agent's bootstrap: dial the aggregator with bounded retry, then
//! register, then serve metrics forever.
//!
//! The decisions live here as a state machine from state and event to next
//! state and action; the process edge performs the actions (dial, sleep,
//! send) and feeds the outcomes back as events.

use vstd::prelude::*;

verus! {

/// How many consecutive failures the agent tolerates before giving up,
/// for the dial phase and the registration phase each.
pub const RETRY_BUDGET: u64 = 5;

/// What a bounded retry decides after one more failure.
#[derive(Clone, Copy, PartialEq, Eq, Structural, Debug)]
pub enum RetryVerdict {
    RetryAgain,
    Exhausted,
}

/// A counter of consecutive failures against a fixed budget. The caller
/// decides what exhaustion means; the counter only reports it.
#[derive(Clone, Copy, PartialEq, Eq, Structural, Debug)]
pub struct BoundedRetry {
    pub failures: u64,
    pub budget: u64,
}

impl BoundedRetry {
    pub fn new(budget: u64) -> (r: BoundedRetry)
        ensures
            r.failures == 0,
            r.budget == budget,
    {
        BoundedRetry { failures: 0, budget }
    }

    /// Count one more consecutive failure; the budget is exhausted exactly
    /// when the count reaches it.
    pub fn record_failure(&mut self) -> (v: RetryVerdict)
        requires
            old(self).failures < old(self).budget,
        ensures
            final(self).failures == old(self).failures + 1,
            final(self).budget == old(self).budget,
            v == (if final(self).failures == final(self).budget {
                RetryVerdict::Exhausted
            } else {
                RetryVerdict::RetryAgain
            }),
    {
        self.failures = self.failures + 1;
        if self.failures == self.budget {
            RetryVerdict::Exhausted
        } else {
            RetryVerdict::RetryAgain
        }
    }
}

/// Where the agent stands in its bootstrap.
#[derive(Clone, Copy, PartialEq, Eq, Structural, Debug)]
pub enum AgentState {
    /// The metrics endpoint is not listening yet.
    Starting,
    /// Attempting to connect to the aggregator's registration endpoint.
    Dialing { retry: BoundedRetry },
    /// Connected; attempting the registration call.
    Registering { retry: BoundedRetry },
    /// Registration acknowledged; the agent only serves metrics now.
    Registered,
    /// The retry budget ran out; the process must terminate abnormally.
    FailedFatal,
}

/// What the process edge reports back to the state machine.
#[derive(Clone, Copy, PartialEq, Eq, Structural, Debug)]
pub enum AgentEvent {
    ListenerReady,
    DialSucceeded,
    DialFailed,
    RegisterSucceeded,
    RegisterFailed,
}

/// What the process edge must do next.
#[derive(Clone, Copy, PartialEq, Eq, Structural, Debug)]
pub enum AgentAction {
    StartDialing,
    RetryDialAfterBackoff,
    SendRegistration,
    RetryRegistrationAfterBackoff,
    ServeForever,
    AbortProcess,
    NoAction,
}

/// The retry counters carried by the two retrying states stay under their
/// budget, which is the fixed one.
pub open spec fn state_wf(s: AgentState) -> bool {
    match s {
        AgentState::Dialing { retry } => retry.budget == RETRY_BUDGET && retry.failures
            < retry.budget,
        AgentState::Registering { retry } => retry.budget == RETRY_BUDGET && retry.failures
            < retry.budget,
        _ => true,
    }
}

/// One transition of the bootstrap state machine. An event that does not
/// belong to the current state changes nothing.
pub open spec fn spec_step(s: AgentState, e: AgentEvent) -> (AgentState, AgentAction) {
    match (s, e) {
        (AgentState::Starting, AgentEvent::ListenerReady) => (
            AgentState::Dialing { retry: BoundedRetry { failures: 0, budget: RETRY_BUDGET } },
            AgentAction::StartDialing,
        ),
        (AgentState::Dialing { retry }, AgentEvent::DialSucceeded) => (
            AgentState::Registering {
                retry: BoundedRetry { failures: 0, budget: RETRY_BUDGET },
            },
            AgentAction::SendRegistration,
        ),
        (AgentState::Dialing { retry }, AgentEvent::DialFailed) => if retry.failures + 1
            >= retry.budget {
            (AgentState::FailedFatal, AgentAction::AbortProcess)
        } else {
            (
                AgentState::Dialing {
                    retry: BoundedRetry {
                        failures: (retry.failures + 1) as u64,
                        budget: retry.budget,
                    },
                },
                AgentAction::RetryDialAfterBackoff,
            )
        },
        (AgentState::Registering { retry }, AgentEvent::RegisterSucceeded) => (
            AgentState::Registered,
            AgentAction::ServeForever,
        ),
        (AgentState::Registering { retry }, AgentEvent::RegisterFailed) => if retry.failures + 1
            >= retry.budget {
            (AgentState::FailedFatal, AgentAction::AbortProcess)
        } else {
            (
                AgentState::Registering {
                    retry: BoundedRetry {
                        failures: (retry.failures + 1) as u64,
                        budget: retry.budget,
                    },
                },
                AgentAction::RetryRegistrationAfterBackoff,
            )
        },
        (s, _) => (s, AgentAction::NoAction),
    }
}

/// One executable transition; the contract ties it to the specification
/// step, and well-formed states stay well-formed.
pub fn agent_step(state: AgentState, event: AgentEvent) -> (r: (AgentState, AgentAction))
    requires
        state_wf(state),
    ensures
        r == spec_step(state, event),
        state_wf(r.0),
{
    match (state, event) {
        (AgentState::Starting, AgentEvent::ListenerReady) => (
            AgentState::Dialing { retry: BoundedRetry::new(RETRY_BUDGET) },
            AgentAction::StartDialing,
        ),
        (AgentState::Dialing { retry: _ }, AgentEvent::DialSucceeded) => (
            AgentState::Registering { retry: BoundedRetry::new(RETRY_BUDGET) },
            AgentAction::SendRegistration,
        ),
        (AgentState::Dialing { retry }, AgentEvent::DialFailed) => {
            let mut retry = retry;
            match retry.record_failure() {
                RetryVerdict::Exhausted => (AgentState::FailedFatal, AgentAction::AbortProcess),
                RetryVerdict::RetryAgain => (
                    AgentState::Dialing { retry },
                    AgentAction::RetryDialAfterBackoff,
                ),
            }
        },
        (AgentState::Registering { retry: _ }, AgentEvent::RegisterSucceeded) => (
            AgentState::Registered,
            AgentAction::ServeForever,
        ),
        (AgentState::Registering { retry }, AgentEvent::RegisterFailed) => {
            let mut retry = retry;
            match retry.record_failure() {
                RetryVerdict::Exhausted => (AgentState::FailedFatal, AgentAction::AbortProcess),
                RetryVerdict::RetryAgain => (
                    AgentState::Registering { retry },
                    AgentAction::RetryRegistrationAfterBackoff,
                ),
            }
        },
        (s, _) => (s, AgentAction::NoAction),
    }
}

/// The state after feeding a whole sequence of events, first to last.
pub open spec fn run_steps(s: AgentState, evs: Seq<AgentEvent>) -> AgentState
    decreases evs.len(),
{
    if evs.len() == 0 {
        s
    } else {
        run_steps(spec_step(s, evs[0]).0, evs.drop_first())
    }
}

/// A fatal bootstrap never recovers: no later event leaves `FailedFatal`.
pub proof fn lemma_failed_fatal_absorbing(evs: Seq<AgentEvent>)
    ensures
        run_steps(AgentState::FailedFatal, evs) == AgentState::FailedFatal,
    decreases evs.len(),
{
    if evs.len() > 0 {
        lemma_failed_fatal_absorbing(evs.drop_first());
    }
}

/// The agent never enters the registered state without a successful
/// registration call among the events it saw.
pub proof fn lemma_registered_only_after_success(s: AgentState, evs: Seq<AgentEvent>)
    requires
        !(s is Registered),
        run_steps(s, evs) is Registered,
    ensures
        exists|i: int| 0 <= i < evs.len() && evs[i] is RegisterSucceeded,
    decreases evs.len(),
{
    let s1 = spec_step(s, evs[0]).0;
    if s1 is Registered {
        assert(evs[0] is RegisterSucceeded);
    } else {
        lemma_registered_only_after_success(s1, evs.drop_first());
        let j = choose|j: int|
            0 <= j < evs.drop_first().len() && evs.drop_first()[j] is RegisterSucceeded;
        assert(evs[j + 1] is RegisterSucceeded);
    }
}

/// Consecutive dial failures accumulate in the retry counter until the
/// budget is reached, at which point the bootstrap is fatally over.
pub proof fn lemma_dial_failures_accumulate(retry: BoundedRetry, evs: Seq<AgentEvent>)
    requires
        retry.budget == RETRY_BUDGET,
        retry.failures < retry.budget,
        forall|i: int| 0 <= i < evs.len() ==> evs[i] is DialFailed,
    ensures
        run_steps(AgentState::Dialing { retry }, evs) == (if retry.failures + evs.len()
            >= retry.budget {
            AgentState::FailedFatal
        } else {
            AgentState::Dialing {
                retry: BoundedRetry {
                    failures: (retry.failures + evs.len()) as u64,
                    budget: retry.budget,
                },
            }
        }),
    decreases evs.len(),
{
    if evs.len() > 0 {
        if retry.failures + 1 >= retry.budget {
            lemma_failed_fatal_absorbing(evs.drop_first());
        } else {
            let next = BoundedRetry {
                failures: (retry.failures + 1) as u64,
                budget: retry.budget,
            };
            lemma_dial_failures_accumulate(next, evs.drop_first());
        }
    }
}

/// Exhausting the whole dial budget from a fresh dialing state is fatal:
/// the agent process must then terminate abnormally.
pub proof fn lemma_bootstrap_budget_exhaustion(evs: Seq<AgentEvent>)
    requires
        evs.len() == RETRY_BUDGET,
        forall|i: int| 0 <= i < evs.len() ==> evs[i] is DialFailed,
    ensures
        run_steps(
            AgentState::Dialing { retry: BoundedRetry { failures: 0, budget: RETRY_BUDGET } },
            evs,
        ) == AgentState::FailedFatal,
{
    lemma_dial_failures_accumulate(
        BoundedRetry { failures: 0, budget: RETRY_BUDGET },
        evs,
    );
}

} // verus!
