//! The dashboard side of a fan-out poll: keep the answers of the agents
//! that responded, drop the rest, and derive the presented memory figures.
//!
//! A failure of one agent must never fail the whole poll; the poll's result
//! is the ordered list of answers from the agents that responded in that
//! cycle.

use vstd::prelude::*;

use crate::messages::MetricsResponse;
use crate::registry::{
    apply_registrations, lemma_count_accepted_all, lemma_registry_size_after_registrations,
    AgentConnection,
};

verus! {

/// The answers of the agents that responded, in registry order.
pub open spec fn successes(outcomes: Seq<Option<MetricsResponse>>) -> Seq<MetricsResponse>
    decreases outcomes.len(),
{
    if outcomes.len() == 0 {
        Seq::empty()
    } else {
        match outcomes[0] {
            Some(m) => seq![m] + successes(outcomes.drop_first()),
            None => successes(outcomes.drop_first()),
        }
    }
}

/// Collect one poll cycle's results: each entry of `outcomes` is one
/// registered agent's answer, or `None` where that agent failed or timed
/// out this cycle. Failed agents are omitted; order is kept.
pub fn collect_successes(outcomes: Vec<Option<MetricsResponse>>) -> (r: Vec<MetricsResponse>)
    ensures
        r@ == successes(outcomes@),
{
    let mut remaining = outcomes;
    let mut r: Vec<MetricsResponse> = Vec::new();
    let ghost all = remaining@;
    while remaining.len() > 0
        invariant
            successes(all) == r@ + successes(remaining@),
        decreases remaining.len(),
    {
        let ghost before = remaining@;
        let first = remaining.remove(0);
        proof {
            assert(before.subrange(1, before.len() as int) =~= before.drop_first());
        }
        match first {
            Some(m) => {
                r.push(m);
                proof {
                    assert(successes(before) =~= seq![before[0]->Some_0] + successes(
                        before.drop_first(),
                    ));
                }
            },
            None => {},
        }
    }
    proof {
        assert(successes(remaining@) =~= Seq::<MetricsResponse>::empty());
        assert(r@ =~= r@ + successes(remaining@));
    }
    r
}

/// When every registered agent answers, the poll returns exactly one result
/// per agent.
pub proof fn lemma_poll_full_when_all_answer(outcomes: Seq<Option<MetricsResponse>>)
    requires
        forall|i: int| 0 <= i < outcomes.len() ==> outcomes[i] is Some,
    ensures
        successes(outcomes).len() == outcomes.len(),
    decreases outcomes.len(),
{
    if outcomes.len() > 0 {
        lemma_poll_full_when_all_answer(outcomes.drop_first());
    }
}

/// When exactly one registered agent fails, the poll returns one result per
/// remaining agent and nothing else is lost.
pub proof fn lemma_poll_omits_single_failure(outcomes: Seq<Option<MetricsResponse>>, k: int)
    requires
        0 <= k < outcomes.len(),
        outcomes[k] is None,
        forall|i: int| 0 <= i < outcomes.len() && i != k ==> outcomes[i] is Some,
    ensures
        successes(outcomes).len() == outcomes.len() - 1,
    decreases outcomes.len(),
{
    if k == 0 {
        lemma_poll_full_when_all_answer(outcomes.drop_first());
    } else {
        lemma_poll_omits_single_failure(outcomes.drop_first(), k - 1);
    }
}

/// Registering any number of reachable agents leaves the registry with
/// exactly one entry per agent, and a poll in which they all answer
/// returns exactly one result per agent.
pub proof fn lemma_registering_then_polling_all_reachable(
    arrivals: Seq<(AgentConnection, bool)>,
    outcomes: Seq<Option<MetricsResponse>>,
)
    requires
        forall|i: int| 0 <= i < arrivals.len() ==> (#[trigger] arrivals[i]).1,
        outcomes.len() == arrivals.len(),
        forall|i: int| 0 <= i < outcomes.len() ==> outcomes[i] is Some,
    ensures
        apply_registrations(Seq::empty(), arrivals).len() == arrivals.len(),
        successes(outcomes).len() == arrivals.len(),
{
    lemma_registry_size_after_registrations(Seq::empty(), arrivals);
    lemma_count_accepted_all(arrivals);
    lemma_poll_full_when_all_answer(outcomes);
}

/// A transient failure costs one poll cycle and nothing more: the cycle
/// with one unreachable agent returns one result fewer, and a later cycle
/// in which every agent answers again is full — the registry evicts nothing
/// on a failed poll.
pub proof fn lemma_transient_failure_recovery(
    failing_cycle: Seq<Option<MetricsResponse>>,
    recovered_cycle: Seq<Option<MetricsResponse>>,
    k: int,
)
    requires
        failing_cycle.len() == recovered_cycle.len(),
        0 <= k < failing_cycle.len(),
        failing_cycle[k] is None,
        forall|i: int| 0 <= i < failing_cycle.len() && i != k ==> failing_cycle[i] is Some,
        forall|i: int| 0 <= i < recovered_cycle.len() ==> recovered_cycle[i] is Some,
    ensures
        successes(failing_cycle).len() == failing_cycle.len() - 1,
        successes(recovered_cycle).len() == recovered_cycle.len(),
{
    lemma_poll_omits_single_failure(failing_cycle, k);
    lemma_poll_full_when_all_answer(recovered_cycle);
}

/// The total-memory figure shown for one agent; zero when the agent sent no
/// memory block.
pub open spec fn spec_mem_total(metric: MetricsResponse) -> u64 {
    match metric.memory {
        Some(m) => m.mem_total,
        None => 0,
    }
}

pub open spec fn spec_mem_free(metric: MetricsResponse) -> u64 {
    match metric.memory {
        Some(m) => m.mem_free,
        None => 0,
    }
}

pub open spec fn spec_mem_available(metric: MetricsResponse) -> u64 {
    match metric.memory {
        Some(m) => m.mem_available,
        None => 0,
    }
}

pub open spec fn spec_buffers(metric: MetricsResponse) -> u64 {
    match metric.memory {
        Some(m) => m.buffers,
        None => 0,
    }
}

pub open spec fn spec_cached(metric: MetricsResponse) -> u64 {
    match metric.memory {
        Some(m) => m.cached,
        None => 0,
    }
}

pub fn mem_total(metric: &MetricsResponse) -> (v: u64)
    ensures
        v == spec_mem_total(*metric),
{
    match &metric.memory {
        Some(m) => m.mem_total,
        None => 0,
    }
}

pub fn mem_free(metric: &MetricsResponse) -> (v: u64)
    ensures
        v == spec_mem_free(*metric),
{
    match &metric.memory {
        Some(m) => m.mem_free,
        None => 0,
    }
}

pub fn mem_available(metric: &MetricsResponse) -> (v: u64)
    ensures
        v == spec_mem_available(*metric),
{
    match &metric.memory {
        Some(m) => m.mem_available,
        None => 0,
    }
}

pub fn buffers(metric: &MetricsResponse) -> (v: u64)
    ensures
        v == spec_buffers(*metric),
{
    match &metric.memory {
        Some(m) => m.buffers,
        None => 0,
    }
}

pub fn cached(metric: &MetricsResponse) -> (v: u64)
    ensures
        v == spec_cached(*metric),
{
    match &metric.memory {
        Some(m) => m.cached,
        None => 0,
    }
}

/// Used memory, derived for presentation: total less free, buffers and
/// cached. The counters of a consistent host table never let the
/// subtraction go below zero, and the caller must not hand one that does.
pub fn used(metric: &MetricsResponse) -> (v: u64)
    requires
        spec_mem_free(*metric) + spec_buffers(*metric) + spec_cached(*metric) <= spec_mem_total(
            *metric,
        ),
    ensures
        v == spec_mem_total(*metric) - spec_mem_free(*metric) - spec_buffers(*metric)
            - spec_cached(*metric),
{
    let total = mem_total(metric);
    let free = mem_free(metric);
    let buf = buffers(metric);
    let cac = cached(metric);
    total - free - buf - cac
}

} // verus!
