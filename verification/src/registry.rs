//! The aggregator's registry of live agent connections, and the decision
//! taken when an agent registers.
//!
//! The transport edge owns the actual channels; it hands each one a numeric
//! handle and reports whether the reverse dial back to the registering agent
//! succeeded. Everything the protocol decides from that point is here.

use vstd::prelude::*;

use crate::messages::{RegistrationRequest, RegistrationResponse};

verus! {

/// One proven-reachable-at-insertion-time channel to an agent's metrics
/// endpoint: the address it was dialed on and the edge's channel handle.
pub struct AgentConnection {
    /// The transport-level source address of the registration call, never a
    /// client-supplied value.
    pub ip: String,
    /// The port the agent advertised for its metrics endpoint.
    pub port: String,
    /// The transport edge's handle for the open channel.
    pub channel: u64,
}

/// What the reverse dial back to a registering agent came to.
pub enum DialOutcome {
    /// The dial succeeded and the edge holds the channel under this handle.
    Connected(u64),
    /// The agent could not be reached on the address it advertised.
    Failed,
}

/// Why a registration was refused.
#[derive(Clone, Copy, PartialEq, Eq, Structural, Debug)]
pub enum RegistrationError {
    /// Reverse connectivity could not be proven, so no entry was added.
    ReverseDialFailed,
}

/// The append-only collection of live agent connections. Duplicate
/// registrations from the same agent produce duplicate entries, and
/// nothing is ever evicted: an agent that fails one poll cycle keeps its
/// entry and is simply asked again next cycle.
pub struct Registry {
    entries: Vec<AgentConnection>,
}

impl Registry {
    /// The connections held, in insertion order.
    pub closed spec fn connections(&self) -> Seq<AgentConnection> {
        self.entries@
    }

    pub fn new() -> (r: Registry)
        ensures
            r.connections() == Seq::<AgentConnection>::empty(),
    {
        Registry { entries: Vec::new() }
    }

    pub fn len(&self) -> (n: usize)
        ensures
            n == self.connections().len(),
    {
        self.entries.len()
    }

    pub fn get(&self, i: usize) -> (c: &AgentConnection)
        requires
            i < self.connections().len(),
        ensures
            *c == self.connections()[i as int],
    {
        &self.entries[i]
    }

    /// Decide one registration: an entry is appended exactly when the
    /// reverse dial succeeded, and the caller is acknowledged exactly then;
    /// a failed dial leaves the registry untouched and refuses the call.
    pub fn handle_registration(
        &mut self,
        source_ip: String,
        request: RegistrationRequest,
        dial: DialOutcome,
    ) -> (r: Result<RegistrationResponse, RegistrationError>)
        ensures
            match dial {
                DialOutcome::Connected(channel) => {
                    &&& final(self).connections() == old(self).connections().push(
                        AgentConnection { ip: source_ip, port: request.port, channel },
                    )
                    &&& r is Ok
                    &&& r->Ok_0.status@ == "OK"@
                },
                DialOutcome::Failed => {
                    &&& final(self).connections() == old(self).connections()
                    &&& r == Result::<RegistrationResponse, RegistrationError>::Err(
                        RegistrationError::ReverseDialFailed,
                    )
                },
            },
    {
        match dial {
            DialOutcome::Connected(channel) => {
                self.entries.push(AgentConnection { ip: source_ip, port: request.port, channel });
                Ok(RegistrationResponse { status: "OK".to_owned() })
            },
            DialOutcome::Failed => Err(RegistrationError::ReverseDialFailed),
        }
    }
}

/// The registry contents after a whole arrival order of registrations, each
/// marked with whether its reverse dial succeeded.
pub open spec fn apply_registrations(
    entries: Seq<AgentConnection>,
    arrivals: Seq<(AgentConnection, bool)>,
) -> Seq<AgentConnection>
    decreases arrivals.len(),
{
    if arrivals.len() == 0 {
        entries
    } else {
        apply_registrations(
            if arrivals[0].1 {
                entries.push(arrivals[0].0)
            } else {
                entries
            },
            arrivals.drop_first(),
        )
    }
}

/// How many of the arrivals were accepted.
pub open spec fn count_accepted(arrivals: Seq<(AgentConnection, bool)>) -> nat
    decreases arrivals.len(),
{
    if arrivals.len() == 0 {
        0
    } else {
        (if arrivals[0].1 {
            1nat
        } else {
            0nat
        }) + count_accepted(arrivals.drop_first())
    }
}

/// When every arrival's reverse dial succeeds, every arrival is counted.
pub proof fn lemma_count_accepted_all(arrivals: Seq<(AgentConnection, bool)>)
    requires
        forall|i: int| 0 <= i < arrivals.len() ==> (#[trigger] arrivals[i]).1,
    ensures
        count_accepted(arrivals) == arrivals.len(),
    decreases arrivals.len(),
{
    if arrivals.len() > 0 {
        lemma_count_accepted_all(arrivals.drop_first());
    }
}

/// However concurrent registrations interleave, the registry ends with one
/// entry per successful registration: appends are atomic, so its final size
/// equals the number of accepted arrivals, whatever their order.
pub proof fn lemma_registry_size_after_registrations(
    entries: Seq<AgentConnection>,
    arrivals: Seq<(AgentConnection, bool)>,
)
    ensures
        apply_registrations(entries, arrivals).len() == entries.len() + count_accepted(arrivals),
    decreases arrivals.len(),
{
    if arrivals.len() > 0 {
        if arrivals[0].1 {
            lemma_registry_size_after_registrations(
                entries.push(arrivals[0].0),
                arrivals.drop_first(),
            );
        } else {
            lemma_registry_size_after_registrations(entries, arrivals.drop_first());
        }
    }
}

} // verus!
