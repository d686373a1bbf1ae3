use vstd::prelude::*;
use crate::correlation::CorrelationTable;
use crate::ids::AgentId;
use crate::store::Store;

verus! {

/// The version of this service's API on the bus.
pub const API_VERSION: &'static str = "v1";

/// The version of the media backends' API on the bus.
pub const JANUS_API_VERSION: &'static str = "v1";

/// What a handler works with: the store, the pending forwarded requests,
/// this service's own address, and when the request started and the clock
/// reading now.
pub struct Context {
    pub store: Store,
    pub correlations: CorrelationTable,
    pub agent_id: AgentId,
    pub start_timestamp: i64,
    pub now: i64,
}

impl Context {
    pub open spec fn wf(&self) -> bool {
        self.store@.inv() && self.correlations.wf()
    }

    /// The milliseconds this request has taken so far.
    pub open spec fn hop(&self) -> u64 {
        crate::outbound::until_now(self.start_timestamp, self.now)
    }

    pub fn new(store: Store, correlation_cap: usize, agent_id: AgentId, start_timestamp: i64, now: i64) -> (r: Context)
        requires
            store@.inv(),
            correlation_cap > 0,
        ensures
            r.wf(),
            r.store == store,
            r.correlations@.len() == 0,
            r.correlations.cap() == correlation_cap,
            r.agent_id == agent_id,
            r.start_timestamp == start_timestamp,
            r.now == now,
    {
        Context { store, correlations: CorrelationTable::new(correlation_cap), agent_id, start_timestamp, now }
    }
}

} // verus!
