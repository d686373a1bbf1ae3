use vstd::prelude::*;
use crate::ids::AgentId;

verus! {

/// The version of this service that metrics are tagged with.
pub const APP_VERSION: &'static str = "0.1.0";

#[derive(Debug, PartialEq, Eq)]
pub enum MetricKey {
    IncomingQueueRequests,
    IncomingQueueResponses,
    IncomingQueueEvents,
    OutgoingQueueRequests,
    OutgoingQueueResponses,
    OutgoingQueueEvents,
    DbConnections,
    IdleDbConnections,
    RedisConnections,
    IdleRedisConnections,
    Dynamic(String),
    JanusTimeoutsTotal,
    RunningRequestDurationP95,
    RunningRequestDurationP99,
    RunningRequestDurationMax,
    OnlineJanusBackendsCount,
    JanusBackendTotalCapacity,
    ConnectedAgentsCount,
    JanusBackendReserveLoad,
    JanusBackendAgentLoad,
    RunningRequests,
}

/// What a metric is about, besides its key.
#[derive(Debug)]
pub enum Tags {
    Empty,
    Internal { version: &'static str, agent_id: AgentId },
    Queues { version: &'static str, agent_id: AgentId, queue: String },
    Janus { version: &'static str, agent_id: AgentId, backend_id: AgentId },
    RunningFutures { version: &'static str, agent_id: AgentId, method: String },
}

#[derive(Debug)]
pub struct Metric {
    pub key: MetricKey,
    pub value: u64,
    pub timestamp: i64,
    pub tags: Tags,
}

/// The lengths of the bus queues of one kind of tag, by direction and kind.
#[derive(Debug, Clone, Copy)]
pub struct QueueStats {
    pub incoming_requests: u64,
    pub incoming_responses: u64,
    pub incoming_events: u64,
    pub outgoing_requests: u64,
    pub outgoing_responses: u64,
    pub outgoing_events: u64,
}

/// The size of a connection pool and how many of its connections are idle.
#[derive(Debug, Clone, Copy)]
pub struct PoolState {
    pub connections: u64,
    pub idle_connections: u64,
}

#[derive(Debug, Clone, Copy)]
pub struct PercentileReport {
    pub p95: u64,
    pub p99: u64,
    pub max: u64,
}

/// Counters and handler timings collected while requests ran.
#[derive(Debug)]
pub struct DynamicStats {
    pub counters: Vec<(String, u64)>,
    pub janus_timeouts: Vec<(AgentId, u64)>,
    pub handler_timings: Vec<(String, PercentileReport)>,
}

/// How many agents a backend has reserved, and how many it took.
#[derive(Debug)]
pub struct BackendLoad {
    pub backend_id: AgentId,
    pub load: u64,
    pub taken: u64,
}

/// What the store tells about backends and agents.
#[derive(Debug)]
pub struct JanusStats {
    pub online_backends: u64,
    pub total_capacity: u64,
    pub connected_agents: u64,
    pub backend_loads: Vec<BackendLoad>,
}

pub open spec fn metric(key: MetricKey, value: u64, now: i64, tags: Tags) -> Metric {
    Metric { key, value, timestamp: now, tags }
}

pub open spec fn internal_tags(agent: AgentId) -> Tags {
    Tags::Internal { version: APP_VERSION, agent_id: agent }
}

/// `s`, with `m` appended where `cond` holds.
pub open spec fn push_if(s: Seq<Metric>, cond: bool, m: Metric) -> Seq<Metric> {
    if cond {
        s.push(m)
    } else {
        s
    }
}

/// `s`, with the nonzero queue lengths of one tag appended in a fixed order
/// of direction and kind.
pub open spec fn with_queue_metrics(s: Seq<Metric>, agent: AgentId, queue: String, st: QueueStats, now: i64) -> Seq<Metric> {
    let tags = Tags::Queues { version: APP_VERSION, agent_id: agent, queue };
    let s = push_if(s, st.incoming_requests > 0, metric(MetricKey::IncomingQueueRequests, st.incoming_requests, now, tags));
    let s = push_if(s, st.incoming_responses > 0, metric(MetricKey::IncomingQueueResponses, st.incoming_responses, now, tags));
    let s = push_if(s, st.incoming_events > 0, metric(MetricKey::IncomingQueueEvents, st.incoming_events, now, tags));
    let s = push_if(s, st.outgoing_requests > 0, metric(MetricKey::OutgoingQueueRequests, st.outgoing_requests, now, tags));
    let s = push_if(s, st.outgoing_responses > 0, metric(MetricKey::OutgoingQueueResponses, st.outgoing_responses, now, tags));
    push_if(s, st.outgoing_events > 0, metric(MetricKey::OutgoingQueueEvents, st.outgoing_events, now, tags))
}

/// `s`, with the queue lengths of every tag of `stats` appended in order.
pub open spec fn with_all_queue_metrics(s: Seq<Metric>, agent: AgentId, stats: Seq<(String, QueueStats)>, now: i64) -> Seq<Metric>
    decreases stats.len(),
{
    if stats.len() == 0 {
        s
    } else {
        with_queue_metrics(with_all_queue_metrics(s, agent, stats.drop_last(), now), agent, stats.last().0, stats.last().1, now)
    }
}

fn push_if_nonzero(metrics: &mut Vec<Metric>, key: MetricKey, value: u64, now: i64, tags: Tags)
    ensures
        final(metrics)@ == push_if(old(metrics)@, value > 0, metric(key, value, now, tags)),
{
    if value > 0 {
        metrics.push(Metric { key, value, timestamp: now, tags });
    }
}

fn queue_tags(agent_id: &AgentId, queue: &String) -> (r: Tags)
    ensures
        r == (Tags::Queues { version: APP_VERSION, agent_id: *agent_id, queue: *queue }),
{
    Tags::Queues { version: APP_VERSION, agent_id: agent_id.duplicate(), queue: queue.clone() }
}

fn append_queue_entry(metrics: &mut Vec<Metric>, agent_id: &AgentId, queue: &String, st: QueueStats, now: i64)
    ensures
        final(metrics)@ == with_queue_metrics(old(metrics)@, *agent_id, *queue, st, now),
{
    push_if_nonzero(metrics, MetricKey::IncomingQueueRequests, st.incoming_requests, now, queue_tags(agent_id, queue));
    push_if_nonzero(metrics, MetricKey::IncomingQueueResponses, st.incoming_responses, now, queue_tags(agent_id, queue));
    push_if_nonzero(metrics, MetricKey::IncomingQueueEvents, st.incoming_events, now, queue_tags(agent_id, queue));
    push_if_nonzero(metrics, MetricKey::OutgoingQueueRequests, st.outgoing_requests, now, queue_tags(agent_id, queue));
    push_if_nonzero(metrics, MetricKey::OutgoingQueueResponses, st.outgoing_responses, now, queue_tags(agent_id, queue));
    push_if_nonzero(metrics, MetricKey::OutgoingQueueEvents, st.outgoing_events, now, queue_tags(agent_id, queue));
}

/// Appends, for each tag of the bus queues in order, its nonzero lengths.
pub fn append_mqtt_stats(metrics: &mut Vec<Metric>, agent_id: &AgentId, stats: &Vec<(String, QueueStats)>, now: i64)
    ensures
        final(metrics)@ == with_all_queue_metrics(old(metrics)@, *agent_id, stats@, now),
{
    let mut i: usize = 0;
    while i < stats.len()
        invariant
            i <= stats@.len(),
            metrics@ == with_all_queue_metrics(old(metrics)@, *agent_id, stats@.subrange(0, i as int), now),
        decreases stats@.len() - i,
    {
        append_queue_entry(metrics, agent_id, &stats[i].0, stats[i].1, now);
        proof {
            let pre = stats@.subrange(0, i as int + 1);
            assert(pre.drop_last() == stats@.subrange(0, i as int));
            assert(pre.last() == stats@[i as int]);
        }
        i += 1;
    }
    proof {
        assert(stats@.subrange(0, stats@.len() as int) == stats@);
    }
}

/// `s`, with the size and the idle count of the store's pool appended.
pub open spec fn with_internal_metrics(s: Seq<Metric>, agent: AgentId, state: PoolState, now: i64) -> Seq<Metric> {
    s.push(metric(MetricKey::DbConnections, state.connections, now, internal_tags(agent))).push(
        metric(MetricKey::IdleDbConnections, state.idle_connections, now, internal_tags(agent)),
    )
}

/// `s`, with the size and the idle count of the cache's pool appended where
/// there is a cache.
pub open spec fn with_redis_metrics(s: Seq<Metric>, agent: AgentId, pool: Option<PoolState>, now: i64) -> Seq<Metric> {
    match pool {
        Some(state) => s.push(metric(MetricKey::RedisConnections, state.connections, now, internal_tags(agent))).push(
            metric(MetricKey::IdleRedisConnections, state.idle_connections, now, internal_tags(agent)),
        ),
        None => s,
    }
}

pub open spec fn with_counter_metrics(s: Seq<Metric>, counters: Seq<(String, u64)>, now: i64) -> Seq<Metric>
    decreases counters.len(),
{
    if counters.len() == 0 {
        s
    } else {
        with_counter_metrics(s, counters.drop_last(), now).push(
            metric(MetricKey::Dynamic(counters.last().0), counters.last().1, now, Tags::Empty),
        )
    }
}

pub open spec fn janus_tags(agent: AgentId, backend: AgentId) -> Tags {
    Tags::Janus { version: APP_VERSION, agent_id: agent, backend_id: backend }
}

pub open spec fn with_timeout_metrics(s: Seq<Metric>, agent: AgentId, timeouts: Seq<(AgentId, u64)>, now: i64) -> Seq<Metric>
    decreases timeouts.len(),
{
    if timeouts.len() == 0 {
        s
    } else {
        with_timeout_metrics(s, agent, timeouts.drop_last(), now).push(
            metric(MetricKey::JanusTimeoutsTotal, timeouts.last().1, now, janus_tags(agent, timeouts.last().0)),
        )
    }
}

pub open spec fn with_timing_metrics(s: Seq<Metric>, agent: AgentId, timings: Seq<(String, PercentileReport)>, now: i64) -> Seq<Metric>
    decreases timings.len(),
{
    if timings.len() == 0 {
        s
    } else {
        let (method, report) = timings.last();
        let tags = Tags::RunningFutures { version: APP_VERSION, agent_id: agent, method };
        with_timing_metrics(s, agent, timings.drop_last(), now)
            .push(metric(MetricKey::RunningRequestDurationP95, report.p95, now, tags))
            .push(metric(MetricKey::RunningRequestDurationP99, report.p99, now, tags))
            .push(metric(MetricKey::RunningRequestDurationMax, report.max, now, tags))
    }
}

/// `s`, with the counters, then the backend timeouts, then the p95, p99 and
/// maximum duration of each handler appended.
pub open spec fn with_dynamic_metrics(s: Seq<Metric>, agent: AgentId, stats: DynamicStats, now: i64) -> Seq<Metric> {
    with_timing_metrics(
        with_timeout_metrics(with_counter_metrics(s, stats.counters@, now), agent, stats.janus_timeouts@, now),
        agent,
        stats.handler_timings@,
        now,
    )
}

pub open spec fn with_load_metrics(s: Seq<Metric>, agent: AgentId, loads: Seq<BackendLoad>, now: i64) -> Seq<Metric>
    decreases loads.len(),
{
    if loads.len() == 0 {
        s
    } else {
        let l = loads.last();
        with_load_metrics(s, agent, loads.drop_last(), now)
            .push(metric(MetricKey::JanusBackendReserveLoad, l.load, now, janus_tags(agent, l.backend_id)))
            .push(metric(MetricKey::JanusBackendAgentLoad, l.taken, now, janus_tags(agent, l.backend_id)))
    }
}

/// `s`, with the backend count, the total capacity, the connected agents
/// count, then the reserve and agent load of each backend appended.
pub open spec fn with_janus_metrics(s: Seq<Metric>, agent: AgentId, stats: JanusStats, now: i64) -> Seq<Metric> {
    with_load_metrics(
        s.push(metric(MetricKey::OnlineJanusBackendsCount, stats.online_backends, now, internal_tags(agent)))
            .push(metric(MetricKey::JanusBackendTotalCapacity, stats.total_capacity, now, internal_tags(agent)))
            .push(metric(MetricKey::ConnectedAgentsCount, stats.connected_agents, now, internal_tags(agent))),
        agent,
        stats.backend_loads@,
        now,
    )
}

fn internal_tags_of(agent_id: &AgentId) -> (r: Tags)
    ensures
        r == internal_tags(*agent_id),
{
    Tags::Internal { version: APP_VERSION, agent_id: agent_id.duplicate() }
}

fn janus_tags_of(agent_id: &AgentId, backend_id: &AgentId) -> (r: Tags)
    ensures
        r == janus_tags(*agent_id, *backend_id),
{
    Tags::Janus { version: APP_VERSION, agent_id: agent_id.duplicate(), backend_id: backend_id.duplicate() }
}

/// Appends the size and the idle count of the store's connection pool.
pub fn append_internal_stats(metrics: &mut Vec<Metric>, agent_id: &AgentId, state: PoolState, now: i64)
    ensures
        final(metrics)@ == with_internal_metrics(old(metrics)@, *agent_id, state, now),
{
    metrics.push(Metric { key: MetricKey::DbConnections, value: state.connections, timestamp: now, tags: internal_tags_of(agent_id) });
    metrics.push(Metric {
        key: MetricKey::IdleDbConnections,
        value: state.idle_connections,
        timestamp: now,
        tags: internal_tags_of(agent_id),
    });
}

/// Appends the size and the idle count of the cache's pool, where there is
/// a cache.
pub fn append_redis_pool_metrics(metrics: &mut Vec<Metric>, agent_id: &AgentId, pool: Option<PoolState>, now: i64)
    ensures
        final(metrics)@ == with_redis_metrics(old(metrics)@, *agent_id, pool, now),
{
    if let Some(state) = pool {
        metrics.push(Metric { key: MetricKey::RedisConnections, value: state.connections, timestamp: now, tags: internal_tags_of(agent_id) });
        metrics.push(Metric {
            key: MetricKey::IdleRedisConnections,
            value: state.idle_connections,
            timestamp: now,
            tags: internal_tags_of(agent_id),
        });
    }
}

/// Appends the counters, the backend timeouts and the handler timings, in
/// that order.
pub fn append_dynamic_stats(metrics: &mut Vec<Metric>, agent_id: &AgentId, stats: &DynamicStats, now: i64)
    ensures
        final(metrics)@ == with_dynamic_metrics(old(metrics)@, *agent_id, *stats, now),
{
    let mut i: usize = 0;
    while i < stats.counters.len()
        invariant
            i <= stats.counters@.len(),
            metrics@ == with_counter_metrics(old(metrics)@, stats.counters@.subrange(0, i as int), now),
        decreases stats.counters@.len() - i,
    {
        metrics.push(Metric {
            key: MetricKey::Dynamic(stats.counters[i].0.clone()),
            value: stats.counters[i].1,
            timestamp: now,
            tags: Tags::Empty,
        });
        proof {
            let pre = stats.counters@.subrange(0, i as int + 1);
            assert(pre.drop_last() == stats.counters@.subrange(0, i as int));
        }
        i += 1;
    }
    proof {
        assert(stats.counters@.subrange(0, stats.counters@.len() as int) == stats.counters@);
    }
    let ghost m1 = metrics@;
    let mut i: usize = 0;
    while i < stats.janus_timeouts.len()
        invariant
            i <= stats.janus_timeouts@.len(),
            metrics@ == with_timeout_metrics(m1, *agent_id, stats.janus_timeouts@.subrange(0, i as int), now),
        decreases stats.janus_timeouts@.len() - i,
    {
        metrics.push(Metric {
            key: MetricKey::JanusTimeoutsTotal,
            value: stats.janus_timeouts[i].1,
            timestamp: now,
            tags: janus_tags_of(agent_id, &stats.janus_timeouts[i].0),
        });
        proof {
            let pre = stats.janus_timeouts@.subrange(0, i as int + 1);
            assert(pre.drop_last() == stats.janus_timeouts@.subrange(0, i as int));
        }
        i += 1;
    }
    proof {
        assert(stats.janus_timeouts@.subrange(0, stats.janus_timeouts@.len() as int) == stats.janus_timeouts@);
    }
    let ghost m2 = metrics@;
    let mut i: usize = 0;
    while i < stats.handler_timings.len()
        invariant
            i <= stats.handler_timings@.len(),
            metrics@ == with_timing_metrics(m2, *agent_id, stats.handler_timings@.subrange(0, i as int), now),
        decreases stats.handler_timings@.len() - i,
    {
        let method = &stats.handler_timings[i].0;
        let report = stats.handler_timings[i].1;
        let ghost tags = Tags::RunningFutures { version: APP_VERSION, agent_id: *agent_id, method: *method };
        metrics.push(Metric {
            key: MetricKey::RunningRequestDurationP95,
            value: report.p95,
            timestamp: now,
            tags: Tags::RunningFutures { version: APP_VERSION, agent_id: agent_id.duplicate(), method: method.clone() },
        });
        metrics.push(Metric {
            key: MetricKey::RunningRequestDurationP99,
            value: report.p99,
            timestamp: now,
            tags: Tags::RunningFutures { version: APP_VERSION, agent_id: agent_id.duplicate(), method: method.clone() },
        });
        metrics.push(Metric {
            key: MetricKey::RunningRequestDurationMax,
            value: report.max,
            timestamp: now,
            tags: Tags::RunningFutures { version: APP_VERSION, agent_id: agent_id.duplicate(), method: method.clone() },
        });
        proof {
            let pre = stats.handler_timings@.subrange(0, i as int + 1);
            assert(pre.drop_last() == stats.handler_timings@.subrange(0, i as int));
            assert(pre.last() == stats.handler_timings@[i as int]);
        }
        i += 1;
    }
    proof {
        assert(stats.handler_timings@.subrange(0, stats.handler_timings@.len() as int) == stats.handler_timings@);
    }
}

/// Appends the backend count, the total capacity and the connected agents
/// count, then the reserve and agent load of each backend.
pub fn append_janus_stats(metrics: &mut Vec<Metric>, agent_id: &AgentId, stats: &JanusStats, now: i64)
    ensures
        final(metrics)@ == with_janus_metrics(old(metrics)@, *agent_id, *stats, now),
{
    metrics.push(Metric {
        key: MetricKey::OnlineJanusBackendsCount,
        value: stats.online_backends,
        timestamp: now,
        tags: internal_tags_of(agent_id),
    });
    metrics.push(Metric {
        key: MetricKey::JanusBackendTotalCapacity,
        value: stats.total_capacity,
        timestamp: now,
        tags: internal_tags_of(agent_id),
    });
    metrics.push(Metric {
        key: MetricKey::ConnectedAgentsCount,
        value: stats.connected_agents,
        timestamp: now,
        tags: internal_tags_of(agent_id),
    });
    let ghost m0 = metrics@;
    let mut i: usize = 0;
    while i < stats.backend_loads.len()
        invariant
            i <= stats.backend_loads@.len(),
            metrics@ == with_load_metrics(m0, *agent_id, stats.backend_loads@.subrange(0, i as int), now),
        decreases stats.backend_loads@.len() - i,
    {
        let row = &stats.backend_loads[i];
        metrics.push(Metric {
            key: MetricKey::JanusBackendReserveLoad,
            value: row.load,
            timestamp: now,
            tags: janus_tags_of(agent_id, &row.backend_id),
        });
        metrics.push(Metric {
            key: MetricKey::JanusBackendAgentLoad,
            value: row.taken,
            timestamp: now,
            tags: janus_tags_of(agent_id, &row.backend_id),
        });
        proof {
            let pre = stats.backend_loads@.subrange(0, i as int + 1);
            assert(pre.drop_last() == stats.backend_loads@.subrange(0, i as int));
        }
        i += 1;
    }
    proof {
        assert(stats.backend_loads@.subrange(0, stats.backend_loads@.len() as int) == stats.backend_loads@);
    }
}

/// What the aggregator samples. A source that is missing is `None`; one
/// that failed holds the reason.
#[derive(Debug)]
pub struct Sources {
    pub agent_id: AgentId,
    pub queue_stats: Option<Result<Vec<(String, QueueStats)>, String>>,
    pub db_pool: PoolState,
    pub redis_pool: Option<PoolState>,
    pub dynamic_stats: Option<Result<DynamicStats, String>>,
    pub janus_stats: Option<Result<JanusStats, String>>,
    pub running_requests: Option<u64>,
}

/// The metrics of one sampling, and the reasons of the sources that failed.
#[derive(Debug)]
pub struct Snapshot {
    pub metrics: Vec<Metric>,
    pub failures: Vec<String>,
}

/// The metrics that `src` gives at `now`: the bus queues, the store's pool,
/// the cache's pool, the dynamic statistics, the backends, then the running
/// requests. A failed source gives none.
pub open spec fn snapshot_metrics(src: Sources, now: i64) -> Seq<Metric> {
    let agent = src.agent_id;
    let s0 = match src.queue_stats {
        Some(Ok(stats)) => with_all_queue_metrics(Seq::empty(), agent, stats@, now),
        _ => Seq::empty(),
    };
    let s1 = with_redis_metrics(with_internal_metrics(s0, agent, src.db_pool, now), agent, src.redis_pool, now);
    let s2 = match src.dynamic_stats {
        Some(Ok(stats)) => with_dynamic_metrics(s1, agent, stats, now),
        _ => s1,
    };
    let s3 = match src.janus_stats {
        Some(Ok(stats)) => with_janus_metrics(s2, agent, stats, now),
        _ => s2,
    };
    match src.running_requests {
        Some(n) => s3.push(metric(MetricKey::RunningRequests, n, now, internal_tags(agent))),
        None => s3,
    }
}

pub open spec fn failure_of<T>(source: Option<Result<T, String>>) -> Seq<String> {
    match source {
        Some(Err(e)) => seq![e],
        _ => Seq::empty(),
    }
}

/// The reasons of the failed sources, in the order of sampling.
pub open spec fn snapshot_failures(src: Sources) -> Seq<String> {
    failure_of(src.queue_stats) + failure_of(src.dynamic_stats) + failure_of(src.janus_stats)
}

/// Builds metric snapshots from the sources it was given.
pub struct Aggregator<'a> {
    context: &'a Sources,
}

fn note_failure<T>(failures: &mut Vec<String>, source: &Option<Result<T, String>>)
    ensures
        final(failures)@ == old(failures)@ + failure_of(*source),
{
    match source {
        Some(Err(e)) => {
            failures.push(e.clone());
            assert(final(failures)@ =~= old(failures)@ + seq![*e]);
        },
        _ => {
            assert(old(failures)@ + Seq::<String>::empty() =~= old(failures)@);
        },
    }
}

impl<'a> Aggregator<'a> {
    pub fn new(context: &'a Sources) -> (r: Aggregator<'a>)
        ensures
            r.sources() == context,
    {
        Aggregator { context }
    }

    pub closed spec fn sources(&self) -> &'a Sources {
        self.context
    }

    /// Samples every source at `now`. Each source that fails is reported and
    /// skipped; the others still give their metrics.
    pub fn get(&self, now: i64) -> (r: Snapshot)
        ensures
            r.metrics@ == snapshot_metrics(*self.sources(), now),
            r.failures@ == snapshot_failures(*self.sources()),
    {
        let src = self.context;
        let mut metrics: Vec<Metric> = Vec::new();
        let mut failures: Vec<String> = Vec::new();
        if let Some(Ok(stats)) = &src.queue_stats {
            append_mqtt_stats(&mut metrics, &src.agent_id, stats, now);
        }
        note_failure(&mut failures, &src.queue_stats);
        append_internal_stats(&mut metrics, &src.agent_id, src.db_pool, now);
        append_redis_pool_metrics(&mut metrics, &src.agent_id, src.redis_pool, now);
        if let Some(Ok(stats)) = &src.dynamic_stats {
            append_dynamic_stats(&mut metrics, &src.agent_id, stats, now);
        }
        note_failure(&mut failures, &src.dynamic_stats);
        if let Some(Ok(stats)) = &src.janus_stats {
            append_janus_stats(&mut metrics, &src.agent_id, stats, now);
        }
        note_failure(&mut failures, &src.janus_stats);
        if let Some(n) = src.running_requests {
            metrics.push(Metric { key: MetricKey::RunningRequests, value: n, timestamp: now, tags: internal_tags_of(&src.agent_id) });
        }
        proof {
            assert(Seq::<String>::empty() + failure_of(src.queue_stats) =~= failure_of(src.queue_stats));
        }
        Snapshot { metrics, failures }
    }
}

} // verus!
