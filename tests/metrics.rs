use conference::ids::AgentId;
use conference::metrics::{
    Aggregator, BackendLoad, DynamicStats, JanusStats, MetricKey, PercentileReport, PoolState, QueueStats, Sources, Tags,
};

fn me() -> AgentId {
    AgentId::new("alpha", "conference", "dev.svc.example.org")
}

fn sources() -> Sources {
    Sources {
        agent_id: me(),
        queue_stats: Some(Ok(vec![(
            "q1".to_string(),
            QueueStats {
                incoming_requests: 3,
                incoming_responses: 0,
                incoming_events: 0,
                outgoing_requests: 0,
                outgoing_responses: 0,
                outgoing_events: 2,
            },
        )])),
        db_pool: PoolState { connections: 5, idle_connections: 4 },
        redis_pool: None,
        dynamic_stats: Some(Ok(DynamicStats {
            counters: vec![("hits".to_string(), 9)],
            janus_timeouts: vec![],
            handler_timings: vec![("message.unicast".to_string(), PercentileReport { p95: 10, p99: 20, max: 30 })],
        })),
        janus_stats: Some(Ok(JanusStats {
            online_backends: 1,
            total_capacity: 100,
            connected_agents: 7,
            backend_loads: vec![BackendLoad { backend_id: AgentId::new("j", "janus", "svc"), load: 6, taken: 4 }],
        })),
        running_requests: Some(2),
    }
}

#[test]
fn snapshot_has_every_source_in_order() {
    let src = sources();
    let snapshot = Aggregator::new(&src).get(1234);
    let keys: Vec<&MetricKey> = snapshot.metrics.iter().map(|m| &m.key).collect();
    assert_eq!(
        keys,
        vec![
            &MetricKey::IncomingQueueRequests,
            &MetricKey::OutgoingQueueEvents,
            &MetricKey::DbConnections,
            &MetricKey::IdleDbConnections,
            &MetricKey::Dynamic("hits".to_string()),
            &MetricKey::RunningRequestDurationP95,
            &MetricKey::RunningRequestDurationP99,
            &MetricKey::RunningRequestDurationMax,
            &MetricKey::OnlineJanusBackendsCount,
            &MetricKey::JanusBackendTotalCapacity,
            &MetricKey::ConnectedAgentsCount,
            &MetricKey::JanusBackendReserveLoad,
            &MetricKey::JanusBackendAgentLoad,
            &MetricKey::RunningRequests,
        ]
    );
    let values: Vec<u64> = snapshot.metrics.iter().map(|m| m.value).collect();
    assert_eq!(values, vec![3, 2, 5, 4, 9, 10, 20, 30, 1, 100, 7, 6, 4, 2]);
    assert!(snapshot.metrics.iter().all(|m| m.timestamp == 1234));
    assert!(snapshot.failures.is_empty());
    match &snapshot.metrics[0].tags {
        Tags::Queues { queue, .. } => assert_eq!(queue, "q1"),
        other => panic!("unexpected tags: {:?}", other),
    }
}

#[test]
fn failed_source_is_reported_and_others_kept() {
    let mut src = sources();
    src.janus_stats = Some(Err("no connection".to_string()));
    src.queue_stats = None;
    src.redis_pool = Some(PoolState { connections: 2, idle_connections: 1 });
    let snapshot = Aggregator::new(&src).get(0);
    assert_eq!(snapshot.failures, vec!["no connection".to_string()]);
    let values: Vec<u64> = snapshot.metrics.iter().map(|m| m.value).collect();
    assert_eq!(values, vec![5, 4, 2, 1, 9, 10, 20, 30, 2]);
}
