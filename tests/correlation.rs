use conference::agent::Status;
use conference::context::Context;
use conference::correlation::{CorrelationData, CorrelationDataPayload, CorrelationTable, RequestProperties};
use conference::ids::AgentId;
use conference::outbound::{LongTermTiming, Tracking};
use conference::message::{handle_response, ResponseProperties, UnicastHandler, UnicastRequest};
use conference::outbound::{OutgoingMessage, Payload};
use conference::store::{RoomTime, Store};

const AUD: &str = "dev.usr.example.org";

fn reqp(label: &str) -> RequestProperties {
    RequestProperties {
        method: "message.unicast".to_string(),
        agent_id: AgentId::new("web", label, AUD),
        correlation_data: format!("corr-{}", label),
        response_topic: format!("agents/web.{}.{}/api/v1/in/conference.dev.svc.example.org", label, AUD),
        tracking: Tracking { tracking_id: "track-1".to_string(), session_tracking_label: "session-1".to_string() },
        local_tracking_label: Some("label-1".to_string()),
        long_term_timing: LongTermTiming {
            local_initial_timediff: None,
            initial_timestamp: Some(1),
            broker_timestamp: None,
            broker_processing_time: None,
            cumulative_authorization_time: None,
            cumulative_processing_time: Some(100),
        },
    }
}

fn entry(label: &str) -> CorrelationData {
    CorrelationData::MessageUnicast(CorrelationDataPayload::new(reqp(label)))
}

#[test]
fn correlation_table_evicts_oldest_at_cap() {
    let mut table = CorrelationTable::new(2);
    let t0 = table.register(entry("a"));
    let t1 = table.register(entry("b"));
    assert_eq!(table.len(), 2);
    let t2 = table.register(entry("c"));
    assert_eq!(table.len(), 2);
    assert_eq!(table.capacity(), 2);
    assert!(t0 != t1 && t1 != t2 && t0 != t2);
    assert!(table.take(t0).is_none());
    match table.take(t2) {
        Some(CorrelationData::MessageUnicast(p)) => assert_eq!(p.reqp.correlation_data, "corr-c"),
        None => panic!("entry missing"),
    }
    assert_eq!(table.len(), 1);
    assert!(table.take(t2).is_none());
}

#[test]
fn unicast_response_is_rewrapped_for_the_sender() {
    let sender = AgentId::new("web", "sender", AUD);
    let receiver = AgentId::new("web", "receiver", AUD);
    let mut store = Store::new();
    store.insert_room(7, AUD, RoomTime { opens_at: None, closes_at: None }).unwrap();
    store.upsert_agent(&sender, 7, Status::Ready, 0).unwrap();
    store.upsert_agent(&receiver, 7, Status::Ready, 0).unwrap();
    let mut context = Context::new(store, 4, AgentId::new("alpha", "conference", "dev.svc.example.org"), 0, 25);

    let data: serde_json::Value = serde_json::from_str("{\"k\":\"v\"}").unwrap();
    let out = UnicastHandler::handle(&mut context, UnicastRequest { agent_id: receiver.duplicate(), room_id: 7, data }, &reqp("sender"))
        .unwrap();
    let token = match &out[0] {
        OutgoingMessage::Request { correlation: Some(t), response_topic: Some(rt), .. } => {
            assert_eq!(
                *rt,
                "agents/web.receiver.dev.usr.example.org/api/v1/out/conference.dev.svc.example.org"
            );
            *t
        }
        other => panic!("unexpected message: {:?}", other),
    };
    assert_eq!(context.correlations.len(), 1);

    let answer: serde_json::Value = serde_json::from_str("{\"ok\":true}").unwrap();
    let msgs = handle_response(&mut context, answer.clone(), &ResponseProperties {
            status: 201,
            correlation: token,
            tracking: Tracking { tracking_id: "backend-track".to_string(), session_tracking_label: "backend-session".to_string() },
            local_tracking_label: None,
            long_term_timing: LongTermTiming {
                local_initial_timediff: None,
                initial_timestamp: Some(1),
                broker_timestamp: None,
                broker_processing_time: None,
                cumulative_authorization_time: None,
                cumulative_processing_time: Some(100),
            },
        });
    assert_eq!(msgs.len(), 1);
    match &msgs[0] {
        OutgoingMessage::Response { topic, status, correlation_data, payload: Payload::Json(body), props } => {
            assert_eq!(props.tracking.as_ref().unwrap().tracking_id, "backend-track");
            assert!(props.local_tracking_label.is_none());
            assert_eq!(props.short_term_timing, 25);
            assert_eq!(props.long_term_timing.unwrap().cumulative_processing_time, Some(125));
            assert_eq!(props.long_term_timing.unwrap().initial_timestamp, Some(1));
            assert_eq!(*topic, reqp("sender").response_topic);
            assert_eq!(*status, 201);
            assert_eq!(correlation_data, "corr-sender");
            assert_eq!(*body, answer);
        }
        other => panic!("unexpected message: {:?}", other),
    }
    assert_eq!(context.correlations.len(), 0);

    let again = handle_response(&mut context, answer, &ResponseProperties {
            status: 200,
            correlation: token,
            tracking: Tracking { tracking_id: "backend-track".to_string(), session_tracking_label: "backend-session".to_string() },
            local_tracking_label: None,
            long_term_timing: LongTermTiming {
                local_initial_timediff: None,
                initial_timestamp: Some(1),
                broker_timestamp: None,
                broker_processing_time: None,
                cumulative_authorization_time: None,
                cumulative_processing_time: Some(100),
            },
        });
    assert_eq!(again.len(), 0);
}

#[test]
fn unicast_table_stays_bounded() {
    let sender = AgentId::new("web", "sender", AUD);
    let mut store = Store::new();
    store.insert_room(7, AUD, RoomTime { opens_at: None, closes_at: None }).unwrap();
    store.upsert_agent(&sender, 7, Status::Ready, 0).unwrap();
    let mut context = Context::new(store, 2, AgentId::new("alpha", "conference", "dev.svc.example.org"), 0, 25);
    for _ in 0..5 {
        let data: serde_json::Value = serde_json::from_str("1").unwrap();
        UnicastHandler::handle(&mut context, UnicastRequest { agent_id: sender.duplicate(), room_id: 7, data }, &reqp("sender"))
            .unwrap();
        assert!(context.correlations.len() <= 2);
    }
    assert_eq!(context.correlations.len(), 2);
}
