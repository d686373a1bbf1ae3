use conference::agent::Status;
use conference::context::Context;
use conference::dispatch::{handle_request, method_of, IncomingRequest, Method};
use conference::correlation::RequestProperties;
use conference::ids::AgentId;
use conference::outbound::{LongTermTiming, Tracking};
use conference::message::{BroadcastHandler, BroadcastRequest, UnicastHandler, UnicastRequest};
use conference::outbound::{OutgoingMessage, Payload};
use conference::store::{RoomTime, Store};

const USR_AUDIENCE: &str = "dev.usr.example.org";
const SVC_AUDIENCE: &str = "dev.svc.example.org";
const NOW: i64 = 1_600_000_000_000;
const ROOM: u128 = 0x1111_2222_3333_4444_5555_6666_7777_8888;

fn service_agent() -> AgentId {
    AgentId::new("alpha", "conference", SVC_AUDIENCE)
}

fn request_properties(agent: &AgentId, method: &str) -> RequestProperties {
    RequestProperties {
        method: method.to_string(),
        agent_id: agent.duplicate(),
        correlation_data: "corr-1".to_string(),
        response_topic: format!("agents/{}/api/v1/in/conference.{}", agent.to_text(), SVC_AUDIENCE),
        tracking: Tracking { tracking_id: "track-1".to_string(), session_tracking_label: "session-1".to_string() },
        local_tracking_label: Some("label-1".to_string()),
        long_term_timing: LongTermTiming {
            local_initial_timediff: None,
            initial_timestamp: Some(1),
            broker_timestamp: None,
            broker_processing_time: None,
            cumulative_authorization_time: None,
            cumulative_processing_time: Some(100),
        },
    }
}

fn open_room(store: &mut Store) {
    let time = RoomTime { opens_at: Some(NOW - 60_000), closes_at: Some(NOW + 3_600_000) };
    store.insert_room(ROOM, USR_AUDIENCE, time).expect("Failed to insert room");
}

fn enter(store: &mut Store, agent: &AgentId) {
    store.upsert_agent(agent, ROOM, Status::Ready, NOW).expect("Failed to insert agent");
}

fn key_value() -> serde_json::Value {
    serde_json::from_str("{\"key\":\"value\"}").unwrap()
}

fn context(store: Store) -> Context {
    Context::new(store, 16, service_agent(), NOW - 5, NOW)
}

#[test]
fn unicast_message() {
    let sender = AgentId::new("web", "sender", USR_AUDIENCE);
    let receiver = AgentId::new("web", "receiver", USR_AUDIENCE);
    let mut store = Store::new();
    open_room(&mut store);
    enter(&mut store, &sender);
    enter(&mut store, &receiver);
    let mut context = context(store);

    let payload = UnicastRequest { agent_id: receiver.duplicate(), room_id: ROOM, data: key_value() };
    let messages = UnicastHandler::handle(&mut context, payload, &request_properties(&sender, "message.unicast"))
        .expect("Unicast message sending failed");

    assert_eq!(messages.len(), 1);
    match &messages[0] {
        OutgoingMessage::Request { topic, payload: Payload::Json(data), .. } => {
            let expected_topic = format!("agents/{}/api/{}/in/conference.{}", receiver.to_text(), "v1", SVC_AUDIENCE);
            assert_eq!(*topic, expected_topic);
            assert_eq!(*data, key_value());
        }
        other => panic!("unexpected message: {:?}", other),
    }
}

#[test]
fn unicast_message_to_missing_room() {
    let sender = AgentId::new("web", "sender", USR_AUDIENCE);
    let receiver = AgentId::new("web", "receiver", USR_AUDIENCE);
    let mut context = context(Store::new());

    let payload = UnicastRequest { agent_id: receiver.duplicate(), room_id: 0xdead_beef, data: key_value() };
    let err = UnicastHandler::handle(&mut context, payload, &request_properties(&sender, "message.unicast"))
        .expect_err("Unexpected success on unicast message sending");

    assert_eq!(err.status(), 404);
    assert_eq!(err.kind(), "room_not_found");
}

#[test]
fn unicast_message_when_sender_is_not_in_the_room() {
    let sender = AgentId::new("web", "sender", USR_AUDIENCE);
    let receiver = AgentId::new("web", "receiver", USR_AUDIENCE);
    let mut store = Store::new();
    open_room(&mut store);
    enter(&mut store, &receiver);
    let mut context = context(store);

    let payload = UnicastRequest { agent_id: receiver.duplicate(), room_id: ROOM, data: key_value() };
    let err = UnicastHandler::handle(&mut context, payload, &request_properties(&sender, "message.unicast"))
        .expect_err("Unexpected success on unicast message sending");

    assert_eq!(err.status(), 404);
    assert_eq!(err.kind(), "agent_not_entered_the_room");
}

#[test]
fn unicast_message_when_receiver_is_not_in_the_room() {
    let sender = AgentId::new("web", "sender", USR_AUDIENCE);
    let receiver = AgentId::new("web", "receiver", USR_AUDIENCE);
    let mut store = Store::new();
    open_room(&mut store);
    enter(&mut store, &sender);
    let mut context = context(store);

    let payload = UnicastRequest { agent_id: receiver.duplicate(), room_id: ROOM, data: key_value() };
    let err = UnicastHandler::handle(&mut context, payload, &request_properties(&sender, "message.unicast"))
        .expect_err("Unexpected success on unicast message sending");

    assert_eq!(err.status(), 404);
    assert_eq!(err.kind(), "agent_not_entered_the_room");
}

#[test]
fn broadcast_message() {
    let sender = AgentId::new("web", "sender", USR_AUDIENCE);
    let mut store = Store::new();
    open_room(&mut store);
    enter(&mut store, &sender);
    let context = context(store);

    let payload = BroadcastRequest { room_id: ROOM, data: key_value(), label: None };
    let messages = BroadcastHandler::handle(&context, payload, &request_properties(&sender, "message.broadcast"))
        .expect("Broadcast message sending failed");

    assert_eq!(messages.len(), 2);
    match &messages[0] {
        OutgoingMessage::Response { status, payload: Payload::Empty, props, .. } => {
            assert_eq!(*status, 200);
            assert_eq!(props.tracking.as_ref().unwrap().tracking_id, "track-1");
            assert_eq!(props.long_term_timing.unwrap().cumulative_processing_time, Some(105));
        }
        other => panic!("unexpected message: {:?}", other),
    }
    match &messages[1] {
        OutgoingMessage::Event { topic, label, payload: Payload::Json(data), props } => {
            assert_eq!(props.short_term_timing, 5);
            assert!(props.long_term_timing.is_none());
            let expected_topic = format!(
                "apps/conference.{}/api/{}/rooms/{}/events",
                SVC_AUDIENCE,
                "v1",
                uuid::Uuid::from_u128(ROOM),
            );
            assert_eq!(*topic, expected_topic);
            assert_eq!(label, "message.broadcast");
            assert_eq!(*data, key_value());
        }
        other => panic!("unexpected message: {:?}", other),
    }
}

#[test]
fn broadcast_message_to_missing_room() {
    let sender = AgentId::new("web", "sender", USR_AUDIENCE);
    let context = context(Store::new());

    let payload = BroadcastRequest { room_id: 0xdead_beef, data: key_value(), label: None };
    let err = BroadcastHandler::handle(&context, payload, &request_properties(&sender, "message.broadcast"))
        .expect_err("Unexpected success on unicast message sending");

    assert_eq!(err.status(), 404);
    assert_eq!(err.kind(), "room_not_found");
}

#[test]
fn broadcast_message_when_not_in_the_room() {
    let sender = AgentId::new("web", "sender", USR_AUDIENCE);
    let mut store = Store::new();
    open_room(&mut store);
    let context = context(store);

    let payload = BroadcastRequest { room_id: ROOM, data: key_value(), label: None };
    let err = BroadcastHandler::handle(&context, payload, &request_properties(&sender, "message.broadcast"))
        .expect_err("Unexpected success on unicast message sending");

    assert_eq!(err.status(), 404);
    assert_eq!(err.kind(), "agent_not_entered_the_room");
}

#[test]
fn dispatch_turns_failure_into_error_response() {
    assert_eq!(method_of("message.unicast"), Some(Method::MessageUnicast));
    assert_eq!(method_of("system.vacuum"), Some(Method::SystemVacuum));
    assert_eq!(method_of("room.enter"), None);

    let sender = AgentId::new("web", "sender", USR_AUDIENCE);
    let mut context = context(Store::new());
    let request = IncomingRequest::Broadcast(BroadcastRequest { room_id: ROOM, data: key_value(), label: None });
    let reqp = request_properties(&sender, "message.broadcast");
    let out = handle_request(&mut context, request, &reqp);
    assert_eq!(out.len(), 1);
    match &out[0] {
        OutgoingMessage::Response { topic, status, payload: Payload::Error { kind, title, .. }, .. } => {
            assert_eq!(*topic, reqp.response_topic);
            assert_eq!(*status, 404);
            assert_eq!(kind, "room_not_found");
            assert_eq!(title, "Room not found");
        }
        other => panic!("unexpected message: {:?}", other),
    }
}

#[test]
fn dispatch_passes_handler_messages_through() {
    let sender = AgentId::new("web", "sender", USR_AUDIENCE);
    let mut store = Store::new();
    open_room(&mut store);
    enter(&mut store, &sender);
    let mut context = context(store);
    let request = IncomingRequest::Broadcast(BroadcastRequest { room_id: ROOM, data: key_value(), label: None });
    let out = handle_request(&mut context, request, &request_properties(&sender, "message.broadcast"));
    assert_eq!(out.len(), 2);
}
