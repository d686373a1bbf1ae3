use conference::agent::Status;
use conference::context::Context;
use conference::correlation::RequestProperties;
use conference::error::AuthzError;
use conference::ids::AgentId;
use conference::outbound::{LongTermTiming, Tracking};
use conference::outbound::{OutgoingMessage, Payload};
use conference::store::{Backend, RecordingStatus, RoomTime, Store};
use conference::system::{VacuumHandler, VacuumRequest};

const USR_AUDIENCE: &str = "dev.usr.example.org";
const SVC_AUDIENCE: &str = "dev.svc.example.org";
const NOW: i64 = 1_600_000_000_000;
const HOUR: i64 = 3_600_000;

fn service_agent() -> AgentId {
    AgentId::new("alpha", "conference", SVC_AUDIENCE)
}

fn request_properties(agent: &AgentId) -> RequestProperties {
    RequestProperties {
        method: "system.vacuum".to_string(),
        agent_id: agent.duplicate(),
        correlation_data: "corr-1".to_string(),
        response_topic: format!("agents/{}/api/v1/in/conference.{}", agent.to_text(), SVC_AUDIENCE),
        tracking: Tracking { tracking_id: "track-1".to_string(), session_tracking_label: "session-1".to_string() },
        local_tracking_label: Some("label-1".to_string()),
        long_term_timing: LongTermTiming {
            local_initial_timediff: None,
            initial_timestamp: Some(1),
            broker_timestamp: None,
            broker_processing_time: None,
            cumulative_authorization_time: None,
            cumulative_processing_time: Some(100),
        },
    }
}

fn backend_id() -> AgentId {
    AgentId::new("janus-gateway", "janus", SVC_AUDIENCE)
}

/// Two finished rooms with an active agent and an `in_progress` recording
/// each, and one room that is still open with an RTC.
fn closed_rooms_store(agent: &AgentId) -> (Store, Vec<(u128, u128)>) {
    let mut store = Store::new();
    store
        .insert_backend(Backend { id: backend_id(), session_id: 123, handle_id: 456, capacity: Some(10), reserve: None })
        .unwrap();
    let start = NOW - 2 * HOUR;
    let finish = start + HOUR;
    let mut rtcs = Vec::new();
    for k in 0..2u128 {
        let room_id = 0x100 + k;
        let rtc_id = 0x200 + k;
        store
            .insert_room(room_id, USR_AUDIENCE, RoomTime { opens_at: Some(start), closes_at: Some(finish) })
            .unwrap();
        store.insert_rtc(rtc_id, room_id).unwrap();
        store.upsert_agent(agent, room_id, Status::Ready, start).unwrap();
        store.insert_recording(rtc_id, &backend_id()).unwrap();
        rtcs.push((room_id, rtc_id));
    }
    store
        .insert_room(0x300, USR_AUDIENCE, RoomTime { opens_at: Some(NOW - HOUR), closes_at: Some(NOW + HOUR) })
        .unwrap();
    store.insert_rtc(0x400, 0x300).unwrap();
    (store, rtcs)
}

#[test]
fn vacuum_system() {
    let user = AgentId::new("web", "user123", USR_AUDIENCE);
    let (store, rtcs) = closed_rooms_store(&user);
    let mut context = Context::new(store, 16, service_agent(), NOW - 5, NOW);

    let cron = AgentId::new("alpha", "cron", SVC_AUDIENCE);
    let messages = VacuumHandler::handle(&mut context, VacuumRequest {}, &request_properties(&cron), Ok(()))
        .expect("System vacuum failed");

    assert!(messages.len() > 0);

    for (room_id, rtc_id) in rtcs {
        let (topic, body) = messages
            .iter()
            .find_map(|m| match m {
                OutgoingMessage::Request { topic, method, payload: Payload::UploadStream(b), .. }
                    if method == "stream.upload" && b.id == rtc_id => Some((topic.clone(), b)),
                _ => None,
            })
            .expect("Failed to find stream.upload message for rtc");

        assert_eq!(
            topic,
            format!("agents/{}/api/{}/in/conference.{}", backend_id().to_text(), "v1", SVC_AUDIENCE)
        );
        assert_eq!(body.session_id, 123);
        assert_eq!(body.handle_id, 456);
        assert_eq!(body.bucket, format!("origin.webinar.{}", USR_AUDIENCE));
        assert_eq!(body.object, format!("{}.source.webm", uuid::Uuid::from_u128(rtc_id)));

        let left = context.store.agents().iter().filter(|row| row.room_id == room_id).count();
        assert_eq!(left, 0);

        let recording = context
            .store
            .recordings()
            .iter()
            .find(|r| r.rtc_id == rtc_id)
            .expect("Failed to get recording from the DB");
        assert_eq!(recording.status, RecordingStatus::InProgress);

        messages
            .iter()
            .find(|m| match m {
                OutgoingMessage::Event { label, payload: Payload::Room(room), .. } => {
                    label == "room.close" && room.id == room_id
                }
                _ => false,
            })
            .expect("Failed to find room.close event for given rtc");
    }
}

#[test]
fn vacuum_system_unauthorized() {
    let user = AgentId::new("web", "user123", USR_AUDIENCE);
    let (store, _) = closed_rooms_store(&user);
    let mut context = Context::new(store, 16, service_agent(), NOW - 5, NOW);

    let denied = AuthzError::Forbidden("web.user123 may not update system".to_string());
    let err = VacuumHandler::handle(&mut context, VacuumRequest {}, &request_properties(&user), Err(denied))
        .expect_err("Unexpected success on system vacuum");

    assert_eq!(err.status(), 403);
    assert_eq!(err.kind(), "access_denied");
    assert_eq!(context.store.agents().len(), 2);
}

#[test]
fn vacuum_emits_upload_then_close_per_recording() {
    let user = AgentId::new("web", "user123", USR_AUDIENCE);
    let (store, rtcs) = closed_rooms_store(&user);
    let mut context = Context::new(store, 16, service_agent(), NOW - 5, NOW);
    let cron = AgentId::new("alpha", "cron", SVC_AUDIENCE);
    let messages = VacuumHandler::handle(&mut context, VacuumRequest {}, &request_properties(&cron), Ok(())).unwrap();

    assert_eq!(messages.len(), 4);
    for (k, (room_id, rtc_id)) in rtcs.iter().enumerate() {
        match &messages[2 * k] {
            OutgoingMessage::Request { payload: Payload::UploadStream(b), .. } => assert_eq!(b.id, *rtc_id),
            other => panic!("unexpected message: {:?}", other),
        }
        match &messages[2 * k + 1] {
            OutgoingMessage::Event { topic, label, payload: Payload::Room(room), props } => {
                assert_eq!(props.short_term_timing, 5);
                assert_eq!(props.tracking.as_ref().unwrap().tracking_id, "track-1");
                assert_eq!(label, "room.close");
                assert_eq!(room.id, *room_id);
                assert_eq!(
                    *topic,
                    format!("apps/conference.{}/api/v1/rooms/{}/events", SVC_AUDIENCE, uuid::Uuid::from_u128(*room_id))
                );
            }
            other => panic!("unexpected message: {:?}", other),
        }
    }
}

#[test]
fn vacuum_twice_sends_each_upload_once() {
    let user = AgentId::new("web", "user123", USR_AUDIENCE);
    let (store, _) = closed_rooms_store(&user);
    let mut context = Context::new(store, 16, service_agent(), NOW - 5, NOW);
    let cron = AgentId::new("alpha", "cron", SVC_AUDIENCE);
    let first = VacuumHandler::handle(&mut context, VacuumRequest {}, &request_properties(&cron), Ok(())).unwrap();
    let second = VacuumHandler::handle(&mut context, VacuumRequest {}, &request_properties(&cron), Ok(())).unwrap();

    assert_eq!(first.len(), 4);
    assert!(second.is_empty());
    assert_eq!(context.store.agents().len(), 0);
    assert!(context.store.recordings().iter().all(|r| r.status == RecordingStatus::InProgress));
}

#[test]
fn vacuum_authz_request_asks_for_system_update() {
    let context = Context::new(Store::new(), 16, service_agent(), NOW - 5, NOW);
    let cron = AgentId::new("alpha", "cron", SVC_AUDIENCE);
    let req = VacuumHandler::authz_request(&context, &request_properties(&cron));
    assert_eq!(req.audience, SVC_AUDIENCE);
    assert_eq!(req.object, vec!["system".to_string()]);
    assert_eq!(req.action, "update");
    assert_eq!(req.subject.to_text(), "alpha.cron.dev.svc.example.org");
}

#[test]
fn vacuum_authorization_service_failure() {
    let mut context = Context::new(Store::new(), 16, service_agent(), NOW - 5, NOW);
    let cron = AgentId::new("alpha", "cron", SVC_AUDIENCE);
    let err = VacuumHandler::handle(
        &mut context,
        VacuumRequest {},
        &request_properties(&cron),
        Err(AuthzError::Failed("timeout".to_string())),
    )
    .unwrap_err();
    assert_eq!(err.status(), 422);
    assert_eq!(err.kind(), "authorization_failed");
}
