use conference::correlation::RequestProperties;
use conference::error::{AuthzError, ErrorKind};
use conference::ids::AgentId;
use conference::outbound::{LongTermTiming, Tracking};
use conference::outbound::{OutgoingMessage, Payload};
use conference::room::{CreateRequestData, State};
use conference::store::{Recording, RecordingStatus, Room, RoomTime, Store};
use conference::system::{bucket_name, record_name, upload_event};

const AUD: &str = "dev.usr.example.org";

fn room() -> Room {
    Room { id: 5, audience: AUD.to_string(), time: RoomTime { opens_at: None, closes_at: Some(10) }, backend_id: None }
}

fn recording(rtc_id: u128, status: RecordingStatus) -> Recording {
    Recording {
        rtc_id,
        backend_id: AgentId::new("janus", "janus", AUD),
        status,
        segments: Some(vec![(0, 1500), (2000, 3000)]),
        started_at: Some(1_000),
    }
}

fn tracking() -> Tracking {
    Tracking { tracking_id: "track-9".to_string(), session_tracking_label: "session-9".to_string() }
}

fn me() -> AgentId {
    AgentId::new("alpha", "conference", "dev.svc.example.org")
}

#[test]
fn bucket_and_record_names() {
    assert_eq!(bucket_name(&room()), "origin.webinar.dev.usr.example.org");
    assert_eq!(record_name(0x0123_4567_89ab_cdef_0123_4567_89ab_cdef), "01234567-89ab-cdef-0123-456789abcdef.source.webm");
}

#[test]
fn upload_event_lists_ready_and_missing_recordings() {
    let recs = vec![recording(1, RecordingStatus::Ready), recording(2, RecordingStatus::Missing)];
    match upload_event(&room(), &recs, &me(), &tracking(), 990, 1_000).unwrap() {
        OutgoingMessage::Event { topic, label, payload: Payload::RoomUpload(data), props } => {
            assert_eq!(props.short_term_timing, 10);
            assert_eq!(props.tracking.as_ref().unwrap().tracking_id, "track-9");
            assert!(props.long_term_timing.is_none());
            assert_eq!(topic, "apps/conference.dev.svc.example.org/api/v1/audiences/dev.usr.example.org/events");
            assert_eq!(label, "room.upload");
            assert_eq!(data.id, 5);
            assert_eq!(data.rtcs.len(), 2);
            assert_eq!(
                data.rtcs[0].uri.as_deref(),
                Some("s3://origin.webinar.dev.usr.example.org/00000000-0000-0000-0000-000000000001.source.webm")
            );
            assert_eq!(data.rtcs[0].segments, Some(vec![(0, 1500), (2000, 3000)]));
            assert_eq!(data.rtcs[0].started_at, Some(1_000));
            assert_eq!(data.rtcs[1].status, RecordingStatus::Missing);
            assert!(data.rtcs[1].uri.is_none());
        }
        other => panic!("unexpected message: {:?}", other),
    }
}

#[test]
fn upload_event_rejects_in_progress_recording() {
    let recs = vec![recording(1, RecordingStatus::Ready), recording(2, RecordingStatus::InProgress)];
    let err = upload_event(&room(), &recs, &me(), &tracking(), 990, 1_000).unwrap_err();
    assert_eq!(err, "unexpected recording in in_progress status, rtc_id = '00000000-0000-0000-0000-000000000002'");
}

fn reqp() -> RequestProperties {
    RequestProperties {
        method: "room.create".to_string(),
        agent_id: AgentId::new("web", "admin", AUD),
        correlation_data: "c".to_string(),
        response_topic: "agents/web.admin.dev.usr.example.org/api/v1/in/conference.dev.svc.example.org".to_string(),
        tracking: Tracking { tracking_id: "track-1".to_string(), session_tracking_label: "session-1".to_string() },
        local_tracking_label: Some("label-1".to_string()),
        long_term_timing: LongTermTiming {
            local_initial_timediff: None,
            initial_timestamp: Some(1),
            broker_timestamp: None,
            broker_processing_time: None,
            cumulative_authorization_time: None,
            cumulative_processing_time: Some(100),
        },
    }
}

#[test]
fn room_create_checks_authz_and_time() {
    let mut state = State::new(Store::new());
    let data = CreateRequestData { time: RoomTime { opens_at: Some(1), closes_at: Some(2) }, audience: AUD.to_string() };
    let req = state.authz_request(&data, &reqp());
    assert_eq!(req.object, vec!["rooms".to_string()]);
    assert_eq!(req.action, "create");

    let err = state.create(3, &data, &reqp(), Err(AuthzError::Forbidden("no".to_string())), 0, 10).unwrap_err();
    assert_eq!(err.error_kind(), ErrorKind::AccessDenied);

    match state.create(3, &data, &reqp(), Ok(()), 0, 10).unwrap() {
        OutgoingMessage::Response { status, payload: Payload::Room(room), .. } => {
            assert_eq!(status, 200);
            assert_eq!(room.id, 3);
        }
        other => panic!("unexpected message: {:?}", other),
    }
    let bad = CreateRequestData { time: RoomTime { opens_at: Some(3), closes_at: Some(2) }, audience: AUD.to_string() };
    assert_eq!(state.create(4, &bad, &reqp(), Ok(()), 0, 10).unwrap_err().error_kind(), ErrorKind::InvalidRoomTime);
}

#[test]
fn names_from_identity_text() {
    assert_eq!(conference::system::record_name_from("abc"), "abc.source.webm");
    assert_eq!(conference::outbound::room_events_path_from("abc"), "rooms/abc/events");
    assert_eq!(
        conference::outbound::room_events_path_of(1),
        "rooms/00000000-0000-0000-0000-000000000001/events"
    );
    assert_eq!(conference::outbound::audience_events_path_of("aud"), "audiences/aud/events");
}
