use conference::correlation::RequestProperties;
use conference::error::{AuthzError, Error, ErrorExt, ErrorKind};
use conference::ids::AgentId;
use conference::outbound::{LongTermTiming, Tracking};
use conference::outbound::{error_response, OutgoingMessage, Payload};

#[test]
fn error_table_matches_contract() {
    let table = [
        (ErrorKind::AccessDenied, 403, "access_denied"),
        (ErrorKind::AgentNotEnteredTheRoom, 404, "agent_not_entered_the_room"),
        (ErrorKind::RoomNotFound, 404, "room_not_found"),
        (ErrorKind::RoomClosed, 404, "room_closed"),
        (ErrorKind::InvalidPayload, 400, "invalid_payload"),
        (ErrorKind::MessageParsingFailed, 400, "message_parsing_failed"),
        (ErrorKind::DbQueryFailed, 422, "database_query_failed"),
        (ErrorKind::BackendRequestFailed, 424, "backend_request_failed"),
        (ErrorKind::BackendNotFound, 404, "backend_not_found"),
        (ErrorKind::CapacityExceeded, 503, "capacity_exceeded"),
        (ErrorKind::NoAvailableBackends, 503, "no_available_backends"),
        (ErrorKind::NotImplemented, 501, "not_implemented"),
    ];
    for (kind, status, code) in table {
        assert_eq!(kind.status(), status);
        assert_eq!(kind.kind(), code);
    }
}

#[test]
fn error_titles_and_alert_flags() {
    assert_eq!(ErrorKind::AccessDenied.title(), "Access denied");
    assert!(!ErrorKind::AccessDenied.is_notify_sentry());
    assert_eq!(ErrorKind::DbConnAcquisitionFailed.kind(), "database_connection_acquisition_failed");
    assert_eq!(ErrorKind::DbConnAcquisitionFailed.status(), 422);
    assert!(ErrorKind::DbConnAcquisitionFailed.is_notify_sentry());
    assert_eq!(ErrorKind::ResubscriptionFailed.status(), 500);
    assert_eq!(ErrorKind::_BackendRequestTimedOut.kind(), "backend_request_timed_out");
    assert_eq!(ErrorKind::RtcNotFound.title(), "RTC not found");
}

#[test]
fn error_accessors_and_message() {
    let err = Error::new(ErrorKind::RoomClosed, "closed at noon".to_string());
    assert_eq!(err.error_kind(), ErrorKind::RoomClosed);
    assert_eq!(err.status(), 404);
    assert_eq!(err.kind(), "room_closed");
    assert_eq!(err.title(), "Room closed");
    assert_eq!(err.source(), "closed at noon");
    assert_eq!(err.message(), "Room closed: closed at noon");
}

#[test]
fn authz_errors_split_into_denied_and_failed() {
    let denied = Error::from_authz(AuthzError::Forbidden("no".to_string()));
    assert_eq!(denied.error_kind(), ErrorKind::AccessDenied);
    let failed = Error::from_authz(AuthzError::Failed("down".to_string()));
    assert_eq!(failed.error_kind(), ErrorKind::AuthorizationFailed);
    assert_eq!(failed.source(), "down");
}

#[test]
fn error_ext_attaches_kind() {
    let ok: Result<u8, String> = Ok(7);
    assert_eq!(ok.error(ErrorKind::InvalidPayload).ok(), Some(7));
    let bad: Result<u8, String> = Err("not json".to_string());
    let err = bad.error(ErrorKind::InvalidPayload).unwrap_err();
    assert_eq!(err.kind(), "invalid_payload");
    assert_eq!(err.source(), "not json");
}

#[test]
fn error_response_carries_status_code_and_title() {
    let agent = AgentId::new("web", "sender", "dev.usr.example.org");
    let reqp = RequestProperties {
        method: "message.unicast".to_string(),
        agent_id: agent,
        correlation_data: "c-9".to_string(),
        response_topic: "agents/web.sender.dev.usr.example.org/api/v1/in/x".to_string(),
        tracking: Tracking { tracking_id: "track-1".to_string(), session_tracking_label: "session-1".to_string() },
        local_tracking_label: Some("label-1".to_string()),
        long_term_timing: LongTermTiming {
            local_initial_timediff: None,
            initial_timestamp: Some(1),
            broker_timestamp: None,
            broker_processing_time: None,
            cumulative_authorization_time: None,
            cumulative_processing_time: Some(100),
        },
    };
    let err = Error::new(ErrorKind::AgentNotEnteredTheRoom, "receiver is away".to_string());
    match error_response(&err, &reqp, 7) {
        OutgoingMessage::Response { topic, status, correlation_data, payload: Payload::Error { status: s, kind, title, detail }, props } => {
            assert_eq!(props.short_term_timing, 7);
            assert_eq!(props.local_tracking_label.as_deref(), Some("label-1"));
            assert_eq!(props.long_term_timing.unwrap().cumulative_processing_time, Some(107));
            assert_eq!(topic, "agents/web.sender.dev.usr.example.org/api/v1/in/x");
            assert_eq!(status, 404);
            assert_eq!(s, 404);
            assert_eq!(correlation_data, "c-9");
            assert_eq!(kind, "agent_not_entered_the_room");
            assert_eq!(title, "Agent not entered the room");
            assert_eq!(detail, "receiver is away");
        }
        other => panic!("unexpected message: {:?}", other),
    }
}
