use vstd::prelude::*;
use vstd::string::StringExecFns;

verus! {

/// The closed set of failure kinds. Each kind fixes the status, the stable
/// code, the human title and whether the failure goes to the alert sink.
#[derive(Debug, Clone, Copy, Hash, PartialEq, Eq, Structural)]
pub enum ErrorKind {
    AccessDenied,
    AgentNotConnected,
    AgentNotEnteredTheRoom,
    AuthorizationFailed,
    BackendRecordingMissing,
    BackendRequestFailed,
    BackendClientCreationFailed,
    _BackendRequestTimedOut,
    BackendNotFound,
    BrokerRequestFailed,
    CapacityExceeded,
    ConfigKeyMissing,
    DbConnAcquisitionFailed,
    DbQueryFailed,
    InvalidHandleId,
    InvalidJsepFormat,
    InvalidRoomTime,
    InvalidSdpType,
    InvalidSubscriptionObject,
    InvalidPayload,
    MessageBuildingFailed,
    MessageHandlingFailed,
    MessageParsingFailed,
    NoAvailableBackends,
    NotImplemented,
    PublishFailed,
    ResubscriptionFailed,
    RoomClosed,
    RoomNotFound,
    RoomTimeChangingForbidden,
    RtcNotFound,
}

/// What a kind stands for on the bus.
pub struct ErrorKindProperties {
    pub status: u16,
    pub kind: &'static str,
    pub title: &'static str,
    pub is_notify_sentry: bool,
}

/// The error table: status, code, title and alert flag of every kind.
pub open spec fn kind_properties(k: ErrorKind) -> ErrorKindProperties {
    match k {
            ErrorKind::AccessDenied => ErrorKindProperties { status: 403, kind: "access_denied", title: "Access denied", is_notify_sentry: false },
            ErrorKind::AgentNotConnected => ErrorKindProperties { status: 422, kind: "agent_not_connected", title: "Agent not connected to the RTC", is_notify_sentry: false },
            ErrorKind::AgentNotEnteredTheRoom => ErrorKindProperties { status: 404, kind: "agent_not_entered_the_room", title: "Agent not entered the room", is_notify_sentry: false },
            ErrorKind::AuthorizationFailed => ErrorKindProperties { status: 422, kind: "authorization_failed", title: "Authorization failed", is_notify_sentry: false },
            ErrorKind::BackendRecordingMissing => ErrorKindProperties { status: 422, kind: "backend_recording_missing", title: "Janus recording missing", is_notify_sentry: true },
            ErrorKind::BackendRequestFailed => ErrorKindProperties { status: 424, kind: "backend_request_failed", title: "Janus request failed", is_notify_sentry: true },
            ErrorKind::BackendClientCreationFailed => ErrorKindProperties { status: 424, kind: "backend_client_creation_failed", title: "Janus create client failed", is_notify_sentry: true },
            ErrorKind::_BackendRequestTimedOut => ErrorKindProperties { status: 424, kind: "backend_request_timed_out", title: "Janus request timed out", is_notify_sentry: true },
            ErrorKind::BackendNotFound => ErrorKindProperties { status: 404, kind: "backend_not_found", title: "Backend not found", is_notify_sentry: true },
            ErrorKind::BrokerRequestFailed => ErrorKindProperties { status: 422, kind: "broker_request_failed", title: "Broker request failed", is_notify_sentry: true },
            ErrorKind::CapacityExceeded => ErrorKindProperties { status: 503, kind: "capacity_exceeded", title: "Capacity exceeded", is_notify_sentry: true },
            ErrorKind::ConfigKeyMissing => ErrorKindProperties { status: 422, kind: "config_key_missing", title: "Config key missing", is_notify_sentry: true },
            ErrorKind::DbConnAcquisitionFailed => ErrorKindProperties { status: 422, kind: "database_connection_acquisition_failed", title: "Database connection acquisition failed", is_notify_sentry: true },
            ErrorKind::DbQueryFailed => ErrorKindProperties { status: 422, kind: "database_query_failed", title: "Database query failed", is_notify_sentry: true },
            ErrorKind::InvalidHandleId => ErrorKindProperties { status: 400, kind: "invalid_handle_id", title: "Invalid handle ID", is_notify_sentry: false },
            ErrorKind::InvalidJsepFormat => ErrorKindProperties { status: 400, kind: "invalid_jsep_format", title: "Invalid JSEP format", is_notify_sentry: false },
            ErrorKind::InvalidRoomTime => ErrorKindProperties { status: 400, kind: "invalid_room_time", title: "Invalid room time", is_notify_sentry: true },
            ErrorKind::InvalidSdpType => ErrorKindProperties { status: 400, kind: "invalid_sdp_type", title: "Invalid SDP type", is_notify_sentry: false },
            ErrorKind::InvalidSubscriptionObject => ErrorKindProperties { status: 400, kind: "invalid_subscription_object", title: "Invalid subscription object", is_notify_sentry: true },
            ErrorKind::InvalidPayload => ErrorKindProperties { status: 400, kind: "invalid_payload", title: "Invalid payload", is_notify_sentry: false },
            ErrorKind::MessageBuildingFailed => ErrorKindProperties { status: 422, kind: "message_building_failed", title: "Message building failed", is_notify_sentry: true },
            ErrorKind::MessageHandlingFailed => ErrorKindProperties { status: 422, kind: "message_handling_failed", title: "Message handling failed", is_notify_sentry: true },
            ErrorKind::MessageParsingFailed => ErrorKindProperties { status: 400, kind: "message_parsing_failed", title: "Message parsing failed", is_notify_sentry: true },
            ErrorKind::NoAvailableBackends => ErrorKindProperties { status: 503, kind: "no_available_backends", title: "No available backends", is_notify_sentry: true },
            ErrorKind::NotImplemented => ErrorKindProperties { status: 501, kind: "not_implemented", title: "Not implemented", is_notify_sentry: true },
            ErrorKind::PublishFailed => ErrorKindProperties { status: 422, kind: "publish_failed", title: "Publish failed", is_notify_sentry: true },
            ErrorKind::ResubscriptionFailed => ErrorKindProperties { status: 500, kind: "resubscription_failed", title: "Resubscription failed", is_notify_sentry: true },
            ErrorKind::RoomClosed => ErrorKindProperties { status: 404, kind: "room_closed", title: "Room closed", is_notify_sentry: false },
            ErrorKind::RoomNotFound => ErrorKindProperties { status: 404, kind: "room_not_found", title: "Room not found", is_notify_sentry: false },
            ErrorKind::RoomTimeChangingForbidden => ErrorKindProperties { status: 422, kind: "room_time_changing_forbidden", title: "Room time changing forbidden", is_notify_sentry: false },
            ErrorKind::RtcNotFound => ErrorKindProperties { status: 404, kind: "rtc_not_found", title: "RTC not found", is_notify_sentry: false },
    }
}

pub open spec fn kind_status(k: ErrorKind) -> u16 {
    kind_properties(k).status
}

pub open spec fn kind_code(k: ErrorKind) -> Seq<char> {
    kind_properties(k).kind@
}

pub open spec fn kind_title(k: ErrorKind) -> Seq<char> {
    kind_properties(k).title@
}

pub open spec fn kind_alerts(k: ErrorKind) -> bool {
    kind_properties(k).is_notify_sentry
}

impl ErrorKind {
    /// Looks the kind up in the error table.
    pub fn properties(self) -> (r: ErrorKindProperties)
        ensures
            r == kind_properties(self),
    {
        match self {
            ErrorKind::AccessDenied => ErrorKindProperties {
                status: 403,
                kind: "access_denied",
                title: "Access denied",
                is_notify_sentry: false,
            },
            ErrorKind::AgentNotConnected => ErrorKindProperties {
                status: 422,
                kind: "agent_not_connected",
                title: "Agent not connected to the RTC",
                is_notify_sentry: false,
            },
            ErrorKind::AgentNotEnteredTheRoom => ErrorKindProperties {
                status: 404,
                kind: "agent_not_entered_the_room",
                title: "Agent not entered the room",
                is_notify_sentry: false,
            },
            ErrorKind::AuthorizationFailed => ErrorKindProperties {
                status: 422,
                kind: "authorization_failed",
                title: "Authorization failed",
                is_notify_sentry: false,
            },
            ErrorKind::BackendRecordingMissing => ErrorKindProperties {
                status: 422,
                kind: "backend_recording_missing",
                title: "Janus recording missing",
                is_notify_sentry: true,
            },
            ErrorKind::BackendRequestFailed => ErrorKindProperties {
                status: 424,
                kind: "backend_request_failed",
                title: "Janus request failed",
                is_notify_sentry: true,
            },
            ErrorKind::BackendClientCreationFailed => ErrorKindProperties {
                status: 424,
                kind: "backend_client_creation_failed",
                title: "Janus create client failed",
                is_notify_sentry: true,
            },
            ErrorKind::_BackendRequestTimedOut => ErrorKindProperties {
                status: 424,
                kind: "backend_request_timed_out",
                title: "Janus request timed out",
                is_notify_sentry: true,
            },
            ErrorKind::BackendNotFound => ErrorKindProperties {
                status: 404,
                kind: "backend_not_found",
                title: "Backend not found",
                is_notify_sentry: true,
            },
            ErrorKind::BrokerRequestFailed => ErrorKindProperties {
                status: 422,
                kind: "broker_request_failed",
                title: "Broker request failed",
                is_notify_sentry: true,
            },
            ErrorKind::CapacityExceeded => ErrorKindProperties {
                status: 503,
                kind: "capacity_exceeded",
                title: "Capacity exceeded",
                is_notify_sentry: true,
            },
            ErrorKind::ConfigKeyMissing => ErrorKindProperties {
                status: 422,
                kind: "config_key_missing",
                title: "Config key missing",
                is_notify_sentry: true,
            },
            ErrorKind::DbConnAcquisitionFailed => ErrorKindProperties {
                status: 422,
                kind: "database_connection_acquisition_failed",
                title: "Database connection acquisition failed",
                is_notify_sentry: true,
            },
            ErrorKind::DbQueryFailed => ErrorKindProperties {
                status: 422,
                kind: "database_query_failed",
                title: "Database query failed",
                is_notify_sentry: true,
            },
            ErrorKind::InvalidHandleId => ErrorKindProperties {
                status: 400,
                kind: "invalid_handle_id",
                title: "Invalid handle ID",
                is_notify_sentry: false,
            },
            ErrorKind::InvalidJsepFormat => ErrorKindProperties {
                status: 400,
                kind: "invalid_jsep_format",
                title: "Invalid JSEP format",
                is_notify_sentry: false,
            },
            ErrorKind::InvalidRoomTime => ErrorKindProperties {
                status: 400,
                kind: "invalid_room_time",
                title: "Invalid room time",
                is_notify_sentry: true,
            },
            ErrorKind::InvalidSdpType => ErrorKindProperties {
                status: 400,
                kind: "invalid_sdp_type",
                title: "Invalid SDP type",
                is_notify_sentry: false,
            },
            ErrorKind::InvalidSubscriptionObject => ErrorKindProperties {
                status: 400,
                kind: "invalid_subscription_object",
                title: "Invalid subscription object",
                is_notify_sentry: true,
            },
            ErrorKind::InvalidPayload => ErrorKindProperties {
                status: 400,
                kind: "invalid_payload",
                title: "Invalid payload",
                is_notify_sentry: false,
            },
            ErrorKind::MessageBuildingFailed => ErrorKindProperties {
                status: 422,
                kind: "message_building_failed",
                title: "Message building failed",
                is_notify_sentry: true,
            },
            ErrorKind::MessageHandlingFailed => ErrorKindProperties {
                status: 422,
                kind: "message_handling_failed",
                title: "Message handling failed",
                is_notify_sentry: true,
            },
            ErrorKind::MessageParsingFailed => ErrorKindProperties {
                status: 400,
                kind: "message_parsing_failed",
                title: "Message parsing failed",
                is_notify_sentry: true,
            },
            ErrorKind::NoAvailableBackends => ErrorKindProperties {
                status: 503,
                kind: "no_available_backends",
                title: "No available backends",
                is_notify_sentry: true,
            },
            ErrorKind::NotImplemented => ErrorKindProperties {
                status: 501,
                kind: "not_implemented",
                title: "Not implemented",
                is_notify_sentry: true,
            },
            ErrorKind::PublishFailed => ErrorKindProperties {
                status: 422,
                kind: "publish_failed",
                title: "Publish failed",
                is_notify_sentry: true,
            },
            ErrorKind::ResubscriptionFailed => ErrorKindProperties {
                status: 500,
                kind: "resubscription_failed",
                title: "Resubscription failed",
                is_notify_sentry: true,
            },
            ErrorKind::RoomClosed => ErrorKindProperties {
                status: 404,
                kind: "room_closed",
                title: "Room closed",
                is_notify_sentry: false,
            },
            ErrorKind::RoomNotFound => ErrorKindProperties {
                status: 404,
                kind: "room_not_found",
                title: "Room not found",
                is_notify_sentry: false,
            },
            ErrorKind::RoomTimeChangingForbidden => ErrorKindProperties {
                status: 422,
                kind: "room_time_changing_forbidden",
                title: "Room time changing forbidden",
                is_notify_sentry: false,
            },
            ErrorKind::RtcNotFound => ErrorKindProperties {
                status: 404,
                kind: "rtc_not_found",
                title: "RTC not found",
                is_notify_sentry: false,
            },
        }
    }

    /// The HTTP-style status of the kind.
    pub fn status(self) -> (r: u16)
        ensures
            r == kind_status(self),
    {
        self.properties().status
    }

    /// The stable string code of the kind.
    pub fn kind(self) -> (r: &'static str)
        ensures
            r@ == kind_code(self),
    {
        self.properties().kind
    }

    /// The human title of the kind.
    pub fn title(self) -> (r: &'static str)
        ensures
            r@ == kind_title(self),
    {
        self.properties().title
    }

    /// Whether failures of this kind go to the alert sink.
    pub fn is_notify_sentry(self) -> (r: bool)
        ensures
            r == kind_alerts(self),
    {
        self.properties().is_notify_sentry
    }
}

/// A failure: its kind and a human-readable account of the cause.
#[derive(Debug)]
pub struct Error {
    kind: ErrorKind,
    source: String,
}

impl Error {
    pub closed spec fn spec_kind(&self) -> ErrorKind {
        self.kind
    }

    pub closed spec fn spec_source(&self) -> Seq<char> {
        self.source@
    }

    pub fn new(kind: ErrorKind, source: String) -> (r: Error)
        ensures
            r.spec_kind() == kind,
            r.spec_source() == source@,
    {
        Error { kind, source }
    }

    pub fn status(&self) -> (r: u16)
        ensures
            r == kind_status(self.spec_kind()),
    {
        self.kind.status()
    }

    pub fn error_kind(&self) -> (r: ErrorKind)
        ensures
            r == self.spec_kind(),
    {
        self.kind
    }

    pub fn kind(&self) -> (r: &str)
        ensures
            r@ == kind_code(self.spec_kind()),
    {
        self.kind.kind()
    }

    pub fn title(&self) -> (r: &str)
        ensures
            r@ == kind_title(self.spec_kind()),
    {
        self.kind.title()
    }

    pub fn source(&self) -> (r: &str)
        ensures
            r@ == self.spec_source(),
    {
        self.source.as_str()
    }

    /// The human-readable line: the title, a colon, then the cause.
    pub fn message(&self) -> (r: String)
        ensures
            r@ == kind_title(self.spec_kind()) + ": "@ + self.spec_source(),
    {
        let t = String::from_str(self.kind.title());
        let r = t.concat(": ");
        r.concat(self.source.as_str())
    }
}

/// What the authorization service answered when it did not allow an action.
#[derive(Debug)]
pub enum AuthzError {
    /// The policy denies the action.
    Forbidden(String),
    /// The service itself failed.
    Failed(String),
}

impl Error {
    /// A denial becomes `AccessDenied`; a failure of the service becomes
    /// `AuthorizationFailed`.
    pub fn from_authz(e: AuthzError) -> (r: Error)
        ensures
            r.spec_kind() == (match e {
                AuthzError::Forbidden(_) => ErrorKind::AccessDenied,
                AuthzError::Failed(_) => ErrorKind::AuthorizationFailed,
            }),
            r.spec_source() == (match e {
                AuthzError::Forbidden(s) => s@,
                AuthzError::Failed(s) => s@,
            }),
    {
        match e {
            AuthzError::Forbidden(s) => Error::new(ErrorKind::AccessDenied, s),
            AuthzError::Failed(s) => Error::new(ErrorKind::AuthorizationFailed, s),
        }
    }
}

/// Attaches an error kind to a failure described by a string.
pub trait ErrorExt<T> {
    fn error(self, kind: ErrorKind) -> Result<T, Error>;
}

impl<T> ErrorExt<T> for Result<T, String> {
    fn error(self, kind: ErrorKind) -> (r: Result<T, Error>)
        ensures
            match self {
                Ok(v) => r == Ok::<T, Error>(v),
                Err(s) => r is Err && r->Err_0.spec_kind() == kind && r->Err_0.spec_source() == s@,
            },
    {
        match self {
            Ok(v) => Ok(v),
            Err(s) => Err(Error::new(kind, s)),
        }
    }
}

} // verus!
