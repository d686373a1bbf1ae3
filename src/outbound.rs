use vstd::prelude::*;
use vstd::string::StringExecFns;
use crate::correlation::RequestProperties;
use crate::error::{kind_code, kind_status, kind_title, Error};
use crate::ids::{account_text, agent_text, uuid_text, uuid_to_text, AgentId};
use crate::store::Room;
use crate::system::{RoomUploadEventData, RtcUploadView, UploadStreamRequestBody};

verus! {

#[verifier::external_type_specification]
#[verifier::external_body]
pub struct ExJsonValue(serde_json::Value);

/// Timing carried across hops, in milliseconds.
#[derive(Debug, Clone, Copy, PartialEq, Eq, Structural)]
pub struct LongTermTiming {
    pub local_initial_timediff: Option<i64>,
    pub initial_timestamp: Option<i64>,
    pub broker_timestamp: Option<i64>,
    pub broker_processing_time: Option<u64>,
    pub cumulative_authorization_time: Option<u64>,
    pub cumulative_processing_time: Option<u64>,
}

/// The tracking of a request across services.
#[derive(Debug)]
pub struct Tracking {
    pub tracking_id: String,
    pub session_tracking_label: String,
}

impl Tracking {
    pub fn duplicate(&self) -> (r: Tracking)
        ensures
            r == *self,
    {
        Tracking { tracking_id: self.tracking_id.clone(), session_tracking_label: self.session_tracking_label.clone() }
    }
}

/// The routing properties that every outbound message carries: the time
/// this hop took, the timing carried across hops, the tracking and the
/// local tracking label.
#[derive(Debug)]
pub struct Properties {
    pub short_term_timing: u64,
    pub long_term_timing: Option<LongTermTiming>,
    pub tracking: Option<Tracking>,
    pub local_tracking_label: Option<String>,
}

/// The milliseconds from `start` to `now`; none where `now` comes first.
pub open spec fn until_now(start: i64, now: i64) -> u64 {
    if start <= now {
        (now - start) as u64
    } else {
        0
    }
}

pub open spec fn saturating_sum(a: u64, b: u64) -> u64 {
    if a + b > u64::MAX {
        u64::MAX
    } else {
        (a + b) as u64
    }
}

/// `t` with a hop of `hop` milliseconds of processing added.
pub open spec fn extended(t: LongTermTiming, hop: u64) -> LongTermTiming {
    LongTermTiming {
        cumulative_processing_time: Some(
            match t.cumulative_processing_time {
                Some(c) => saturating_sum(c, hop),
                None => hop,
            },
        ),
        ..t
    }
}

/// The properties of a request or response that continues an exchange:
/// its timing extended with this hop, its tracking and label copied.
pub open spec fn forwarded_props(t: LongTermTiming, tracking: Tracking, label: Option<String>, hop: u64) -> Properties {
    Properties { short_term_timing: hop, long_term_timing: Some(extended(t, hop)), tracking: Some(tracking), local_tracking_label: label }
}

/// The fresh properties of an event: this hop's timing and the tracking.
pub open spec fn event_props(tracking: Tracking, hop: u64) -> Properties {
    Properties { short_term_timing: hop, long_term_timing: None, tracking: Some(tracking), local_tracking_label: None }
}

pub fn until_now_of(start: i64, now: i64) -> (r: u64)
    ensures
        r == until_now(start, now),
{
    if start <= now {
        (now as i128 - start as i128) as u64
    } else {
        0
    }
}

pub fn forwarded_properties(t: LongTermTiming, tracking: &Tracking, label: &Option<String>, hop: u64) -> (r: Properties)
    ensures
        r == forwarded_props(t, *tracking, *label, hop),
{
    let cumulative = match t.cumulative_processing_time {
        Some(c) => c.saturating_add(hop),
        None => hop,
    };
    Properties {
        short_term_timing: hop,
        long_term_timing: Some(LongTermTiming { cumulative_processing_time: Some(cumulative), ..t }),
        tracking: Some(tracking.duplicate()),
        local_tracking_label: match label {
            Some(l) => Some(l.clone()),
            None => None,
        },
    }
}

pub fn event_properties(tracking: &Tracking, hop: u64) -> (r: Properties)
    ensures
        r == event_props(*tracking, hop),
{
    Properties { short_term_timing: hop, long_term_timing: None, tracking: Some(tracking.duplicate()), local_tracking_label: None }
}

/// The body of an outbound message.
#[derive(Debug)]
pub enum Payload {
    /// A JSON document handed through unchanged.
    Json(serde_json::Value),
    /// The empty JSON object.
    Empty,
    /// A room, as the `room.close` event carries it.
    Room(Room),
    /// A backend command to upload the recording of an RTC.
    UploadStream(UploadStreamRequestBody),
    /// The recordings of a room, as the `room.upload` event carries them.
    RoomUpload(RoomUploadEventData),
    /// A failure, as an error response carries it.
    Error { status: u16, kind: String, title: String, detail: String },
}

/// An envelope ready to publish.
#[derive(Debug)]
pub enum OutgoingMessage {
    Request {
        topic: String,
        method: String,
        response_topic: Option<String>,
        correlation: Option<u64>,
        payload: Payload,
        props: Properties,
    },
    Response {
        topic: String,
        status: u16,
        correlation_data: String,
        payload: Payload,
        props: Properties,
    },
    Event {
        topic: String,
        label: String,
        payload: Payload,
        props: Properties,
    },
}

/// A message body with its texts as sequences of characters.
pub enum PayloadView {
    Json(serde_json::Value),
    Empty,
    Room(Room),
    UploadStream { session_id: i64, handle_id: i64, id: u128, bucket: Seq<char>, object: Seq<char> },
    RoomUpload { id: u128, rtcs: Seq<RtcUploadView> },
    Error { status: u16, kind: Seq<char>, title: Seq<char>, detail: Seq<char> },
}

impl View for Payload {
    type V = PayloadView;

    open spec fn view(&self) -> PayloadView {
        match self {
            Payload::Json(v) => PayloadView::Json(*v),
            Payload::Empty => PayloadView::Empty,
            Payload::Room(r) => PayloadView::Room(*r),
            Payload::UploadStream(b) => PayloadView::UploadStream {
                session_id: b.session_id,
                handle_id: b.handle_id,
                id: b.id,
                bucket: b.bucket@,
                object: b.object@,
            },
            Payload::RoomUpload(e) => PayloadView::RoomUpload { id: e.id, rtcs: e.rtcs@.map_values(|r: crate::system::RtcUploadEventData| r@) },
            Payload::Error { status, kind, title, detail } => PayloadView::Error {
                status: *status,
                kind: kind@,
                title: title@,
                detail: detail@,
            },
        }
    }
}

/// An outbound message with its texts as sequences of characters.
pub enum MessageView {
    Request {
        topic: Seq<char>,
        method: Seq<char>,
        response_topic: Option<Seq<char>>,
        correlation: Option<u64>,
        payload: PayloadView,
        props: Properties,
    },
    Response {
        topic: Seq<char>,
        status: u16,
        correlation_data: Seq<char>,
        payload: PayloadView,
        props: Properties,
    },
    Event {
        topic: Seq<char>,
        label: Seq<char>,
        payload: PayloadView,
        props: Properties,
    },
}

impl View for OutgoingMessage {
    type V = MessageView;

    open spec fn view(&self) -> MessageView {
        match self {
            OutgoingMessage::Request { topic, method, response_topic, correlation, payload, props } => MessageView::Request {
                topic: topic@,
                method: method@,
                response_topic: match response_topic {
                    Some(t) => Some(t@),
                    None => None,
                },
                correlation: *correlation,
                payload: payload@,
                props: *props,
            },
            OutgoingMessage::Response { topic, status, correlation_data, payload, props } => MessageView::Response {
                topic: topic@,
                status: *status,
                correlation_data: correlation_data@,
                payload: payload@,
                props: *props,
            },
            OutgoingMessage::Event { topic, label, payload, props } => MessageView::Event {
                topic: topic@,
                label: label@,
                payload: payload@,
                props: *props,
            },
        }
    }
}

/// `agents/{to}/api/{version}/in/{account of me}`: where a request from `me`
/// to the agent `to` goes.
pub open spec fn agent_inbox_topic(
    to: (Seq<char>, Seq<char>, Seq<char>),
    version: Seq<char>,
    me: (Seq<char>, Seq<char>, Seq<char>),
) -> Seq<char> {
    "agents/"@ + agent_text(to) + "/api/"@ + version + "/in/"@ + account_text(me)
}

/// `apps/{account of me}/api/{version}/{path}`: where events of `me` go.
pub open spec fn app_events_topic(me: (Seq<char>, Seq<char>, Seq<char>), version: Seq<char>, path: Seq<char>) -> Seq<char> {
    "apps/"@ + account_text(me) + "/api/"@ + version + "/"@ + path
}

/// `rooms/{id_text}/events`
pub open spec fn room_events_path_text(id_text: Seq<char>) -> Seq<char> {
    "rooms/"@ + id_text + "/events"@
}

/// `rooms/{room_id}/events`
pub open spec fn room_events_path(room_id: u128) -> Seq<char> {
    room_events_path_text(uuid_text(room_id))
}

/// `audiences/{audience}/events`
pub open spec fn audience_events_path(audience: Seq<char>) -> Seq<char> {
    "audiences/"@ + audience + "/events"@
}

pub fn agent_inbox_topic_of(to: &AgentId, version: &str, me: &AgentId) -> (r: String)
    ensures
        r@ == agent_inbox_topic(to@, version@, me@),
{
    let t = String::from_str("agents/");
    let a = to.to_text();
    let t = t.concat(a.as_str());
    let t = t.concat("/api/");
    let t = t.concat(version);
    let t = t.concat("/in/");
    let acc = me.account_id();
    t.concat(acc.as_str())
}

pub fn app_events_topic_of(me: &AgentId, version: &str, path: &str) -> (r: String)
    ensures
        r@ == app_events_topic(me@, version@, path@),
{
    let t = String::from_str("apps/");
    let acc = me.account_id();
    let t = t.concat(acc.as_str());
    let t = t.concat("/api/");
    let t = t.concat(version);
    let t = t.concat("/");
    t.concat(path)
}

/// The events path of the room whose identity reads `id_text`.
pub fn room_events_path_from(id_text: &str) -> (r: String)
    ensures
        r@ == room_events_path_text(id_text@),
{
    let t = String::from_str("rooms/");
    let t = t.concat(id_text);
    t.concat("/events")
}

pub fn room_events_path_of(room_id: u128) -> (r: String)
    ensures
        r@ == room_events_path(room_id),
{
    let id = uuid_to_text(room_id);
    room_events_path_from(id.as_str())
}

pub fn audience_events_path_of(audience: &str) -> (r: String)
    ensures
        r@ == audience_events_path(audience@),
{
    let t = String::from_str("audiences/");
    let t = t.concat(audience);
    t.concat("/events")
}

/// The response that tells the requester of `reqp` about `err`: the status,
/// code and title of its kind, and its cause, after a hop of `hop`
/// milliseconds.
pub fn error_response(err: &Error, reqp: &RequestProperties, hop: u64) -> (r: OutgoingMessage)
    ensures
        r@ == (MessageView::Response {
            topic: reqp.response_topic@,
            status: kind_status(err.spec_kind()),
            correlation_data: reqp.correlation_data@,
            payload: PayloadView::Error {
                status: kind_status(err.spec_kind()),
                kind: kind_code(err.spec_kind()),
                title: kind_title(err.spec_kind()),
                detail: err.spec_source(),
            },
            props: forwarded_props(reqp.long_term_timing, reqp.tracking, reqp.local_tracking_label, hop),
        }),
{
    let status = err.status();
    OutgoingMessage::Response {
        topic: reqp.response_topic.clone(),
        status,
        correlation_data: reqp.correlation_data.clone(),
        payload: Payload::Error {
            status,
            kind: String::from_str(err.kind()),
            title: String::from_str(err.title()),
            detail: String::from_str(err.source()),
        },
        props: forwarded_properties(reqp.long_term_timing, &reqp.tracking, &reqp.local_tracking_label, hop),
    }
}

} // verus!
