use vstd::prelude::*;
use vstd::string::StringExecFns;
use svc_agent::mqtt::SubscriptionTopic;
use crate::context::{Context, API_VERSION};
use crate::correlation::{first_with_token, registered, token_for, CorrelationData, CorrelationDataPayload, RequestProperties};
use crate::error::{Error, ErrorKind};
use crate::ids::{account_text, agent_text, AgentId};
use crate::outbound::{
    agent_inbox_topic, agent_inbox_topic_of, app_events_topic, app_events_topic_of, room_events_path,
    room_events_path_of, MessageView, OutgoingMessage, Payload, PayloadView, event_properties, event_props,
    forwarded_properties, forwarded_props, until_now_of, LongTermTiming, Tracking,
};
use crate::store::{has_room, is_present, room_of, RoomTimeRequirement};

verus! {

/// `agents/{from}/api/{version}/out/{account of me}`: where `from` answers
/// the requests that `me` forwards to it.
pub open spec fn multicast_requests_topic(
    from: (Seq<char>, Seq<char>, Seq<char>),
    version: Seq<char>,
    me: (Seq<char>, Seq<char>, Seq<char>),
) -> Seq<char> {
    "agents/"@ + agent_text(from) + "/api/"@ + version + "/out/"@ + account_text(me)
}

/// Relies on svc_agent's `Subscription::multicast_requests_from` and its
/// `subscription_topic`, which for a known sender always succeeds with
/// `agents/{from}/api/{version}/out/{account of me}`.
#[verifier::external_body]
fn multicast_requests_topic_of(from: &AgentId, version: &str, me: &AgentId) -> (r: Result<String, String>)
    ensures
        r is Ok,
        r matches Ok(t) ==> t@ == multicast_requests_topic(from@, version@, me@),
{
    let from = svc_agent::AgentId::new(from.label.as_str(), svc_agent::AccountId::new(&from.account_label, &from.audience));
    let me = svc_agent::AgentId::new(me.label.as_str(), svc_agent::AccountId::new(&me.account_label, &me.audience));
    svc_agent::Subscription::multicast_requests_from(&from, Some(version))
        .subscription_topic(&me, version)
        .map_err(|e| e.to_string())
}

/// A message for one agent of a room.
#[derive(Debug)]
pub struct UnicastRequest {
    pub agent_id: AgentId,
    pub room_id: u128,
    pub data: serde_json::Value,
}

/// A message for every agent of a room.
#[derive(Debug)]
pub struct BroadcastRequest {
    pub room_id: u128,
    pub data: serde_json::Value,
    pub label: Option<String>,
}

/// What the backend answered to a forwarded request.
#[derive(Debug)]
pub struct ResponseProperties {
    pub status: u16,
    pub correlation: u64,
    pub tracking: Tracking,
    pub local_tracking_label: Option<String>,
    pub long_term_timing: LongTermTiming,
}

/// The kind of the failure that a lookup of room `room_id` meeting `req`,
/// then presence checks of each agent of `agents` in order, raise first; or
/// `None` where all pass.
pub open spec fn room_gate_failure(
    c: Context,
    room_id: u128,
    req: RoomTimeRequirement,
    agents: Seq<(Seq<char>, Seq<char>, Seq<char>)>,
) -> Option<ErrorKind> {
    if !has_room(c.store@.rooms, room_id) {
        Some(ErrorKind::RoomNotFound)
    } else if !crate::store::meets_requirement(room_of(c.store@.rooms, room_id).time, req, c.now) {
        Some(ErrorKind::RoomClosed)
    } else if exists|k: int| 0 <= k < agents.len() && !is_present(c.store@.agents, #[trigger] agents[k], room_id) {
        Some(ErrorKind::AgentNotEnteredTheRoom)
    } else {
        None
    }
}

/// A request passes the room checks only where the room exists, meets the
/// requirement, and every agent named has a `ready` row in it.
pub proof fn lemma_gate_requires_presence(
    c: Context,
    room_id: u128,
    req: RoomTimeRequirement,
    agents: Seq<(Seq<char>, Seq<char>, Seq<char>)>,
)
    requires
        room_gate_failure(c, room_id, req, agents) is None,
    ensures
        has_room(c.store@.rooms, room_id),
        crate::store::meets_requirement(room_of(c.store@.rooms, room_id).time, req, c.now),
        forall|k: int| 0 <= k < agents.len() ==> is_present(c.store@.agents, #[trigger] agents[k], room_id),
{
}

/// What a unicast that passed its checks sends and saves: the request to
/// the receiver, forwarded under a fresh token, and the requester saved
/// under that token.
pub open spec fn unicast_sent(
    before: Context,
    after: Context,
    payload: UnicastRequest,
    reqp: RequestProperties,
    msgs: Seq<OutgoingMessage>,
) -> bool {
    let token = token_for(before.correlations.spec_next_token());
    let data = CorrelationData::MessageUnicast(CorrelationDataPayload { reqp });
    &&& msgs.len() == 1
    &&& msgs[0]@ == (MessageView::Request {
        topic: agent_inbox_topic(payload.agent_id@, API_VERSION@, before.agent_id@),
        method: reqp.method@,
        response_topic: Some(multicast_requests_topic(payload.agent_id@, API_VERSION@, before.agent_id@)),
        correlation: Some(token),
        payload: PayloadView::Json(payload.data),
        props: forwarded_props(reqp.long_term_timing, reqp.tracking, reqp.local_tracking_label, before.hop()),
    })
    &&& after.correlations@ == registered(before.correlations@, before.correlations.cap(), before.correlations.spec_next_token(), data)
}

/// What a broadcast that passed its checks sends: an empty `200` to the
/// sender, then the `message.broadcast` event of the room.
pub open spec fn broadcast_sent(c: Context, payload: BroadcastRequest, reqp: RequestProperties, msgs: Seq<OutgoingMessage>) -> bool {
    &&& msgs.len() == 2
    &&& msgs[0]@ == (MessageView::Response {
        topic: reqp.response_topic@,
        status: 200,
        correlation_data: reqp.correlation_data@,
        payload: PayloadView::Empty,
        props: forwarded_props(reqp.long_term_timing, reqp.tracking, reqp.local_tracking_label, c.hop()),
    })
    &&& msgs[1]@ == (MessageView::Event {
        topic: app_events_topic(c.agent_id@, API_VERSION@, room_events_path(payload.room_id)),
        label: "message.broadcast"@,
        payload: PayloadView::Json(payload.data),
        props: event_props(reqp.tracking, c.hop()),
    })
}

pub struct UnicastHandler;

impl UnicastHandler {
    /// Forwards `payload.data` to the receiver, where the room is open and
    /// both the sender and the receiver are present in it. The requester is
    /// saved under the token of the forwarded request.
    pub fn handle(context: &mut Context, payload: UnicastRequest, reqp: &RequestProperties) -> (r: Result<
        Vec<OutgoingMessage>,
        Error,
    >)
        requires
            old(context).wf(),
        ensures
            final(context).wf(),
            final(context).store == old(context).store,
            final(context).agent_id == old(context).agent_id,
            final(context).now == old(context).now,
        final(context).start_timestamp == old(context).start_timestamp,
            final(context).start_timestamp == old(context).start_timestamp,
            final(context).correlations.cap() == old(context).correlations.cap(),
            r is Ok <==> room_gate_failure(
                *old(context),
                payload.room_id,
                RoomTimeRequirement::Open,
                seq![reqp.agent_id@, payload.agent_id@],
            ) is None,
            r matches Err(e) ==> final(context).correlations == old(context).correlations
                && Some(e.spec_kind()) == room_gate_failure(
                *old(context),
                payload.room_id,
                RoomTimeRequirement::Open,
                seq![reqp.agent_id@, payload.agent_id@],
            ),
            r matches Ok(msgs) ==> unicast_sent(*old(context), *final(context), payload, *reqp, msgs@),
    {
        let ghost agents = seq![reqp.agent_id@, payload.agent_id@];
        let room = match context.store.find_room(payload.room_id, RoomTimeRequirement::Open, context.now) {
            Ok(room) => room,
            Err(e) => return Err(e),
        };
        match context.store.check_presence(room.id, &reqp.agent_id) {
            Ok(()) => {},
            Err(e) => {
                assert(!is_present(context.store@.agents, agents[0], payload.room_id));
                return Err(e);
            },
        }
        match context.store.check_presence(room.id, &payload.agent_id) {
            Ok(()) => {},
            Err(e) => {
                assert(!is_present(context.store@.agents, agents[1], payload.room_id));
                return Err(e);
            },
        }
        proof {
            assert forall|k: int| 0 <= k < agents.len() implies is_present(context.store@.agents, #[trigger] agents[k], payload.room_id) by {}
        }
        let response_topic = match multicast_requests_topic_of(&payload.agent_id, API_VERSION, &context.agent_id) {
            Ok(t) => t,
            Err(s) => return Err(Error::new(ErrorKind::MessageBuildingFailed, s)),
        };
        let corr_data = CorrelationData::MessageUnicast(CorrelationDataPayload::new(reqp.duplicate()));
        let token = context.correlations.register(corr_data);
        let topic = agent_inbox_topic_of(&payload.agent_id, API_VERSION, &context.agent_id);
        let req = OutgoingMessage::Request {
            topic,
            method: reqp.method.clone(),
            response_topic: Some(response_topic),
            correlation: Some(token),
            payload: Payload::Json(payload.data),
            props: forwarded_properties(
                reqp.long_term_timing,
                &reqp.tracking,
                &reqp.local_tracking_label,
                until_now_of(context.start_timestamp, context.now),
            ),
        };
        let mut out: Vec<OutgoingMessage> = Vec::new();
        out.push(req);
        Ok(out)
    }
}

pub struct BroadcastHandler;

impl BroadcastHandler {
    /// Where the room is open and the sender present in it: answers the
    /// sender with an empty `200`, then publishes `payload.data` as the
    /// `message.broadcast` event of the room.
    pub fn handle(context: &Context, payload: BroadcastRequest, reqp: &RequestProperties) -> (r: Result<
        Vec<OutgoingMessage>,
        Error,
    >)
        requires
            context.wf(),
        ensures
            r is Ok <==> room_gate_failure(*context, payload.room_id, RoomTimeRequirement::Open, seq![reqp.agent_id@]) is None,
            r matches Err(e) ==> Some(e.spec_kind()) == room_gate_failure(
                *context,
                payload.room_id,
                RoomTimeRequirement::Open,
                seq![reqp.agent_id@],
            ),
            r matches Ok(msgs) ==> broadcast_sent(*context, payload, *reqp, msgs@),
    {
        let ghost agents = seq![reqp.agent_id@];
        let room = match context.store.find_room(payload.room_id, RoomTimeRequirement::Open, context.now) {
            Ok(room) => room,
            Err(e) => return Err(e),
        };
        match context.store.check_presence(room.id, &reqp.agent_id) {
            Ok(()) => {},
            Err(e) => {
                assert(!is_present(context.store@.agents, agents[0], payload.room_id));
                return Err(e);
            },
        }
        proof {
            assert forall|k: int| 0 <= k < agents.len() implies is_present(context.store@.agents, #[trigger] agents[k], payload.room_id) by {}
        }
        let response = OutgoingMessage::Response {
            topic: reqp.response_topic.clone(),
            status: 200,
            correlation_data: reqp.correlation_data.clone(),
            payload: Payload::Empty,
            props: forwarded_properties(
                reqp.long_term_timing,
                &reqp.tracking,
                &reqp.local_tracking_label,
                until_now_of(context.start_timestamp, context.now),
            ),
        };
        let path = room_events_path_of(room.id);
        let notification = OutgoingMessage::Event {
            topic: app_events_topic_of(&context.agent_id, API_VERSION, path.as_str()),
            label: String::from_str("message.broadcast"),
            payload: Payload::Json(payload.data),
            props: event_properties(&reqp.tracking, until_now_of(context.start_timestamp, context.now)),
        };
        let mut out: Vec<OutgoingMessage> = Vec::new();
        out.push(response);
        out.push(notification);
        Ok(out)
    }
}

pub struct UnicastResponseHandler;

impl UnicastResponseHandler {
    /// Rewraps the receiver's answer as the response to the sender of the
    /// request, with the receiver's status, tracking and label, and its
    /// timing extended with this hop.
    pub fn handle(
        context: &Context,
        payload: serde_json::Value,
        respp: &ResponseProperties,
        corr_data: &CorrelationDataPayload,
    ) -> (r: Result<Vec<OutgoingMessage>, Error>)
        ensures
            r matches Ok(msgs) && msgs@.len() == 1 && msgs@[0]@ == (MessageView::Response {
                topic: corr_data.reqp.response_topic@,
                status: respp.status,
                correlation_data: corr_data.reqp.correlation_data@,
                payload: PayloadView::Json(payload),
                props: forwarded_props(respp.long_term_timing, respp.tracking, respp.local_tracking_label, context.hop()),
            }),
    {
        let resp = OutgoingMessage::Response {
            topic: corr_data.reqp.response_topic.clone(),
            status: respp.status,
            correlation_data: corr_data.reqp.correlation_data.clone(),
            payload: Payload::Json(payload),
            props: forwarded_properties(
                respp.long_term_timing,
                &respp.tracking,
                &respp.local_tracking_label,
                until_now_of(context.start_timestamp, context.now),
            ),
        };
        let mut out: Vec<OutgoingMessage> = Vec::new();
        out.push(resp);
        Ok(out)
    }
}

/// Matches a backend's answer with the request it answers, by the token, and
/// resumes the pipeline saved with it. An answer whose token is not (or no
/// longer) in the table is dropped: nothing is published for it.
pub fn handle_response(context: &mut Context, payload: serde_json::Value, respp: &ResponseProperties) -> (r: Vec<
    OutgoingMessage,
>)
    requires
        old(context).wf(),
    ensures
        final(context).wf(),
        final(context).store == old(context).store,
        final(context).agent_id == old(context).agent_id,
        final(context).now == old(context).now,
        final(context).start_timestamp == old(context).start_timestamp,
        final(context).correlations.cap() == old(context).correlations.cap(),
        match first_with_token(old(context).correlations@, respp.correlation) {
            None => r@.len() == 0 && final(context).correlations@ == old(context).correlations@,
            Some(i) => {
                let saved = old(context).correlations@[i].1;
                &&& final(context).correlations@ == old(context).correlations@.remove(i)
                &&& saved matches CorrelationData::MessageUnicast(p) && r@.len() == 1 && r@[0]@ == (MessageView::Response {
                    topic: p.reqp.response_topic@,
                    status: respp.status,
                    correlation_data: p.reqp.correlation_data@,
                    payload: PayloadView::Json(payload),
                    props: forwarded_props(respp.long_term_timing, respp.tracking, respp.local_tracking_label, old(context).hop()),
                })
            },
        },
{
    match context.correlations.take(respp.correlation) {
        None => Vec::new(),
        Some(CorrelationData::MessageUnicast(p)) => {
            match UnicastResponseHandler::handle(context, payload, respp, &p) {
                Ok(msgs) => msgs,
                Err(_) => Vec::new(),
            }
        },
    }
}

} // verus!
