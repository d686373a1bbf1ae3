use vstd::prelude::*;
use vstd::string::StringExecFns;
use crate::context::Context;
use crate::correlation::RequestProperties;
use crate::error::{kind_code, kind_status, kind_title, AuthzError, ErrorKind};
use crate::message::{
    broadcast_sent, room_gate_failure, unicast_sent, BroadcastHandler, BroadcastRequest, UnicastHandler, UnicastRequest,
};
use crate::outbound::{error_response, forwarded_props, until_now_of, MessageView, OutgoingMessage, PayloadView};
use crate::store::RoomTimeRequirement;
use crate::system::{vacuum_sent, VacuumHandler, VacuumRequest};

verus! {

/// The requests this service handles, by method.
#[derive(Debug, Clone, Copy, PartialEq, Eq, Structural)]
pub enum Method {
    MessageUnicast,
    MessageBroadcast,
    SystemVacuum,
}

pub open spec fn spec_method_of(name: Seq<char>) -> Option<Method> {
    if name == "message.unicast"@ {
        Some(Method::MessageUnicast)
    } else if name == "message.broadcast"@ {
        Some(Method::MessageBroadcast)
    } else if name == "system.vacuum"@ {
        Some(Method::SystemVacuum)
    } else {
        None
    }
}

fn same_text(a: &str, b: &str) -> (r: bool)
    ensures
        r == (a@ == b@),
{
    String::from_str(a) == String::from_str(b)
}

/// The handler that a method names, if any.
pub fn method_of(name: &str) -> (r: Option<Method>)
    ensures
        r == spec_method_of(name@),
{
    if same_text(name, "message.unicast") {
        Some(Method::MessageUnicast)
    } else if same_text(name, "message.broadcast") {
        Some(Method::MessageBroadcast)
    } else if same_text(name, "system.vacuum") {
        Some(Method::SystemVacuum)
    } else {
        None
    }
}

/// An incoming request with its payload read. A vacuum carries the answer
/// of the authorization service to its question.
#[derive(Debug)]
pub enum IncomingRequest {
    Unicast(UnicastRequest),
    Broadcast(BroadcastRequest),
    Vacuum { payload: VacuumRequest, authz: Result<(), AuthzError> },
}

/// The kind that a refusal of the authorization service raises.
pub open spec fn authz_kind(e: AuthzError) -> ErrorKind {
    match e {
        AuthzError::Forbidden(_) => ErrorKind::AccessDenied,
        AuthzError::Failed(_) => ErrorKind::AuthorizationFailed,
    }
}

/// `msgs` is the one error response to the requester of `reqp` for a
/// failure of kind `k`, after `hop` milliseconds: the status, code and title
/// of the error table.
pub open spec fn error_sent(reqp: RequestProperties, k: ErrorKind, hop: u64, msgs: Seq<OutgoingMessage>) -> bool {
    &&& msgs.len() == 1
    &&& match msgs[0]@ {
        MessageView::Response { topic, status, correlation_data, payload, props } => {
            &&& props == forwarded_props(reqp.long_term_timing, reqp.tracking, reqp.local_tracking_label, hop)
            &&& topic == reqp.response_topic@
            &&& status == kind_status(k)
            &&& correlation_data == reqp.correlation_data@
            &&& match payload {
                PayloadView::Error { status: s, kind, title, detail: _ } => s == kind_status(k) && kind == kind_code(k)
                    && title == kind_title(k),
                _ => false,
            }
        },
        _ => false,
    }
}

/// Runs the handler of `request` and returns what to publish, in order: the
/// handler's messages, or the error response that its failure turns into.
pub fn handle_request(context: &mut Context, request: IncomingRequest, reqp: &RequestProperties) -> (r: Vec<OutgoingMessage>)
    requires
        old(context).wf(),
    ensures
        final(context).wf(),
        final(context).agent_id == old(context).agent_id,
        final(context).now == old(context).now,
        final(context).start_timestamp == old(context).start_timestamp,
        final(context).correlations.cap() == old(context).correlations.cap(),
        match request {
            IncomingRequest::Unicast(p) => {
                &&& final(context).store == old(context).store
                &&& match room_gate_failure(*old(context), p.room_id, RoomTimeRequirement::Open, seq![reqp.agent_id@, p.agent_id@]) {
                    Some(k) => error_sent(*reqp, k, old(context).hop(), r@) && final(context).correlations == old(context).correlations,
                    None => unicast_sent(*old(context), *final(context), p, *reqp, r@),
                }
            },
            IncomingRequest::Broadcast(p) => {
                &&& final(context).store == old(context).store
                &&& final(context).correlations == old(context).correlations
                &&& match room_gate_failure(*old(context), p.room_id, RoomTimeRequirement::Open, seq![reqp.agent_id@]) {
                    Some(k) => error_sent(*reqp, k, old(context).hop(), r@),
                    None => broadcast_sent(*old(context), p, *reqp, r@),
                }
            },
            IncomingRequest::Vacuum { payload: _, authz } => {
                &&& final(context).correlations == old(context).correlations
                &&& match authz {
                    Err(e) => error_sent(*reqp, authz_kind(e), old(context).hop(), r@) && final(context).store@ == old(context).store@,
                    Ok(()) => vacuum_sent(*old(context), *reqp, final(context).store@, r@),
                }
            },
        },
{
    let result = match request {
        IncomingRequest::Unicast(p) => UnicastHandler::handle(context, p, reqp),
        IncomingRequest::Broadcast(p) => BroadcastHandler::handle(context, p, reqp),
        IncomingRequest::Vacuum { payload, authz } => VacuumHandler::handle(context, payload, reqp, authz),
    };
    match result {
        Ok(msgs) => msgs,
        Err(e) => {
            let mut out: Vec<OutgoingMessage> = Vec::new();
            out.push(error_response(&e, reqp, until_now_of(context.start_timestamp, context.now)));
            out
        },
    }
}

} // verus!
