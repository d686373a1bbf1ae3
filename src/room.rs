use vstd::prelude::*;
use vstd::string::StringExecFns;
use crate::correlation::RequestProperties;
use crate::error::{AuthzError, Error, ErrorKind};
use crate::outbound::{forwarded_properties, forwarded_props, until_now, until_now_of, MessageView, OutgoingMessage, Payload, PayloadView};
use crate::store::{has_room, RoomTime, Store};
use crate::system::AuthzRequest;

verus! {

/// A request to create a room for `audience`, open over `time`.
#[derive(Debug)]
pub struct CreateRequestData {
    pub time: RoomTime,
    pub audience: String,
}

/// Creates rooms in the store it holds.
pub struct State {
    pub db: Store,
}

impl State {
    pub fn new(db: Store) -> (r: State)
        ensures
            r.db == db,
    {
        State { db }
    }

    /// What the creator of a room must be allowed: `create` on `rooms`, asked
    /// in the name of the future room's audience.
    pub fn authz_request(&self, data: &CreateRequestData, reqp: &RequestProperties) -> (r: AuthzRequest)
        ensures
            r.audience@ == data.audience@,
            r.subject@ == reqp.agent_id@,
            r.object@.len() == 1,
            r.object@[0]@ == "rooms"@,
            r.action@ == "create"@,
    {
        let mut object: Vec<String> = Vec::new();
        object.push(String::from_str("rooms"));
        AuthzRequest {
            audience: data.audience.clone(),
            subject: reqp.agent_id.duplicate(),
            object,
            action: String::from_str("create"),
        }
    }

    /// With `authz` the answer to `authz_request`: where it allowed the
    /// action, adds the room `id` and answers the requester with it, the
    /// request having started at `start_timestamp` and the clock now reading
    /// `now`.
    pub fn create(
        &mut self,
        id: u128,
        data: &CreateRequestData,
        reqp: &RequestProperties,
        authz: Result<(), AuthzError>,
        start_timestamp: i64,
        now: i64,
    ) -> (r: Result<
        OutgoingMessage,
        Error,
    >)
        requires
            old(self).db@.inv(),
        ensures
            final(self).db@.inv(),
            r is Ok <==> authz is Ok && !has_room(old(self).db@.rooms, id) && data.time.wf(),
            r is Err ==> final(self).db@ == old(self).db@,
            authz matches Err(e) ==> r matches Err(err) && err.spec_kind() == (match e {
                AuthzError::Forbidden(_) => ErrorKind::AccessDenied,
                AuthzError::Failed(_) => ErrorKind::AuthorizationFailed,
            }),
            authz is Ok && has_room(old(self).db@.rooms, id) ==> (r matches Err(err) && err.spec_kind() == ErrorKind::DbQueryFailed),
            authz is Ok && !has_room(old(self).db@.rooms, id) && !data.time.wf() ==> (r matches Err(err) && err.spec_kind()
                == ErrorKind::InvalidRoomTime),
            r matches Ok(m) ==> {
                let room = final(self).db@.rooms.last();
                &&& final(self).db@.rooms == old(self).db@.rooms.push(room)
                &&& final(self).db@.agents == old(self).db@.agents
                &&& room.id == id && room.audience@ == data.audience@ && room.time == data.time && room.backend_id is None
                &&& m@ == (MessageView::Response {
                    topic: reqp.response_topic@,
                    status: 200,
                    correlation_data: reqp.correlation_data@,
                    payload: PayloadView::Room(room),
                    props: forwarded_props(reqp.long_term_timing, reqp.tracking, reqp.local_tracking_label, until_now(start_timestamp, now)),
                })
            },
    {
        match authz {
            Err(e) => return Err(Error::from_authz(e)),
            Ok(()) => {},
        }
        let object = match self.db.insert_room(id, data.audience.as_str(), data.time) {
            Ok(room) => room,
            Err(e) => return Err(e),
        };
        Ok(OutgoingMessage::Response {
            topic: reqp.response_topic.clone(),
            status: 200,
            correlation_data: reqp.correlation_data.clone(),
            payload: Payload::Room(object),
            props: forwarded_properties(
                reqp.long_term_timing,
                &reqp.tracking,
                &reqp.local_tracking_label,
                until_now_of(start_timestamp, now),
            ),
        })
    }
}

} // verus!
