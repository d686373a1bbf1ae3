use vstd::prelude::*;
use vstd::string::StringExecFns;
use crate::agent::Object;
use crate::context::{Context, API_VERSION, JANUS_API_VERSION};
use crate::correlation::RequestProperties;
use crate::error::{AuthzError, Error, ErrorKind};
use crate::ids::{uuid_text, uuid_to_text, AgentId};
use crate::outbound::{
    agent_inbox_topic, agent_inbox_topic_of, event_properties, event_props, forwarded_properties, forwarded_props, app_events_topic, app_events_topic_of, audience_events_path,
    audience_events_path_of, room_events_path, room_events_path_of, MessageView, OutgoingMessage, Payload,
    PayloadView, Tracking, until_now, until_now_of,
};
use crate::store::{finished_recordings, Backend, Recording, RecordingStatus, Room, StoreView};

verus! {

/// The `stream.upload` command: upload the recording of an RTC to
/// `bucket/object`, through the backend session and handle.
#[derive(Debug)]
pub struct UploadStreamRequestBody {
    pub session_id: i64,
    pub handle_id: i64,
    pub id: u128,
    pub bucket: String,
    pub object: String,
}

/// One RTC of the `room.upload` event.
#[derive(Debug)]
pub struct RtcUploadEventData {
    pub id: u128,
    pub status: RecordingStatus,
    pub segments: Option<Vec<(i64, i64)>>,
    pub started_at: Option<i64>,
    pub uri: Option<String>,
}

/// One RTC of the `room.upload` event, with its texts as sequences.
pub struct RtcUploadView {
    pub id: u128,
    pub status: RecordingStatus,
    pub segments: Option<Seq<(i64, i64)>>,
    pub started_at: Option<i64>,
    pub uri: Option<Seq<char>>,
}

impl View for RtcUploadEventData {
    type V = RtcUploadView;

    open spec fn view(&self) -> RtcUploadView {
        RtcUploadView {
            id: self.id,
            status: self.status,
            segments: match &self.segments {
                Some(s) => Some(s@),
                None => None,
            },
            started_at: self.started_at,
            uri: match &self.uri {
                Some(u) => Some(u@),
                None => None,
            },
        }
    }
}

/// The body of the `room.upload` event.
#[derive(Debug)]
pub struct RoomUploadEventData {
    pub id: u128,
    pub rtcs: Vec<RtcUploadEventData>,
}

/// `origin.webinar.{audience}`
pub open spec fn bucket_text(audience: Seq<char>) -> Seq<char> {
    "origin.webinar."@ + audience
}

/// `{id_text}.source.webm`
pub open spec fn record_text_of(id_text: Seq<char>) -> Seq<char> {
    id_text + ".source.webm"@
}

/// `{rtc_id}.source.webm`
pub open spec fn record_text(rtc_id: u128) -> Seq<char> {
    record_text_of(uuid_text(rtc_id))
}

/// `s3://{bucket}/{record}`
pub open spec fn upload_uri(audience: Seq<char>, rtc_id: u128) -> Seq<char> {
    "s3://"@ + bucket_text(audience) + "/"@ + record_text(rtc_id)
}

/// The bucket that the recordings of `room` are uploaded to.
pub fn bucket_name(room: &Room) -> (r: String)
    ensures
        r@ == bucket_text(room.audience@),
{
    let b = String::from_str("origin.webinar.");
    b.concat(room.audience.as_str())
}

/// The object that the recording of the RTC whose identity reads `id_text`
/// is uploaded as.
pub fn record_name_from(id_text: &str) -> (r: String)
    ensures
        r@ == record_text_of(id_text@),
{
    let name = String::from_str(id_text);
    name.concat(".source.webm")
}

/// The object that the recording of RTC `rtc_id` is uploaded as.
pub fn record_name(rtc_id: u128) -> (r: String)
    ensures
        r@ == record_text(rtc_id),
{
    let id = uuid_to_text(rtc_id);
    record_name_from(id.as_str())
}

/// The `room.upload` entry of a recording in a room of `audience`.
pub open spec fn rtc_entry(audience: Seq<char>, rec: Recording) -> RtcUploadView {
    RtcUploadView {
        id: rec.rtc_id,
        status: rec.status,
        segments: match rec.segments {
            Some(s) => Some(s@),
            None => None,
        },
        started_at: rec.started_at,
        uri: if rec.status == RecordingStatus::Ready {
            Some(upload_uri(audience, rec.rtc_id))
        } else {
            None
        },
    }
}

fn copy_segments(s: &Vec<(i64, i64)>) -> (r: Vec<(i64, i64)>)
    ensures
        r@ == s@,
{
    let mut r: Vec<(i64, i64)> = Vec::new();
    let mut i: usize = 0;
    while i < s.len()
        invariant
            i <= s@.len(),
            r@ == s@.subrange(0, i as int),
        decreases s@.len() - i,
    {
        r.push(s[i]);
        i += 1;
        assert(r@ == s@.subrange(0, i as int));
    }
    assert(s@.subrange(0, s@.len() as int) == s@);
    r
}

/// The failure of `upload_event` on a recording of RTC `rtc_id` that is
/// still `in_progress`.
pub open spec fn in_progress_error(rtc_id: u128) -> Seq<char> {
    "unexpected recording in in_progress status, rtc_id = '"@ + uuid_text(rtc_id) + "'"@
}

/// Builds the `room.upload` event of `room`, published by `me` to the
/// events of the room's audience, with `tracking` and the time since
/// `start_timestamp`. Fails on the first recording that is still
/// `in_progress`, naming its RTC.
pub fn upload_event(
    room: &Room,
    recordings: &Vec<Recording>,
    me: &AgentId,
    tracking: &Tracking,
    start_timestamp: i64,
    now: i64,
) -> (r: Result<OutgoingMessage, String>)
    ensures
        r is Err <==> exists|i: int| 0 <= i < recordings@.len() && #[trigger] recordings@[i].status == RecordingStatus::InProgress,
        r matches Err(e) ==> exists|i: int|
            0 <= i < recordings@.len() && #[trigger] recordings@[i].status == RecordingStatus::InProgress
                && (forall|j: int| 0 <= j < i ==> recordings@[j].status != RecordingStatus::InProgress)
                && e@ == in_progress_error(recordings@[i].rtc_id),
        r matches Ok(m) ==> m@ == (MessageView::Event {
            topic: app_events_topic(me@, API_VERSION@, audience_events_path(room.audience@)),
            label: "room.upload"@,
            payload: PayloadView::RoomUpload {
                id: room.id,
                rtcs: recordings@.map_values(|rec: Recording| rtc_entry(room.audience@, rec)),
            },
            props: event_props(*tracking, until_now(start_timestamp, now)),
        }),
{
    let mut entries: Vec<RtcUploadEventData> = Vec::new();
    let mut i: usize = 0;
    while i < recordings.len()
        invariant
            i <= recordings@.len(),
            entries@.len() == i,
            forall|k: int| 0 <= k < i ==> (#[trigger] entries@[k])@ == rtc_entry(room.audience@, recordings@[k]),
            forall|k: int| 0 <= k < i ==> recordings@[k].status != RecordingStatus::InProgress,
        decreases recordings@.len() - i,
    {
        let recording = &recordings[i];
        let uri = match recording.status {
            RecordingStatus::InProgress => {
                let msg = String::from_str("unexpected recording in in_progress status, rtc_id = '");
                let id = uuid_to_text(recording.rtc_id);
                let msg = msg.concat(id.as_str());
                return Err(msg.concat("'"));
            },
            RecordingStatus::Missing => None,
            RecordingStatus::Ready => {
                let u = String::from_str("s3://");
                let b = bucket_name(room);
                let u = u.concat(b.as_str());
                let u = u.concat("/");
                let n = record_name(recording.rtc_id);
                Some(u.concat(n.as_str()))
            },
        };
        let segments = match &recording.segments {
            Some(s) => Some(copy_segments(s)),
            None => None,
        };
        let entry = RtcUploadEventData {
            id: recording.rtc_id,
            status: recording.status,
            segments,
            started_at: recording.started_at,
            uri,
        };
        entries.push(entry);
        i += 1;
    }
    let ghost rtcs = entries@.map_values(|r: RtcUploadEventData| r@);
    assert(rtcs =~= recordings@.map_values(|rec: Recording| rtc_entry(room.audience@, rec)));
    let path = audience_events_path_of(room.audience.as_str());
    let event = RoomUploadEventData { id: room.id, rtcs: entries };
    Ok(OutgoingMessage::Event {
        topic: app_events_topic_of(me, API_VERSION, path.as_str()),
        label: String::from_str("room.upload"),
        payload: Payload::RoomUpload(event),
        props: event_properties(tracking, until_now_of(start_timestamp, now)),
    })
}

/// A question for the authorization service: may `subject`, in the name of
/// `audience`, perform `action` on the object at `object`?
#[derive(Debug)]
pub struct AuthzRequest {
    pub audience: String,
    pub subject: AgentId,
    pub object: Vec<String>,
    pub action: String,
}

#[derive(Debug)]
pub struct VacuumRequest {}

/// The upload command for the recording of `rtc_id`, sent by `me` to
/// `backend` on behalf of the request `reqp`, after `hop` milliseconds.
pub open spec fn upload_request_view(
    room: Room,
    rtc_id: u128,
    backend: Backend,
    me: (Seq<char>, Seq<char>, Seq<char>),
    reqp: RequestProperties,
    hop: u64,
) -> MessageView {
    MessageView::Request {
        topic: agent_inbox_topic(backend.id@, JANUS_API_VERSION@, me),
        method: "stream.upload"@,
        response_topic: None,
        correlation: None,
        payload: PayloadView::UploadStream {
            session_id: backend.session_id,
            handle_id: backend.handle_id,
            id: rtc_id,
            bucket: bucket_text(room.audience@),
            object: record_text(rtc_id),
        },
        props: forwarded_props(reqp.long_term_timing, reqp.tracking, reqp.local_tracking_label, hop),
    }
}

/// The `room.close` event of `room`, published by `me` with `tracking`,
/// after `hop` milliseconds.
pub open spec fn room_close_view(room: Room, me: (Seq<char>, Seq<char>, Seq<char>), tracking: Tracking, hop: u64) -> MessageView {
    MessageView::Event {
        topic: app_events_topic(me, API_VERSION@, room_events_path(room.id)),
        label: "room.close"@,
        payload: PayloadView::Room(room),
        props: event_props(tracking, hop),
    }
}

/// Whether one of the rooms of `q` has identity `room_id`.
pub open spec fn closes_room(q: Seq<(Room, u128, Backend)>, room_id: u128) -> bool {
    exists|k: int| 0 <= k < q.len() && (#[trigger] q[k]).0.id == room_id
}

/// The RTCs of the recordings that a vacuum takes up, in order.
pub open spec fn sent_rtcs(q: Seq<(Room, u128, Backend)>) -> Seq<u128> {
    q.map_values(|t: (Room, u128, Backend)| t.1)
}

/// What a vacuum at `now` does to the store: the agent rows of the rooms it
/// closes are gone, the others stay, the recordings it takes up are noted
/// as sent (their status stays), and nothing else changes.
pub open spec fn vacuumed(before: StoreView, after: StoreView, now: i64) -> bool {
    let q = finished_recordings(before, now);
    &&& after.uploads_sent == before.uploads_sent + sent_rtcs(q)
    &&& after.rooms == before.rooms
    &&& after.rtcs == before.rtcs
    &&& after.recordings == before.recordings
    &&& after.backends == before.backends
    &&& after.reader_configs == before.reader_configs
    &&& forall|i: int| 0 <= i < after.agents.len() ==> !closes_room(q, (#[trigger] after.agents[i]).room_id)
    &&& forall|i: int| 0 <= i < after.agents.len() ==> before.agents.contains(#[trigger] after.agents[i])
    &&& forall|i: int|
        0 <= i < before.agents.len() && !closes_room(q, (#[trigger] before.agents[i]).room_id)
            ==> after.agents.contains(before.agents[i])
}

/// After a vacuum, no agent row is left in a room that it closed.
pub proof fn lemma_vacuum_empties_closed_rooms(before: StoreView, after: StoreView, now: i64, k: int)
    requires
        vacuumed(before, after, now),
        0 <= k < finished_recordings(before, now).len(),
    ensures
        forall|i: int| 0 <= i < after.agents.len() ==> (#[trigger] after.agents[i]).room_id != finished_recordings(before, now)[k].0.id,
{
    let q = finished_recordings(before, now);
    assert forall|i: int| 0 <= i < after.agents.len() implies (#[trigger] after.agents[i]).room_id != q[k].0.id by {
        if after.agents[i].room_id == q[k].0.id {
            assert(closes_room(q, after.agents[i].room_id));
        }
    }
}

proof fn lemma_filter_map_keeps<A, B>(s: Seq<A>, f: spec_fn(A) -> Option<B>, i: int)
    requires
        0 <= i < s.len(),
        f(s[i]) is Some,
    ensures
        s.filter_map(f).contains(f(s[i])->0),
    decreases s.len(),
{
    let rest = s.drop_last();
    if i == s.len() - 1 {
        let out = s.filter_map(f);
        assert(out[out.len() - 1] == f(s[i])->0);
    } else {
        assert(rest[i] == s[i]);
        lemma_filter_map_keeps(rest, f, i);
        let k = choose|k: int| 0 <= k < rest.filter_map(f).len() && rest.filter_map(f)[k] == f(s[i])->0;
        match f(s.last()) {
            Some(y) => assert(s.filter_map(f)[k] == rest.filter_map(f)[k]),
            None => {},
        }
    }
}

proof fn lemma_filter_map_none<A, B>(s: Seq<A>, f: spec_fn(A) -> Option<B>)
    requires
        forall|i: int| 0 <= i < s.len() ==> f(#[trigger] s[i]) is None,
    ensures
        s.filter_map(f).len() == 0,
    decreases s.len(),
{
    if s.len() > 0 {
        let rest = s.drop_last();
        assert forall|i: int| 0 <= i < rest.len() implies f(#[trigger] rest[i]) is None by {
            assert(rest[i] == s[i]);
        }
        lemma_filter_map_none(rest, f);
        assert(f(s[s.len() - 1]) is None);
    }
}

/// A second vacuum at the same time, on the store that the first left,
/// takes up no recording: no upload command and no `room.close` event is
/// sent again, and the agent rows stay as the first left them.
pub proof fn lemma_vacuum_twice(s0: StoreView, s1: StoreView, s2: StoreView, now: i64)
    requires
        vacuumed(s0, s1, now),
        vacuumed(s1, s2, now),
    ensures
        finished_recordings(s1, now).len() == 0,
        forall|row: Object| s2.agents.contains(row) <==> s1.agents.contains(row),
{
    let f0 = |rec: Recording| crate::store::vacuum_candidate(s0, now, rec);
    let f1 = |rec: Recording| crate::store::vacuum_candidate(s1, now, rec);
    let q0 = finished_recordings(s0, now);
    assert forall|i: int| 0 <= i < s1.recordings.len() implies f1(#[trigger] s1.recordings[i]) is None by {
        let rec = s1.recordings[i];
        assert(rec == s0.recordings[i]);
        if f0(rec) is Some {
            lemma_filter_map_keeps(s0.recordings, f0, i);
            let t = f0(rec)->0;
            let k = choose|k: int| 0 <= k < q0.len() && q0[k] == t;
            assert(sent_rtcs(q0)[k] == rec.rtc_id);
            assert(s1.uploads_sent[s0.uploads_sent.len() + k] == rec.rtc_id);
            assert(s1.uploads_sent.contains(rec.rtc_id));
        } else {
            if !s1.uploads_sent.contains(rec.rtc_id) {
                assert(!s0.uploads_sent.contains(rec.rtc_id)) by {
                    if s0.uploads_sent.contains(rec.rtc_id) {
                        let j = choose|j: int| 0 <= j < s0.uploads_sent.len() && s0.uploads_sent[j] == rec.rtc_id;
                        assert(s1.uploads_sent[j] == rec.rtc_id);
                    }
                }
            }
        }
    }
    lemma_filter_map_none(s1.recordings, f1);
    assert forall|row: Object| s2.agents.contains(row) <==> s1.agents.contains(row) by {
        if s1.agents.contains(row) {
            let i = choose|i: int| 0 <= i < s1.agents.len() && s1.agents[i] == row;
            assert(!closes_room(finished_recordings(s1, now), s1.agents[i].room_id));
        }
    }
}

/// What a vacuum that was allowed does: the store as `vacuumed` says, and
/// for each recording it takes up, the upload command then the
/// `room.close` event of its room.
pub open spec fn vacuum_sent(before: Context, reqp: RequestProperties, after: StoreView, msgs: Seq<OutgoingMessage>) -> bool {
    let q = finished_recordings(before.store@, before.now);
    &&& vacuumed(before.store@, after, before.now)
    &&& msgs.len() == 2 * q.len()
    &&& forall|k: int| 0 <= k < q.len() ==> (#[trigger] msgs[2 * k])@ == upload_request_view(q[k].0, q[k].1, q[k].2, before.agent_id@, reqp, before.hop())
    &&& forall|k: int| 0 <= k < q.len() ==> (#[trigger] msgs[2 * k + 1])@ == room_close_view(q[k].0, before.agent_id@, reqp.tracking, before.hop())
}

fn upload_request(room: &Room, rtc_id: u128, backend: &Backend, me: &AgentId, reqp: &RequestProperties, hop: u64) -> (r: OutgoingMessage)
    ensures
        r@ == upload_request_view(*room, rtc_id, *backend, me@, *reqp, hop),
{
    let body = UploadStreamRequestBody {
        session_id: backend.session_id,
        handle_id: backend.handle_id,
        id: rtc_id,
        bucket: bucket_name(room),
        object: record_name(rtc_id),
    };
    OutgoingMessage::Request {
        topic: agent_inbox_topic_of(&backend.id, JANUS_API_VERSION, me),
        method: String::from_str("stream.upload"),
        response_topic: None,
        correlation: None,
        payload: Payload::UploadStream(body),
        props: forwarded_properties(reqp.long_term_timing, &reqp.tracking, &reqp.local_tracking_label, hop),
    }
}

fn room_close_event(room: Room, me: &AgentId, tracking: &Tracking, hop: u64) -> (r: OutgoingMessage)
    ensures
        r@ == room_close_view(room, me@, *tracking, hop),
{
    let path = room_events_path_of(room.id);
    OutgoingMessage::Event {
        topic: app_events_topic_of(me, API_VERSION, path.as_str()),
        label: String::from_str("room.close"),
        payload: Payload::Room(room),
        props: event_properties(tracking, hop),
    }
}

pub struct VacuumHandler;

impl VacuumHandler {
    /// What the caller of a vacuum must be allowed: `update` on `system`,
    /// asked in the name of this service's audience.
    pub fn authz_request(context: &Context, reqp: &RequestProperties) -> (r: AuthzRequest)
        ensures
            r.audience@ == context.agent_id.audience@,
            r.subject@ == reqp.agent_id@,
            r.object@.len() == 1,
            r.object@[0]@ == "system"@,
            r.action@ == "update"@,
    {
        let mut object: Vec<String> = Vec::new();
        object.push(String::from_str("system"));
        AuthzRequest {
            audience: context.agent_id.audience.clone(),
            subject: reqp.agent_id.duplicate(),
            object,
            action: String::from_str("update"),
        }
    }

    /// Closes the rooms that have finished with recordings in progress. With
    /// `authz` the answer to `authz_request`: where it allowed the action,
    /// for each such recording in turn, removes every agent row of its room,
    /// then emits the upload command for the recording and the `room.close`
    /// event of its room. Recordings stay `in_progress`.
    pub fn handle(
        context: &mut Context,
        payload: VacuumRequest,
        reqp: &RequestProperties,
        authz: Result<(), AuthzError>,
    ) -> (r: Result<Vec<OutgoingMessage>, Error>)
        requires
            old(context).wf(),
        ensures
            final(context).wf(),
            final(context).correlations == old(context).correlations,
            final(context).agent_id == old(context).agent_id,
            final(context).now == old(context).now,
            final(context).start_timestamp == old(context).start_timestamp,
            r is Ok <==> authz is Ok,
            authz matches Err(e) ==> final(context).store@ == old(context).store@ && (r matches Err(err)
                && err.spec_kind() == (match e {
                AuthzError::Forbidden(_) => ErrorKind::AccessDenied,
                AuthzError::Failed(_) => ErrorKind::AuthorizationFailed,
            })),
            r matches Ok(msgs) ==> vacuum_sent(*old(context), *reqp, final(context).store@, msgs@),
    {
        match authz {
            Err(e) => return Err(Error::from_authz(e)),
            Ok(()) => {},
        }
        let ghost before = context.store@;
        let ghost q = finished_recordings(before, context.now);
        let rooms = context.store.finished_with_in_progress_recordings(context.now);
        let hop = until_now_of(context.start_timestamp, context.now);
        let mut requests: Vec<OutgoingMessage> = Vec::new();
        let mut i: usize = 0;
        while i < rooms.len()
            invariant
                rooms@ == q,
                context.wf(),
                context.correlations == old(context).correlations,
                context.agent_id == old(context).agent_id,
                context.now == old(context).now,
                context.start_timestamp == old(context).start_timestamp,
                hop == old(context).hop(),
                i <= q.len(),
                context.store@.rooms == before.rooms,
                context.store@.rtcs == before.rtcs,
                context.store@.recordings == before.recordings,
                context.store@.backends == before.backends,
                context.store@.reader_configs == before.reader_configs,
                context.store@.uploads_sent == before.uploads_sent + sent_rtcs(q.subrange(0, i as int)),
                forall|j: int| 0 <= j < context.store@.agents.len()
                    ==> !closes_room(q.subrange(0, i as int), (#[trigger] context.store@.agents[j]).room_id),
                forall|j: int| 0 <= j < context.store@.agents.len() ==> before.agents.contains(#[trigger] context.store@.agents[j]),
                forall|j: int| 0 <= j < before.agents.len() && !closes_room(q.subrange(0, i as int), (#[trigger] before.agents[j]).room_id)
                    ==> context.store@.agents.contains(before.agents[j]),
                requests@.len() == 2 * i,
                forall|k: int| 0 <= k < i ==> (#[trigger] requests@[2 * k])@ == upload_request_view(q[k].0, q[k].1, q[k].2, context.agent_id@, *reqp, hop),
                forall|k: int| 0 <= k < i ==> (#[trigger] requests@[2 * k + 1])@ == room_close_view(q[k].0, context.agent_id@, reqp.tracking, hop),
            decreases q.len() - i,
        {
            let (room, rtc_id, backend) = (&rooms[i].0, rooms[i].1, &rooms[i].2);
            let ghost cur = context.store@.agents;
            let ghost pred = |row: Object| !crate::store::delete_matches(row, None, Some(room.id));
            context.store.delete_agents(None, Some(room.id));
            proof {
                let next = context.store@.agents;
                assert(next == cur.filter(pred));
                assert forall|j: int| 0 <= j < next.len() implies !closes_room(q.subrange(0, i as int + 1), (#[trigger] next[j]).room_id)
                    && before.agents.contains(next[j]) by {
                    assert(next.contains(next[j]));
                    cur.lemma_filter_contains_rev(pred, next[j]);
                    cur.lemma_filter_pred(pred, j);
                    let w = choose|w: int| 0 <= w < cur.len() && cur[w] == next[j];
                    if closes_room(q.subrange(0, i as int + 1), next[j].room_id) {
                        let k = choose|k: int| 0 <= k < i + 1 && (#[trigger] q.subrange(0, i as int + 1)[k]).0.id == next[j].room_id;
                        if k < i {
                            assert(q.subrange(0, i as int)[k].0.id == next[j].room_id);
                            assert(!closes_room(q.subrange(0, i as int), cur[w].room_id));
                        }
                    }
                }
                assert forall|j: int| 0 <= j < before.agents.len() && !closes_room(q.subrange(0, i as int + 1), (#[trigger] before.agents[j]).room_id)
                    implies next.contains(before.agents[j]) by {
                    if closes_room(q.subrange(0, i as int), before.agents[j].room_id) {
                        let k = choose|k: int| 0 <= k < i && (#[trigger] q.subrange(0, i as int)[k]).0.id == before.agents[j].room_id;
                        assert(q.subrange(0, i as int + 1)[k].0.id == before.agents[j].room_id);
                    }
                    assert(cur.contains(before.agents[j]));
                    assert(q.subrange(0, i as int + 1)[i as int].0.id == room.id);
                    assert(pred(before.agents[j]));
                    let w = choose|w: int| 0 <= w < cur.len() && cur[w] == before.agents[j];
                    cur.lemma_filter_contains(pred, w);
                }
            }
            let ghost sent = context.store@.uploads_sent;
            context.store.mark_upload_sent(rtc_id);
            proof {
                assert(sent_rtcs(q.subrange(0, i as int + 1)) =~= sent_rtcs(q.subrange(0, i as int)).push(rtc_id));
                assert(context.store@.uploads_sent =~= before.uploads_sent + sent_rtcs(q.subrange(0, i as int + 1)));
            }
            requests.push(upload_request(room, rtc_id, backend, &context.agent_id, reqp, hop));
            requests.push(room_close_event(room.duplicate(), &context.agent_id, &reqp.tracking, hop));
            i += 1;
        }
        proof {
            assert(q.subrange(0, q.len() as int) == q);
        }
        Ok(requests)
    }
}

} // verus!
