use vstd::prelude::*;
use vstd::string::StringExecFns;
use crate::agent::{has_key, Object, Status};
use crate::error::{Error, ErrorKind};
use crate::ids::AgentId;
use crate::metrics::BackendLoad;
use crate::rtc_reader_config::Object as ReaderConfig;

verus! {

/// The half-open time `[opens_at, closes_at)` of a room, in milliseconds;
/// a missing bound is unbounded.
#[derive(Debug, Clone, Copy, PartialEq, Eq, Structural)]
pub struct RoomTime {
    pub opens_at: Option<i64>,
    pub closes_at: Option<i64>,
}

impl RoomTime {
    pub open spec fn wf(&self) -> bool {
        match (self.opens_at, self.closes_at) {
            (Some(o), Some(c)) => o <= c,
            _ => true,
        }
    }

    pub open spec fn spec_is_open(&self, now: i64) -> bool {
        (self.opens_at is None || self.opens_at->0 <= now)
            && (self.closes_at is None || now < self.closes_at->0)
    }

    pub open spec fn spec_is_finished(&self, now: i64) -> bool {
        self.closes_at is Some && self.closes_at->0 <= now
    }

    pub fn is_valid(&self) -> (r: bool)
        ensures
            r == self.wf(),
    {
        match (self.opens_at, self.closes_at) {
            (Some(o), Some(c)) => o <= c,
            _ => true,
        }
    }

    pub fn is_open(&self, now: i64) -> (r: bool)
        ensures
            r == self.spec_is_open(now),
    {
        let started = match self.opens_at {
            Some(o) => o <= now,
            None => true,
        };
        let ended = match self.closes_at {
            Some(c) => c <= now,
            None => false,
        };
        started && !ended
    }

    pub fn is_finished(&self, now: i64) -> (r: bool)
        ensures
            r == self.spec_is_finished(now),
    {
        match self.closes_at {
            Some(c) => c <= now,
            None => false,
        }
    }
}

/// What a handler asks of a room's time when it looks the room up.
#[derive(Debug, Clone, Copy, PartialEq, Eq, Structural)]
pub enum RoomTimeRequirement {
    Any,
    NotClosed,
    Open,
}

pub open spec fn meets_requirement(t: RoomTime, req: RoomTimeRequirement, now: i64) -> bool {
    match req {
        RoomTimeRequirement::Any => true,
        RoomTimeRequirement::NotClosed => !t.spec_is_finished(now),
        RoomTimeRequirement::Open => t.spec_is_open(now),
    }
}

#[derive(Debug)]
pub struct Room {
    pub id: u128,
    pub audience: String,
    pub time: RoomTime,
    pub backend_id: Option<AgentId>,
}

impl Room {
    pub fn duplicate(&self) -> (r: Room)
        ensures
            r == *self,
    {
        Room {
            id: self.id,
            audience: self.audience.clone(),
            time: self.time,
            backend_id: match &self.backend_id {
                Some(b) => Some(b.duplicate()),
                None => None,
            },
        }
    }
}

/// One media track of one participant in one room.
#[derive(Debug, Clone, Copy, PartialEq, Eq, Structural)]
pub struct Rtc {
    pub id: u128,
    pub room_id: u128,
}

#[derive(Debug, Clone, Copy, PartialEq, Eq, Structural)]
pub enum RecordingStatus {
    InProgress,
    Ready,
    Missing,
}

/// The capture of one RTC; `segments` are half-open millisecond intervals.
#[derive(Debug)]
pub struct Recording {
    pub rtc_id: u128,
    pub backend_id: AgentId,
    pub status: RecordingStatus,
    pub segments: Option<Vec<(i64, i64)>>,
    pub started_at: Option<i64>,
}

/// A media backend and the control-plane handles it gave.
#[derive(Debug)]
pub struct Backend {
    pub id: AgentId,
    pub session_id: i64,
    pub handle_id: i64,
    pub capacity: Option<i32>,
    pub reserve: Option<i32>,
}

impl Backend {
    pub fn duplicate(&self) -> (r: Backend)
        ensures
            r == *self,
    {
        Backend {
            id: self.id.duplicate(),
            session_id: self.session_id,
            handle_id: self.handle_id,
            capacity: self.capacity,
            reserve: self.reserve,
        }
    }
}

/// The rooms, agent rows, RTCs, recordings and backends that the handlers
/// read and change.
pub struct Store {
    rooms: Vec<Room>,
    agents: Vec<Object>,
    rtcs: Vec<Rtc>,
    recordings: Vec<Recording>,
    backends: Vec<Backend>,
    reader_configs: Vec<ReaderConfig>,
    uploads_sent: Vec<u128>,
    next_row_id: u128,
}

pub struct StoreView {
    pub rooms: Seq<Room>,
    pub agents: Seq<Object>,
    pub rtcs: Seq<Rtc>,
    pub recordings: Seq<Recording>,
    pub backends: Seq<Backend>,
    pub reader_configs: Seq<ReaderConfig>,
    /// The RTCs whose recording's upload command was already sent.
    pub uploads_sent: Seq<u128>,
}

impl View for Store {
    type V = StoreView;

    closed spec fn view(&self) -> StoreView {
        StoreView {
            rooms: self.rooms@,
            agents: self.agents@,
            rtcs: self.rtcs@,
            recordings: self.recordings@,
            backends: self.backends@,
            reader_configs: self.reader_configs@,
            uploads_sent: self.uploads_sent@,
        }
    }
}

pub open spec fn has_room(rooms: Seq<Room>, id: u128) -> bool {
    exists|i: int| 0 <= i < rooms.len() && #[trigger] rooms[i].id == id
}

/// The room with identity `id`.
pub open spec fn room_of(rooms: Seq<Room>, id: u128) -> Room
    recommends
        has_room(rooms, id),
{
    rooms[choose|i: int| 0 <= i < rooms.len() && #[trigger] rooms[i].id == id]
}

pub open spec fn has_rtc(rtcs: Seq<Rtc>, id: u128) -> bool {
    exists|i: int| 0 <= i < rtcs.len() && #[trigger] rtcs[i].id == id
}

pub open spec fn rtc_of(rtcs: Seq<Rtc>, id: u128) -> Rtc {
    rtcs[choose|i: int| 0 <= i < rtcs.len() && #[trigger] rtcs[i].id == id]
}

pub open spec fn has_backend(backends: Seq<Backend>, id: (Seq<char>, Seq<char>, Seq<char>)) -> bool {
    exists|i: int| 0 <= i < backends.len() && #[trigger] backends[i].id@ == id
}

pub open spec fn backend_of(backends: Seq<Backend>, id: (Seq<char>, Seq<char>, Seq<char>)) -> Backend {
    backends[choose|i: int| 0 <= i < backends.len() && #[trigger] backends[i].id@ == id]
}

/// Whether `agent` has a `ready` row in room `room_id`.
pub open spec fn is_present(agents: Seq<Object>, agent: (Seq<char>, Seq<char>, Seq<char>), room_id: u128) -> bool {
    exists|i: int|
        0 <= i < agents.len() && has_key(#[trigger] agents[i], agent, room_id)
            && agents[i].status == Status::Ready
}

/// Whether some row of `agents` holds the key `(agent, room_id)`.
pub open spec fn has_row(agents: Seq<Object>, agent: (Seq<char>, Seq<char>, Seq<char>), room_id: u128) -> bool {
    exists|i: int| 0 <= i < agents.len() && has_key(#[trigger] agents[i], agent, room_id)
}

pub open spec fn opt_view(a: Option<&AgentId>) -> Option<(Seq<char>, Seq<char>, Seq<char>)> {
    match a {
        Some(id) => Some(id@),
        None => None,
    }
}

/// Whether `row` matches both filters that are given.
pub open spec fn delete_matches(row: Object, agent: Option<(Seq<char>, Seq<char>, Seq<char>)>, room_id: Option<u128>) -> bool {
    (agent is None || row.agent_id@ == agent->0) && (room_id is None || row.room_id == room_id->0)
}

/// The outcome of inserting `(agent, room_id)` with `status` at `now`:
/// where the key was taken, that row is set back to `in_progress`; else a
/// new row is appended. `row` is the row as it now stands.
pub open spec fn upserted(
    before: Seq<Object>,
    after: Seq<Object>,
    row: Object,
    agent: (Seq<char>, Seq<char>, Seq<char>),
    room_id: u128,
    status: Status,
    now: i64,
) -> bool {
    &&& has_key(row, agent, room_id)
    &&& if has_row(before, agent, room_id) {
        exists|i: int|
            0 <= i < before.len() && has_key(#[trigger] before[i], agent, room_id)
                && row == (Object { status: Status::InProgress, ..before[i] })
                && after == before.update(i, row)
    } else {
        &&& row.status == status && row.created_at == now
        &&& after == before.push(row)
    }
}

/// The outcome of setting how `reader` receives RTC `rtc_id`: where a
/// setting exists, the flags given replace its own; else a setting is
/// appended, with the flags not given on.
pub open spec fn reader_config_upserted(
    before: Seq<ReaderConfig>,
    after: Seq<ReaderConfig>,
    row: ReaderConfig,
    rtc_id: u128,
    reader: (Seq<char>, Seq<char>, Seq<char>),
    video: Option<bool>,
    audio: Option<bool>,
) -> bool {
    &&& crate::rtc_reader_config::has_config_key(row, rtc_id, reader)
    &&& if exists|i: int| 0 <= i < before.len() && crate::rtc_reader_config::has_config_key(#[trigger] before[i], rtc_id, reader) {
        exists|i: int|
            0 <= i < before.len() && crate::rtc_reader_config::has_config_key(#[trigger] before[i], rtc_id, reader)
                && row == (ReaderConfig {
                    receive_video: match video {
                        Some(b) => b,
                        None => before[i].receive_video,
                    },
                    receive_audio: match audio {
                        Some(b) => b,
                        None => before[i].receive_audio,
                    },
                    ..before[i]
                })
                && after == before.update(i, row)
    } else {
        &&& row.receive_video == (match video {
            Some(b) => b,
            None => true,
        })
        &&& row.receive_audio == (match audio {
            Some(b) => b,
            None => true,
        })
        &&& after == before.push(row)
    }
}

/// A reader setting with its RTC, where the reader is `reader` and the RTC
/// is in room `room_id`.
pub open spec fn reader_config_in_room(
    v: StoreView,
    room_id: u128,
    reader: (Seq<char>, Seq<char>, Seq<char>),
    c: ReaderConfig,
) -> Option<(ReaderConfig, Rtc)> {
    if c.reader_id@ == reader && has_rtc(v.rtcs, c.rtc_id) && rtc_of(v.rtcs, c.rtc_id).room_id == room_id {
        Some((c, rtc_of(v.rtcs, c.rtc_id)))
    } else {
        None
    }
}

/// The sum of the capacities of `bs`; a backend without one counts zero.
pub open spec fn capacity_sum(bs: Seq<Backend>) -> int
    decreases bs.len(),
{
    if bs.len() == 0 {
        0
    } else {
        capacity_sum(bs.drop_last()) + match bs.last().capacity {
            Some(c) => c as int,
            None => 0,
        }
    }
}

/// Whether `row` is a `ready` agent in a room bound to backend `id`.
pub open spec fn bound_to(v: StoreView, row: Object, id: (Seq<char>, Seq<char>, Seq<char>)) -> bool {
    &&& row.status == Status::Ready
    &&& has_room(v.rooms, row.room_id)
    &&& room_of(v.rooms, row.room_id).backend_id matches Some(b) && b@ == id
}

/// The agents currently bound to backend `id`.
pub open spec fn backend_agent_load(v: StoreView, id: (Seq<char>, Seq<char>, Seq<char>)) -> nat {
    v.agents.filter(|row: Object| bound_to(v, row, id)).len()
}

/// The part of `load` counted toward a reserve of `reserve`.
pub open spec fn taken_of(load: nat, reserve: Option<i32>) -> nat {
    match reserve {
        Some(r) => if r <= 0 { 0 } else if load <= r as nat { load } else { r as nat },
        None => 0,
    }
}

/// Every agent row belongs to a room that exists, in every valid store.
pub proof fn lemma_agent_rows_have_rooms(v: StoreView)
    requires
        v.inv(),
    ensures
        forall|i: int| 0 <= i < v.agents.len() ==> has_room(v.rooms, (#[trigger] v.agents[i]).room_id),
{
}

/// Inserting the same `(agent, room_id)` twice leaves a single row for it,
/// and that row is `in_progress`.
pub proof fn lemma_insert_twice(
    s0: StoreView,
    s1: StoreView,
    s2: StoreView,
    agent: (Seq<char>, Seq<char>, Seq<char>),
    room_id: u128,
    first: (Object, Status, i64),
    second: (Object, Status, i64),
)
    requires
        s1.inv(),
        s2.inv(),
        upserted(s0.agents, s1.agents, first.0, agent, room_id, first.1, first.2),
        upserted(s1.agents, s2.agents, second.0, agent, room_id, second.1, second.2),
    ensures
        exists|i: int|
            0 <= i < s2.agents.len() && has_key(#[trigger] s2.agents[i], agent, room_id)
                && s2.agents[i].status == Status::InProgress
                && forall|j: int| 0 <= j < s2.agents.len() && has_key(#[trigger] s2.agents[j], agent, room_id) ==> j == i,
{
    if has_row(s0.agents, agent, room_id) {
        let i = choose|i: int|
            0 <= i < s0.agents.len() && has_key(#[trigger] s0.agents[i], agent, room_id)
                && first.0 == (Object { status: Status::InProgress, ..s0.agents[i] })
                && s1.agents == s0.agents.update(i, first.0);
        assert(has_key(s1.agents[i], agent, room_id));
    } else {
        assert(has_key(s1.agents[s0.agents.len() as int], agent, room_id));
    }
    assert(has_row(s1.agents, agent, room_id));
    let i = choose|i: int|
        0 <= i < s1.agents.len() && has_key(#[trigger] s1.agents[i], agent, room_id)
            && second.0 == (Object { status: Status::InProgress, ..s1.agents[i] })
            && s2.agents == s1.agents.update(i, second.0);
    assert(has_key(s2.agents[i], agent, room_id));
    assert forall|j: int| 0 <= j < s2.agents.len() && has_key(#[trigger] s2.agents[j], agent, room_id) implies j == i by {
        if j != i {
            assert(has_key(s2.agents[j], s2.agents[i].agent_id@, s2.agents[i].room_id));
        }
    }
}

impl StoreView {
    pub open spec fn rooms_unique(&self) -> bool {
        forall|i: int, j: int|
            0 <= i < self.rooms.len() && 0 <= j < self.rooms.len() && i != j
                ==> #[trigger] self.rooms[i].id != #[trigger] self.rooms[j].id
    }

    pub open spec fn room_times_valid(&self) -> bool {
        forall|i: int| 0 <= i < self.rooms.len() ==> (#[trigger] self.rooms[i]).time.wf()
    }

    /// Every agent row belongs to a room that exists.
    pub open spec fn no_orphan_agents(&self) -> bool {
        forall|i: int| 0 <= i < self.agents.len() ==> has_room(self.rooms, (#[trigger] self.agents[i]).room_id)
    }

    /// At most one row per `(agent_id, room_id)`.
    pub open spec fn agent_keys_unique(&self) -> bool {
        forall|i: int, j: int|
            0 <= i < self.agents.len() && 0 <= j < self.agents.len() && i != j
                ==> !has_key(#[trigger] self.agents[i], (#[trigger] self.agents[j]).agent_id@, self.agents[j].room_id)
    }

    pub open spec fn rtcs_valid(&self) -> bool {
        &&& forall|i: int| 0 <= i < self.rtcs.len() ==> has_room(self.rooms, (#[trigger] self.rtcs[i]).room_id)
        &&& forall|i: int, j: int|
            0 <= i < self.rtcs.len() && 0 <= j < self.rtcs.len() && i != j
                ==> #[trigger] self.rtcs[i].id != #[trigger] self.rtcs[j].id
    }

    pub open spec fn backends_unique(&self) -> bool {
        forall|i: int, j: int|
            0 <= i < self.backends.len() && 0 <= j < self.backends.len() && i != j
                ==> #[trigger] self.backends[i].id@ != #[trigger] self.backends[j].id@
    }

    pub open spec fn recordings_valid(&self) -> bool {
        &&& forall|i: int| 0 <= i < self.recordings.len() ==> has_rtc(self.rtcs, (#[trigger] self.recordings[i]).rtc_id)
        &&& forall|i: int, j: int|
            0 <= i < self.recordings.len() && 0 <= j < self.recordings.len() && i != j
                ==> #[trigger] self.recordings[i].rtc_id != #[trigger] self.recordings[j].rtc_id
    }

    /// Reader settings name RTCs that exist, at most one per `(rtc, reader)`.
    pub open spec fn reader_configs_valid(&self) -> bool {
        &&& forall|i: int| 0 <= i < self.reader_configs.len() ==> has_rtc(self.rtcs, (#[trigger] self.reader_configs[i]).rtc_id)
        &&& forall|i: int, j: int|
            0 <= i < self.reader_configs.len() && 0 <= j < self.reader_configs.len() && i != j
                ==> !crate::rtc_reader_config::has_config_key(
                #[trigger] self.reader_configs[i],
                (#[trigger] self.reader_configs[j]).rtc_id,
                self.reader_configs[j].reader_id@,
            )
    }

    /// The invariants of the store.
    pub open spec fn inv(&self) -> bool {
        &&& self.reader_configs_valid()
        &&& self.rooms_unique()
        &&& self.room_times_valid()
        &&& self.no_orphan_agents()
        &&& self.agent_keys_unique()
        &&& self.rtcs_valid()
        &&& self.backends_unique()
        &&& self.recordings_valid()
    }
}

pub proof fn lemma_room_of(rooms: Seq<Room>, i: int)
    requires
        0 <= i < rooms.len(),
        forall|a: int, b: int|
            0 <= a < rooms.len() && 0 <= b < rooms.len() && a != b
                ==> #[trigger] rooms[a].id != #[trigger] rooms[b].id,
    ensures
        has_room(rooms, rooms[i].id),
        room_of(rooms, rooms[i].id) == rooms[i],
{
    assert(rooms[i].id == rooms[i].id);
}

pub proof fn lemma_rtc_of(rtcs: Seq<Rtc>, i: int)
    requires
        0 <= i < rtcs.len(),
        forall|a: int, b: int|
            0 <= a < rtcs.len() && 0 <= b < rtcs.len() && a != b
                ==> #[trigger] rtcs[a].id != #[trigger] rtcs[b].id,
    ensures
        has_rtc(rtcs, rtcs[i].id),
        rtc_of(rtcs, rtcs[i].id) == rtcs[i],
{
    assert(rtcs[i].id == rtcs[i].id);
}

pub proof fn lemma_backend_of(backends: Seq<Backend>, i: int)
    requires
        0 <= i < backends.len(),
        forall|a: int, b: int|
            0 <= a < backends.len() && 0 <= b < backends.len() && a != b
                ==> #[trigger] backends[a].id@ != #[trigger] backends[b].id@,
    ensures
        has_backend(backends, backends[i].id@),
        backend_of(backends, backends[i].id@) == backends[i],
{
    assert(backends[i].id@ == backends[i].id@);
}

/// What the closing sweep takes up for a recording: its room, RTC and
/// backend, where the recording is `in_progress`, its upload was not sent
/// yet, its room has finished at `now` and its backend is known.
pub open spec fn vacuum_candidate(v: StoreView, now: i64, rec: Recording) -> Option<(Room, u128, Backend)> {
    if rec.status == RecordingStatus::InProgress && !v.uploads_sent.contains(rec.rtc_id) && has_rtc(v.rtcs, rec.rtc_id)
        && has_room(v.rooms, rtc_of(v.rtcs, rec.rtc_id).room_id)
        && room_of(v.rooms, rtc_of(v.rtcs, rec.rtc_id).room_id).time.spec_is_finished(now)
        && has_backend(v.backends, rec.backend_id@) {
        Some((room_of(v.rooms, rtc_of(v.rtcs, rec.rtc_id).room_id), rec.rtc_id, backend_of(v.backends, rec.backend_id@)))
    } else {
        None
    }
}

pub open spec fn finished_recordings(v: StoreView, now: i64) -> Seq<(Room, u128, Backend)> {
    v.recordings.filter_map(|rec: Recording| vacuum_candidate(v, now, rec))
}

pub proof fn lemma_reader_configs_kept(a: StoreView, b: StoreView)
    requires
        a.reader_configs_valid(),
        b.rtcs == a.rtcs,
        b.reader_configs == a.reader_configs,
    ensures
        b.reader_configs_valid(),
{
}

pub proof fn lemma_has_rtc_push(rtcs: Seq<Rtc>, rtc: Rtc)
    ensures
        forall|id: u128| has_rtc(rtcs, id) ==> #[trigger] has_rtc(rtcs.push(rtc), id),
{
    assert forall|id: u128| has_rtc(rtcs, id) implies #[trigger] has_rtc(rtcs.push(rtc), id) by {
        let k = choose|k: int| 0 <= k < rtcs.len() && #[trigger] rtcs[k].id == id;
        assert(rtcs.push(rtc)[k].id == id);
    }
}

pub proof fn lemma_has_room_push(rooms: Seq<Room>, room: Room)
    ensures
        forall|id: u128| has_room(rooms, id) ==> #[trigger] has_room(rooms.push(room), id),
        has_room(rooms.push(room), room.id),
{
    assert forall|id: u128| has_room(rooms, id) implies #[trigger] has_room(rooms.push(room), id) by {
        let k = choose|k: int| 0 <= k < rooms.len() && #[trigger] rooms[k].id == id;
        assert(rooms.push(room)[k].id == id);
    }
    assert(rooms.push(room)[rooms.len() as int].id == room.id);
}

impl Store {
    pub fn new() -> (r: Store)
        ensures
            r@.inv(),
            r@.rooms.len() == 0,
            r@.agents.len() == 0,
            r@.rtcs.len() == 0,
            r@.recordings.len() == 0,
            r@.backends.len() == 0,
            r@.reader_configs.len() == 0,
            r@.uploads_sent.len() == 0,
    {
        Store {
            rooms: Vec::new(),
            agents: Vec::new(),
            rtcs: Vec::new(),
            recordings: Vec::new(),
            backends: Vec::new(),
            reader_configs: Vec::new(),
            uploads_sent: Vec::new(),
            next_row_id: 0,
        }
    }

    pub fn agents(&self) -> (r: &Vec<Object>)
        ensures
            r@ == self@.agents,
    {
        &self.agents
    }

    pub fn recordings(&self) -> (r: &Vec<Recording>)
        ensures
            r@ == self@.recordings,
    {
        &self.recordings
    }

    fn room_index(&self, id: u128) -> (r: Option<usize>)
        ensures
            match r {
                Some(i) => i < self.rooms@.len() && self.rooms@[i as int].id == id,
                None => !has_room(self.rooms@, id),
            },
    {
        let mut i: usize = 0;
        while i < self.rooms.len()
            invariant
                i <= self.rooms@.len(),
                forall|j: int| 0 <= j < i ==> self.rooms@[j].id != id,
            decreases self.rooms@.len() - i,
        {
            if self.rooms[i].id == id {
                return Some(i);
            }
            i += 1;
        }
        None
    }

    /// Adds a room. An identity already taken fails with `DbQueryFailed`, a
    /// time whose opening comes after its closing with `InvalidRoomTime`.
    pub fn insert_room(&mut self, id: u128, audience: &str, time: RoomTime) -> (r: Result<Room, Error>)
        requires
            old(self)@.inv(),
        ensures
            final(self)@.inv(),
            match r {
                Ok(room) => {
                    &&& !has_room(old(self)@.rooms, id) && time.wf()
                    &&& room.id == id && room.audience@ == audience@ && room.time == time
                    &&& room.backend_id is None
                    &&& final(self)@.rooms == old(self)@.rooms.push(room)
                    &&& final(self)@.agents == old(self)@.agents
                    &&& final(self)@.rtcs == old(self)@.rtcs
                    &&& final(self)@.recordings == old(self)@.recordings
                    &&& final(self)@.backends == old(self)@.backends
                    &&& final(self)@.reader_configs == old(self)@.reader_configs
                    &&& final(self)@.uploads_sent == old(self)@.uploads_sent
                },
                Err(e) => {
                    &&& final(self)@ == old(self)@
                    &&& e.spec_kind() == (if has_room(old(self)@.rooms, id) {
                        ErrorKind::DbQueryFailed
                    } else {
                        ErrorKind::InvalidRoomTime
                    })
                    &&& (has_room(old(self)@.rooms, id) || !time.wf())
                },
            },
    {
        if self.room_index(id).is_some() {
            return Err(Error::new(ErrorKind::DbQueryFailed, String::from_str("room identity already taken")));
        }
        if !time.is_valid() {
            return Err(Error::new(ErrorKind::InvalidRoomTime, String::from_str("room opens after it closes")));
        }
        let room = Room { id, audience: String::from_str(audience), time, backend_id: None };
        let stored = room.duplicate();
        self.rooms.push(stored);
        proof {
            lemma_has_room_push(old(self)@.rooms, stored);
            let v = self@;
            assert(v.rtcs == old(self)@.rtcs);
            lemma_reader_configs_kept(old(self)@, v);
            assert(forall|i: int| 0 <= i < v.rtcs.len() ==> has_room(v.rooms, (#[trigger] v.rtcs[i]).room_id));
        }
        Ok(room)
    }

    /// Looks a room up and checks its time against `req` at `now`.
    pub fn find_room(&self, id: u128, req: RoomTimeRequirement, now: i64) -> (r: Result<Room, Error>)
        requires
            self@.inv(),
        ensures
            match r {
                Ok(room) => has_room(self@.rooms, id) && room == room_of(self@.rooms, id)
                    && meets_requirement(room.time, req, now),
                Err(e) => if !has_room(self@.rooms, id) {
                    e.spec_kind() == ErrorKind::RoomNotFound
                } else {
                    !meets_requirement(room_of(self@.rooms, id).time, req, now)
                        && e.spec_kind() == ErrorKind::RoomClosed
                },
            },
    {
        match self.room_index(id) {
            None => Err(Error::new(ErrorKind::RoomNotFound, String::from_str("the room does not exist"))),
            Some(i) => {
                proof {
                    lemma_room_of(self.rooms@, i as int);
                }
                let room = &self.rooms[i];
                let ok = match req {
                    RoomTimeRequirement::Any => true,
                    RoomTimeRequirement::NotClosed => !room.time.is_finished(now),
                    RoomTimeRequirement::Open => room.time.is_open(now),
                };
                if ok {
                    Ok(room.duplicate())
                } else {
                    Err(Error::new(ErrorKind::RoomClosed, String::from_str("the room is closed")))
                }
            },
        }
    }

    fn agent_index(&self, agent_id: &AgentId, room_id: u128) -> (r: Option<usize>)
        ensures
            match r {
                Some(i) => i < self.agents@.len() && has_key(self.agents@[i as int], agent_id@, room_id),
                None => !has_row(self.agents@, agent_id@, room_id),
            },
    {
        let mut i: usize = 0;
        while i < self.agents.len()
            invariant
                i <= self.agents@.len(),
                forall|j: int| 0 <= j < i ==> !has_key(#[trigger] self.agents@[j], agent_id@, room_id),
            decreases self.agents@.len() - i,
        {
            let row = &self.agents[i];
            if row.room_id == room_id && row.agent_id.same_as(agent_id) {
                return Some(i);
            }
            i += 1;
        }
        None
    }

    /// Fails with `AgentNotEnteredTheRoom` unless `agent_id` has a `ready`
    /// row in room `room_id`.
    pub fn check_presence(&self, room_id: u128, agent_id: &AgentId) -> (r: Result<(), Error>)
        requires
            self@.inv(),
        ensures
            r is Ok <==> is_present(self@.agents, agent_id@, room_id),
            r matches Err(e) ==> e.spec_kind() == ErrorKind::AgentNotEnteredTheRoom,
    {
        match self.agent_index(agent_id, room_id) {
            Some(i) => {
                if self.agents[i].status == Status::Ready {
                    Ok(())
                } else {
                    proof {
                        assert forall|j: int| 0 <= j < self.agents@.len() && has_key(#[trigger] self.agents@[j], agent_id@, room_id)
                            implies self.agents@[j].status != Status::Ready by {
                            if j != i as int {
                                assert(has_key(self.agents@[j], self.agents@[i as int].agent_id@, self.agents@[i as int].room_id));
                            }
                        }
                    }
                    Err(Error::new(ErrorKind::AgentNotEnteredTheRoom, String::from_str("the agent is not ready in the room")))
                }
            },
            None => Err(Error::new(ErrorKind::AgentNotEnteredTheRoom, String::from_str("the agent has not entered the room"))),
        }
    }

    /// Inserts the row `(agent_id, room_id)` with `status`; where the key is
    /// taken, sets that row back to `in_progress` instead. A room that does
    /// not exist fails with `DbQueryFailed`.
    pub fn upsert_agent(&mut self, agent_id: &AgentId, room_id: u128, status: Status, now: i64) -> (r: Result<Object, Error>)
        requires
            old(self)@.inv(),
        ensures
            final(self)@.inv(),
            final(self)@.rooms == old(self)@.rooms,
            final(self)@.rtcs == old(self)@.rtcs,
            final(self)@.recordings == old(self)@.recordings,
            final(self)@.backends == old(self)@.backends,
            final(self)@.reader_configs == old(self)@.reader_configs,
            final(self)@.uploads_sent == old(self)@.uploads_sent,
            r is Ok <==> has_room(old(self)@.rooms, room_id),
            r matches Err(e) ==> e.spec_kind() == ErrorKind::DbQueryFailed && final(self)@ == old(self)@,
            r matches Ok(row) ==> upserted(old(self)@.agents, final(self)@.agents, row, agent_id@, room_id, status, now),
    {
        match self.agent_index(agent_id, room_id) {
            Some(i) => {
                let ghost before = self.agents@;
                let mut row = self.agents[i].duplicate();
                row.status = Status::InProgress;
                let result = row.duplicate();
                self.agents.set(i, row);
                proof {
                    let v = self@;
                    assert(v.agents == before.update(i as int, result));
                    assert forall|k: int| 0 <= k < v.agents.len() implies has_room(v.rooms, (#[trigger] v.agents[k]).room_id) by {
                        assert(v.agents[k].room_id == before[k].room_id);
                    }
                    assert forall|a: int, b: int|
                        0 <= a < v.agents.len() && 0 <= b < v.agents.len() && a != b
                            implies !has_key(#[trigger] v.agents[a], (#[trigger] v.agents[b]).agent_id@, v.agents[b].room_id) by {
                        assert(v.agents[a].agent_id == before[a].agent_id && v.agents[a].room_id == before[a].room_id);
                        assert(v.agents[b].agent_id == before[b].agent_id && v.agents[b].room_id == before[b].room_id);
                        assert(!has_key(before[a], before[b].agent_id@, before[b].room_id));
                    }
                    assert(v.rtcs == old(self)@.rtcs);
                    lemma_reader_configs_kept(old(self)@, v);
                    assert(forall|k: int| 0 <= k < v.rtcs.len() ==> has_room(v.rooms, (#[trigger] v.rtcs[k]).room_id));
                }
                Ok(result)
            },
            None => {
                if self.room_index(room_id).is_none() {
                    return Err(Error::new(ErrorKind::DbQueryFailed, String::from_str("the room does not exist")));
                }
                let row = Object {
                    id: crate::agent::Id(self.next_row_id),
                    agent_id: agent_id.duplicate(),
                    room_id,
                    created_at: now,
                    status,
                };
                let result = row.duplicate();
                self.agents.push(row);
                self.next_row_id = self.next_row_id.wrapping_add(1);
                proof {
                    let v = self@;
                    assert(v.agents == old(self)@.agents.push(result));
                    assert forall|a: int, b: int|
                        0 <= a < v.agents.len() && 0 <= b < v.agents.len() && a != b
                            implies !has_key(#[trigger] v.agents[a], (#[trigger] v.agents[b]).agent_id@, v.agents[b].room_id) by {
                        if a == old(self)@.agents.len() {
                            assert(!has_key(v.agents[b], agent_id@, room_id));
                        } else if b == old(self)@.agents.len() {
                            assert(!has_key(v.agents[a], agent_id@, room_id));
                        }
                    }
                    assert(v.rtcs == old(self)@.rtcs);
                    lemma_reader_configs_kept(old(self)@, v);
                    assert(forall|k: int| 0 <= k < v.rtcs.len() ==> has_room(v.rooms, (#[trigger] v.rtcs[k]).room_id));
                }
                Ok(result)
            },
        }
    }
    /// Sets the status of the row `(agent_id, room_id)` when `status` is
    /// given; returns the row, or `None` where no row holds the key.
    pub fn update_agent(&mut self, agent_id: &AgentId, room_id: u128, status: Option<Status>) -> (r: Option<Object>)
        requires
            old(self)@.inv(),
        ensures
            final(self)@.inv(),
            final(self)@.rooms == old(self)@.rooms,
            final(self)@.rtcs == old(self)@.rtcs,
            final(self)@.recordings == old(self)@.recordings,
            final(self)@.backends == old(self)@.backends,
            final(self)@.reader_configs == old(self)@.reader_configs,
            final(self)@.uploads_sent == old(self)@.uploads_sent,
            r is Some <==> has_row(old(self)@.agents, agent_id@, room_id),
            r is None ==> final(self)@.agents == old(self)@.agents,
            r matches Some(row) ==> exists|i: int| 0 <= i < old(self)@.agents.len()
                && has_key(#[trigger] old(self)@.agents[i], agent_id@, room_id)
                && row == (match status {
                    Some(st) => Object { status: st, ..old(self)@.agents[i] },
                    None => old(self)@.agents[i],
                })
                && final(self)@.agents == old(self)@.agents.update(i, row),
    {
        match self.agent_index(agent_id, room_id) {
            None => None,
            Some(i) => {
                let ghost before = self.agents@;
                let mut row = self.agents[i].duplicate();
                match status {
                    Some(st) => {
                        row.status = st;
                    },
                    None => {},
                }
                let result = row.duplicate();
                self.agents.set(i, row);
                proof {
                    let v = self@;
                    assert(v.agents == before.update(i as int, result));
                    assert forall|k: int| 0 <= k < v.agents.len() implies has_room(v.rooms, (#[trigger] v.agents[k]).room_id) by {
                        assert(v.agents[k].room_id == before[k].room_id);
                    }
                    assert forall|a: int, b: int|
                        0 <= a < v.agents.len() && 0 <= b < v.agents.len() && a != b
                            implies !has_key(#[trigger] v.agents[a], (#[trigger] v.agents[b]).agent_id@, v.agents[b].room_id) by {
                        assert(v.agents[a].agent_id == before[a].agent_id && v.agents[a].room_id == before[a].room_id);
                        assert(v.agents[b].agent_id == before[b].agent_id && v.agents[b].room_id == before[b].room_id);
                        assert(!has_key(before[a], before[b].agent_id@, before[b].room_id));
                    }
                    assert(v.rtcs == old(self)@.rtcs);
                    lemma_reader_configs_kept(old(self)@, v);
                    assert(forall|k: int| 0 <= k < v.rtcs.len() ==> has_room(v.rooms, (#[trigger] v.rtcs[k]).room_id));
                }
                Some(result)
            },
        }
    }

    /// Removes every row that matches both filters that are given; returns
    /// how many went.
    pub fn delete_agents(&mut self, agent_id: Option<&AgentId>, room_id: Option<u128>) -> (r: usize)
        requires
            old(self)@.inv(),
        ensures
            final(self)@.inv(),
            final(self)@.rooms == old(self)@.rooms,
            final(self)@.rtcs == old(self)@.rtcs,
            final(self)@.recordings == old(self)@.recordings,
            final(self)@.backends == old(self)@.backends,
            final(self)@.reader_configs == old(self)@.reader_configs,
            final(self)@.uploads_sent == old(self)@.uploads_sent,
            final(self)@.agents == old(self)@.agents.filter(|row: Object| !delete_matches(row, opt_view(agent_id), room_id)),
            r == old(self)@.agents.len() - final(self)@.agents.len(),
    {
        let ghost a = opt_view(agent_id);
        let ghost pred = |row: Object| !delete_matches(row, a, room_id);
        let ghost before = self.agents@;
        let mut kept: Vec<Object> = Vec::new();
        let mut i: usize = 0;
        while i < self.agents.len()
            invariant
                self@ == old(self)@,
                before == self.agents@,
                a == opt_view(agent_id),
                pred == (|row: Object| !delete_matches(row, a, room_id)),
                self@.inv(),
                i <= before.len(),
                kept@ == before.subrange(0, i as int).filter(pred),
                kept@.len() <= i,
                forall|k: int| 0 <= k < kept@.len() ==> exists|j: int| 0 <= j < i && #[trigger] kept@[k] == before[j],
                forall|k: int| 0 <= k < kept@.len() ==> has_room(self@.rooms, (#[trigger] kept@[k]).room_id),
                forall|x: int, y: int|
                    0 <= x < kept@.len() && 0 <= y < kept@.len() && x != y
                        ==> !has_key(#[trigger] kept@[x], (#[trigger] kept@[y]).agent_id@, kept@[y].room_id),
            decreases before.len() - i,
        {
            let row = &self.agents[i];
            let hit_agent = match agent_id {
                Some(id) => row.agent_id.same_as(id),
                None => true,
            };
            let hit_room = match room_id {
                Some(rid) => row.room_id == rid,
                None => true,
            };
            proof {
                assert(before.subrange(0, i as int + 1) == before.subrange(0, i as int).push(before[i as int]));
                before.subrange(0, i as int).lemma_filter_push(before[i as int], pred);
                assert(before[i as int] == *row);
                assert(hit_room == (room_id is None || row.room_id == room_id->0));
                assert(hit_agent == (a is None || row.agent_id@ == a->0));
                assert(delete_matches(before[i as int], a, room_id) == (hit_agent && hit_room));
                assert(pred(before[i as int]) == !(hit_agent && hit_room));
            }
            if !(hit_agent && hit_room) {
                let ghost kept_before = kept@;
                kept.push(row.duplicate());
                proof {
                    assert forall|k: int| 0 <= k < kept@.len() implies exists|j: int| 0 <= j < i + 1 && #[trigger] kept@[k] == before[j] by {
                        if k < kept_before.len() {
                            let j = choose|j: int| 0 <= j < i && #[trigger] kept_before[k] == before[j];
                            assert(kept@[k] == before[j]);
                        } else {
                            assert(kept@[k] == before[i as int]);
                        }
                    }
                    assert forall|x: int, y: int|
                        0 <= x < kept@.len() && 0 <= y < kept@.len() && x != y
                            implies !has_key(#[trigger] kept@[x], (#[trigger] kept@[y]).agent_id@, kept@[y].room_id) by {
                        if x == kept_before.len() {
                            let j = choose|j: int| 0 <= j < i && #[trigger] kept_before[y] == before[j];
                            assert(!has_key(before[i as int], before[j].agent_id@, before[j].room_id));
                        } else if y == kept_before.len() {
                            let j = choose|j: int| 0 <= j < i && #[trigger] kept_before[x] == before[j];
                            assert(!has_key(before[j], before[i as int].agent_id@, before[i as int].room_id));
                        }
                    }
                }
            }
            i += 1;
        }
        proof {
            assert(before.subrange(0, before.len() as int) == before);
        }
        let removed = self.agents.len() - kept.len();
        self.agents = kept;
        proof {
            let v = self@;
            assert(v.rtcs == old(self)@.rtcs);
            lemma_reader_configs_kept(old(self)@, v);
            assert(forall|k: int| 0 <= k < v.rtcs.len() ==> has_room(v.rooms, (#[trigger] v.rtcs[k]).room_id));
        }
        removed
    }
    fn rtc_index(&self, id: u128) -> (r: Option<usize>)
        ensures
            match r {
                Some(i) => i < self.rtcs@.len() && self.rtcs@[i as int].id == id,
                None => !has_rtc(self.rtcs@, id),
            },
    {
        let mut i: usize = 0;
        while i < self.rtcs.len()
            invariant
                i <= self.rtcs@.len(),
                forall|j: int| 0 <= j < i ==> self.rtcs@[j].id != id,
            decreases self.rtcs@.len() - i,
        {
            if self.rtcs[i].id == id {
                return Some(i);
            }
            i += 1;
        }
        None
    }

    fn backend_index(&self, id: &AgentId) -> (r: Option<usize>)
        ensures
            match r {
                Some(i) => i < self.backends@.len() && self.backends@[i as int].id@ == id@,
                None => !has_backend(self.backends@, id@),
            },
    {
        let mut i: usize = 0;
        while i < self.backends.len()
            invariant
                i <= self.backends@.len(),
                forall|j: int| 0 <= j < i ==> self.backends@[j].id@ != id@,
            decreases self.backends@.len() - i,
        {
            if self.backends[i].id.same_as(id) {
                return Some(i);
            }
            i += 1;
        }
        None
    }

    fn recording_index(&self, rtc_id: u128) -> (r: Option<usize>)
        ensures
            match r {
                Some(i) => i < self.recordings@.len() && self.recordings@[i as int].rtc_id == rtc_id,
                None => forall|j: int| 0 <= j < self.recordings@.len() ==> self.recordings@[j].rtc_id != rtc_id,
            },
    {
        let mut i: usize = 0;
        while i < self.recordings.len()
            invariant
                i <= self.recordings@.len(),
                forall|j: int| 0 <= j < i ==> self.recordings@[j].rtc_id != rtc_id,
            decreases self.recordings@.len() - i,
        {
            if self.recordings[i].rtc_id == rtc_id {
                return Some(i);
            }
            i += 1;
        }
        None
    }

    /// Adds an RTC to a room. A room that does not exist, or an identity
    /// already taken, fails with `DbQueryFailed`.
    pub fn insert_rtc(&mut self, id: u128, room_id: u128) -> (r: Result<Rtc, Error>)
        requires
            old(self)@.inv(),
        ensures
            final(self)@.inv(),
            r is Ok <==> has_room(old(self)@.rooms, room_id) && !has_rtc(old(self)@.rtcs, id),
            r matches Err(e) ==> e.spec_kind() == ErrorKind::DbQueryFailed && final(self)@ == old(self)@,
            r matches Ok(rtc) ==> rtc == (Rtc { id, room_id }) && final(self)@ == (StoreView {
                rtcs: old(self)@.rtcs.push(rtc),
                ..old(self)@
            }),
    {
        if self.room_index(room_id).is_none() || self.rtc_index(id).is_some() {
            return Err(Error::new(ErrorKind::DbQueryFailed, String::from_str("the RTC cannot be added")));
        }
        let rtc = Rtc { id, room_id };
        self.rtcs.push(rtc);
        proof {
            let v = self@;
            assert(v.rtcs == old(self)@.rtcs.push(rtc));
            lemma_has_rtc_push(old(self)@.rtcs, rtc);
            assert(forall|k: int| 0 <= k < v.reader_configs.len() ==> has_rtc(v.rtcs, (#[trigger] v.reader_configs[k]).rtc_id));
            assert forall|k: int| 0 <= k < v.recordings.len() implies has_rtc(v.rtcs, (#[trigger] v.recordings[k]).rtc_id) by {
                let w = choose|w: int| 0 <= w < old(self)@.rtcs.len() && #[trigger] old(self)@.rtcs[w].id == v.recordings[k].rtc_id;
                assert(v.rtcs[w].id == v.recordings[k].rtc_id);
            }
            assert(forall|k: int| 0 <= k < v.agents.len() ==> has_room(v.rooms, (#[trigger] v.agents[k]).room_id));
        }
        Ok(rtc)
    }

    /// Adds a backend. An identity already taken fails with `DbQueryFailed`.
    pub fn insert_backend(&mut self, backend: Backend) -> (r: Result<(), Error>)
        requires
            old(self)@.inv(),
        ensures
            final(self)@.inv(),
            r is Ok <==> !has_backend(old(self)@.backends, backend.id@),
            r matches Err(e) ==> e.spec_kind() == ErrorKind::DbQueryFailed && final(self)@ == old(self)@,
            r is Ok ==> final(self)@ == (StoreView { backends: old(self)@.backends.push(backend), ..old(self)@ }),
    {
        if self.backend_index(&backend.id).is_some() {
            return Err(Error::new(ErrorKind::DbQueryFailed, String::from_str("the backend is already known")));
        }
        self.backends.push(backend);
        proof {
            let v = self@;
            assert(forall|k: int| 0 <= k < v.agents.len() ==> has_room(v.rooms, (#[trigger] v.agents[k]).room_id));
            assert(forall|k: int| 0 <= k < v.rtcs.len() ==> has_room(v.rooms, (#[trigger] v.rtcs[k]).room_id));
            assert(forall|k: int| 0 <= k < v.recordings.len() ==> has_rtc(v.rtcs, (#[trigger] v.recordings[k]).rtc_id));
        }
        Ok(())
    }

    /// Starts an `in_progress` recording of an RTC on a backend. An RTC that
    /// does not exist, or one already recorded, fails with `DbQueryFailed`.
    pub fn insert_recording(&mut self, rtc_id: u128, backend_id: &AgentId) -> (r: Result<(), Error>)
        requires
            old(self)@.inv(),
        ensures
            final(self)@.inv(),
            r is Ok <==> has_rtc(old(self)@.rtcs, rtc_id)
                && forall|j: int| 0 <= j < old(self)@.recordings.len() ==> old(self)@.recordings[j].rtc_id != rtc_id,
            r matches Err(e) ==> e.spec_kind() == ErrorKind::DbQueryFailed && final(self)@ == old(self)@,
            r is Ok ==> final(self)@.recordings.len() == old(self)@.recordings.len() + 1 && final(self)@ == (StoreView {
                recordings: final(self)@.recordings,
                ..old(self)@
            }) && final(self)@.recordings.drop_last() == old(self)@.recordings && ({
                let rec = final(self)@.recordings.last();
                &&& rec.rtc_id == rtc_id && rec.backend_id@ == backend_id@
                &&& rec.status == RecordingStatus::InProgress
                &&& rec.segments is None && rec.started_at is None
            }),
    {
        if self.rtc_index(rtc_id).is_none() || self.recording_index(rtc_id).is_some() {
            return Err(Error::new(ErrorKind::DbQueryFailed, String::from_str("the recording cannot be started")));
        }
        let rec = Recording {
            rtc_id,
            backend_id: backend_id.duplicate(),
            status: RecordingStatus::InProgress,
            segments: None,
            started_at: None,
        };
        self.recordings.push(rec);
        proof {
            let v = self@;
            assert(v.recordings.drop_last() == old(self)@.recordings);
            assert(forall|k: int| 0 <= k < v.agents.len() ==> has_room(v.rooms, (#[trigger] v.agents[k]).room_id));
            assert(forall|k: int| 0 <= k < v.rtcs.len() ==> has_room(v.rooms, (#[trigger] v.rtcs[k]).room_id));
            assert(forall|k: int| 0 <= k < v.recordings.len() ==> has_rtc(v.rtcs, (#[trigger] v.recordings[k]).rtc_id));
        }
        Ok(())
    }
    /// For every `in_progress` recording whose upload was not sent yet, whose
    /// room has finished at `now` and whose backend is known, in the order of the recordings: the room,
    /// the RTC and the backend.
    pub fn finished_with_in_progress_recordings(&self, now: i64) -> (r: Vec<(Room, u128, Backend)>)
        requires
            self@.inv(),
        ensures
            r@ == finished_recordings(self@, now),
    {
        let ghost v = self@;
        let ghost f = |rec: Recording| vacuum_candidate(v, now, rec);
        let mut out: Vec<(Room, u128, Backend)> = Vec::new();
        let mut i: usize = 0;
        while i < self.recordings.len()
            invariant
                v == self@,
                self@.inv(),
                f == (|rec: Recording| vacuum_candidate(v, now, rec)),
                i <= self.recordings@.len(),
                out@ == self.recordings@.subrange(0, i as int).filter_map(f),
            decreases self.recordings@.len() - i,
        {
            let rec = &self.recordings[i];
            let ghost prefix = self.recordings@.subrange(0, i as int + 1);
            proof {
                assert(prefix.drop_last() == self.recordings@.subrange(0, i as int));
                assert(prefix.last() == *rec);
            }
            if rec.status == RecordingStatus::InProgress && !self.upload_sent(rec.rtc_id) {
                if let Some(j) = self.rtc_index(rec.rtc_id) {
                    proof {
                        lemma_rtc_of(self.rtcs@, j as int);
                    }
                    if let Some(k) = self.room_index(self.rtcs[j].room_id) {
                        proof {
                            lemma_room_of(self.rooms@, k as int);
                        }
                        if self.rooms[k].time.is_finished(now) {
                            if let Some(b) = self.backend_index(&rec.backend_id) {
                                proof {
                                    lemma_backend_of(self.backends@, b as int);
                                }
                                out.push((self.rooms[k].duplicate(), rec.rtc_id, self.backends[b].duplicate()));
                            }
                        }
                    }
                }
            }
            i += 1;
        }
        proof {
            assert(self.recordings@.subrange(0, self.recordings@.len() as int) == self.recordings@);
        }
        out
    }
    /// The number of known backends.
    pub fn count_backends(&self) -> (r: u64)
        ensures
            r == self@.backends.len(),
    {
        self.backends.len() as u64
    }

    /// The number of `ready` agent rows over all rooms.
    pub fn connected_agents_count(&self) -> (r: u64)
        ensures
            r == self@.agents.filter(|row: Object| row.status == Status::Ready).len(),
    {
        let ghost pred = |row: Object| row.status == Status::Ready;
        let mut n: u64 = 0;
        let mut i: usize = 0;
        proof {
            reveal(Seq::filter);
            assert(self.agents@.subrange(0, 0).filter(pred) =~= Seq::<Object>::empty());
        }
        while i < self.agents.len()
            invariant
                pred == (|row: Object| row.status == Status::Ready),
                i <= self.agents@.len(),
                n == self.agents@.subrange(0, i as int).filter(pred).len(),
                n <= i,
            decreases self.agents@.len() - i,
        {
            proof {
                assert(self.agents@.subrange(0, i as int + 1) == self.agents@.subrange(0, i as int).push(self.agents@[i as int]));
                self.agents@.subrange(0, i as int).lemma_filter_push(self.agents@[i as int], pred);
            }
            if self.agents[i].status == Status::Ready {
                n += 1;
            }
            i += 1;
        }
        proof {
            assert(self.agents@.subrange(0, self.agents@.len() as int) == self.agents@);
        }
        n
    }
    /// Sets how `reader_id` receives RTC `rtc_id`. An RTC that does not exist
    /// fails with `DbQueryFailed`.
    pub fn upsert_reader_config(&mut self, rtc_id: u128, reader_id: &AgentId, video: Option<bool>, audio: Option<bool>) -> (r:
        Result<ReaderConfig, Error>)
        requires
            old(self)@.inv(),
        ensures
            final(self)@.inv(),
            r is Ok <==> has_rtc(old(self)@.rtcs, rtc_id),
            r matches Err(e) ==> e.spec_kind() == ErrorKind::DbQueryFailed && final(self)@ == old(self)@,
            r matches Ok(row) ==> final(self)@ == (StoreView { reader_configs: final(self)@.reader_configs, ..old(self)@ })
                && reader_config_upserted(old(self)@.reader_configs, final(self)@.reader_configs, row, rtc_id, reader_id@, video, audio),
    {
        let ghost before = self.reader_configs@;
        let mut i: usize = 0;
        while i < self.reader_configs.len()
            invariant
                self@ == old(self)@,
                self@.inv(),
                before == self.reader_configs@,
                i <= before.len(),
                forall|j: int| 0 <= j < i ==> !crate::rtc_reader_config::has_config_key(#[trigger] before[j], rtc_id, reader_id@),
            decreases before.len() - i,
        {
            if self.reader_configs[i].rtc_id == rtc_id && self.reader_configs[i].reader_id.same_as(reader_id) {
                let mut row = self.reader_configs[i].duplicate();
                if let Some(b) = video {
                    row.receive_video = b;
                }
                if let Some(b) = audio {
                    row.receive_audio = b;
                }
                let result = row.duplicate();
                let ghost sv = self@;
                assert(sv.reader_configs_valid());
                assert(sv.reader_configs == before);
                self.reader_configs.set(i, row);
                proof {
                    let v = self@;
                    assert(v.reader_configs == before.update(i as int, result));
                    assert forall|k: int| 0 <= k < v.reader_configs.len() implies has_rtc(v.rtcs, (#[trigger] v.reader_configs[k]).rtc_id) by {
                        assert(v.reader_configs[k].rtc_id == before[k].rtc_id);
                    }
                    assert forall|a: int, b: int|
                        0 <= a < v.reader_configs.len() && 0 <= b < v.reader_configs.len() && a != b
                            implies !crate::rtc_reader_config::has_config_key(#[trigger] v.reader_configs[a], (#[trigger] v.reader_configs[b]).rtc_id, v.reader_configs[b].reader_id@) by {
                        assert(v.reader_configs[a].reader_id == before[a].reader_id && v.reader_configs[a].rtc_id == before[a].rtc_id);
                        assert(v.reader_configs[b].reader_id == before[b].reader_id && v.reader_configs[b].rtc_id == before[b].rtc_id);
                        assert(!crate::rtc_reader_config::has_config_key(before[a], before[b].rtc_id, before[b].reader_id@));
                    }
                    assert(forall|k: int| 0 <= k < v.agents.len() ==> has_room(v.rooms, (#[trigger] v.agents[k]).room_id));
                    assert(forall|k: int| 0 <= k < v.rtcs.len() ==> has_room(v.rooms, (#[trigger] v.rtcs[k]).room_id));
                    assert(forall|k: int| 0 <= k < v.recordings.len() ==> has_rtc(v.rtcs, (#[trigger] v.recordings[k]).rtc_id));
                }
                return Ok(result);
            }
            i += 1;
        }
        if self.rtc_index(rtc_id).is_none() {
            return Err(Error::new(ErrorKind::DbQueryFailed, String::from_str("the RTC does not exist")));
        }
        let row = ReaderConfig {
            rtc_id,
            reader_id: reader_id.duplicate(),
            receive_video: match video {
                Some(b) => b,
                None => true,
            },
            receive_audio: match audio {
                Some(b) => b,
                None => true,
            },
        };
        let result = row.duplicate();
        let ghost sv = self@;
        assert(sv.reader_configs_valid());
        assert(sv.reader_configs == before);
        self.reader_configs.push(row);
        proof {
            let v = self@;
            assert(v.reader_configs == before.push(result));
            assert forall|a: int, b: int|
                0 <= a < v.reader_configs.len() && 0 <= b < v.reader_configs.len() && a != b
                    implies !crate::rtc_reader_config::has_config_key(#[trigger] v.reader_configs[a], (#[trigger] v.reader_configs[b]).rtc_id, v.reader_configs[b].reader_id@) by {
                if a == before.len() {
                    assert(!crate::rtc_reader_config::has_config_key(v.reader_configs[b], rtc_id, reader_id@));
                } else if b == before.len() {
                    assert(!crate::rtc_reader_config::has_config_key(v.reader_configs[a], rtc_id, reader_id@));
                }
            }
            assert(forall|k: int| 0 <= k < v.agents.len() ==> has_room(v.rooms, (#[trigger] v.agents[k]).room_id));
            assert(forall|k: int| 0 <= k < v.rtcs.len() ==> has_room(v.rooms, (#[trigger] v.rtcs[k]).room_id));
            assert(forall|k: int| 0 <= k < v.recordings.len() ==> has_rtc(v.rtcs, (#[trigger] v.recordings[k]).rtc_id));
        }
        Ok(result)
    }

    /// The reader settings of `reader_id` for the RTCs of room `room_id`,
    /// each with its RTC, in the order of the settings.
    pub fn reader_configs_in_room(&self, room_id: u128, reader_id: &AgentId) -> (r: Vec<(ReaderConfig, Rtc)>)
        requires
            self@.inv(),
        ensures
            r@ == self@.reader_configs.filter_map(|c: ReaderConfig| reader_config_in_room(self@, room_id, reader_id@, c)),
    {
        let ghost v = self@;
        let ghost f = |c: ReaderConfig| reader_config_in_room(v, room_id, reader_id@, c);
        let mut out: Vec<(ReaderConfig, Rtc)> = Vec::new();
        let mut i: usize = 0;
        while i < self.reader_configs.len()
            invariant
                v == self@,
                self@.inv(),
                f == (|c: ReaderConfig| reader_config_in_room(v, room_id, reader_id@, c)),
                i <= self.reader_configs@.len(),
                out@ == self.reader_configs@.subrange(0, i as int).filter_map(f),
            decreases self.reader_configs@.len() - i,
        {
            let c = &self.reader_configs[i];
            proof {
                let prefix = self.reader_configs@.subrange(0, i as int + 1);
                assert(prefix.drop_last() == self.reader_configs@.subrange(0, i as int));
                assert(prefix.last() == *c);
            }
            if c.reader_id.same_as(reader_id) {
                if let Some(j) = self.rtc_index(c.rtc_id) {
                    proof {
                        lemma_rtc_of(self.rtcs@, j as int);
                    }
                    if self.rtcs[j].room_id == room_id {
                        out.push((c.duplicate(), self.rtcs[j]));
                    }
                }
            }
            i += 1;
        }
        proof {
            assert(self.reader_configs@.subrange(0, self.reader_configs@.len() as int) == self.reader_configs@);
        }
        out
    }
    fn upload_sent(&self, rtc_id: u128) -> (r: bool)
        ensures
            r == self@.uploads_sent.contains(rtc_id),
    {
        let mut i: usize = 0;
        while i < self.uploads_sent.len()
            invariant
                i <= self.uploads_sent@.len(),
                forall|j: int| 0 <= j < i ==> self.uploads_sent@[j] != rtc_id,
            decreases self.uploads_sent@.len() - i,
        {
            if self.uploads_sent[i] == rtc_id {
                assert(self.uploads_sent@[i as int] == rtc_id);
                return true;
            }
            i += 1;
        }
        false
    }

    /// Records that the upload command of RTC `rtc_id` was sent.
    pub fn mark_upload_sent(&mut self, rtc_id: u128)
        requires
            old(self)@.inv(),
        ensures
            final(self)@.inv(),
            final(self)@ == (StoreView { uploads_sent: old(self)@.uploads_sent.push(rtc_id), ..old(self)@ }),
    {
        self.uploads_sent.push(rtc_id);
        proof {
            let v = self@;
            assert(v.rtcs == old(self)@.rtcs);
            lemma_reader_configs_kept(old(self)@, v);
            assert(forall|k: int| 0 <= k < v.agents.len() ==> has_room(v.rooms, (#[trigger] v.agents[k]).room_id));
            assert(forall|k: int| 0 <= k < v.rtcs.len() ==> has_room(v.rooms, (#[trigger] v.rtcs[k]).room_id));
            assert(forall|k: int| 0 <= k < v.recordings.len() ==> has_rtc(v.rtcs, (#[trigger] v.recordings[k]).rtc_id));
        }
    }
    /// Binds room `room_id` to backend `backend_id`. A room that does not
    /// exist fails with `RoomNotFound`, a backend that is not known with
    /// `BackendNotFound`.
    pub fn bind_backend(&mut self, room_id: u128, backend_id: &AgentId) -> (r: Result<(), Error>)
        requires
            old(self)@.inv(),
        ensures
            final(self)@.inv(),
            r is Ok <==> has_room(old(self)@.rooms, room_id) && has_backend(old(self)@.backends, backend_id@),
            r matches Err(e) ==> final(self)@ == old(self)@ && e.spec_kind() == (if !has_room(old(self)@.rooms, room_id) {
                ErrorKind::RoomNotFound
            } else {
                ErrorKind::BackendNotFound
            }),
            r is Ok ==> exists|i: int|
                0 <= i < old(self)@.rooms.len() && #[trigger] old(self)@.rooms[i].id == room_id && final(self)@ == (StoreView {
                    rooms: old(self)@.rooms.update(i, Room { backend_id: Some(*backend_id), ..old(self)@.rooms[i] }),
                    ..old(self)@
                }),
    {
        let i = match self.room_index(room_id) {
            Some(i) => i,
            None => return Err(Error::new(ErrorKind::RoomNotFound, String::from_str("the room does not exist"))),
        };
        if self.backend_index(backend_id).is_none() {
            return Err(Error::new(ErrorKind::BackendNotFound, String::from_str("the backend is not known")));
        }
        let ghost before = self.rooms@;
        let mut room = self.rooms[i].duplicate();
        room.backend_id = Some(backend_id.duplicate());
        self.rooms.set(i, room);
        proof {
            let v = self@;
            assert forall|id: u128| has_room(before, id) implies #[trigger] has_room(v.rooms, id) by {
                let k = choose|k: int| 0 <= k < before.len() && #[trigger] before[k].id == id;
                assert(v.rooms[k].id == id);
            }
            assert forall|a: int, b: int| 0 <= a < v.rooms.len() && 0 <= b < v.rooms.len() && a != b
                implies #[trigger] v.rooms[a].id != #[trigger] v.rooms[b].id by {
                assert(v.rooms[a].id == before[a].id && v.rooms[b].id == before[b].id);
            }
            assert forall|a: int| 0 <= a < v.rooms.len() implies (#[trigger] v.rooms[a]).time.wf() by {
                assert(v.rooms[a].time == before[a].time);
            }
            assert(v.rtcs == old(self)@.rtcs);
            assert(forall|k: int| 0 <= k < v.agents.len() ==> has_room(before, (#[trigger] v.agents[k]).room_id));
            assert(forall|k: int| 0 <= k < v.agents.len() ==> has_room(v.rooms, (#[trigger] v.agents[k]).room_id));
            assert(forall|k: int| 0 <= k < v.rtcs.len() ==> has_room(before, (#[trigger] v.rtcs[k]).room_id));
            assert(forall|k: int| 0 <= k < v.rtcs.len() ==> has_room(v.rooms, (#[trigger] v.rtcs[k]).room_id));
            lemma_reader_configs_kept(old(self)@, v);
            assert(forall|k: int| 0 <= k < v.recordings.len() ==> has_rtc(v.rtcs, (#[trigger] v.recordings[k]).rtc_id));
        }
        Ok(())
    }

    /// The sum of the capacities of the known backends.
    pub fn sum_backend_capacity(&self) -> (r: i128)
        ensures
            r == capacity_sum(self@.backends),
    {
        let mut acc: i128 = 0;
        let mut i: usize = 0;
        while i < self.backends.len()
            invariant
                i <= self.backends@.len(),
                acc == capacity_sum(self.backends@.subrange(0, i as int)),
                -(i as int) * 2147483648 <= acc <= (i as int) * 2147483647,
            decreases self.backends@.len() - i,
        {
            proof {
                let pre = self.backends@.subrange(0, i as int + 1);
                assert(pre.drop_last() == self.backends@.subrange(0, i as int));
            }
            match self.backends[i].capacity {
                Some(c) => {
                    acc = acc + c as i128;
                },
                None => {},
            }
            i += 1;
        }
        proof {
            assert(self.backends@.subrange(0, self.backends@.len() as int) == self.backends@);
        }
        acc
    }

    fn agent_load(&self, id: &AgentId) -> (r: u64)
        requires
            self@.inv(),
        ensures
            r == backend_agent_load(self@, id@),
    {
        let ghost v = self@;
        let ghost pred = |row: Object| bound_to(v, row, id@);
        let mut n: u64 = 0;
        let mut i: usize = 0;
        proof {
            reveal(Seq::filter);
            assert(self.agents@.subrange(0, 0).filter(pred) =~= Seq::<Object>::empty());
        }
        while i < self.agents.len()
            invariant
                v == self@,
                self@.inv(),
                pred == (|row: Object| bound_to(v, row, id@)),
                i <= self.agents@.len(),
                n == self.agents@.subrange(0, i as int).filter(pred).len(),
                n <= i,
            decreases self.agents@.len() - i,
        {
            let row = &self.agents[i];
            proof {
                assert(self.agents@.subrange(0, i as int + 1) == self.agents@.subrange(0, i as int).push(*row));
                self.agents@.subrange(0, i as int).lemma_filter_push(*row, pred);
            }
            if row.status == Status::Ready {
                if let Some(k) = self.room_index(row.room_id) {
                    proof {
                        lemma_room_of(self.rooms@, k as int);
                    }
                    let bound = match &self.rooms[k].backend_id {
                        Some(b) => b.same_as(id),
                        None => false,
                    };
                    if bound {
                        n += 1;
                    }
                }
            }
            i += 1;
        }
        proof {
            assert(self.agents@.subrange(0, self.agents@.len() as int) == self.agents@);
        }
        n
    }

    /// For each known backend in order: the agents bound to it, and the part
    /// of them counted toward its reserve.
    pub fn backend_reserve_load(&self) -> (r: Vec<BackendLoad>)
        requires
            self@.inv(),
        ensures
            r@.len() == self@.backends.len(),
            forall|k: int| 0 <= k < r@.len() ==> {
                let b = #[trigger] self@.backends[k];
                let load = backend_agent_load(self@, b.id@);
                &&& r@[k].backend_id == b.id
                &&& r@[k].load == load
                &&& r@[k].taken == taken_of(load, b.reserve)
            },
    {
        let mut out: Vec<BackendLoad> = Vec::new();
        let mut i: usize = 0;
        while i < self.backends.len()
            invariant
                self@.inv(),
                i <= self.backends@.len(),
                out@.len() == i,
                forall|k: int| 0 <= k < i ==> {
                    let b = #[trigger] self@.backends[k];
                    let load = backend_agent_load(self@, b.id@);
                    &&& out@[k].backend_id == b.id
                    &&& out@[k].load == load
                    &&& out@[k].taken == taken_of(load, b.reserve)
                },
            decreases self.backends@.len() - i,
        {
            let b = &self.backends[i];
            let load = self.agent_load(&b.id);
            let taken: u64 = match b.reserve {
                Some(r) => if r <= 0 { 0 } else if load <= r as u64 { load } else { r as u64 },
                None => 0,
            };
            out.push(BackendLoad { backend_id: b.id.duplicate(), load, taken });
            i += 1;
        }
        out
    }
}

} // verus!
