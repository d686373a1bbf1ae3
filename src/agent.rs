use vstd::prelude::*;
use vstd::string::StringExecFns;
use vstd::seq_lib::{to_multiset_build, to_multiset_insert};
use crate::error::{Error, ErrorKind};
use crate::ids::AgentId;
use crate::store::{delete_matches, has_room, has_row, opt_view, upserted, Store};

verus! {

/// The identity of an agent row.
#[derive(Debug, Clone, Copy, Hash, PartialEq, Eq, Structural)]
pub struct Id(pub u128);

/// Presence of an agent in a room: entering, or entered.
#[derive(Debug, Clone, Copy, PartialEq, Eq, Structural)]
pub enum Status {
    InProgress,
    Ready,
}

/// One agent-in-room row, keyed by `(agent_id, room_id)`.
#[derive(Debug)]
pub struct Object {
    pub id: Id,
    pub agent_id: AgentId,
    pub room_id: u128,
    pub created_at: i64,
    pub status: Status,
}

impl Object {
    pub fn status(&self) -> (r: Status)
        ensures
            r == self.status,
    {
        self.status
    }

    pub fn duplicate(&self) -> (r: Object)
        ensures
            r == *self,
    {
        Object {
            id: self.id,
            agent_id: self.agent_id.duplicate(),
            room_id: self.room_id,
            created_at: self.created_at,
            status: self.status,
        }
    }
}

/// Whether `row` holds the key `(agent, room_id)`.
pub open spec fn has_key(row: Object, agent: (Seq<char>, Seq<char>, Seq<char>), room_id: u128) -> bool {
    row.agent_id@ == agent && row.room_id == room_id
}

/// Inserts an agent row, or on a taken key sets that row back to
/// `in_progress`.
pub struct InsertQuery<'a> {
    pub agent_id: &'a AgentId,
    pub room_id: u128,
    pub status: Status,
}

impl<'a> InsertQuery<'a> {
    pub fn new(agent_id: &'a AgentId, room_id: u128) -> (r: InsertQuery<'a>)
        ensures
            r.agent_id == agent_id,
            r.room_id == room_id,
            r.status == Status::InProgress,
    {
        InsertQuery { agent_id, room_id, status: Status::InProgress }
    }

    pub fn status(self, status: Status) -> (r: InsertQuery<'a>)
        ensures
            r.agent_id == self.agent_id,
            r.room_id == self.room_id,
            r.status == status,
    {
        InsertQuery { status, ..self }
    }

    /// A room that does not exist fails with `DbQueryFailed`.
    pub fn execute(&self, store: &mut Store, now: i64) -> (r: Result<Object, Error>)
        requires
            old(store)@.inv(),
        ensures
            final(store)@.inv(),
            final(store)@.rooms == old(store)@.rooms,
            r is Ok <==> has_room(old(store)@.rooms, self.room_id),
            r matches Err(e) ==> e.spec_kind() == ErrorKind::DbQueryFailed && final(store)@ == old(store)@,
            r matches Ok(row) ==> upserted(old(store)@.agents, final(store)@.agents, row, self.agent_id@, self.room_id, self.status, now),
            final(store)@.rtcs == old(store)@.rtcs,
            final(store)@.recordings == old(store)@.recordings,
            final(store)@.backends == old(store)@.backends,
            final(store)@.reader_configs == old(store)@.reader_configs,
            final(store)@.uploads_sent == old(store)@.uploads_sent,
    {
        store.upsert_agent(self.agent_id, self.room_id, self.status, now)
    }
}

/// Changes the status of the row `(agent_id, room_id)`.
pub struct UpdateQuery<'a> {
    pub agent_id: &'a AgentId,
    pub room_id: u128,
    pub status: Option<Status>,
}

impl<'a> UpdateQuery<'a> {
    pub fn new(agent_id: &'a AgentId, room_id: u128) -> (r: UpdateQuery<'a>)
        ensures
            r.agent_id == agent_id,
            r.room_id == room_id,
            r.status is None,
    {
        UpdateQuery { agent_id, room_id, status: None }
    }

    pub fn status(self, status: Status) -> (r: UpdateQuery<'a>)
        ensures
            r.agent_id == self.agent_id,
            r.room_id == self.room_id,
            r.status == Some(status),
    {
        UpdateQuery { status: Some(status), ..self }
    }

    /// Returns the updated row, or `None` where no row holds the key.
    pub fn execute(&self, store: &mut Store) -> (r: Option<Object>)
        requires
            old(store)@.inv(),
        ensures
            final(store)@.inv(),
            final(store)@.rooms == old(store)@.rooms,
            r is Some <==> has_row(old(store)@.agents, self.agent_id@, self.room_id),
            r is None ==> final(store)@.agents == old(store)@.agents,
            r matches Some(row) ==> exists|i: int| 0 <= i < old(store)@.agents.len()
                && has_key(#[trigger] old(store)@.agents[i], self.agent_id@, self.room_id)
                && row == (match self.status {
                    Some(st) => Object { status: st, ..old(store)@.agents[i] },
                    None => old(store)@.agents[i],
                })
                && final(store)@.agents == old(store)@.agents.update(i, row),
            final(store)@.rtcs == old(store)@.rtcs,
            final(store)@.recordings == old(store)@.recordings,
            final(store)@.backends == old(store)@.backends,
            final(store)@.reader_configs == old(store)@.reader_configs,
            final(store)@.uploads_sent == old(store)@.uploads_sent,
    {
        store.update_agent(self.agent_id, self.room_id, self.status)
    }
}

/// Removes the agent rows that match every filter that is set.
pub struct DeleteQuery<'a> {
    pub agent_id: Option<&'a AgentId>,
    pub room_id: Option<u128>,
}

impl<'a> DeleteQuery<'a> {
    pub fn new() -> (r: DeleteQuery<'a>)
        ensures
            r.agent_id is None,
            r.room_id is None,
    {
        DeleteQuery { agent_id: None, room_id: None }
    }

    pub fn agent_id(self, agent_id: &'a AgentId) -> (r: DeleteQuery<'a>)
        ensures
            r.agent_id == Some(agent_id),
            r.room_id == self.room_id,
    {
        DeleteQuery { agent_id: Some(agent_id), ..self }
    }

    pub fn room_id(self, room_id: u128) -> (r: DeleteQuery<'a>)
        ensures
            r.agent_id == self.agent_id,
            r.room_id == Some(room_id),
    {
        DeleteQuery { room_id: Some(room_id), ..self }
    }

    /// Returns how many rows went.
    pub fn execute(&self, store: &mut Store) -> (r: usize)
        requires
            old(store)@.inv(),
        ensures
            final(store)@.inv(),
            final(store)@.rooms == old(store)@.rooms,
            final(store)@.agents == old(store)@.agents.filter(
                |row: Object| !delete_matches(row, opt_view(self.agent_id), self.room_id),
            ),
            r == old(store)@.agents.len() - final(store)@.agents.len(),
            final(store)@.rtcs == old(store)@.rtcs,
            final(store)@.recordings == old(store)@.recordings,
            final(store)@.backends == old(store)@.backends,
            final(store)@.reader_configs == old(store)@.reader_configs,
            final(store)@.uploads_sent == old(store)@.uploads_sent,
    {
        store.delete_agents(self.agent_id, self.room_id)
    }
}

/// Lists `ready` agent rows, most recent first, that match every filter
/// that is set, skipping `offset` rows and returning at most `limit`.
pub struct ListQuery<'a> {
    pub agent_id: Option<&'a AgentId>,
    pub room_id: Option<u128>,
    pub status: Option<Status>,
    pub offset: Option<i64>,
    pub limit: Option<i64>,
}

/// Whether `row` is `ready` and matches every filter of `q` that is set.
pub open spec fn list_matches(row: Object, q: ListQuery) -> bool {
    &&& row.status == Status::Ready
    &&& q.agent_id is None || row.agent_id@ == q.agent_id->0@
    &&& q.room_id is None || row.room_id == q.room_id->0
    &&& q.status is None || row.status == q.status->0
}

/// Ordered by creation time, most recent first.
pub open spec fn newest_first(s: Seq<Object>) -> bool {
    forall|a: int, b: int| 0 <= a < b < s.len() ==> (#[trigger] s[a]).created_at >= (#[trigger] s[b]).created_at
}

/// The part of `len` rows that an offset and a limit leave: from `start` to
/// `end`.
pub open spec fn page_start(len: int, offset: Option<i64>) -> int {
    let off = match offset {
        Some(o) => o as int,
        None => 0,
    };
    if off < len { off } else { len }
}

pub open spec fn page_end(len: int, offset: Option<i64>, limit: Option<i64>) -> int {
    let start = page_start(len, offset);
    match limit {
        Some(l) => if start + l < len { start + l } else { len },
        None => len,
    }
}

impl<'a> ListQuery<'a> {
    pub fn new() -> (r: ListQuery<'a>)
        ensures
            r.agent_id is None && r.room_id is None && r.status is None && r.offset is None && r.limit is None,
    {
        ListQuery { agent_id: None, room_id: None, status: None, offset: None, limit: None }
    }

    pub fn agent_id(self, agent_id: &'a AgentId) -> (r: ListQuery<'a>)
        ensures
            r == (ListQuery { agent_id: Some(agent_id), ..self }),
    {
        ListQuery { agent_id: Some(agent_id), ..self }
    }

    pub fn room_id(self, room_id: u128) -> (r: ListQuery<'a>)
        ensures
            r == (ListQuery { room_id: Some(room_id), ..self }),
    {
        ListQuery { room_id: Some(room_id), ..self }
    }

    pub fn status(self, status: Status) -> (r: ListQuery<'a>)
        ensures
            r == (ListQuery { status: Some(status), ..self }),
    {
        ListQuery { status: Some(status), ..self }
    }

    pub fn offset(self, offset: i64) -> (r: ListQuery<'a>)
        ensures
            r == (ListQuery { offset: Some(offset), ..self }),
    {
        ListQuery { offset: Some(offset), ..self }
    }

    pub fn limit(self, limit: i64) -> (r: ListQuery<'a>)
        ensures
            r == (ListQuery { limit: Some(limit), ..self }),
    {
        ListQuery { limit: Some(limit), ..self }
    }

    fn matches(&self, row: &Object) -> (r: bool)
        ensures
            r == list_matches(*row, *self),
    {
        row.status == Status::Ready && match self.agent_id {
            Some(a) => row.agent_id.same_as(a),
            None => true,
        } && match self.room_id {
            Some(id) => row.room_id == id,
            None => true,
        } && match self.status {
            Some(st) => row.status == st,
            None => true,
        }
    }

    /// A negative offset or limit fails with `DbQueryFailed`.
    pub fn execute(&self, store: &Store) -> (r: Result<Vec<Object>, Error>)
        ensures
            r is Err <==> (self.offset matches Some(o) && o < 0) || (self.limit matches Some(l) && l < 0),
            r matches Err(e) ==> e.spec_kind() == ErrorKind::DbQueryFailed,
            r matches Ok(rows) ==> exists|s: Seq<Object>|
                #![trigger s.to_multiset()]
                newest_first(s)
                && s.to_multiset() == store@.agents.filter(|row: Object| list_matches(row, *self)).to_multiset()
                && rows@ == s.subrange(page_start(s.len() as int, self.offset), page_end(s.len() as int, self.offset, self.limit)),
    {
        let neg_offset = match self.offset {
            Some(o) => o < 0,
            None => false,
        };
        let neg_limit = match self.limit {
            Some(l) => l < 0,
            None => false,
        };
        if neg_offset || neg_limit {
            return Err(Error::new(ErrorKind::DbQueryFailed, String::from_str("negative offset or limit")));
        }
        let agents = store.agents();
        let ghost pred = |row: Object| list_matches(row, *self);
        let mut sorted: Vec<Object> = Vec::new();
        let mut i: usize = 0;
        proof {
            reveal(Seq::filter);
            assert(agents@.subrange(0, 0).filter(pred) =~= Seq::<Object>::empty());
            assert(sorted@ =~= Seq::<Object>::empty());
        }
        while i < agents.len()
            invariant
                agents@ == store@.agents,
                pred == (|row: Object| list_matches(row, *self)),
                i <= agents@.len(),
                newest_first(sorted@),
                sorted@.to_multiset() == agents@.subrange(0, i as int).filter(pred).to_multiset(),
            decreases agents@.len() - i,
        {
            let row = &agents[i];
            proof {
                assert(agents@.subrange(0, i as int + 1) == agents@.subrange(0, i as int).push(*row));
                agents@.subrange(0, i as int).lemma_filter_push(*row, pred);
            }
            if self.matches(row) {
                let mut p: usize = 0;
                while p < sorted.len() && sorted[p].created_at >= row.created_at
                    invariant
                        p <= sorted@.len(),
                        forall|k: int| 0 <= k < p ==> (#[trigger] sorted@[k]).created_at >= row.created_at,
                    decreases sorted@.len() - p,
                {
                    p += 1;
                }
                let ghost old_sorted = sorted@;
                let x = row.duplicate();
                sorted.insert(p, x);
                proof {
                    to_multiset_insert(old_sorted, p as int, *row);
                    to_multiset_build(agents@.subrange(0, i as int).filter(pred), *row);
                    assert forall|a: int, b: int| 0 <= a < b < sorted@.len()
                        implies (#[trigger] sorted@[a]).created_at >= (#[trigger] sorted@[b]).created_at by {
                        if p < old_sorted.len() {
                            assert(old_sorted[p as int].created_at < row.created_at);
                        }
                        if a < p && b == p {
                        } else if a < p && b > p {
                            assert(sorted@[b] == old_sorted[b - 1]);
                        } else if a == p && b > p {
                            assert(sorted@[b] == old_sorted[b - 1]);
                            assert(old_sorted[p as int].created_at >= old_sorted[b - 1].created_at);
                        } else if a > p {
                            assert(sorted@[a] == old_sorted[a - 1]);
                            assert(sorted@[b] == old_sorted[b - 1]);
                        }
                    }
                }
            }
            i += 1;
        }
        proof {
            assert(agents@.subrange(0, agents@.len() as int) == agents@);
        }
        let len = sorted.len();
        let start: usize = match self.offset {
            Some(o) => if (o as u64) < (len as u64) { o as usize } else { len },
            None => 0,
        };
        let end: usize = match self.limit {
            Some(l) => if (l as u64) < ((len - start) as u64) { start + l as usize } else { len },
            None => len,
        };
        assert(start == page_start(len as int, self.offset));
        assert(end == page_end(len as int, self.offset, self.limit));
        let mut rows: Vec<Object> = Vec::new();
        let mut j: usize = start;
        while j < end
            invariant
                start <= j <= end <= sorted@.len(),
                rows@ == sorted@.subrange(start as int, j as int),
            decreases end - j,
        {
            rows.push(sorted[j].duplicate());
            j += 1;
            assert(rows@ == sorted@.subrange(start as int, j as int));
        }
        Ok(rows)
    }
}

} // verus!
