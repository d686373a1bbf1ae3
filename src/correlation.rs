use vstd::prelude::*;
use crate::ids::AgentId;
use crate::outbound::{LongTermTiming, Tracking};

verus! {

/// The routing properties of an incoming request that a later reply needs.
#[derive(Debug)]
pub struct RequestProperties {
    pub method: String,
    pub agent_id: AgentId,
    pub correlation_data: String,
    pub response_topic: String,
    pub tracking: Tracking,
    pub local_tracking_label: Option<String>,
    pub long_term_timing: LongTermTiming,
}

impl RequestProperties {
    pub fn duplicate(&self) -> (r: RequestProperties)
        ensures
            r == *self,
    {
        RequestProperties {
            method: self.method.clone(),
            agent_id: self.agent_id.duplicate(),
            correlation_data: self.correlation_data.clone(),
            response_topic: self.response_topic.clone(),
            tracking: self.tracking.duplicate(),
            local_tracking_label: match &self.local_tracking_label {
                Some(l) => Some(l.clone()),
                None => None,
            },
            long_term_timing: self.long_term_timing,
        }
    }
}

/// The saved requester of a forwarded message.
#[derive(Debug)]
pub struct CorrelationDataPayload {
    pub reqp: RequestProperties,
}

impl CorrelationDataPayload {
    pub fn new(reqp: RequestProperties) -> (r: CorrelationDataPayload)
        ensures
            r.reqp == reqp,
    {
        CorrelationDataPayload { reqp }
    }
}

/// Which pipeline resumes when the response arrives, with what it needs.
#[derive(Debug)]
pub enum CorrelationData {
    MessageUnicast(CorrelationDataPayload),
}

/// Maps the token of an outbound request to the requester it was made for.
/// Holds at most `cap` entries; when full, the oldest goes first.
pub struct CorrelationTable {
    entries: Vec<(u64, CorrelationData)>,
    cap: usize,
    next_token: u64,
}

impl View for CorrelationTable {
    type V = Seq<(u64, CorrelationData)>;

    closed spec fn view(&self) -> Seq<(u64, CorrelationData)> {
        self.entries@
    }
}

/// The index of the oldest entry with `token`, if any.
pub open spec fn first_with_token(s: Seq<(u64, CorrelationData)>, token: u64) -> Option<int> {
    if exists|i: int| 0 <= i < s.len() && #[trigger] s[i].0 == token {
        let i = choose|i: int|
            0 <= i < s.len() && #[trigger] s[i].0 == token && forall|j: int| 0 <= j < i ==> s[j].0 != token;
        Some(i)
    } else {
        None
    }
}

/// The token that `register` hands out when the next token is `next`:
/// once every token was used, numbering starts again at zero.
pub open spec fn token_for(next: u64) -> u64 {
    if next == u64::MAX {
        0
    } else {
        next
    }
}

/// The entries after saving `data` in a table of `cap` entries holding `s`,
/// with `next` the next token. When the table is full the oldest entry is
/// evicted; when numbering starts again, every older entry is.
pub open spec fn registered(
    s: Seq<(u64, CorrelationData)>,
    cap: nat,
    next: u64,
    data: CorrelationData,
) -> Seq<(u64, CorrelationData)> {
    if next == u64::MAX {
        seq![(0u64, data)]
    } else if s.len() < cap {
        s.push((next, data))
    } else {
        s.subrange(1, s.len() as int).push((next, data))
    }
}

impl CorrelationTable {
    pub closed spec fn cap(&self) -> nat {
        self.cap as nat
    }

    pub closed spec fn spec_next_token(&self) -> u64 {
        self.next_token
    }

    /// At most `cap` entries, their tokens increasing from the oldest and
    /// all below the next token to hand out; so no two share a token.
    pub open spec fn wf(&self) -> bool {
        &&& 0 < self.cap() && self@.len() <= self.cap()
        &&& forall|i: int, j: int| 0 <= i < j < self@.len() ==> (#[trigger] self@[i]).0 < (#[trigger] self@[j]).0
        &&& forall|i: int| 0 <= i < self@.len() ==> (#[trigger] self@[i]).0 < self.spec_next_token()
    }

    pub fn new(cap: usize) -> (r: CorrelationTable)
        requires
            cap > 0,
        ensures
            r.wf(),
            r.cap() == cap,
            r@.len() == 0,
    {
        CorrelationTable { entries: Vec::new(), cap, next_token: 0 }
    }

    pub fn len(&self) -> (r: usize)
        ensures
            r == self@.len(),
    {
        self.entries.len()
    }

    pub fn capacity(&self) -> (r: usize)
        ensures
            r == self.cap(),
    {
        self.cap
    }

    /// Saves `data` under a fresh token and returns the token. When the table
    /// is full the oldest entry is evicted first.
    pub fn register(&mut self, data: CorrelationData) -> (token: u64)
        requires
            old(self).wf(),
        ensures
            final(self).wf(),
            final(self).cap() == old(self).cap(),
            token == token_for(old(self).spec_next_token()),
            final(self).spec_next_token() == token + 1,
            final(self)@ == registered(old(self)@, old(self).cap(), old(self).spec_next_token(), data),
    {
        if self.next_token == u64::MAX {
            self.entries = Vec::new();
            self.entries.push((0, data));
            self.next_token = 1;
            return 0;
        }
        if self.entries.len() >= self.cap {
            self.entries.remove(0);
        }
        let token = self.next_token;
        self.entries.push((token, data));
        self.next_token = self.next_token + 1;
        token
    }

    /// Removes and returns the oldest entry saved under `token`.
    pub fn take(&mut self, token: u64) -> (r: Option<CorrelationData>)
        requires
            old(self).wf(),
        ensures
            final(self).wf(),
            final(self).cap() == old(self).cap(),
            final(self).spec_next_token() == old(self).spec_next_token(),
            match first_with_token(old(self)@, token) {
                Some(i) => r == Some(old(self)@[i].1) && final(self)@ == old(self)@.remove(i),
                None => r is None && final(self)@ == old(self)@,
            },
    {
        let mut i: usize = 0;
        while i < self.entries.len()
            invariant
                self == old(self),
                self.wf(),
                i <= self.entries@.len(),
                forall|j: int| 0 <= j < i ==> self.entries@[j].0 != token,
            decreases self.entries@.len() - i,
        {
            if self.entries[i].0 == token {
                proof {
                    // the oldest entry with `token` is the one at `i`
                    let s = self.entries@;
                    let k = choose|k: int|
                        0 <= k < s.len() && #[trigger] s[k].0 == token && forall|j: int| 0 <= j < k ==> s[j].0 != token;
                    assert(s[i as int].0 == token);
                    if k > i {
                        assert(s[i as int].0 != token);
                    }
                }
                let ghost before = self.entries@;
                let (_, data) = self.entries.remove(i);
                proof {
                    assert forall|a: int, b: int| 0 <= a < b < self@.len() implies (#[trigger] self@[a]).0 < (#[trigger] self@[b]).0 by {
                        if a >= i {
                            assert(self@[a] == before[a + 1]);
                        }
                        if b >= i {
                            assert(self@[b] == before[b + 1]);
                        }
                    }
                    assert forall|a: int| 0 <= a < self@.len() implies (#[trigger] self@[a]).0 < self.spec_next_token() by {
                        if a >= i {
                            assert(self@[a] == before[a + 1]);
                        }
                    }
                }
                return Some(data);
            }
            i += 1;
        }
        None
    }
}

} // verus!
