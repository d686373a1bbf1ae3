use vstd::prelude::*;
use crate::error::{Error, ErrorKind};
use crate::ids::AgentId;
use crate::store::{has_rtc, reader_config_in_room, reader_config_upserted, Rtc, Store, StoreView};

verus! {

/// How one reader receives one RTC.
#[derive(Debug)]
pub struct Object {
    pub rtc_id: u128,
    pub reader_id: AgentId,
    pub receive_video: bool,
    pub receive_audio: bool,
}

/// Whether `c` holds the key `(rtc_id, reader)`.
pub open spec fn has_config_key(c: Object, rtc_id: u128, reader: (Seq<char>, Seq<char>, Seq<char>)) -> bool {
    c.rtc_id == rtc_id && c.reader_id@ == reader
}

impl Object {
    pub fn reader_id(&self) -> (r: &AgentId)
        ensures
            r == &self.reader_id,
    {
        &self.reader_id
    }

    pub fn receive_video(&self) -> (r: bool)
        ensures
            r == self.receive_video,
    {
        self.receive_video
    }

    pub fn receive_audio(&self) -> (r: bool)
        ensures
            r == self.receive_audio,
    {
        self.receive_audio
    }

    pub fn duplicate(&self) -> (r: Object)
        ensures
            r == *self,
    {
        Object {
            rtc_id: self.rtc_id,
            reader_id: self.reader_id.duplicate(),
            receive_video: self.receive_video,
            receive_audio: self.receive_audio,
        }
    }
}

/// The settings of one reader for the RTCs of one room.
pub struct ListWithRtcQuery<'a> {
    pub room_id: u128,
    pub reader_id: &'a AgentId,
}

impl<'a> ListWithRtcQuery<'a> {
    pub fn new(room_id: u128, reader_id: &'a AgentId) -> (r: ListWithRtcQuery<'a>)
        ensures
            r.room_id == room_id && r.reader_id == reader_id,
    {
        ListWithRtcQuery { room_id, reader_id }
    }

    /// Each setting with its RTC, in the order of the settings.
    pub fn execute(&self, store: &Store) -> (r: Vec<(Object, Rtc)>)
        requires
            store@.inv(),
        ensures
            r@ == store@.reader_configs.filter_map(|c: Object| reader_config_in_room(store@, self.room_id, self.reader_id@, c)),
    {
        store.reader_configs_in_room(self.room_id, self.reader_id)
    }
}

/// Sets how one reader receives one RTC; the flags left unset keep their
/// value, or are on for a new setting.
pub struct UpsertQuery<'a> {
    pub rtc_id: u128,
    pub reader_id: &'a AgentId,
    pub receive_video: Option<bool>,
    pub receive_audio: Option<bool>,
}

impl<'a> UpsertQuery<'a> {
    pub fn new(rtc_id: u128, reader_id: &'a AgentId) -> (r: UpsertQuery<'a>)
        ensures
            r.rtc_id == rtc_id && r.reader_id == reader_id && r.receive_video is None && r.receive_audio is None,
    {
        UpsertQuery { rtc_id, reader_id, receive_video: None, receive_audio: None }
    }

    pub fn receive_video(self, receive_video: bool) -> (r: UpsertQuery<'a>)
        ensures
            r == (UpsertQuery { receive_video: Some(receive_video), ..self }),
    {
        UpsertQuery { receive_video: Some(receive_video), ..self }
    }

    pub fn receive_audio(self, receive_audio: bool) -> (r: UpsertQuery<'a>)
        ensures
            r == (UpsertQuery { receive_audio: Some(receive_audio), ..self }),
    {
        UpsertQuery { receive_audio: Some(receive_audio), ..self }
    }

    /// An RTC that does not exist fails with `DbQueryFailed`.
    pub fn execute(&self, store: &mut Store) -> (r: Result<Object, Error>)
        requires
            old(store)@.inv(),
        ensures
            final(store)@.inv(),
            r is Ok <==> has_rtc(old(store)@.rtcs, self.rtc_id),
            r matches Err(e) ==> e.spec_kind() == ErrorKind::DbQueryFailed && final(store)@ == old(store)@,
            r matches Ok(row) ==> final(store)@ == (StoreView { reader_configs: final(store)@.reader_configs, ..old(store)@ })
                && reader_config_upserted(
                old(store)@.reader_configs,
                final(store)@.reader_configs,
                row,
                self.rtc_id,
                self.reader_id@,
                self.receive_video,
                self.receive_audio,
            ),
    {
        store.upsert_reader_config(self.rtc_id, self.reader_id, self.receive_video, self.receive_audio)
    }
}

} // verus!
