use conference::agent::{DeleteQuery, InsertQuery, ListQuery, Status, UpdateQuery};
use conference::error::ErrorKind;
use conference::ids::AgentId;
use conference::rtc_reader_config::{ListWithRtcQuery, UpsertQuery};
use conference::store::{Backend, RoomTime, RoomTimeRequirement, Store};
use conference::test_helpers::TestDb;

const AUD: &str = "dev.usr.example.org";

fn open_time() -> RoomTime {
    RoomTime { opens_at: Some(100), closes_at: Some(200) }
}

#[test]
fn insert_agent_twice_keeps_one_in_progress_row() {
    let mut store = Store::new();
    store.insert_room(1, AUD, open_time()).unwrap();
    let agent = AgentId::new("web", "a", AUD);
    let first = InsertQuery::new(&agent, 1).status(Status::Ready).execute(&mut store, 110).unwrap();
    assert_eq!(first.status(), Status::Ready);
    let second = InsertQuery::new(&agent, 1).execute(&mut store, 120).unwrap();
    assert_eq!(second.status(), Status::InProgress);
    assert_eq!(store.agents().len(), 1);
    assert_eq!(store.agents()[0].status, Status::InProgress);
    assert_eq!(store.agents()[0].created_at, 110);
}

#[test]
fn insert_agent_into_missing_room_fails() {
    let mut store = Store::new();
    let agent = AgentId::new("web", "a", AUD);
    let err = InsertQuery::new(&agent, 9).execute(&mut store, 0).unwrap_err();
    assert_eq!(err.error_kind(), ErrorKind::DbQueryFailed);
    assert_eq!(store.agents().len(), 0);
}

#[test]
fn update_and_delete_agents() {
    let mut store = Store::new();
    store.insert_room(1, AUD, open_time()).unwrap();
    store.insert_room(2, AUD, open_time()).unwrap();
    let a = AgentId::new("web", "a", AUD);
    let b = AgentId::new("web", "b", AUD);
    InsertQuery::new(&a, 1).execute(&mut store, 110).unwrap();
    InsertQuery::new(&b, 1).execute(&mut store, 111).unwrap();
    InsertQuery::new(&a, 2).execute(&mut store, 112).unwrap();

    let row = UpdateQuery::new(&a, 1).status(Status::Ready).execute(&mut store).unwrap();
    assert_eq!(row.status(), Status::Ready);
    assert!(UpdateQuery::new(&b, 2).execute(&mut store).is_none());

    assert_eq!(DeleteQuery::new().room_id(1).agent_id(&b).execute(&mut store), 1);
    assert_eq!(DeleteQuery::new().agent_id(&a).execute(&mut store), 2);
    assert_eq!(store.agents().len(), 0);
}

#[test]
fn list_ready_agents_newest_first_with_paging() {
    let mut store = Store::new();
    store.insert_room(1, AUD, open_time()).unwrap();
    let names = ["a", "b", "c", "d"];
    let agents: Vec<AgentId> = names.iter().map(|n| AgentId::new("web", n, AUD)).collect();
    let times = [130, 110, 150, 120];
    for (agent, t) in agents.iter().zip(times) {
        InsertQuery::new(agent, 1).status(Status::Ready).execute(&mut store, t).unwrap();
    }
    UpdateQuery::new(&agents[3], 1).status(Status::InProgress).execute(&mut store).unwrap();

    let rows = ListQuery::new().room_id(1).execute(&store).unwrap();
    let order: Vec<i64> = rows.iter().map(|r| r.created_at).collect();
    assert_eq!(order, vec![150, 130, 110]);

    let page = ListQuery::new().room_id(1).offset(1).limit(1).execute(&store).unwrap();
    assert_eq!(page.len(), 1);
    assert_eq!(page[0].created_at, 130);

    let none = ListQuery::new().status(Status::InProgress).execute(&store).unwrap();
    assert_eq!(none.len(), 0);
    let by_agent = ListQuery::new().agent_id(&agents[0]).execute(&store).unwrap();
    assert_eq!(by_agent.len(), 1);

    let err = ListQuery::new().limit(-1).execute(&store).unwrap_err();
    assert_eq!(err.error_kind(), ErrorKind::DbQueryFailed);
}

#[test]
fn find_room_by_time_requirement() {
    let mut store = Store::new();
    store.insert_room(1, AUD, open_time()).unwrap();
    assert!(store.find_room(1, RoomTimeRequirement::Open, 150).is_ok());
    assert_eq!(store.find_room(1, RoomTimeRequirement::Open, 99).unwrap_err().kind(), "room_closed");
    assert_eq!(store.find_room(1, RoomTimeRequirement::Open, 200).unwrap_err().kind(), "room_closed");
    assert!(store.find_room(1, RoomTimeRequirement::NotClosed, 99).is_ok());
    assert_eq!(store.find_room(1, RoomTimeRequirement::NotClosed, 250).unwrap_err().kind(), "room_closed");
    assert!(store.find_room(1, RoomTimeRequirement::Any, 250).is_ok());
    assert_eq!(store.find_room(2, RoomTimeRequirement::Any, 0).unwrap_err().kind(), "room_not_found");
}

#[test]
fn room_time_and_identity_checked_on_insert() {
    let mut store = Store::new();
    let bad = RoomTime { opens_at: Some(5), closes_at: Some(4) };
    assert_eq!(store.insert_room(1, AUD, bad).unwrap_err().error_kind(), ErrorKind::InvalidRoomTime);
    let unbounded = RoomTime { opens_at: None, closes_at: None };
    store.insert_room(1, AUD, unbounded).unwrap();
    assert_eq!(store.insert_room(1, AUD, open_time()).unwrap_err().error_kind(), ErrorKind::DbQueryFailed);
}

#[test]
fn presence_counts_only_ready_rows() {
    let mut store = Store::new();
    store.insert_room(1, AUD, open_time()).unwrap();
    let a = AgentId::new("web", "a", AUD);
    InsertQuery::new(&a, 1).execute(&mut store, 110).unwrap();
    assert_eq!(store.check_presence(1, &a).unwrap_err().kind(), "agent_not_entered_the_room");
    assert_eq!(store.connected_agents_count(), 0);
    UpdateQuery::new(&a, 1).status(Status::Ready).execute(&mut store).unwrap();
    assert!(store.check_presence(1, &a).is_ok());
    assert_eq!(store.connected_agents_count(), 1);
}

#[test]
fn reader_configs_upsert_and_list() {
    let mut store = Store::new();
    store.insert_room(1, AUD, open_time()).unwrap();
    store.insert_room(2, AUD, open_time()).unwrap();
    store.insert_rtc(10, 1).unwrap();
    store.insert_rtc(20, 2).unwrap();
    let reader = AgentId::new("web", "reader", AUD);

    let created = UpsertQuery::new(10, &reader).receive_video(false).execute(&mut store).unwrap();
    assert!(!created.receive_video());
    assert!(created.receive_audio());
    let updated = UpsertQuery::new(10, &reader).receive_audio(false).execute(&mut store).unwrap();
    assert!(!updated.receive_video());
    assert!(!updated.receive_audio());
    UpsertQuery::new(20, &reader).execute(&mut store).unwrap();
    assert_eq!(UpsertQuery::new(30, &reader).execute(&mut store).unwrap_err().error_kind(), ErrorKind::DbQueryFailed);

    let listed = ListWithRtcQuery::new(1, &reader).execute(&store);
    assert_eq!(listed.len(), 1);
    assert_eq!(listed[0].1.id, 10);
    assert_eq!(listed[0].0.reader_id().to_text(), "web.reader.dev.usr.example.org");
}

#[test]
fn test_db_starts_empty() {
    let db = TestDb::new();
    assert_eq!(db.connection_pool().agents().len(), 0);
    assert_eq!(db.connection_pool().count_backends(), 0);
}

#[test]
fn backend_capacity_and_reserve_load() {

    let mut store = Store::new();
    let b1 = AgentId::new("j1", "janus", AUD);
    let b2 = AgentId::new("j2", "janus", AUD);
    store.insert_backend(Backend { id: b1.duplicate(), session_id: 1, handle_id: 2, capacity: Some(10), reserve: Some(1) }).unwrap();
    store.insert_backend(Backend { id: b2.duplicate(), session_id: 3, handle_id: 4, capacity: None, reserve: None }).unwrap();
    assert_eq!(store.sum_backend_capacity(), 10);
    assert_eq!(store.count_backends(), 2);

    store.insert_room(1, AUD, open_time()).unwrap();
    assert_eq!(store.bind_backend(2, &b1).unwrap_err().error_kind(), ErrorKind::RoomNotFound);
    let unknown = AgentId::new("j3", "janus", AUD);
    assert_eq!(store.bind_backend(1, &unknown).unwrap_err().error_kind(), ErrorKind::BackendNotFound);
    store.bind_backend(1, &b1).unwrap();
    let a = AgentId::new("web", "a", AUD);
    let b = AgentId::new("web", "b", AUD);
    let c = AgentId::new("web", "c", AUD);
    InsertQuery::new(&a, 1).status(Status::Ready).execute(&mut store, 110).unwrap();
    InsertQuery::new(&b, 1).status(Status::Ready).execute(&mut store, 111).unwrap();
    InsertQuery::new(&c, 1).execute(&mut store, 112).unwrap();

    let loads = store.backend_reserve_load();
    assert_eq!(loads.len(), 2);
    assert_eq!(loads[0].backend_id.to_text(), b1.to_text());
    assert_eq!(loads[0].load, 2);
    assert_eq!(loads[0].taken, 1);
    assert_eq!(loads[1].load, 0);
    assert_eq!(loads[1].taken, 0);
}
