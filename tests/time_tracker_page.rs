use std::collections::BTreeMap;
use time_tracker::changes_status::ChangesStatus;
use time_tracker::graphql::clients_with_projects_with_time_entries as query;
use time_tracker::graphql::{DateTime, GraphQLError};
use time_tracker::page::time_tracker::{
    find_time_entry, init, map_clients, update, Cmd, Model, Msg, TimeEntryChange,
};
use time_tracker::page::MapError;
use time_tracker::remote_data::RemoteData;

const CLIENT: &str = "01ARZ3NDEKTSV4RRFFQ69G5FAV";
const CLIENT_ID: u128 = 1777027686520646174104517696511196507;
const PROJECT: &str = "01BX5ZZKBKACTAV9WEVGEMMVRY";
const PROJECT_ID: u128 = 1824037644831285921095405231938367262;
const ENTRY_A: &str = "01BX5ZZKBKACTAV9WEVGEMMVRZ";
const ENTRY_A_ID: u128 = 1824037644831285921095405231938367263;
const ENTRY_B: &str = "01BX5ZZKBKACTAV9WEVGEMMVS0";
const ENTRY_B_ID: u128 = 1824037644831285921095405231938367264;
const T0: i64 = 1_609_459_200;

fn entry(id: &str, name: &str, started: &str, stopped: Option<&str>) -> query::TimeEntry {
    query::TimeEntry {
        id: id.to_string(),
        name: name.to_string(),
        started: DateTime(started.to_string()),
        stopped: stopped.map(|s| DateTime(s.to_string())),
    }
}

fn sample_query() -> query::Query {
    query::Query {
        query_client: Some(vec![
            None,
            Some(query::Client {
                id: CLIENT.to_string(),
                name: "Acme".to_string(),
                projects: vec![query::Project {
                    id: PROJECT.to_string(),
                    name: "Website".to_string(),
                    time_entries: vec![
                        entry(ENTRY_A, "design", "2021-01-01T00:00:00Z", Some("2021-01-01T00:00:30Z")),
                        entry(ENTRY_B, "build", "2021-01-01T01:00:00+01:00", None),
                    ],
                }],
            }),
        ]),
    }
}

fn loaded_model() -> Model {
    let (mut model, cmd) = init();
    assert_eq!(cmd, Cmd::FetchClients);
    let clients = map_clients(sample_query()).unwrap();
    assert_eq!(update(Msg::ClientsFetched(Ok(clients)), &mut model, T0), None);
    model
}

fn clients(model: &Model) -> &BTreeMap<u128, time_tracker::page::time_tracker::Client> {
    model.clients.loaded().unwrap()
}

#[test]
fn init_is_loading_with_no_changes() {
    let (model, cmd) = init();
    assert_eq!(cmd, Cmd::FetchClients);
    assert!(matches!(model.clients, RemoteData::Loading));
    assert_eq!(model.changes_status, ChangesStatus::NoChanges);
    assert!(model.errors.is_empty());
}

#[test]
fn mapping_parses_ids_and_instants() {
    let tree = map_clients(sample_query()).unwrap();
    assert_eq!(tree.len(), 1);
    let client = &tree[&CLIENT_ID];
    assert_eq!(client.name, "Acme");
    let project = &client.projects[&PROJECT_ID];
    assert_eq!(project.name, "Website");
    assert_eq!(project.time_entries.len(), 2);
    let a = &project.time_entries[&ENTRY_A_ID];
    assert_eq!(a.name, "design");
    assert_eq!(a.started, T0);
    assert_eq!(a.stopped, Some(T0 + 30));
    assert_eq!(a.change, None);
    let b = &project.time_entries[&ENTRY_B_ID];
    assert_eq!(b.started, T0);
    assert_eq!(b.stopped, None);
}

#[test]
fn mapping_twice_gives_the_same_tree() {
    let first = map_clients(sample_query()).unwrap();
    let second = map_clients(sample_query()).unwrap();
    assert_eq!(first.len(), second.len());
    for (id, client) in first.iter() {
        let other = &second[id];
        assert_eq!(client.name, other.name);
        for (pid, project) in client.projects.iter() {
            let other_project = &other.projects[pid];
            assert_eq!(project.name, other_project.name);
            for (eid, e) in project.time_entries.iter() {
                let o = &other_project.time_entries[eid];
                assert_eq!((&e.name, e.started, e.stopped), (&o.name, o.started, o.stopped));
            }
        }
    }
}

#[test]
fn mapping_refuses_a_malformed_id() {
    let mut q = sample_query();
    if let Some(Some(c)) = q.query_client.as_mut().unwrap().get_mut(1) {
        c.projects[0].time_entries[1].id = "not-a-ulid".to_string();
    }
    assert_eq!(map_clients(q).err(), Some(MapError::InvalidId));
}

#[test]
fn mapping_refuses_a_malformed_instant() {
    let mut q = sample_query();
    if let Some(Some(c)) = q.query_client.as_mut().unwrap().get_mut(1) {
        c.projects[0].time_entries[0].stopped = Some(DateTime("yesterday".to_string()));
    }
    assert_eq!(map_clients(q).err(), Some(MapError::InvalidTimestamp));
}

#[test]
fn mapping_refuses_a_result_without_clients() {
    assert_eq!(map_clients(query::Query { query_client: None }).err(), Some(MapError::MissingClients));
}

#[test]
fn mapping_skips_absent_clients() {
    let tree = map_clients(query::Query { query_client: Some(vec![None, None]) }).unwrap();
    assert!(tree.is_empty());
}

#[test]
fn lookup_by_id_finds_each_child_and_nothing_else() {
    let tree = map_clients(sample_query()).unwrap();
    assert_eq!(find_time_entry(&tree, CLIENT_ID, PROJECT_ID, ENTRY_A_ID).unwrap().name, "design");
    assert_eq!(find_time_entry(&tree, CLIENT_ID, PROJECT_ID, ENTRY_B_ID).unwrap().name, "build");
    assert!(find_time_entry(&tree, CLIENT_ID, PROJECT_ID, 5).is_none());
    assert!(find_time_entry(&tree, CLIENT_ID, 5, ENTRY_A_ID).is_none());
    assert!(find_time_entry(&tree, 5, PROJECT_ID, ENTRY_A_ID).is_none());
}

#[test]
fn fetch_error_is_logged_and_cleared() {
    let (mut model, _) = init();
    let err = GraphQLError { message: "offline".to_string() };
    assert_eq!(update(Msg::ClientsFetched(Err(err.clone())), &mut model, T0), None);
    assert!(matches!(model.clients, RemoteData::Loading));
    assert_eq!(model.errors, vec![err]);
    update(Msg::ClearErrors, &mut model, T0);
    assert!(model.errors.is_empty());
}

#[test]
fn staged_edit_is_replaced_not_merged() {
    let mut model = loaded_model();
    update(Msg::TimeEntryDurationChanged(CLIENT_ID, PROJECT_ID, ENTRY_A_ID, "00:10".to_string()), &mut model, T0);
    update(Msg::TimeEntryDurationChanged(CLIENT_ID, PROJECT_ID, ENTRY_A_ID, "00:20".to_string()), &mut model, T0);
    let e = find_time_entry(clients(&model), CLIENT_ID, PROJECT_ID, ENTRY_A_ID).unwrap();
    assert_eq!(e.change, Some(TimeEntryChange::Duration("00:20".to_string())));
    update(Msg::TimeEntryStartedDateChanged(CLIENT_ID, PROJECT_ID, ENTRY_A_ID, "2021-02-03".to_string()), &mut model, T0);
    let e = find_time_entry(clients(&model), CLIENT_ID, PROJECT_ID, ENTRY_A_ID).unwrap();
    assert_eq!(e.change, Some(TimeEntryChange::StartedDate("2021-02-03".to_string())));
}

#[test]
fn saving_a_staged_edit_clears_it_and_sends_it() {
    let mut model = loaded_model();
    update(Msg::TimeEntryStoppedTimeChanged(CLIENT_ID, PROJECT_ID, ENTRY_B_ID, "12:00".to_string()), &mut model, T0);
    let cmd = update(Msg::SaveTimeEntryChange(CLIENT_ID, PROJECT_ID, ENTRY_B_ID), &mut model, T0);
    assert_eq!(
        cmd,
        Some(Cmd::SaveTimeEntryChange {
            client_id: CLIENT_ID,
            project_id: PROJECT_ID,
            time_entry_id: ENTRY_B_ID,
            change: TimeEntryChange::StoppedTime("12:00".to_string()),
        })
    );
    assert_eq!(find_time_entry(clients(&model), CLIENT_ID, PROJECT_ID, ENTRY_B_ID).unwrap().change, None);
    assert_eq!(model.changes_status, ChangesStatus::Saving { requests_in_flight: 1 });
}

#[test]
fn saving_without_a_staged_edit_does_nothing() {
    let mut model = loaded_model();
    let cmd = update(Msg::SaveTimeEntryChange(CLIENT_ID, PROJECT_ID, ENTRY_A_ID), &mut model, T0);
    assert_eq!(cmd, None);
    assert_eq!(find_time_entry(clients(&model), CLIENT_ID, PROJECT_ID, ENTRY_A_ID).unwrap().change, None);
    assert_eq!(model.changes_status, ChangesStatus::NoChanges);
}

#[test]
fn three_concurrent_saves_then_saved() {
    let mut model = loaded_model();
    for id in [ENTRY_A_ID, ENTRY_B_ID, ENTRY_A_ID] {
        update(Msg::TimeEntryDurationChanged(CLIENT_ID, PROJECT_ID, id, "1".to_string()), &mut model, T0);
        assert!(update(Msg::SaveTimeEntryChange(CLIENT_ID, PROJECT_ID, id), &mut model, T0).is_some());
    }
    assert_eq!(model.changes_status, ChangesStatus::Saving { requests_in_flight: 3 });
    update(Msg::ChangesSaved(None), &mut model, T0 + 1);
    update(Msg::ChangesSaved(Some(GraphQLError { message: "conflict".to_string() })), &mut model, T0 + 2);
    assert_eq!(model.changes_status, ChangesStatus::Saving { requests_in_flight: 1 });
    update(Msg::ChangesSaved(None), &mut model, T0 + 3);
    assert_eq!(model.changes_status, ChangesStatus::Saved(T0 + 3));
    assert_eq!(model.errors.len(), 1);
}

#[test]
fn rename_and_save_name() {
    let mut model = loaded_model();
    update(Msg::TimeEntryNameChanged(CLIENT_ID, PROJECT_ID, ENTRY_A_ID, "polish".to_string()), &mut model, T0);
    assert_eq!(find_time_entry(clients(&model), CLIENT_ID, PROJECT_ID, ENTRY_A_ID).unwrap().name, "polish");
    let cmd = update(Msg::SaveTimeEntryName(CLIENT_ID, PROJECT_ID, ENTRY_A_ID), &mut model, T0);
    assert_eq!(
        cmd,
        Some(Cmd::SaveTimeEntryName {
            client_id: CLIENT_ID,
            project_id: PROJECT_ID,
            time_entry_id: ENTRY_A_ID,
            name: "polish".to_string(),
        })
    );
}

#[test]
fn delete_removes_the_entry_and_tolerates_a_second_delete() {
    let mut model = loaded_model();
    let cmd = update(Msg::DeleteTimeEntry(CLIENT_ID, PROJECT_ID, ENTRY_A_ID), &mut model, T0);
    assert!(cmd.is_some());
    assert!(find_time_entry(clients(&model), CLIENT_ID, PROJECT_ID, ENTRY_A_ID).is_none());
    assert!(find_time_entry(clients(&model), CLIENT_ID, PROJECT_ID, ENTRY_B_ID).is_some());
    assert_eq!(update(Msg::DeleteTimeEntry(CLIENT_ID, PROJECT_ID, ENTRY_A_ID), &mut model, T0), None);
    assert_eq!(model.changes_status, ChangesStatus::Saving { requests_in_flight: 1 });
}

#[test]
fn edit_of_a_missing_client_changes_nothing() {
    let mut model = loaded_model();
    let cmd = update(Msg::TimeEntryDurationChanged(42, PROJECT_ID, ENTRY_A_ID, "9".to_string()), &mut model, T0);
    assert_eq!(cmd, None);
    assert!(model.errors.is_empty());
    assert_eq!(clients(&model).len(), 1);
    assert_eq!(find_time_entry(clients(&model), CLIENT_ID, PROJECT_ID, ENTRY_A_ID).unwrap().change, None);
    assert_eq!(update(Msg::SaveTimeEntryChange(42, PROJECT_ID, ENTRY_A_ID), &mut model, T0), None);
    assert_eq!(model.changes_status, ChangesStatus::NoChanges);
}

#[test]
fn edit_before_loading_changes_nothing() {
    let (mut model, _) = init();
    update(Msg::TimeEntryNameChanged(CLIENT_ID, PROJECT_ID, ENTRY_A_ID, "x".to_string()), &mut model, T0);
    assert!(matches!(model.clients, RemoteData::Loading));
    assert_eq!(update(Msg::OnSecondTick, &mut model, T0), None);
}
