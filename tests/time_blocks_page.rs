use time_tracker::changes_status::ChangesStatus;
use time_tracker::graphql::clients_with_time_blocks_and_time_entries as query;
use time_tracker::graphql::DateTime;
use time_tracker::page::time_blocks::{
    find_time_block, init, map_clients, map_tracked, status_from_remote, status_to_remote, update,
    Cmd, Model, Msg, TimeBlockStatus,
};
use time_tracker::page::MapError;

const CLIENT: &str = "01ARZ3NDEKTSV4RRFFQ69G5FAV";
const CLIENT_ID: u128 = 1777027686520646174104517696511196507;
const BLOCK: &str = "01BX5ZZKBKACTAV9WEVGEMMVRY";
const BLOCK_ID: u128 = 1824037644831285921095405231938367262;
const INVOICE: &str = "01BX5ZZKBKACTAV9WEVGEMMVRZ";
const INVOICE_ID: u128 = 1824037644831285921095405231938367263;
const BARE_BLOCK: &str = "01BX5ZZKBKACTAV9WEVGEMMVS0";
const BARE_BLOCK_ID: u128 = 1824037644831285921095405231938367264;
const T0: i64 = 1_609_459_200;

fn span(started: &str, stopped: Option<&str>) -> query::TimeEntry {
    query::TimeEntry {
        started: DateTime(started.to_string()),
        stopped: stopped.map(|s| DateTime(s.to_string())),
    }
}

fn sample_query() -> query::Query {
    query::Query {
        query_client: Some(vec![Some(query::Client {
            id: CLIENT.to_string(),
            name: "Acme".to_string(),
            time_blocks: vec![
                query::TimeBlock {
                    id: BLOCK.to_string(),
                    name: "January".to_string(),
                    status: query::TimeBlockStatus::Unpaid,
                    duration: 36_000,
                    invoice: Some(query::Invoice {
                        id: INVOICE.to_string(),
                        custom_id: Some("INV-1".to_string()),
                        url: None,
                    }),
                },
                query::TimeBlock {
                    id: BARE_BLOCK.to_string(),
                    name: "February".to_string(),
                    status: query::TimeBlockStatus::NonBillable,
                    duration: 60,
                    invoice: None,
                },
            ],
            projects: vec![
                query::Project {
                    time_entries: vec![span("2021-01-01T00:00:00Z", Some("2021-01-01T00:00:30Z"))],
                },
                query::Project { time_entries: vec![span("2021-01-01T02:00:00+01:00", None)] },
            ],
        })]),
    }
}

fn loaded_model() -> Model {
    let (mut model, cmd) = init();
    assert_eq!(cmd, Cmd::FetchClients);
    let clients = map_clients(sample_query(), T0 + 3_600 + 10).unwrap();
    update(Msg::ClientsFetched(Ok(clients)), &mut model, T0);
    model
}

#[test]
fn tracked_time_sums_stopped_and_running_entries() {
    let projects = vec![
        query::Project { time_entries: vec![span("2021-01-01T00:00:00Z", Some("2021-01-01T00:00:30Z"))] },
        query::Project { time_entries: vec![span("2021-01-01T01:00:00Z", None)] },
    ];
    assert_eq!(map_tracked(projects, T0 + 3_600 + 10), Ok(40));
}

#[test]
fn tracked_time_refuses_a_malformed_instant() {
    let projects = vec![query::Project { time_entries: vec![span("soon", None)] }];
    assert_eq!(map_tracked(projects, T0), Err(MapError::InvalidTimestamp));
}

#[test]
fn mapping_builds_blocks_invoices_and_tracked_time() {
    let tree = map_clients(sample_query(), T0 + 3_600 + 10).unwrap();
    let client = &tree[&CLIENT_ID];
    assert_eq!(client.name, "Acme");
    assert_eq!(client.tracked_seconds, 40);
    let block = &client.time_blocks[&BLOCK_ID];
    assert_eq!(block.name, "January");
    assert_eq!(block.status, TimeBlockStatus::Unpaid);
    assert_eq!(block.duration, 36_000);
    assert_eq!(block.duration_change, None);
    let invoice = block.invoice.as_ref().unwrap();
    assert_eq!(invoice.id, INVOICE_ID);
    assert_eq!(invoice.custom_id.as_deref(), Some("INV-1"));
    assert_eq!(invoice.url, None);
    assert!(client.time_blocks[&BARE_BLOCK_ID].invoice.is_none());
}

#[test]
fn mapping_refuses_a_malformed_invoice_id() {
    let mut q = sample_query();
    if let Some(Some(c)) = q.query_client.as_mut().unwrap().get_mut(0) {
        c.time_blocks[0].invoice.as_mut().unwrap().id = "X".to_string();
    }
    assert_eq!(map_clients(q, T0).err(), Some(MapError::InvalidId));
}

#[test]
fn block_mapping_refuses_a_result_without_clients() {
    assert_eq!(map_clients(query::Query { query_client: None }, T0).err(), Some(MapError::MissingClients));
}

#[test]
fn status_round_trips() {
    for s in [TimeBlockStatus::NonBillable, TimeBlockStatus::Unpaid, TimeBlockStatus::Paid] {
        assert_eq!(status_from_remote(status_to_remote(s)), s);
    }
    for r in [query::TimeBlockStatus::NonBillable, query::TimeBlockStatus::Unpaid, query::TimeBlockStatus::Paid] {
        assert_eq!(status_to_remote(status_from_remote(r)), r);
    }
    assert_eq!(status_from_remote(query::TimeBlockStatus::Paid), TimeBlockStatus::Paid);
}

#[test]
fn duration_edit_is_replaced_then_saved() {
    let mut model = loaded_model();
    update(Msg::TimeBlockDurationChanged(CLIENT_ID, BLOCK_ID, "9:00".to_string()), &mut model, T0);
    update(Msg::TimeBlockDurationChanged(CLIENT_ID, BLOCK_ID, "10:30".to_string()), &mut model, T0);
    let tree = model.clients.loaded().unwrap();
    assert_eq!(find_time_block(tree, CLIENT_ID, BLOCK_ID).unwrap().duration_change.as_deref(), Some("10:30"));
    let cmd = update(Msg::SaveTimeBlockDuration(CLIENT_ID, BLOCK_ID), &mut model, T0);
    assert_eq!(
        cmd,
        Some(Cmd::SaveTimeBlockDuration {
            client_id: CLIENT_ID,
            time_block_id: BLOCK_ID,
            duration: "10:30".to_string(),
        })
    );
    let tree = model.clients.loaded().unwrap();
    assert_eq!(find_time_block(tree, CLIENT_ID, BLOCK_ID).unwrap().duration_change, None);
    assert_eq!(update(Msg::SaveTimeBlockDuration(CLIENT_ID, BLOCK_ID), &mut model, T0), None);
    assert_eq!(model.changes_status, ChangesStatus::Saving { requests_in_flight: 1 });
}

#[test]
fn invoice_fields_change_only_where_an_invoice_is_attached() {
    let mut model = loaded_model();
    update(Msg::InvoiceUrlChanged(CLIENT_ID, BLOCK_ID, "https://example.com/1".to_string()), &mut model, T0);
    update(Msg::InvoiceCustomIdChanged(CLIENT_ID, BARE_BLOCK_ID, "INV-2".to_string()), &mut model, T0);
    let tree = model.clients.loaded().unwrap();
    let invoice = find_time_block(tree, CLIENT_ID, BLOCK_ID).unwrap().invoice.as_ref().unwrap();
    assert_eq!(invoice.url.as_deref(), Some("https://example.com/1"));
    assert!(find_time_block(tree, CLIENT_ID, BARE_BLOCK_ID).unwrap().invoice.is_none());
    assert_eq!(
        update(Msg::SaveInvoiceUrl(CLIENT_ID, BLOCK_ID), &mut model, T0),
        Some(Cmd::SaveInvoiceUrl {
            client_id: CLIENT_ID,
            time_block_id: BLOCK_ID,
            url: Some("https://example.com/1".to_string()),
        })
    );
    assert_eq!(update(Msg::SaveInvoiceCustomId(CLIENT_ID, BARE_BLOCK_ID), &mut model, T0), None);
    assert_eq!(
        update(Msg::DeleteInvoice(CLIENT_ID, BLOCK_ID), &mut model, T0),
        Some(Cmd::DeleteInvoice { client_id: CLIENT_ID, time_block_id: BLOCK_ID, invoice_id: INVOICE_ID })
    );
    let tree = model.clients.loaded().unwrap();
    assert!(find_time_block(tree, CLIENT_ID, BLOCK_ID).unwrap().invoice.is_none());
}

#[test]
fn status_name_and_delete() {
    let mut model = loaded_model();
    assert_eq!(
        update(Msg::SetTimeBlockStatus(CLIENT_ID, BLOCK_ID, TimeBlockStatus::Paid), &mut model, T0),
        Some(Cmd::SaveTimeBlockStatus {
            client_id: CLIENT_ID,
            time_block_id: BLOCK_ID,
            status: TimeBlockStatus::Paid,
        })
    );
    update(Msg::TimeBlockNameChanged(CLIENT_ID, BLOCK_ID, "Q1".to_string()), &mut model, T0);
    let tree = model.clients.loaded().unwrap();
    let block = find_time_block(tree, CLIENT_ID, BLOCK_ID).unwrap();
    assert_eq!(block.status, TimeBlockStatus::Paid);
    assert_eq!(block.name, "Q1");
    assert_eq!(
        update(Msg::SaveTimeBlockName(CLIENT_ID, BLOCK_ID), &mut model, T0),
        Some(Cmd::SaveTimeBlockName { client_id: CLIENT_ID, time_block_id: BLOCK_ID, name: "Q1".to_string() })
    );
    assert!(update(Msg::DeleteTimeBlock(CLIENT_ID, BLOCK_ID), &mut model, T0).is_some());
    let tree = model.clients.loaded().unwrap();
    assert!(find_time_block(tree, CLIENT_ID, BLOCK_ID).is_none());
    assert_eq!(model.changes_status, ChangesStatus::Saving { requests_in_flight: 3 });
}

#[test]
fn events_for_a_missing_client_change_nothing() {
    let mut model = loaded_model();
    assert_eq!(update(Msg::TimeBlockDurationChanged(7, BLOCK_ID, "1".to_string()), &mut model, T0), None);
    assert_eq!(update(Msg::DeleteTimeBlock(7, BLOCK_ID), &mut model, T0), None);
    assert_eq!(update(Msg::AddTimeBlock(CLIENT_ID), &mut model, T0), None);
    let tree = model.clients.loaded().unwrap();
    assert_eq!(tree[&CLIENT_ID].time_blocks.len(), 2);
    assert!(model.errors.is_empty());
    assert_eq!(model.changes_status, ChangesStatus::NoChanges);
}
