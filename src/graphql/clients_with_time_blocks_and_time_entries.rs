//! Clients with their time blocks and invoices, and the start and stop of
//! every time entry of their projects.
use vstd::prelude::*;
use super::DateTime;

verus! {

pub struct Query {
    pub query_client: Option<Vec<Option<Client>>>,
}

pub struct Client {
    pub id: String,
    pub name: String,
    pub time_blocks: Vec<TimeBlock>,
    pub projects: Vec<Project>,
}

pub struct TimeBlock {
    pub id: String,
    pub name: String,
    pub status: TimeBlockStatus,
    pub duration: i32,
    pub invoice: Option<Invoice>,
}

#[derive(Clone, Copy, Debug, PartialEq, Eq)]
pub enum TimeBlockStatus {
    NonBillable,
    Unpaid,
    Paid,
}

pub struct Invoice {
    pub id: String,
    pub custom_id: Option<String>,
    pub url: Option<String>,
}

pub struct Project {
    pub time_entries: Vec<TimeEntry>,
}

pub struct TimeEntry {
    pub started: DateTime,
    pub stopped: Option<DateTime>,
}

} // verus!
