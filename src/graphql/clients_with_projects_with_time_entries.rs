//! Clients with their projects, and each project with its time entries.
use vstd::prelude::*;
use super::DateTime;

verus! {

pub struct Query {
    pub query_client: Option<Vec<Option<Client>>>,
}

pub struct Client {
    pub id: String,
    pub name: String,
    pub projects: Vec<Project>,
}

pub struct Project {
    pub id: String,
    pub name: String,
    pub time_entries: Vec<TimeEntry>,
}

pub struct TimeEntry {
    pub id: String,
    pub name: String,
    pub started: DateTime,
    pub stopped: Option<DateTime>,
}

} // verus!
