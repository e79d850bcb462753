//! Clients with their projects.
use vstd::prelude::*;

verus! {

pub struct Query {
    pub query_client: Option<Vec<Option<Client>>>,
}

pub struct Client {
    pub id: String,
    pub name: String,
    pub projects: Vec<Project>,
}

pub struct Project {
    pub id: String,
    pub name: String,
}

} // verus!
