//! Shapes of the remote query results that the pages map into their models,
//! and the error of a failed request.
use vstd::prelude::*;

pub mod clients_with_projects;
pub mod clients_with_projects_with_time_entries;
pub mod clients_with_time_blocks_and_time_entries;

verus! {

/// An instant as the transport writes it: RFC 3339 text.
#[derive(Clone, Debug, PartialEq, Eq)]
pub struct DateTime(pub String);

/// A request to the remote store that failed, with the transport's account
/// of why.
#[derive(Clone, Debug, PartialEq, Eq)]
pub struct GraphQLError {
    pub message: String,
}

} // verus!
