//! State model for a billable-time tracking client: remotely fetched clients,
//! projects, time entries and time blocks, staged field edits, and the
//! bookkeeping of save requests in flight.
pub mod changes_status;
pub mod graphql;
pub mod ids;
pub mod page;
pub mod remote_data;
pub mod time;
