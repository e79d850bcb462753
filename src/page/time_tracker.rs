//! The time tracker page: clients, their projects, and each project's time
//! entries, with a staged edit per time entry.
use vstd::prelude::*;
use std::collections::BTreeMap;
use crate::changes_status::ChangesStatus;
use crate::graphql::{DateTime, GraphQLError};
use crate::remote_data::RemoteData;
use crate::graphql::clients_with_projects_with_time_entries as query;
use crate::ids::{Id, parse_id, ulid_value};
use crate::page::{MapError, collect, lemma_collect_all, lemma_collect_err, lemma_collect_step};
use crate::time::{Timestamp, parse_timestamp, timestamp_value};

verus! {

pub type ClientId = Id;

pub type ProjectId = Id;

pub type TimeEntryId = Id;

pub struct Client {
    pub name: String,
    pub projects: BTreeMap<ProjectId, Project>,
}

pub struct Project {
    pub name: String,
    pub time_entries: BTreeMap<TimeEntryId, TimeEntry>,
}

pub struct TimeEntry {
    pub name: String,
    pub started: Timestamp,
    pub stopped: Option<Timestamp>,
    pub change: Option<TimeEntryChange>,
}

/// The raw text of an uncommitted edit, tagged with the part of the time
/// entry that it edits.
#[derive(Clone, Debug, PartialEq, Eq)]
pub enum TimeEntryChange {
    StartedDate(String),
    StartedTime(String),
    StoppedDate(String),
    StoppedTime(String),
    Duration(String),
}

pub struct ProjectView {
    pub name: String,
    pub time_entries: Map<TimeEntryId, TimeEntry>,
}

pub struct ClientView {
    pub name: String,
    pub projects: Map<ProjectId, ProjectView>,
}

impl View for Project {
    type V = ProjectView;

    open spec fn view(&self) -> ProjectView {
        ProjectView { name: self.name, time_entries: self.time_entries@ }
    }
}

impl View for Client {
    type V = ClientView;

    open spec fn view(&self) -> ClientView {
        ClientView { name: self.name, projects: projects_view(self.projects@) }
    }
}

pub open spec fn projects_view(projects: Map<ProjectId, Project>) -> Map<ProjectId, ProjectView> {
    projects.map_values(|p: Project| p@)
}

/// The tree of clients as nested maps.
pub open spec fn tree_view(clients: Map<ClientId, Client>) -> Map<ClientId, ClientView> {
    clients.map_values(|c: Client| c@)
}

pub open spec fn has_project(t: Map<ClientId, ClientView>, c: ClientId, p: ProjectId) -> bool {
    t.contains_key(c) && t[c].projects.contains_key(p)
}

/// The time entry at the end of a path, if every step of the path exists.
pub open spec fn entry_at(
    t: Map<ClientId, ClientView>,
    c: ClientId,
    p: ProjectId,
    e: TimeEntryId,
) -> Option<TimeEntry> {
    if has_project(t, c, p) && t[c].projects[p].time_entries.contains_key(e) {
        Some(t[c].projects[p].time_entries[e])
    } else {
        None
    }
}

/// The tree with the time entries of one project replaced.
pub open spec fn with_entries(
    t: Map<ClientId, ClientView>,
    c: ClientId,
    p: ProjectId,
    entries: Map<TimeEntryId, TimeEntry>,
) -> Map<ClientId, ClientView> {
    t.insert(
        c,
        ClientView {
            name: t[c].name,
            projects: t[c].projects.insert(
                p,
                ProjectView { name: t[c].projects[p].name, time_entries: entries },
            ),
        },
    )
}

/// The tree with the time entry at a path set to `te`.
pub open spec fn with_entry(
    t: Map<ClientId, ClientView>,
    c: ClientId,
    p: ProjectId,
    e: TimeEntryId,
    te: TimeEntry,
) -> Map<ClientId, ClientView> {
    with_entries(t, c, p, t[c].projects[p].time_entries.insert(e, te))
}

/// The tree without the time entry at a path.
pub open spec fn without_entry(
    t: Map<ClientId, ClientView>,
    c: ClientId,
    p: ProjectId,
    e: TimeEntryId,
) -> Map<ClientId, ClientView> {
    with_entries(t, c, p, t[c].projects[p].time_entries.remove(e))
}

/// Removes the time entry at a path and hands it out; where a step of the
/// path is missing, nothing changes.
pub fn take_time_entry(
    clients: &mut BTreeMap<ClientId, Client>,
    c: ClientId,
    p: ProjectId,
    e: TimeEntryId,
) -> (r: Option<TimeEntry>)
    ensures
        r == entry_at(tree_view(old(clients)@), c, p, e),
        tree_view(final(clients)@) == if r is Some {
            without_entry(tree_view(old(clients)@), c, p, e)
        } else {
            tree_view(old(clients)@)
        },
{
    let ghost t = tree_view(clients@);
    let mut client = match clients.remove(&c) {
        Some(client) => client,
        None => {
            return None;
        },
    };
    assert(t[c] == client@);
    let ghost old_client = client@;
    let ghost old_projects = client.projects@;
    let r = match client.projects.remove(&p) {
        Some(mut project) => {
            assert(old_client.projects[p] == project@);
            let ghost old_project = project@;
            let ghost old_entries = project.time_entries@;
            let r = project.time_entries.remove(&e);
            proof {
                if r is None {
                    assert(project.time_entries@ =~= old_entries);
                }
            }
            client.projects.insert(p, project);
            proof {
                if r is Some {
                    assert(client@.projects =~= old_client.projects.insert(
                        p,
                        ProjectView {
                            name: old_project.name,
                            time_entries: old_project.time_entries.remove(e),
                        },
                    ));
                } else {
                    assert(client@.projects =~= old_client.projects);
                }
            }
            r
        },
        None => {
            assert(client.projects@ =~= old_projects);
            assert(client@.projects =~= old_client.projects);
            None
        },
    };
    clients.insert(c, client);
    proof {
        if r is Some {
            assert(tree_view(clients@) =~= without_entry(t, c, p, e));
        } else {
            assert(client@ == old_client);
            assert(tree_view(clients@) =~= t);
        }
    }
    r
}

/// Sets the time entry at a path whose client and project exist.
pub fn put_time_entry(
    clients: &mut BTreeMap<ClientId, Client>,
    c: ClientId,
    p: ProjectId,
    e: TimeEntryId,
    te: TimeEntry,
)
    requires
        has_project(tree_view(old(clients)@), c, p),
    ensures
        tree_view(final(clients)@) == with_entry(tree_view(old(clients)@), c, p, e, te),
{
    let ghost t = tree_view(clients@);
    let mut client = clients.remove(&c).unwrap();
    assert(t[c] == client@);
    let ghost old_client = client@;
    let mut project = client.projects.remove(&p).unwrap();
    assert(old_client.projects[p] == project@);
    let ghost old_project = project@;
    project.time_entries.insert(e, te);
    client.projects.insert(p, project);
    assert(client@.projects =~= old_client.projects.insert(
        p,
        ProjectView { name: old_project.name, time_entries: old_project.time_entries.insert(e, te) },
    ));
    clients.insert(c, client);
    assert(tree_view(clients@) =~= with_entry(t, c, p, e, te));
}

// ------ Mapping a fetched result ------

/// The instant of an optional transport instant.
pub open spec fn optional_timestamp_of(t: Option<DateTime>) -> Result<Option<Timestamp>, MapError> {
    match t {
        None => Ok(None),
        Some(t) => match timestamp_value(t.0@) {
            None => Err(MapError::InvalidTimestamp),
            Some(v) => Ok(Some(v)),
        },
    }
}

/// A fetched time entry as a keyed entry of the model, with no staged edit.
pub open spec fn time_entry_of(e: query::TimeEntry) -> Result<
    Option<(TimeEntryId, TimeEntry)>,
    MapError,
> {
    match ulid_value(e.id@) {
        None => Err(MapError::InvalidId),
        Some(id) => match timestamp_value(e.started.0@) {
            None => Err(MapError::InvalidTimestamp),
            Some(started) => match optional_timestamp_of(e.stopped) {
                Err(err) => Err(err),
                Ok(stopped) => Ok(
                    Some((id, TimeEntry { name: e.name, started, stopped, change: None })),
                ),
            },
        },
    }
}

pub open spec fn time_entry_fn() -> spec_fn(query::TimeEntry) -> Result<
    Option<(TimeEntryId, TimeEntry)>,
    MapError,
> {
    |e: query::TimeEntry| time_entry_of(e)
}

/// A fetched project with all its time entries.
pub open spec fn project_of(p: query::Project) -> Result<
    Option<(ProjectId, ProjectView)>,
    MapError,
> {
    match ulid_value(p.id@) {
        None => Err(MapError::InvalidId),
        Some(id) => match collect(p.time_entries@, time_entry_fn()) {
            Err(err) => Err(err),
            Ok(entries) => Ok(Some((id, ProjectView { name: p.name, time_entries: entries }))),
        },
    }
}

pub open spec fn project_fn() -> spec_fn(query::Project) -> Result<
    Option<(ProjectId, ProjectView)>,
    MapError,
> {
    |p: query::Project| project_of(p)
}

/// A fetched client with all its projects; an absent client is skipped.
pub open spec fn client_of(c: Option<query::Client>) -> Result<
    Option<(ClientId, ClientView)>,
    MapError,
> {
    match c {
        None => Ok(None),
        Some(c) => match ulid_value(c.id@) {
            None => Err(MapError::InvalidId),
            Some(id) => match collect(c.projects@, project_fn()) {
                Err(err) => Err(err),
                Ok(projects) => Ok(Some((id, ClientView { name: c.name, projects }))),
            },
        },
    }
}

pub open spec fn client_fn() -> spec_fn(Option<query::Client>) -> Result<
    Option<(ClientId, ClientView)>,
    MapError,
> {
    |c: Option<query::Client>| client_of(c)
}

/// The tree of a fetched result: every identifier and instant must parse,
/// or the whole result is refused.
pub open spec fn clients_of(q: query::Query) -> Result<Map<ClientId, ClientView>, MapError> {
    match q.query_client {
        None => Err(MapError::MissingClients),
        Some(clients) => collect(clients@, client_fn()),
    }
}

fn map_optional_timestamp(t: Option<DateTime>) -> (r: Result<Option<Timestamp>, MapError>)
    ensures
        r == optional_timestamp_of(t),
{
    match t {
        None => Ok(None),
        Some(t) => match parse_timestamp(t.0.as_str()) {
            None => Err(MapError::InvalidTimestamp),
            Some(v) => Ok(Some(v)),
        },
    }
}

fn map_time_entry(e: query::TimeEntry) -> (r: Result<(TimeEntryId, TimeEntry), MapError>)
    ensures
        r matches Ok(x) ==> time_entry_of(e) == Ok::<_, MapError>(Some(x)),
        r matches Err(x) ==> time_entry_of(e) == Err::<Option<(TimeEntryId, TimeEntry)>, _>(x),
{
    let id = match parse_id(e.id.as_str()) {
        None => {
            return Err(MapError::InvalidId);
        },
        Some(id) => id,
    };
    let started = match parse_timestamp(e.started.0.as_str()) {
        None => {
            return Err(MapError::InvalidTimestamp);
        },
        Some(v) => v,
    };
    let stopped = match map_optional_timestamp(e.stopped) {
        Err(err) => {
            return Err(err);
        },
        Ok(v) => v,
    };
    Ok((id, TimeEntry { name: e.name, started, stopped, change: None }))
}

fn map_time_entries(entries: Vec<query::TimeEntry>) -> (r: Result<
    BTreeMap<TimeEntryId, TimeEntry>,
    MapError,
>)
    ensures
        r matches Ok(m) ==> collect(entries@, time_entry_fn()) == Ok::<_, MapError>(m@),
        r matches Err(x) ==> collect(entries@, time_entry_fn()) == Err::<
            Map<TimeEntryId, TimeEntry>,
            _,
        >(x),
{
    let ghost s = entries@;
    let mut rest = entries;
    let mut out: BTreeMap<TimeEntryId, TimeEntry> = BTreeMap::new();
    let ghost mut i: int = 0;
    assert(s.take(0) =~= Seq::<query::TimeEntry>::empty());
    while rest.len() > 0
        invariant
            s == entries@,
            0 <= i <= s.len(),
            rest@ == s.skip(i),
            collect(s.take(i), time_entry_fn()) == Ok::<_, MapError>(out@),
        decreases rest.len(),
    {
        let e = rest.remove(0);
        proof {
            assert(s[i] == e);
            lemma_collect_step(s, time_entry_fn(), i);
        }
        match map_time_entry(e) {
            Err(err) => {
                proof {
                    lemma_collect_err(s, time_entry_fn(), i + 1);
                }
                return Err(err);
            },
            Ok((k, v)) => {
                out.insert(k, v);
            },
        }
        proof {
            i = i + 1;
            assert(rest@ =~= s.skip(i));
        }
    }
    proof {
        lemma_collect_all(s, time_entry_fn());
    }
    Ok(out)
}

fn map_project(p: query::Project) -> (r: Result<(ProjectId, Project), MapError>)
    ensures
        r matches Ok(x) ==> project_of(p) == Ok::<_, MapError>(Some((x.0, x.1@))),
        r matches Err(x) ==> project_of(p) == Err::<Option<(ProjectId, ProjectView)>, _>(x),
{
    let id = match parse_id(p.id.as_str()) {
        None => {
            return Err(MapError::InvalidId);
        },
        Some(id) => id,
    };
    let time_entries = match map_time_entries(p.time_entries) {
        Err(err) => {
            return Err(err);
        },
        Ok(m) => m,
    };
    Ok((id, Project { name: p.name, time_entries }))
}

fn map_projects(projects: Vec<query::Project>) -> (r: Result<
    BTreeMap<ProjectId, Project>,
    MapError,
>)
    ensures
        r matches Ok(m) ==> collect(projects@, project_fn()) == Ok::<_, MapError>(
            projects_view(m@),
        ),
        r matches Err(x) ==> collect(projects@, project_fn()) == Err::<
            Map<ProjectId, ProjectView>,
            _,
        >(x),
{
    let ghost s = projects@;
    let mut rest = projects;
    let mut out: BTreeMap<ProjectId, Project> = BTreeMap::new();
    let ghost mut i: int = 0;
    assert(s.take(0) =~= Seq::<query::Project>::empty());
    assert(projects_view(out@) =~= Map::empty());
    while rest.len() > 0
        invariant
            s == projects@,
            0 <= i <= s.len(),
            rest@ == s.skip(i),
            collect(s.take(i), project_fn()) == Ok::<_, MapError>(projects_view(out@)),
        decreases rest.len(),
    {
        let p = rest.remove(0);
        proof {
            assert(s[i] == p);
            lemma_collect_step(s, project_fn(), i);
        }
        match map_project(p) {
            Err(err) => {
                proof {
                    lemma_collect_err(s, project_fn(), i + 1);
                }
                return Err(err);
            },
            Ok((k, v)) => {
                let ghost before = out@;
                out.insert(k, v);
                assert(projects_view(out@) =~= projects_view(before).insert(k, v@));
            },
        }
        proof {
            i = i + 1;
            assert(rest@ =~= s.skip(i));
        }
    }
    proof {
        lemma_collect_all(s, project_fn());
    }
    Ok(out)
}

fn map_client(c: Option<query::Client>) -> (r: Result<Option<(ClientId, Client)>, MapError>)
    ensures
        r matches Ok(Some(x)) ==> client_of(c) == Ok::<_, MapError>(Some((x.0, x.1@))),
        r matches Ok(None) ==> client_of(c) == Ok::<Option<(ClientId, ClientView)>, MapError>(
            None,
        ),
        r matches Err(x) ==> client_of(c) == Err::<Option<(ClientId, ClientView)>, _>(x),
{
    let c = match c {
        None => {
            return Ok(None);
        },
        Some(c) => c,
    };
    let id = match parse_id(c.id.as_str()) {
        None => {
            return Err(MapError::InvalidId);
        },
        Some(id) => id,
    };
    let projects = match map_projects(c.projects) {
        Err(err) => {
            return Err(err);
        },
        Ok(m) => m,
    };
    Ok(Some((id, Client { name: c.name, projects })))
}

/// Maps a fetched result into the tree of clients. The tree is the one
/// determined by the result: any identifier that is not a ULID, or instant
/// that is not RFC 3339 text, refuses the whole result, and absent clients are
/// skipped.
pub fn map_clients(q: query::Query) -> (r: Result<BTreeMap<ClientId, Client>, MapError>)
    ensures
        r matches Ok(m) ==> clients_of(q) == Ok::<_, MapError>(tree_view(m@)),
        r matches Err(x) ==> clients_of(q) == Err::<Map<ClientId, ClientView>, _>(x),
{
    let clients = match q.query_client {
        None => {
            return Err(MapError::MissingClients);
        },
        Some(v) => v,
    };
    let ghost s = clients@;
    let mut rest = clients;
    let mut out: BTreeMap<ClientId, Client> = BTreeMap::new();
    let ghost mut i: int = 0;
    assert(s.take(0) =~= Seq::<Option<query::Client>>::empty());
    assert(tree_view(out@) =~= Map::empty());
    while rest.len() > 0
        invariant
            q.query_client == Some(clients),
            s == clients@,
            0 <= i <= s.len(),
            rest@ == s.skip(i),
            collect(s.take(i), client_fn()) == Ok::<_, MapError>(tree_view(out@)),
        decreases rest.len(),
    {
        let c = rest.remove(0);
        proof {
            assert(s[i] == c);
            lemma_collect_step(s, client_fn(), i);
        }
        match map_client(c) {
            Err(err) => {
                proof {
                    lemma_collect_err(s, client_fn(), i + 1);
                }
                return Err(err);
            },
            Ok(None) => {},
            Ok(Some((k, v))) => {
                let ghost before = out@;
                out.insert(k, v);
                assert(tree_view(out@) =~= tree_view(before).insert(k, v@));
            },
        }
        proof {
            i = i + 1;
            assert(rest@ =~= s.skip(i));
        }
    }
    proof {
        lemma_collect_all(s, client_fn());
    }
    Ok(out)
}

// ------ Lookups and path lemmas ------

/// Finds the time entry at a path; a missing step gives `None`.
pub fn find_time_entry<'a>(
    clients: &'a BTreeMap<ClientId, Client>,
    c: ClientId,
    p: ProjectId,
    e: TimeEntryId,
) -> (r: Option<&'a TimeEntry>)
    ensures
        match r {
            Some(te) => entry_at(tree_view(clients@), c, p, e) == Some(*te),
            None => entry_at(tree_view(clients@), c, p, e) is None,
        },
{
    match clients.get(&c) {
        None => None,
        Some(client) => match client.projects.get(&p) {
            None => None,
            Some(project) => project.time_entries.get(&e),
        },
    }
}

/// Setting an entry that was taken out is setting it in place; setting an
/// entry to what it already is changes nothing.
pub proof fn lemma_set_entry(
    t: Map<ClientId, ClientView>,
    c: ClientId,
    p: ProjectId,
    e: TimeEntryId,
    te: TimeEntry,
)
    requires
        entry_at(t, c, p, e) is Some,
    ensures
        has_project(without_entry(t, c, p, e), c, p),
        with_entry(without_entry(t, c, p, e), c, p, e, te) == with_entry(t, c, p, e, te),
        with_entry(t, c, p, e, t[c].projects[p].time_entries[e]) == t,
        entry_at(with_entry(t, c, p, e, te), c, p, e) == Some(te),
{
    let w = without_entry(t, c, p, e);
    assert(w[c].projects[p].time_entries.insert(e, te) =~= t[c].projects[p].time_entries.insert(
        e,
        te,
    ));
    assert(with_entry(w, c, p, e, te)[c].projects =~= with_entry(t, c, p, e, te)[c].projects);
    assert(with_entry(w, c, p, e, te) =~= with_entry(t, c, p, e, te));
    let same = t[c].projects[p].time_entries[e];
    assert(t[c].projects[p].time_entries.insert(e, same) =~= t[c].projects[p].time_entries);
    assert(with_entry(t, c, p, e, same)[c].projects =~= t[c].projects);
    assert(with_entry(t, c, p, e, same) =~= t);
}

/// Setting the same entry twice keeps the second value only.
pub proof fn lemma_set_entry_twice(
    t: Map<ClientId, ClientView>,
    c: ClientId,
    p: ProjectId,
    e: TimeEntryId,
    a: TimeEntry,
    b: TimeEntry,
)
    requires
        entry_at(t, c, p, e) is Some,
    ensures
        with_entry(with_entry(t, c, p, e, a), c, p, e, b) == with_entry(t, c, p, e, b),
{
    let ta = with_entry(t, c, p, e, a);
    assert(ta[c].projects[p].time_entries.insert(e, b) =~= t[c].projects[p].time_entries.insert(
        e,
        b,
    ));
    assert(with_entry(ta, c, p, e, b)[c].projects =~= with_entry(t, c, p, e, b)[c].projects);
    assert(with_entry(ta, c, p, e, b) =~= with_entry(t, c, p, e, b));
}

// ------ Model ------

pub struct Model {
    pub changes_status: ChangesStatus,
    pub errors: Vec<GraphQLError>,
    pub clients: RemoteData<BTreeMap<ClientId, Client>>,
}

pub struct ModelView {
    pub changes_status: ChangesStatus,
    pub errors: Seq<GraphQLError>,
    pub clients: RemoteData<Map<ClientId, ClientView>>,
}

impl View for Model {
    type V = ModelView;

    open spec fn view(&self) -> ModelView {
        ModelView {
            changes_status: self.changes_status,
            errors: self.errors@,
            clients: match self.clients {
                RemoteData::NotAsked => RemoteData::NotAsked,
                RemoteData::Loading => RemoteData::Loading,
                RemoteData::Loaded(m) => RemoteData::Loaded(tree_view(m@)),
            },
        }
    }
}

pub enum Msg {
    ClientsFetched(Result<BTreeMap<ClientId, Client>, GraphQLError>),
    ChangesSaved(Option<GraphQLError>),
    ClearErrors,
    Start(ClientId, ProjectId),
    Stop(ClientId, ProjectId),
    DeleteTimeEntry(ClientId, ProjectId, TimeEntryId),
    TimeEntryNameChanged(ClientId, ProjectId, TimeEntryId, String),
    SaveTimeEntryName(ClientId, ProjectId, TimeEntryId),
    TimeEntryStartedChanged(ClientId, ProjectId, TimeEntryId, String),
    SaveTimeEntryStarted(ClientId, ProjectId, TimeEntryId),
    TimeEntryDurationChanged(ClientId, ProjectId, TimeEntryId, String),
    TimeEntryStoppedChanged(ClientId, ProjectId, TimeEntryId, String),
    SaveTimeEntryStopped(ClientId, ProjectId, TimeEntryId),
    TimeEntryStartedDateChanged(ClientId, ProjectId, TimeEntryId, String),
    TimeEntryStartedTimeChanged(ClientId, ProjectId, TimeEntryId, String),
    TimeEntryStoppedDateChanged(ClientId, ProjectId, TimeEntryId, String),
    TimeEntryStoppedTimeChanged(ClientId, ProjectId, TimeEntryId, String),
    SaveTimeEntryChange(ClientId, ProjectId, TimeEntryId),
    OnSecondTick,
}

/// Follow-up work that an event asks for; its completion comes back as a
/// new event.
#[derive(Debug, PartialEq, Eq)]
pub enum Cmd {
    FetchClients,
    SaveTimeEntryName {
        client_id: ClientId,
        project_id: ProjectId,
        time_entry_id: TimeEntryId,
        name: String,
    },
    SaveTimeEntryChange {
        client_id: ClientId,
        project_id: ProjectId,
        time_entry_id: TimeEntryId,
        change: TimeEntryChange,
    },
    DeleteTimeEntry { client_id: ClientId, project_id: ProjectId, time_entry_id: TimeEntryId },
}

/// The time entry at a path of a loaded tree.
pub open spec fn loaded_entry(m: ModelView, c: ClientId, p: ProjectId, e: TimeEntryId) -> Option<
    TimeEntry,
> {
    match m.clients {
        RemoteData::Loaded(t) => entry_at(t, c, p, e),
        _ => None,
    }
}

/// The model with the time entry at a path replaced, where it exists.
pub open spec fn set_entry(
    m: ModelView,
    c: ClientId,
    p: ProjectId,
    e: TimeEntryId,
    te: TimeEntry,
) -> ModelView {
    match m.clients {
        RemoteData::Loaded(t) => if entry_at(t, c, p, e) is Some {
            ModelView { clients: RemoteData::Loaded(with_entry(t, c, p, e, te)), ..m }
        } else {
            m
        },
        _ => m,
    }
}

/// The model with the staged edit of a time entry replaced, where it exists.
pub open spec fn stage(
    m: ModelView,
    c: ClientId,
    p: ProjectId,
    e: TimeEntryId,
    change: TimeEntryChange,
) -> ModelView {
    match loaded_entry(m, c, p, e) {
        Some(te) => set_entry(m, c, p, e, TimeEntry { change: Some(change), ..te }),
        None => m,
    }
}

/// What one event does to the model, and the follow-up work it asks for.
/// Events addressed at a path with a missing step change nothing.
pub open spec fn step(m: ModelView, msg: Msg, now: Timestamp) -> (ModelView, Option<Cmd>) {
    match msg {
        Msg::ClientsFetched(Ok(clients)) => (
            ModelView { clients: RemoteData::Loaded(tree_view(clients@)), ..m },
            None,
        ),
        Msg::ClientsFetched(Err(err)) => (ModelView { errors: m.errors.push(err), ..m }, None),
        Msg::ChangesSaved(result) => (
            ModelView {
                changes_status: m.changes_status.finished(now),
                errors: match result {
                    Some(err) => m.errors.push(err),
                    None => m.errors,
                },
                ..m
            },
            None,
        ),
        Msg::ClearErrors => (ModelView { errors: Seq::empty(), ..m }, None),
        Msg::DeleteTimeEntry(c, p, e) => match m.clients {
            RemoteData::Loaded(t) => if entry_at(t, c, p, e) is Some {
                (
                    ModelView {
                        clients: RemoteData::Loaded(without_entry(t, c, p, e)),
                        changes_status: m.changes_status.started(),
                        ..m
                    },
                    Some(Cmd::DeleteTimeEntry { client_id: c, project_id: p, time_entry_id: e }),
                )
            } else {
                (m, None)
            },
            _ => (m, None),
        },
        Msg::TimeEntryNameChanged(c, p, e, name) => match loaded_entry(m, c, p, e) {
            Some(te) => (set_entry(m, c, p, e, TimeEntry { name, ..te }), None),
            None => (m, None),
        },
        Msg::SaveTimeEntryName(c, p, e) => match loaded_entry(m, c, p, e) {
            Some(te) => (
                ModelView { changes_status: m.changes_status.started(), ..m },
                Some(
                    Cmd::SaveTimeEntryName {
                        client_id: c,
                        project_id: p,
                        time_entry_id: e,
                        name: te.name,
                    },
                ),
            ),
            None => (m, None),
        },
        Msg::TimeEntryDurationChanged(c, p, e, text) => (
            stage(m, c, p, e, TimeEntryChange::Duration(text)),
            None,
        ),
        Msg::TimeEntryStartedDateChanged(c, p, e, text) => (
            stage(m, c, p, e, TimeEntryChange::StartedDate(text)),
            None,
        ),
        Msg::TimeEntryStartedTimeChanged(c, p, e, text) => (
            stage(m, c, p, e, TimeEntryChange::StartedTime(text)),
            None,
        ),
        Msg::TimeEntryStoppedDateChanged(c, p, e, text) => (
            stage(m, c, p, e, TimeEntryChange::StoppedDate(text)),
            None,
        ),
        Msg::TimeEntryStoppedTimeChanged(c, p, e, text) => (
            stage(m, c, p, e, TimeEntryChange::StoppedTime(text)),
            None,
        ),
        Msg::SaveTimeEntryChange(c, p, e) => match loaded_entry(m, c, p, e) {
            Some(te) => match te.change {
                Some(change) => (
                    ModelView {
                        changes_status: m.changes_status.started(),
                        ..set_entry(m, c, p, e, TimeEntry { change: None, ..te })
                    },
                    Some(
                        Cmd::SaveTimeEntryChange {
                            client_id: c,
                            project_id: p,
                            time_entry_id: e,
                            change,
                        },
                    ),
                ),
                None => (m, None),
            },
            None => (m, None),
        },
        _ => (m, None),
    }
}

/// A new page: nothing saved, no errors, and the clients awaited from the
/// fetch that it asks for.
pub fn init() -> (r: (Model, Cmd))
    ensures
        r.0@ == (ModelView {
            changes_status: ChangesStatus::NoChanges,
            errors: Seq::empty(),
            clients: RemoteData::Loading,
        }),
        r.1 == Cmd::FetchClients,
{
    (
        Model {
            changes_status: ChangesStatus::NoChanges,
            errors: Vec::new(),
            clients: RemoteData::Loading,
        },
        Cmd::FetchClients,
    )
}

/// Replaces the staged edit of the time entry at a path and hands out the
/// one it replaced; where a step of the path is missing, nothing changes.
fn replace_change(
    model: &mut Model,
    c: ClientId,
    p: ProjectId,
    e: TimeEntryId,
    change: Option<TimeEntryChange>,
) -> (r: Option<Option<TimeEntryChange>>)
    ensures
        match loaded_entry(old(model)@, c, p, e) {
            Some(te) => r == Some(te.change) && final(model)@ == set_entry(
                old(model)@,
                c,
                p,
                e,
                TimeEntry { change, ..te },
            ),
            None => r is None && final(model)@ == old(model)@,
        },
{
    if let Some(clients) = model.clients.loaded_mut() {
        let ghost t = tree_view(clients@);
        if let Some(mut te) = take_time_entry(clients, c, p, e) {
            let previous = te.change;
            te.change = change;
            proof {
                lemma_set_entry(t, c, p, e, te);
            }
            put_time_entry(clients, c, p, e, te);
            Some(previous)
        } else {
            None
        }
    } else {
        None
    }
}

fn rename(model: &mut Model, c: ClientId, p: ProjectId, e: TimeEntryId, name: String)
    ensures
        final(model)@ == match loaded_entry(old(model)@, c, p, e) {
            Some(te) => set_entry(old(model)@, c, p, e, TimeEntry { name, ..te }),
            None => old(model)@,
        },
{
    if let Some(clients) = model.clients.loaded_mut() {
        let ghost t = tree_view(clients@);
        if let Some(mut te) = take_time_entry(clients, c, p, e) {
            te.name = name;
            proof {
                lemma_set_entry(t, c, p, e, te);
            }
            put_time_entry(clients, c, p, e, te);
        }
    }
}

/// Applies one event to the model and gives the follow-up work it asks for.
pub fn update(msg: Msg, model: &mut Model, now: Timestamp) -> (r: Option<Cmd>)
    requires
        old(model).changes_status.wf(),
        old(model).changes_status.in_flight() < usize::MAX,
    ensures
        (final(model)@, r) == step(old(model)@, msg, now),
        final(model).changes_status.wf(),
{
    match msg {
        Msg::ClientsFetched(Ok(clients)) => {
            model.clients = RemoteData::Loaded(clients);
            None
        },
        Msg::ClientsFetched(Err(err)) => {
            model.errors.push(err);
            None
        },
        Msg::ChangesSaved(result) => {
            if let Some(err) = result {
                model.errors.push(err);
            }
            model.changes_status.request_finished(now);
            None
        },
        Msg::ClearErrors => {
            model.errors.clear();
            None
        },
        Msg::DeleteTimeEntry(c, p, e) => {
            if let Some(clients) = model.clients.loaded_mut() {
                if let Some(_) = take_time_entry(clients, c, p, e) {
                    model.changes_status.request_started();
                    return Some(
                        Cmd::DeleteTimeEntry { client_id: c, project_id: p, time_entry_id: e },
                    );
                }
            }
            None
        },
        Msg::TimeEntryNameChanged(c, p, e, name) => {
            rename(model, c, p, e, name);
            None
        },
        Msg::SaveTimeEntryName(c, p, e) => {
            let found = match model.clients.loaded() {
                Some(clients) => match find_time_entry(clients, c, p, e) {
                    Some(te) => Some(te.name.clone()),
                    None => None,
                },
                None => None,
            };
            match found {
                Some(name) => {
                    model.changes_status.request_started();
                    Some(
                        Cmd::SaveTimeEntryName {
                            client_id: c,
                            project_id: p,
                            time_entry_id: e,
                            name,
                        },
                    )
                },
                None => None,
            }
        },
        Msg::TimeEntryDurationChanged(c, p, e, text) => {
            replace_change(model, c, p, e, Some(TimeEntryChange::Duration(text)));
            None
        },
        Msg::TimeEntryStartedDateChanged(c, p, e, text) => {
            replace_change(model, c, p, e, Some(TimeEntryChange::StartedDate(text)));
            None
        },
        Msg::TimeEntryStartedTimeChanged(c, p, e, text) => {
            replace_change(model, c, p, e, Some(TimeEntryChange::StartedTime(text)));
            None
        },
        Msg::TimeEntryStoppedDateChanged(c, p, e, text) => {
            replace_change(model, c, p, e, Some(TimeEntryChange::StoppedDate(text)));
            None
        },
        Msg::TimeEntryStoppedTimeChanged(c, p, e, text) => {
            replace_change(model, c, p, e, Some(TimeEntryChange::StoppedTime(text)));
            None
        },
        Msg::SaveTimeEntryChange(c, p, e) => {
            let ghost m0 = model@;
            match replace_change(model, c, p, e, None) {
                Some(Some(change)) => {
                    model.changes_status.request_started();
                    Some(
                        Cmd::SaveTimeEntryChange {
                            client_id: c,
                            project_id: p,
                            time_entry_id: e,
                            change,
                        },
                    )
                },
                _ => {
                    proof {
                        if let RemoteData::Loaded(t) = m0.clients {
                            if entry_at(t, c, p, e) is Some {
                                lemma_set_entry(t, c, p, e, t[c].projects[p].time_entries[e]);
                            }
                        }
                    }
                    None
                },
            }
        },
        Msg::Start(..) | Msg::Stop(..) | Msg::TimeEntryStartedChanged(..)
        | Msg::SaveTimeEntryStarted(..) | Msg::TimeEntryStoppedChanged(..)
        | Msg::SaveTimeEntryStopped(..) | Msg::OnSecondTick => None,
    }
}

// ------ Laws of the events ------

/// The event that stages an edit of the same part of a time entry as
/// `template`, with the raw text `text`.
pub open spec fn staging_msg(
    template: TimeEntryChange,
    c: ClientId,
    p: ProjectId,
    e: TimeEntryId,
    text: String,
) -> Msg {
    match template {
        TimeEntryChange::StartedDate(_) => Msg::TimeEntryStartedDateChanged(c, p, e, text),
        TimeEntryChange::StartedTime(_) => Msg::TimeEntryStartedTimeChanged(c, p, e, text),
        TimeEntryChange::StoppedDate(_) => Msg::TimeEntryStoppedDateChanged(c, p, e, text),
        TimeEntryChange::StoppedTime(_) => Msg::TimeEntryStoppedTimeChanged(c, p, e, text),
        TimeEntryChange::Duration(_) => Msg::TimeEntryDurationChanged(c, p, e, text),
    }
}

/// The staged edit of the same part as `template`, with the raw text `text`.
pub open spec fn with_text(template: TimeEntryChange, text: String) -> TimeEntryChange {
    match template {
        TimeEntryChange::StartedDate(_) => TimeEntryChange::StartedDate(text),
        TimeEntryChange::StartedTime(_) => TimeEntryChange::StartedTime(text),
        TimeEntryChange::StoppedDate(_) => TimeEntryChange::StoppedDate(text),
        TimeEntryChange::StoppedTime(_) => TimeEntryChange::StoppedTime(text),
        TimeEntryChange::Duration(_) => TimeEntryChange::Duration(text),
    }
}

/// The path that an event addresses, for the events that address one.
pub open spec fn event_path(msg: Msg) -> Option<(ClientId, ProjectId, TimeEntryId)> {
    match msg {
        Msg::DeleteTimeEntry(c, p, e) => Some((c, p, e)),
        Msg::TimeEntryNameChanged(c, p, e, _) => Some((c, p, e)),
        Msg::SaveTimeEntryName(c, p, e) => Some((c, p, e)),
        Msg::TimeEntryStartedChanged(c, p, e, _) => Some((c, p, e)),
        Msg::SaveTimeEntryStarted(c, p, e) => Some((c, p, e)),
        Msg::TimeEntryDurationChanged(c, p, e, _) => Some((c, p, e)),
        Msg::TimeEntryStoppedChanged(c, p, e, _) => Some((c, p, e)),
        Msg::SaveTimeEntryStopped(c, p, e) => Some((c, p, e)),
        Msg::TimeEntryStartedDateChanged(c, p, e, _) => Some((c, p, e)),
        Msg::TimeEntryStartedTimeChanged(c, p, e, _) => Some((c, p, e)),
        Msg::TimeEntryStoppedDateChanged(c, p, e, _) => Some((c, p, e)),
        Msg::TimeEntryStoppedTimeChanged(c, p, e, _) => Some((c, p, e)),
        Msg::SaveTimeEntryChange(c, p, e) => Some((c, p, e)),
        _ => None,
    }
}

/// Saving the staged edit of a time entry that has none changes nothing and
/// sends nothing.
pub proof fn lemma_save_without_change(m: ModelView, c: ClientId, p: ProjectId, e: TimeEntryId, now: Timestamp)
    requires
        loaded_entry(m, c, p, e) matches Some(te) ==> te.change is None,
    ensures
        step(m, Msg::SaveTimeEntryChange(c, p, e), now) == (m, None::<Cmd>),
{
}

/// Two edits of the same part of a time entry, one after the other, leave
/// the second one's raw text staged, as if the first had not happened.
pub proof fn lemma_stage_replaces(
    m: ModelView,
    template: TimeEntryChange,
    c: ClientId,
    p: ProjectId,
    e: TimeEntryId,
    first: String,
    second: String,
    now: Timestamp,
)
    ensures
        step(step(m, staging_msg(template, c, p, e, first), now).0, staging_msg(template, c, p, e, second), now)
            == step(m, staging_msg(template, c, p, e, second), now),
        loaded_entry(m, c, p, e) is Some ==> loaded_entry(
            step(m, staging_msg(template, c, p, e, second), now).0,
            c,
            p,
            e,
        )->Some_0.change == Some(with_text(template, second)),
{
    if let RemoteData::Loaded(t) = m.clients {
        if let Some(te) = entry_at(t, c, p, e) {
            let a = TimeEntry { change: Some(with_text(template, first)), ..te };
            let b = TimeEntry { change: Some(with_text(template, second)), ..te };
            lemma_set_entry(t, c, p, e, a);
            lemma_set_entry(t, c, p, e, b);
            lemma_set_entry_twice(t, c, p, e, a, b);
            let ta = with_entry(t, c, p, e, a);
            assert(entry_at(ta, c, p, e) == Some(a));
            let b2 = TimeEntry { change: Some(with_text(template, second)), ..a };
            assert(b2 == b);
        }
    }
}

/// An event addressed at a client that is not in the tree, or at a tree that
/// has not loaded, changes nothing and sends nothing.
pub proof fn lemma_missing_client(m: ModelView, msg: Msg, now: Timestamp)
    requires
        event_path(msg) is Some,
        m.clients matches RemoteData::Loaded(t) ==> !t.contains_key(event_path(msg)->Some_0.0),
    ensures
        step(m, msg, now) == (m, None::<Cmd>),
{
}

/// Mapping is deterministic: two trees that each map the same fetched
/// result are the same tree, entry for entry.
pub proof fn lemma_mapping_deterministic(
    q: query::Query,
    a: BTreeMap<ClientId, Client>,
    b: BTreeMap<ClientId, Client>,
)
    requires
        clients_of(q) == Ok::<_, MapError>(tree_view(a@)),
        clients_of(q) == Ok::<_, MapError>(tree_view(b@)),
    ensures
        tree_view(a@) == tree_view(b@),
{
}

} // verus!
