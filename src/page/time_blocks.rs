//! The time blocks page: clients with their time blocks and invoices, and
//! the time tracked for each client over all its projects' time entries.
use vstd::prelude::*;
use std::collections::BTreeMap;
use crate::changes_status::ChangesStatus;
use crate::graphql::GraphQLError;
use crate::graphql::clients_with_time_blocks_and_time_entries as query;
use crate::ids::{Id, parse_id, ulid_value};
use crate::page::{MapError, collect, lemma_collect_all, lemma_collect_err, lemma_collect_step};
use crate::remote_data::RemoteData;
use crate::time::{Span, Timestamp, parse_timestamp, timestamp_value, total, totals_fit, tracked_total};

verus! {

pub type ClientId = Id;

pub type InvoiceId = Id;

pub type TimeBlockId = Id;

pub struct Client {
    pub name: String,
    pub time_blocks: BTreeMap<TimeBlockId, TimeBlock>,
    /// Seconds tracked over all time entries of the client's projects, as of
    /// the instant the client was mapped.
    pub tracked_seconds: i64,
}

pub struct TimeBlock {
    pub name: String,
    pub status: TimeBlockStatus,
    /// Seconds.
    pub duration: i64,
    /// Raw text of an uncommitted edit of the duration.
    pub duration_change: Option<String>,
    pub invoice: Option<Invoice>,
}

#[derive(Clone, Copy, Debug, PartialEq, Eq)]
pub enum TimeBlockStatus {
    NonBillable,
    Unpaid,
    Paid,
}

pub struct Invoice {
    pub id: InvoiceId,
    pub custom_id: Option<String>,
    pub url: Option<String>,
}

pub struct ClientView {
    pub name: String,
    pub time_blocks: Map<TimeBlockId, TimeBlock>,
    pub tracked_seconds: i64,
}

impl View for Client {
    type V = ClientView;

    open spec fn view(&self) -> ClientView {
        ClientView { name: self.name, time_blocks: self.time_blocks@, tracked_seconds: self.tracked_seconds }
    }
}

/// The tree of clients as nested maps.
pub open spec fn tree_view(clients: Map<ClientId, Client>) -> Map<ClientId, ClientView> {
    clients.map_values(|c: Client| c@)
}

/// The time block at the end of a path, if every step of the path exists.
pub open spec fn block_at(t: Map<ClientId, ClientView>, c: ClientId, b: TimeBlockId) -> Option<
    TimeBlock,
> {
    if t.contains_key(c) && t[c].time_blocks.contains_key(b) {
        Some(t[c].time_blocks[b])
    } else {
        None
    }
}

pub open spec fn with_blocks(
    t: Map<ClientId, ClientView>,
    c: ClientId,
    blocks: Map<TimeBlockId, TimeBlock>,
) -> Map<ClientId, ClientView> {
    t.insert(c, ClientView { time_blocks: blocks, ..t[c] })
}

/// The tree with the time block at a path set to `tb`.
pub open spec fn with_block(
    t: Map<ClientId, ClientView>,
    c: ClientId,
    b: TimeBlockId,
    tb: TimeBlock,
) -> Map<ClientId, ClientView> {
    with_blocks(t, c, t[c].time_blocks.insert(b, tb))
}

/// The tree without the time block at a path.
pub open spec fn without_block(t: Map<ClientId, ClientView>, c: ClientId, b: TimeBlockId) -> Map<
    ClientId,
    ClientView,
> {
    with_blocks(t, c, t[c].time_blocks.remove(b))
}

/// Removes the time block at a path and hands it out; where a step of the
/// path is missing, nothing changes.
pub fn take_time_block(clients: &mut BTreeMap<ClientId, Client>, c: ClientId, b: TimeBlockId) -> (r:
    Option<TimeBlock>)
    ensures
        r == block_at(tree_view(old(clients)@), c, b),
        tree_view(final(clients)@) == if r is Some {
            without_block(tree_view(old(clients)@), c, b)
        } else {
            tree_view(old(clients)@)
        },
{
    let ghost t = tree_view(clients@);
    let mut client = match clients.remove(&c) {
        Some(client) => client,
        None => {
            return None;
        },
    };
    assert(t[c] == client@);
    let ghost old_client = client@;
    let r = client.time_blocks.remove(&b);
    proof {
        if r is None {
            assert(client.time_blocks@ =~= old_client.time_blocks);
        }
    }
    clients.insert(c, client);
    proof {
        if r is Some {
            assert(tree_view(clients@) =~= without_block(t, c, b));
        } else {
            assert(client@ == old_client);
            assert(tree_view(clients@) =~= t);
        }
    }
    r
}

/// Sets the time block at a path whose client exists.
pub fn put_time_block(
    clients: &mut BTreeMap<ClientId, Client>,
    c: ClientId,
    b: TimeBlockId,
    tb: TimeBlock,
)
    requires
        tree_view(old(clients)@).contains_key(c),
    ensures
        tree_view(final(clients)@) == with_block(tree_view(old(clients)@), c, b, tb),
{
    let ghost t = tree_view(clients@);
    let mut client = clients.remove(&c).unwrap();
    assert(t[c] == client@);
    client.time_blocks.insert(b, tb);
    clients.insert(c, client);
    assert(tree_view(clients@) =~= with_block(t, c, b, tb));
}

/// Finds the time block at a path; a missing step gives `None`.
pub fn find_time_block<'a>(
    clients: &'a BTreeMap<ClientId, Client>,
    c: ClientId,
    b: TimeBlockId,
) -> (r: Option<&'a TimeBlock>)
    ensures
        match r {
            Some(tb) => block_at(tree_view(clients@), c, b) == Some(*tb),
            None => block_at(tree_view(clients@), c, b) is None,
        },
{
    match clients.get(&c) {
        None => None,
        Some(client) => client.time_blocks.get(&b),
    }
}

/// Setting a block that was taken out is setting it in place; setting a
/// block to what it already is changes nothing.
pub proof fn lemma_set_block(t: Map<ClientId, ClientView>, c: ClientId, b: TimeBlockId, tb: TimeBlock)
    requires
        block_at(t, c, b) is Some,
    ensures
        without_block(t, c, b).contains_key(c),
        with_block(without_block(t, c, b), c, b, tb) == with_block(t, c, b, tb),
        with_block(t, c, b, t[c].time_blocks[b]) == t,
        block_at(with_block(t, c, b, tb), c, b) == Some(tb),
{
    let w = without_block(t, c, b);
    assert(w[c].time_blocks.insert(b, tb) =~= t[c].time_blocks.insert(b, tb));
    assert(with_block(w, c, b, tb) =~= with_block(t, c, b, tb));
    let same = t[c].time_blocks[b];
    assert(t[c].time_blocks.insert(b, same) =~= t[c].time_blocks);
    assert(with_block(t, c, b, same) =~= t);
}

/// Setting the same block twice keeps the second value only.
pub proof fn lemma_set_block_twice(
    t: Map<ClientId, ClientView>,
    c: ClientId,
    b: TimeBlockId,
    x: TimeBlock,
    y: TimeBlock,
)
    requires
        block_at(t, c, b) is Some,
    ensures
        with_block(with_block(t, c, b, x), c, b, y) == with_block(t, c, b, y),
{
    let tx = with_block(t, c, b, x);
    assert(tx[c].time_blocks.insert(b, y) =~= t[c].time_blocks.insert(b, y));
    assert(with_block(tx, c, b, y) =~= with_block(t, c, b, y));
}

// ------ Status on the wire ------

pub open spec fn status_of(s: query::TimeBlockStatus) -> TimeBlockStatus {
    match s {
        query::TimeBlockStatus::NonBillable => TimeBlockStatus::NonBillable,
        query::TimeBlockStatus::Unpaid => TimeBlockStatus::Unpaid,
        query::TimeBlockStatus::Paid => TimeBlockStatus::Paid,
    }
}

pub open spec fn remote_status_of(s: TimeBlockStatus) -> query::TimeBlockStatus {
    match s {
        TimeBlockStatus::NonBillable => query::TimeBlockStatus::NonBillable,
        TimeBlockStatus::Unpaid => query::TimeBlockStatus::Unpaid,
        TimeBlockStatus::Paid => query::TimeBlockStatus::Paid,
    }
}

/// The status that a fetched status stands for.
pub fn status_from_remote(s: query::TimeBlockStatus) -> (r: TimeBlockStatus)
    ensures
        r == status_of(s),
{
    match s {
        query::TimeBlockStatus::NonBillable => TimeBlockStatus::NonBillable,
        query::TimeBlockStatus::Unpaid => TimeBlockStatus::Unpaid,
        query::TimeBlockStatus::Paid => TimeBlockStatus::Paid,
    }
}

/// The status as the remote store writes it.
pub fn status_to_remote(s: TimeBlockStatus) -> (r: query::TimeBlockStatus)
    ensures
        r == remote_status_of(s),
{
    match s {
        TimeBlockStatus::NonBillable => query::TimeBlockStatus::NonBillable,
        TimeBlockStatus::Unpaid => query::TimeBlockStatus::Unpaid,
        TimeBlockStatus::Paid => query::TimeBlockStatus::Paid,
    }
}

/// Each status maps to its remote form and back without loss, both ways.
pub proof fn lemma_status_round_trip(s: TimeBlockStatus, r: query::TimeBlockStatus)
    ensures
        status_of(remote_status_of(s)) == s,
        remote_status_of(status_of(r)) == r,
{
}

// ------ Mapping a fetched result ------

pub open spec fn invoice_of(i: query::Invoice) -> Result<Invoice, MapError> {
    match ulid_value(i.id@) {
        None => Err(MapError::InvalidId),
        Some(id) => Ok(Invoice { id, custom_id: i.custom_id, url: i.url }),
    }
}

/// A fetched time block as a keyed entry of the model, with no staged edit.
pub open spec fn time_block_of(b: query::TimeBlock) -> Result<
    Option<(TimeBlockId, TimeBlock)>,
    MapError,
> {
    match ulid_value(b.id@) {
        None => Err(MapError::InvalidId),
        Some(id) => {
            let invoice: Result<Option<Invoice>, MapError> = match b.invoice {
                None => Ok(None),
                Some(i) => match invoice_of(i) {
                    Err(e) => Err(e),
                    Ok(v) => Ok(Some(v)),
                },
            };
            match invoice {
                Err(e) => Err(e),
                Ok(invoice) => Ok(
                    Some(
                        (
                            id,
                            TimeBlock {
                                name: b.name,
                                status: status_of(b.status),
                                duration: b.duration as i64,
                                duration_change: None,
                                invoice,
                            },
                        ),
                    ),
                ),
            }
        },
    }
}

pub open spec fn time_block_fn() -> spec_fn(query::TimeBlock) -> Result<
    Option<(TimeBlockId, TimeBlock)>,
    MapError,
> {
    |b: query::TimeBlock| time_block_of(b)
}

/// Concatenates the spans that each item gives, in order; an error ends it.
pub open spec fn gather<T>(s: Seq<T>, f: spec_fn(T) -> Result<Seq<Span>, MapError>) -> Result<
    Seq<Span>,
    MapError,
>
    decreases s.len(),
{
    if s.len() == 0 {
        Ok(Seq::empty())
    } else {
        match gather(s.drop_last(), f) {
            Err(e) => Err(e),
            Ok(a) => match f(s.last()) {
                Err(e) => Err(e),
                Ok(b) => Ok(a + b),
            },
        }
    }
}

proof fn lemma_gather_step<T>(s: Seq<T>, f: spec_fn(T) -> Result<Seq<Span>, MapError>, i: int)
    requires
        0 <= i < s.len(),
    ensures
        gather(s.take(i + 1), f) == match gather(s.take(i), f) {
            Err(e) => Err(e),
            Ok(a) => match f(s[i]) {
                Err(e) => Err(e),
                Ok(b) => Ok(a + b),
            },
        },
{
    assert(s.take(i + 1).drop_last() =~= s.take(i));
}

proof fn lemma_gather_err<T>(s: Seq<T>, f: spec_fn(T) -> Result<Seq<Span>, MapError>, j: int)
    requires
        0 <= j <= s.len(),
        gather(s.take(j), f) is Err,
    ensures
        gather(s, f) == gather(s.take(j), f),
    decreases s.len() - j,
{
    if j == s.len() {
        assert(s.take(j) =~= s);
    } else {
        lemma_gather_step(s, f, j);
        lemma_gather_err(s, f, j + 1);
    }
}

/// The span of a fetched time entry.
pub open spec fn span_of(e: query::TimeEntry) -> Result<Seq<Span>, MapError> {
    match timestamp_value(e.started.0@) {
        None => Err(MapError::InvalidTimestamp),
        Some(started) => match e.stopped {
            None => Ok(seq![Span { started, stopped: None }]),
            Some(t) => match timestamp_value(t.0@) {
                None => Err(MapError::InvalidTimestamp),
                Some(stopped) => Ok(seq![Span { started, stopped: Some(stopped) }]),
            },
        },
    }
}

pub open spec fn span_fn() -> spec_fn(query::TimeEntry) -> Result<Seq<Span>, MapError> {
    |e: query::TimeEntry| span_of(e)
}

pub open spec fn project_spans_fn() -> spec_fn(query::Project) -> Result<Seq<Span>, MapError> {
    |p: query::Project| gather(p.time_entries@, span_fn())
}

/// The seconds tracked over all time entries of all projects as of `now`.
pub open spec fn tracked_of(projects: Seq<query::Project>, now: Timestamp) -> Result<i64, MapError> {
    match gather(projects, project_spans_fn()) {
        Err(e) => Err(e),
        Ok(spans) => if totals_fit(spans, now) {
            Ok(total(spans, now) as i64)
        } else {
            Err(MapError::TrackedOverflow)
        },
    }
}

/// A fetched client with its time blocks and the time tracked for it as of
/// `now`; an absent client is skipped.
pub open spec fn client_of(c: Option<query::Client>, now: Timestamp) -> Result<
    Option<(ClientId, ClientView)>,
    MapError,
> {
    match c {
        None => Ok(None),
        Some(c) => match ulid_value(c.id@) {
            None => Err(MapError::InvalidId),
            Some(id) => match collect(c.time_blocks@, time_block_fn()) {
                Err(e) => Err(e),
                Ok(time_blocks) => match tracked_of(c.projects@, now) {
                    Err(e) => Err(e),
                    Ok(tracked_seconds) => Ok(
                        Some((id, ClientView { name: c.name, time_blocks, tracked_seconds })),
                    ),
                },
            },
        },
    }
}

pub open spec fn client_fn(now: Timestamp) -> spec_fn(Option<query::Client>) -> Result<
    Option<(ClientId, ClientView)>,
    MapError,
> {
    |c: Option<query::Client>| client_of(c, now)
}

/// The tree of a fetched result as of `now`: every identifier and instant
/// must parse, and every tracked time fit, or the whole result is refused.
pub open spec fn clients_of(q: query::Query, now: Timestamp) -> Result<
    Map<ClientId, ClientView>,
    MapError,
> {
    match q.query_client {
        None => Err(MapError::MissingClients),
        Some(clients) => collect(clients@, client_fn(now)),
    }
}

fn map_time_block(b: query::TimeBlock) -> (r: Result<(TimeBlockId, TimeBlock), MapError>)
    ensures
        r matches Ok(x) ==> time_block_of(b) == Ok::<_, MapError>(Some(x)),
        r matches Err(x) ==> time_block_of(b) == Err::<Option<(TimeBlockId, TimeBlock)>, _>(x),
{
    let id = match parse_id(b.id.as_str()) {
        None => {
            return Err(MapError::InvalidId);
        },
        Some(id) => id,
    };
    let invoice = match b.invoice {
        None => None,
        Some(i) => match parse_id(i.id.as_str()) {
            None => {
                return Err(MapError::InvalidId);
            },
            Some(invoice_id) => Some(Invoice { id: invoice_id, custom_id: i.custom_id, url: i.url }),
        },
    };
    Ok(
        (
            id,
            TimeBlock {
                name: b.name,
                status: status_from_remote(b.status),
                duration: b.duration as i64,
                duration_change: None,
                invoice,
            },
        ),
    )
}

fn map_time_blocks(blocks: Vec<query::TimeBlock>) -> (r: Result<
    BTreeMap<TimeBlockId, TimeBlock>,
    MapError,
>)
    ensures
        r matches Ok(m) ==> collect(blocks@, time_block_fn()) == Ok::<_, MapError>(m@),
        r matches Err(x) ==> collect(blocks@, time_block_fn()) == Err::<
            Map<TimeBlockId, TimeBlock>,
            _,
        >(x),
{
    let ghost s = blocks@;
    let mut rest = blocks;
    let mut out: BTreeMap<TimeBlockId, TimeBlock> = BTreeMap::new();
    let ghost mut i: int = 0;
    assert(s.take(0) =~= Seq::<query::TimeBlock>::empty());
    while rest.len() > 0
        invariant
            s == blocks@,
            0 <= i <= s.len(),
            rest@ == s.skip(i),
            collect(s.take(i), time_block_fn()) == Ok::<_, MapError>(out@),
        decreases rest.len(),
    {
        let b = rest.remove(0);
        proof {
            assert(s[i] == b);
            lemma_collect_step(s, time_block_fn(), i);
        }
        match map_time_block(b) {
            Err(err) => {
                proof {
                    lemma_collect_err(s, time_block_fn(), i + 1);
                }
                return Err(err);
            },
            Ok((k, v)) => {
                out.insert(k, v);
            },
        }
        proof {
            i = i + 1;
            assert(rest@ =~= s.skip(i));
        }
    }
    proof {
        lemma_collect_all(s, time_block_fn());
    }
    Ok(out)
}

fn map_span(e: query::TimeEntry) -> (r: Result<Span, MapError>)
    ensures
        r matches Ok(x) ==> span_of(e) == Ok::<_, MapError>(seq![x]),
        r matches Err(x) ==> span_of(e) == Err::<Seq<Span>, _>(x),
{
    let started = match parse_timestamp(e.started.0.as_str()) {
        None => {
            return Err(MapError::InvalidTimestamp);
        },
        Some(v) => v,
    };
    let stopped = match e.stopped {
        None => None,
        Some(t) => match parse_timestamp(t.0.as_str()) {
            None => {
                return Err(MapError::InvalidTimestamp);
            },
            Some(v) => Some(v),
        },
    };
    Ok(Span { started, stopped })
}

/// Appends the spans of the time entries to `out`.
fn push_spans(entries: Vec<query::TimeEntry>, out: &mut Vec<Span>) -> (r: Result<(), MapError>)
    ensures
        match gather(entries@, span_fn()) {
            Ok(spans) => r is Ok && final(out)@ == old(out)@ + spans,
            Err(x) => r == Err::<(), _>(x),
        },
{
    let ghost s = entries@;
    let ghost o = out@;
    let mut rest = entries;
    let ghost mut i: int = 0;
    assert(s.take(0) =~= Seq::<query::TimeEntry>::empty());
    assert(out@ =~= o + Seq::<Span>::empty());
    while rest.len() > 0
        invariant
            s == entries@,
            o == old(out)@,
            0 <= i <= s.len(),
            rest@ == s.skip(i),
            gather(s.take(i), span_fn()) matches Ok(g) && out@ == o + g,
        decreases rest.len(),
    {
        let e = rest.remove(0);
        proof {
            assert(s[i] == e);
            lemma_gather_step(s, span_fn(), i);
        }
        let ghost before = out@;
        match map_span(e) {
            Err(err) => {
                proof {
                    lemma_gather_err(s, span_fn(), i + 1);
                }
                return Err(err);
            },
            Ok(span) => {
                out.push(span);
                proof {
                    let g = gather(s.take(i), span_fn())->Ok_0;
                    assert(out@ =~= o + (g + seq![span]));
                }
            },
        }
        proof {
            i = i + 1;
            assert(rest@ =~= s.skip(i));
        }
    }
    assert(s.take(s.len() as int) =~= s);
    Ok(())
}

/// The spans of all time entries of all projects, in order.
fn project_spans(projects: Vec<query::Project>) -> (r: Result<Vec<Span>, MapError>)
    ensures
        r matches Ok(v) ==> gather(projects@, project_spans_fn()) == Ok::<_, MapError>(v@),
        r matches Err(x) ==> gather(projects@, project_spans_fn()) == Err::<Seq<Span>, _>(x),
{
    let ghost s = projects@;
    let mut rest = projects;
    let mut out: Vec<Span> = Vec::new();
    let ghost mut i: int = 0;
    assert(s.take(0) =~= Seq::<query::Project>::empty());
    while rest.len() > 0
        invariant
            s == projects@,
            0 <= i <= s.len(),
            rest@ == s.skip(i),
            gather(s.take(i), project_spans_fn()) == Ok::<_, MapError>(out@),
        decreases rest.len(),
    {
        let p = rest.remove(0);
        proof {
            assert(s[i] == p);
            lemma_gather_step(s, project_spans_fn(), i);
        }
        match push_spans(p.time_entries, &mut out) {
            Err(err) => {
                proof {
                    lemma_gather_err(s, project_spans_fn(), i + 1);
                }
                return Err(err);
            },
            Ok(()) => {},
        }
        proof {
            i = i + 1;
            assert(rest@ =~= s.skip(i));
        }
    }
    assert(s.take(s.len() as int) =~= s);
    Ok(out)
}

/// The seconds tracked over all time entries of the projects as of `now`:
/// a running entry counts up to `now`.
pub fn map_tracked(projects: Vec<query::Project>, now: Timestamp) -> (r: Result<i64, MapError>)
    ensures
        r == tracked_of(projects@, now),
{
    let spans = match project_spans(projects) {
        Err(e) => {
            return Err(e);
        },
        Ok(v) => v,
    };
    match tracked_total(&spans, now) {
        None => Err(MapError::TrackedOverflow),
        Some(t) => Ok(t),
    }
}

fn map_client(c: Option<query::Client>, now: Timestamp) -> (r: Result<
    Option<(ClientId, Client)>,
    MapError,
>)
    ensures
        r matches Ok(Some(x)) ==> client_of(c, now) == Ok::<_, MapError>(Some((x.0, x.1@))),
        r matches Ok(None) ==> client_of(c, now) == Ok::<Option<(ClientId, ClientView)>, MapError>(
            None,
        ),
        r matches Err(x) ==> client_of(c, now) == Err::<Option<(ClientId, ClientView)>, _>(x),
{
    let c = match c {
        None => {
            return Ok(None);
        },
        Some(c) => c,
    };
    let id = match parse_id(c.id.as_str()) {
        None => {
            return Err(MapError::InvalidId);
        },
        Some(id) => id,
    };
    let time_blocks = match map_time_blocks(c.time_blocks) {
        Err(err) => {
            return Err(err);
        },
        Ok(m) => m,
    };
    let tracked_seconds = match map_tracked(c.projects, now) {
        Err(err) => {
            return Err(err);
        },
        Ok(t) => t,
    };
    Ok(Some((id, Client { name: c.name, time_blocks, tracked_seconds })))
}

/// Maps a fetched result into the tree of clients as of `now`. The tree is
/// the one determined by the result and `now`: any identifier that is not a
/// ULID, instant that is not RFC 3339 text, or tracked time out of range
/// refuses the whole result, and absent clients are skipped.
pub fn map_clients(q: query::Query, now: Timestamp) -> (r: Result<
    BTreeMap<ClientId, Client>,
    MapError,
>)
    ensures
        r matches Ok(m) ==> clients_of(q, now) == Ok::<_, MapError>(tree_view(m@)),
        r matches Err(x) ==> clients_of(q, now) == Err::<Map<ClientId, ClientView>, _>(x),
{
    let clients = match q.query_client {
        None => {
            return Err(MapError::MissingClients);
        },
        Some(v) => v,
    };
    let ghost s = clients@;
    let mut rest = clients;
    let mut out: BTreeMap<ClientId, Client> = BTreeMap::new();
    let ghost mut i: int = 0;
    assert(s.take(0) =~= Seq::<Option<query::Client>>::empty());
    assert(tree_view(out@) =~= Map::empty());
    while rest.len() > 0
        invariant
            q.query_client == Some(clients),
            s == clients@,
            0 <= i <= s.len(),
            rest@ == s.skip(i),
            collect(s.take(i), client_fn(now)) == Ok::<_, MapError>(tree_view(out@)),
        decreases rest.len(),
    {
        let c = rest.remove(0);
        proof {
            assert(s[i] == c);
            lemma_collect_step(s, client_fn(now), i);
        }
        match map_client(c, now) {
            Err(err) => {
                proof {
                    lemma_collect_err(s, client_fn(now), i + 1);
                }
                return Err(err);
            },
            Ok(None) => {},
            Ok(Some((k, v))) => {
                let ghost before = out@;
                out.insert(k, v);
                assert(tree_view(out@) =~= tree_view(before).insert(k, v@));
            },
        }
        proof {
            i = i + 1;
            assert(rest@ =~= s.skip(i));
        }
    }
    proof {
        lemma_collect_all(s, client_fn(now));
    }
    Ok(out)
}

// ------ Model ------

pub struct Model {
    pub changes_status: ChangesStatus,
    pub errors: Vec<GraphQLError>,
    pub clients: RemoteData<BTreeMap<ClientId, Client>>,
}

pub struct ModelView {
    pub changes_status: ChangesStatus,
    pub errors: Seq<GraphQLError>,
    pub clients: RemoteData<Map<ClientId, ClientView>>,
}

impl View for Model {
    type V = ModelView;

    open spec fn view(&self) -> ModelView {
        ModelView {
            changes_status: self.changes_status,
            errors: self.errors@,
            clients: match self.clients {
                RemoteData::NotAsked => RemoteData::NotAsked,
                RemoteData::Loading => RemoteData::Loading,
                RemoteData::Loaded(m) => RemoteData::Loaded(tree_view(m@)),
            },
        }
    }
}

pub enum Msg {
    ClientsFetched(Result<BTreeMap<ClientId, Client>, GraphQLError>),
    ChangesSaved(Option<GraphQLError>),
    ClearErrors,
    AddTimeBlock(ClientId),
    DeleteTimeBlock(ClientId, TimeBlockId),
    SetTimeBlockStatus(ClientId, TimeBlockId, TimeBlockStatus),
    TimeBlockNameChanged(ClientId, TimeBlockId, String),
    SaveTimeBlockName(ClientId, TimeBlockId),
    TimeBlockDurationChanged(ClientId, TimeBlockId, String),
    SaveTimeBlockDuration(ClientId, TimeBlockId),
    AttachInvoice(ClientId, TimeBlockId),
    DeleteInvoice(ClientId, TimeBlockId),
    InvoiceCustomIdChanged(ClientId, TimeBlockId, String),
    SaveInvoiceCustomId(ClientId, TimeBlockId),
    InvoiceUrlChanged(ClientId, TimeBlockId, String),
    SaveInvoiceUrl(ClientId, TimeBlockId),
}

/// Follow-up work that an event asks for; its completion comes back as a
/// new event.
#[derive(Debug, PartialEq, Eq)]
pub enum Cmd {
    FetchClients,
    DeleteTimeBlock { client_id: ClientId, time_block_id: TimeBlockId },
    SaveTimeBlockStatus { client_id: ClientId, time_block_id: TimeBlockId, status: TimeBlockStatus },
    SaveTimeBlockName { client_id: ClientId, time_block_id: TimeBlockId, name: String },
    SaveTimeBlockDuration { client_id: ClientId, time_block_id: TimeBlockId, duration: String },
    DeleteInvoice { client_id: ClientId, time_block_id: TimeBlockId, invoice_id: InvoiceId },
    SaveInvoiceCustomId {
        client_id: ClientId,
        time_block_id: TimeBlockId,
        custom_id: Option<String>,
    },
    SaveInvoiceUrl { client_id: ClientId, time_block_id: TimeBlockId, url: Option<String> },
}

/// The time block at a path of a loaded tree.
pub open spec fn loaded_block(m: ModelView, c: ClientId, b: TimeBlockId) -> Option<TimeBlock> {
    match m.clients {
        RemoteData::Loaded(t) => block_at(t, c, b),
        _ => None,
    }
}

/// The model with the time block at a path replaced, where it exists.
pub open spec fn set_block(m: ModelView, c: ClientId, b: TimeBlockId, tb: TimeBlock) -> ModelView {
    match m.clients {
        RemoteData::Loaded(t) => if block_at(t, c, b) is Some {
            ModelView { clients: RemoteData::Loaded(with_block(t, c, b, tb)), ..m }
        } else {
            m
        },
        _ => m,
    }
}

/// The model, with one more request in flight, and the request.
pub open spec fn send(m: ModelView, cmd: Cmd) -> (ModelView, Option<Cmd>) {
    (ModelView { changes_status: m.changes_status.started(), ..m }, Some(cmd))
}

/// What one event does to the model, and the follow-up work it asks for.
/// Events addressed at a path with a missing step change nothing.
pub open spec fn step(m: ModelView, msg: Msg, now: Timestamp) -> (ModelView, Option<Cmd>) {
    match msg {
        Msg::ClientsFetched(Ok(clients)) => (
            ModelView { clients: RemoteData::Loaded(tree_view(clients@)), ..m },
            None,
        ),
        Msg::ClientsFetched(Err(err)) => (ModelView { errors: m.errors.push(err), ..m }, None),
        Msg::ChangesSaved(result) => (
            ModelView {
                changes_status: m.changes_status.finished(now),
                errors: match result {
                    Some(err) => m.errors.push(err),
                    None => m.errors,
                },
                ..m
            },
            None,
        ),
        Msg::ClearErrors => (ModelView { errors: Seq::empty(), ..m }, None),
        Msg::DeleteTimeBlock(c, b) => match m.clients {
            RemoteData::Loaded(t) => if block_at(t, c, b) is Some {
                send(
                    ModelView { clients: RemoteData::Loaded(without_block(t, c, b)), ..m },
                    Cmd::DeleteTimeBlock { client_id: c, time_block_id: b },
                )
            } else {
                (m, None)
            },
            _ => (m, None),
        },
        Msg::SetTimeBlockStatus(c, b, status) => match loaded_block(m, c, b) {
            Some(tb) => send(
                set_block(m, c, b, TimeBlock { status, ..tb }),
                Cmd::SaveTimeBlockStatus { client_id: c, time_block_id: b, status },
            ),
            None => (m, None),
        },
        Msg::TimeBlockNameChanged(c, b, name) => match loaded_block(m, c, b) {
            Some(tb) => (set_block(m, c, b, TimeBlock { name, ..tb }), None),
            None => (m, None),
        },
        Msg::SaveTimeBlockName(c, b) => match loaded_block(m, c, b) {
            Some(tb) => send(m, Cmd::SaveTimeBlockName { client_id: c, time_block_id: b, name: tb.name }),
            None => (m, None),
        },
        Msg::TimeBlockDurationChanged(c, b, text) => match loaded_block(m, c, b) {
            Some(tb) => (set_block(m, c, b, TimeBlock { duration_change: Some(text), ..tb }), None),
            None => (m, None),
        },
        Msg::SaveTimeBlockDuration(c, b) => match loaded_block(m, c, b) {
            Some(tb) => match tb.duration_change {
                Some(text) => send(
                    set_block(m, c, b, TimeBlock { duration_change: None, ..tb }),
                    Cmd::SaveTimeBlockDuration { client_id: c, time_block_id: b, duration: text },
                ),
                None => (m, None),
            },
            None => (m, None),
        },
        Msg::DeleteInvoice(c, b) => match loaded_block(m, c, b) {
            Some(tb) => match tb.invoice {
                Some(invoice) => send(
                    set_block(m, c, b, TimeBlock { invoice: None, ..tb }),
                    Cmd::DeleteInvoice { client_id: c, time_block_id: b, invoice_id: invoice.id },
                ),
                None => (m, None),
            },
            None => (m, None),
        },
        Msg::InvoiceCustomIdChanged(c, b, text) => match loaded_block(m, c, b) {
            Some(tb) => match tb.invoice {
                Some(invoice) => (
                    set_block(
                        m,
                        c,
                        b,
                        TimeBlock { invoice: Some(Invoice { custom_id: Some(text), ..invoice }), ..tb },
                    ),
                    None,
                ),
                None => (m, None),
            },
            None => (m, None),
        },
        Msg::SaveInvoiceCustomId(c, b) => match loaded_block(m, c, b) {
            Some(tb) => match tb.invoice {
                Some(invoice) => send(
                    m,
                    Cmd::SaveInvoiceCustomId {
                        client_id: c,
                        time_block_id: b,
                        custom_id: invoice.custom_id,
                    },
                ),
                None => (m, None),
            },
            None => (m, None),
        },
        Msg::InvoiceUrlChanged(c, b, text) => match loaded_block(m, c, b) {
            Some(tb) => match tb.invoice {
                Some(invoice) => (
                    set_block(
                        m,
                        c,
                        b,
                        TimeBlock { invoice: Some(Invoice { url: Some(text), ..invoice }), ..tb },
                    ),
                    None,
                ),
                None => (m, None),
            },
            None => (m, None),
        },
        Msg::SaveInvoiceUrl(c, b) => match loaded_block(m, c, b) {
            Some(tb) => match tb.invoice {
                Some(invoice) => send(
                    m,
                    Cmd::SaveInvoiceUrl { client_id: c, time_block_id: b, url: invoice.url },
                ),
                None => (m, None),
            },
            None => (m, None),
        },
        Msg::AddTimeBlock(_) | Msg::AttachInvoice(..) => (m, None),
    }
}

/// A new page: nothing saved, no errors, and the clients awaited from the
/// fetch that it asks for.
pub fn init() -> (r: (Model, Cmd))
    ensures
        r.0@ == (ModelView {
            changes_status: ChangesStatus::NoChanges,
            errors: Seq::empty(),
            clients: RemoteData::Loading,
        }),
        r.1 == Cmd::FetchClients,
{
    (
        Model {
            changes_status: ChangesStatus::NoChanges,
            errors: Vec::new(),
            clients: RemoteData::Loading,
        },
        Cmd::FetchClients,
    )
}

fn copy_text(s: &Option<String>) -> (r: Option<String>)
    ensures
        r == *s,
{
    match s {
        Some(t) => Some(t.clone()),
        None => None,
    }
}

/// Applies one event to the model and gives the follow-up work it asks for.
pub fn update(msg: Msg, model: &mut Model, now: Timestamp) -> (r: Option<Cmd>)
    requires
        old(model).changes_status.wf(),
        old(model).changes_status.in_flight() < usize::MAX,
    ensures
        (final(model)@, r) == step(old(model)@, msg, now),
        final(model).changes_status.wf(),
{
    let ghost m0 = model@;
    match msg {
        Msg::ClientsFetched(Ok(clients)) => {
            model.clients = RemoteData::Loaded(clients);
            None
        },
        Msg::ClientsFetched(Err(err)) => {
            model.errors.push(err);
            None
        },
        Msg::ChangesSaved(result) => {
            if let Some(err) = result {
                model.errors.push(err);
            }
            model.changes_status.request_finished(now);
            None
        },
        Msg::ClearErrors => {
            model.errors.clear();
            None
        },
        Msg::DeleteTimeBlock(c, b) => {
            if let Some(clients) = model.clients.loaded_mut() {
                if let Some(_) = take_time_block(clients, c, b) {
                    model.changes_status.request_started();
                    return Some(Cmd::DeleteTimeBlock { client_id: c, time_block_id: b });
                }
            }
            None
        },
        Msg::SaveTimeBlockName(c, b) => {
            let name = match model.clients.loaded() {
                Some(clients) => match find_time_block(clients, c, b) {
                    Some(tb) => Some(tb.name.clone()),
                    None => None,
                },
                None => None,
            };
            match name {
                Some(name) => {
                    model.changes_status.request_started();
                    Some(Cmd::SaveTimeBlockName { client_id: c, time_block_id: b, name })
                },
                None => None,
            }
        },
        Msg::SaveInvoiceCustomId(c, b) => {
            let custom_id = match model.clients.loaded() {
                Some(clients) => match find_time_block(clients, c, b) {
                    Some(tb) => match &tb.invoice {
                        Some(invoice) => Some(copy_text(&invoice.custom_id)),
                        None => None,
                    },
                    None => None,
                },
                None => None,
            };
            match custom_id {
                Some(custom_id) => {
                    model.changes_status.request_started();
                    Some(Cmd::SaveInvoiceCustomId { client_id: c, time_block_id: b, custom_id })
                },
                None => None,
            }
        },
        Msg::SaveInvoiceUrl(c, b) => {
            let url = match model.clients.loaded() {
                Some(clients) => match find_time_block(clients, c, b) {
                    Some(tb) => match &tb.invoice {
                        Some(invoice) => Some(copy_text(&invoice.url)),
                        None => None,
                    },
                    None => None,
                },
                None => None,
            };
            match url {
                Some(url) => {
                    model.changes_status.request_started();
                    Some(Cmd::SaveInvoiceUrl { client_id: c, time_block_id: b, url })
                },
                None => None,
            }
        },
        Msg::AddTimeBlock(_) | Msg::AttachInvoice(..) => None,
        msg => edit_time_block(msg, model),
    }
}

/// The events that edit one time block in place.
fn edit_time_block(msg: Msg, model: &mut Model) -> (r: Option<Cmd>)
    requires
        old(model).changes_status.in_flight() < usize::MAX,
        msg is SetTimeBlockStatus || msg is TimeBlockNameChanged || msg is TimeBlockDurationChanged
            || msg is SaveTimeBlockDuration || msg is DeleteInvoice || msg is InvoiceCustomIdChanged
            || msg is InvoiceUrlChanged,
    ensures
        (final(model)@, r) == step(old(model)@, msg, 0),
        final(model).changes_status.wf() <== old(model).changes_status.wf(),
{
    let (c, b) = match &msg {
        Msg::SetTimeBlockStatus(c, b, _) | Msg::TimeBlockNameChanged(c, b, _)
        | Msg::TimeBlockDurationChanged(c, b, _) | Msg::SaveTimeBlockDuration(c, b)
        | Msg::DeleteInvoice(c, b) | Msg::InvoiceCustomIdChanged(c, b, _)
        | Msg::InvoiceUrlChanged(c, b, _) => (*c, *b),
        _ => {
            return None;
        },
    };
    let clients = match model.clients.loaded_mut() {
        Some(clients) => clients,
        None => {
            return None;
        },
    };
    let ghost t = tree_view(clients@);
    let mut tb = match take_time_block(clients, c, b) {
        Some(tb) => tb,
        None => {
            return None;
        },
    };
    let ghost tb0 = tb;
    let cmd = match msg {
        Msg::SetTimeBlockStatus(_, _, status) => {
            tb.status = status;
            Some(Cmd::SaveTimeBlockStatus { client_id: c, time_block_id: b, status })
        },
        Msg::TimeBlockNameChanged(_, _, name) => {
            tb.name = name;
            None
        },
        Msg::TimeBlockDurationChanged(_, _, text) => {
            tb.duration_change = Some(text);
            None
        },
        Msg::SaveTimeBlockDuration(_, _) => match tb.duration_change {
            Some(text) => {
                tb.duration_change = None;
                Some(Cmd::SaveTimeBlockDuration { client_id: c, time_block_id: b, duration: text })
            },
            None => None,
        },
        Msg::DeleteInvoice(_, _) => match tb.invoice {
            Some(invoice) => {
                tb.invoice = None;
                Some(Cmd::DeleteInvoice { client_id: c, time_block_id: b, invoice_id: invoice.id })
            },
            None => None,
        },
        Msg::InvoiceCustomIdChanged(_, _, text) => {
            match tb.invoice {
                Some(mut invoice) => {
                    invoice.custom_id = Some(text);
                    tb.invoice = Some(invoice);
                },
                None => {},
            }
            None
        },
        Msg::InvoiceUrlChanged(_, _, text) => {
            match tb.invoice {
                Some(mut invoice) => {
                    invoice.url = Some(text);
                    tb.invoice = Some(invoice);
                },
                None => {},
            }
            None
        },
        _ => None,
    };
    proof {
        lemma_set_block(t, c, b, tb);
        lemma_set_block(t, c, b, tb0);
    }
    put_time_block(clients, c, b, tb);
    if cmd.is_some() {
        model.changes_status.request_started();
    }
    cmd
}

// ------ Laws of the events ------

/// The client that an event addresses, for the events that address one.
pub open spec fn event_client(msg: Msg) -> Option<ClientId> {
    match msg {
        Msg::AddTimeBlock(c) => Some(c),
        Msg::DeleteTimeBlock(c, _) => Some(c),
        Msg::SetTimeBlockStatus(c, _, _) => Some(c),
        Msg::TimeBlockNameChanged(c, _, _) => Some(c),
        Msg::SaveTimeBlockName(c, _) => Some(c),
        Msg::TimeBlockDurationChanged(c, _, _) => Some(c),
        Msg::SaveTimeBlockDuration(c, _) => Some(c),
        Msg::AttachInvoice(c, _) => Some(c),
        Msg::DeleteInvoice(c, _) => Some(c),
        Msg::InvoiceCustomIdChanged(c, _, _) => Some(c),
        Msg::SaveInvoiceCustomId(c, _) => Some(c),
        Msg::InvoiceUrlChanged(c, _, _) => Some(c),
        Msg::SaveInvoiceUrl(c, _) => Some(c),
        _ => None,
    }
}

/// Saving the duration of a time block with no staged duration changes
/// nothing and sends nothing.
pub proof fn lemma_save_duration_without_change(
    m: ModelView,
    c: ClientId,
    b: TimeBlockId,
    now: Timestamp,
)
    requires
        loaded_block(m, c, b) matches Some(tb) ==> tb.duration_change is None,
    ensures
        step(m, Msg::SaveTimeBlockDuration(c, b), now) == (m, None::<Cmd>),
{
}

/// Two edits of the duration of a time block, one after the other, leave the
/// second one's raw text staged, as if the first had not happened.
pub proof fn lemma_duration_change_replaces(
    m: ModelView,
    c: ClientId,
    b: TimeBlockId,
    first: String,
    second: String,
    now: Timestamp,
)
    ensures
        step(step(m, Msg::TimeBlockDurationChanged(c, b, first), now).0, Msg::TimeBlockDurationChanged(c, b, second), now)
            == step(m, Msg::TimeBlockDurationChanged(c, b, second), now),
        loaded_block(m, c, b) is Some ==> loaded_block(
            step(m, Msg::TimeBlockDurationChanged(c, b, second), now).0,
            c,
            b,
        )->Some_0.duration_change == Some(second),
{
    if let RemoteData::Loaded(t) = m.clients {
        if let Some(tb) = block_at(t, c, b) {
            let x = TimeBlock { duration_change: Some(first), ..tb };
            let y = TimeBlock { duration_change: Some(second), ..tb };
            lemma_set_block(t, c, b, x);
            lemma_set_block(t, c, b, y);
            lemma_set_block_twice(t, c, b, x, y);
            let y2 = TimeBlock { duration_change: Some(second), ..x };
            assert(y2 == y);
        }
    }
}

/// An event addressed at a client that is not in the tree, or at a tree that
/// has not loaded, changes nothing and sends nothing.
pub proof fn lemma_missing_client(m: ModelView, msg: Msg, now: Timestamp)
    requires
        event_client(msg) is Some,
        m.clients matches RemoteData::Loaded(t) ==> !t.contains_key(event_client(msg)->Some_0),
    ensures
        step(m, msg, now) == (m, None::<Cmd>),
{
}

/// Mapping is deterministic: two trees that each map the same fetched
/// result as of the same instant are the same tree, entry for entry.
pub proof fn lemma_mapping_deterministic(
    q: query::Query, now: Timestamp,
    a: BTreeMap<ClientId, Client>,
    b: BTreeMap<ClientId, Client>,
)
    requires
        clients_of(q, now) == Ok::<_, MapError>(tree_view(a@)),
        clients_of(q, now) == Ok::<_, MapError>(tree_view(b@)),
    ensures
        tree_view(a@) == tree_view(b@),
{
}

} // verus!
