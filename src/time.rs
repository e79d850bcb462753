//! Instants as whole seconds since the Unix epoch, and the elapsed-time
//! arithmetic over time entries, including entries that are still running.
use vstd::prelude::*;

verus! {

/// An instant, in whole seconds since 1970-01-01T00:00:00Z.
pub type Timestamp = i64;

/// What `chrono` parses from a text as a `DateTime<Local>`, as the instant's
/// seconds since the Unix epoch, if it accepts the text.
pub uninterp spec fn timestamp_value(s: Seq<char>) -> Option<i64>;

/// Relies on `<chrono::DateTime<chrono::Local> as FromStr>::from_str` and
/// `DateTime::timestamp`: parses an RFC 3339 instant and gives its seconds
/// since the Unix epoch, or rejects the text.
#[verifier::external_body]
pub(crate) fn parse_timestamp(s: &str) -> (r: Option<Timestamp>)
    ensures
        r == timestamp_value(s@),
{
    match s.parse::<chrono::DateTime<chrono::Local>>() {
        Ok(t) => Some(t.timestamp()),
        Err(_) => None,
    }
}

/// The interval of one time entry: `stopped` is absent while it runs.
#[derive(Clone, Copy, Debug, PartialEq, Eq)]
pub struct Span {
    pub started: Timestamp,
    pub stopped: Option<Timestamp>,
}

pub open spec fn fits_i64(x: int) -> bool {
    i64::MIN <= x <= i64::MAX
}

/// Seconds from the start of a span to its stop, or to `now` while it runs.
pub open spec fn elapsed(s: Span, now: Timestamp) -> int {
    match s.stopped {
        Some(t) => t - s.started,
        None => now - s.started,
    }
}

/// The sum of the elapsed seconds of all spans.
pub open spec fn total(spans: Seq<Span>, now: Timestamp) -> int
    decreases spans.len(),
{
    if spans.len() == 0 {
        0
    } else {
        total(spans.drop_last(), now) + elapsed(spans.last(), now)
    }
}

/// Every running total, taken in order over the spans, fits in an `i64`.
pub open spec fn totals_fit(spans: Seq<Span>, now: Timestamp) -> bool {
    forall|k: int| 0 <= k <= spans.len() ==> fits_i64(#[trigger] total(spans.take(k), now))
}

/// The tracked time of a set of spans, as of `now`: the sum of their elapsed
/// seconds, or `None` where a running total leaves the range of `i64`.
pub fn tracked_total(spans: &Vec<Span>, now: Timestamp) -> (r: Option<i64>)
    ensures
        r matches Some(t) <==> totals_fit(spans@, now),
        r matches Some(t) ==> t == total(spans@, now),
{
    let mut acc: i128 = 0;
    let mut i: usize = 0;
    assert(spans@.take(0) =~= Seq::<Span>::empty());
    while i < spans.len()
        invariant
            i <= spans@.len(),
            acc == total(spans@.take(i as int), now),
            forall|k: int| 0 <= k <= i ==> fits_i64(#[trigger] total(spans@.take(k), now)),
        decreases spans@.len() - i,
    {
        let s = spans[i];
        let end: i64 = match s.stopped {
            Some(t) => t,
            None => now,
        };
        let next: i128 = acc + (end as i128 - s.started as i128);
        assert(spans@.take(i + 1).drop_last() =~= spans@.take(i as int));
        assert(next == total(spans@.take(i + 1), now));
        if next < i64::MIN as i128 || next > i64::MAX as i128 {
            return None;
        }
        acc = next;
        i = i + 1;
    }
    assert(spans@.take(i as int) =~= spans@);
    Some(acc as i64)
}

} // verus!
