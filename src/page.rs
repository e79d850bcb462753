//! The two pages of the application, each with its own state model, and
//! what they share: the folding of a fetched list into a keyed tree.
use vstd::prelude::*;
use crate::ids::Id;

pub mod time_blocks;
pub mod time_tracker;

verus! {

/// Why a fetched result could not be mapped into a page's model.
#[derive(Clone, Copy, Debug, PartialEq, Eq)]
pub enum MapError {
    /// The result holds no list of clients.
    MissingClients,
    /// An identifier is not a ULID.
    InvalidId,
    /// An instant is not RFC 3339 text.
    InvalidTimestamp,
    /// The tracked time of a client does not fit in an `i64` of seconds.
    TrackedOverflow,
}

/// Folds a list into a keyed map, item by item in order: an item maps to an
/// entry (a later entry replaces an earlier one with the same key), to
/// nothing (it is skipped), or to an error, which ends the fold.
pub open spec fn collect<T, V>(
    s: Seq<T>,
    f: spec_fn(T) -> Result<Option<(Id, V)>, MapError>,
) -> Result<Map<Id, V>, MapError>
    decreases s.len(),
{
    if s.len() == 0 {
        Ok(Map::empty())
    } else {
        match collect(s.drop_last(), f) {
            Err(e) => Err(e),
            Ok(m) => match f(s.last()) {
                Err(e) => Err(e),
                Ok(None) => Ok(m),
                Ok(Some((k, v))) => Ok(m.insert(k, v)),
            },
        }
    }
}

/// The fold over the first `i + 1` items is one step of the fold over the
/// first `i`.
pub proof fn lemma_collect_step<T, V>(
    s: Seq<T>,
    f: spec_fn(T) -> Result<Option<(Id, V)>, MapError>,
    i: int,
)
    requires
        0 <= i < s.len(),
    ensures
        collect(s.take(i + 1), f) == match collect(s.take(i), f) {
            Err(e) => Err(e),
            Ok(m) => match f(s[i]) {
                Err(e) => Err(e),
                Ok(None) => Ok(m),
                Ok(Some((k, v))) => Ok(m.insert(k, v)),
            },
        },
{
    assert(s.take(i + 1).drop_last() =~= s.take(i));
}

/// Once the fold over a prefix fails, the fold over the whole list fails
/// with the same error.
pub proof fn lemma_collect_err<T, V>(
    s: Seq<T>,
    f: spec_fn(T) -> Result<Option<(Id, V)>, MapError>,
    j: int,
)
    requires
        0 <= j <= s.len(),
        collect(s.take(j), f) is Err,
    ensures
        collect(s, f) == collect(s.take(j), f),
    decreases s.len() - j,
{
    if j == s.len() {
        assert(s.take(j) =~= s);
    } else {
        lemma_collect_step(s, f, j);
        lemma_collect_err(s, f, j + 1);
    }
}

pub proof fn lemma_collect_all<T, V>(s: Seq<T>, f: spec_fn(T) -> Result<Option<(Id, V)>, MapError>)
    ensures
        collect(s.take(s.len() as int), f) == collect(s, f),
{
    assert(s.take(s.len() as int) =~= s);
}

/// Children whose identifiers are distinct, each mapped to its entry, can
/// each be looked up by its identifier afterwards and give exactly that
/// entry; an identifier of none of them looks up nothing.
pub proof fn lemma_collect_distinct<T, V>(
    s: Seq<T>,
    f: spec_fn(T) -> Result<Option<(Id, V)>, MapError>,
    keys: Seq<Id>,
    values: Seq<V>,
)
    requires
        keys.len() == s.len(),
        values.len() == s.len(),
        keys.no_duplicates(),
        forall|i: int| 0 <= i < s.len() ==> #[trigger] f(s[i]) == Ok::<_, MapError>(
            Some((keys[i], values[i])),
        ),
    ensures
        collect(s, f) is Ok,
        forall|i: int|
            0 <= i < s.len() ==> collect(s, f)->Ok_0.contains_key(#[trigger] keys[i])
                && collect(s, f)->Ok_0[keys[i]] == values[i],
        forall|k: Id| !keys.contains(k) ==> !collect(s, f)->Ok_0.contains_key(k),
    decreases s.len(),
{
    if s.len() > 0 {
        let n = s.len() - 1;
        let s0 = s.drop_last();
        let k0 = keys.drop_last();
        let v0 = values.drop_last();
        assert forall|i: int| 0 <= i < s0.len() implies #[trigger] f(s0[i]) == Ok::<_, MapError>(
            Some((k0[i], v0[i])),
        ) by {
            assert(s0[i] == s[i]);
        }
        assert(k0.no_duplicates());
        lemma_collect_distinct(s0, f, k0, v0);
        assert(f(s[n]) == Ok::<_, MapError>(Some((keys[n], values[n]))));
        assert forall|i: int| 0 <= i < s.len() implies collect(s, f)->Ok_0.contains_key(
            #[trigger] keys[i],
        ) && collect(s, f)->Ok_0[keys[i]] == values[i] by {
            if i < n {
                assert(k0[i] == keys[i]);
                assert(keys[i] != keys[n]);
            }
        }
        assert forall|k: Id| !keys.contains(k) implies !collect(s, f)->Ok_0.contains_key(k) by {
            if k0.contains(k) {
                let j = choose|j: int| 0 <= j < k0.len() && k0[j] == k;
                assert(keys[j] == k);
            }
            assert(keys[n] != k);
        }
    }
}

} // verus!
