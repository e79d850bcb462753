//! Whether save requests are in flight, and when the last ones completed.
use vstd::prelude::*;
use crate::time::Timestamp;

verus! {

/// The save indicator of a page: no save so far, saves in flight, or all
/// saves done since the given instant.
#[derive(Clone, Copy, Debug, PartialEq, Eq)]
pub enum ChangesStatus {
    NoChanges,
    Saving { requests_in_flight: usize },
    Saved(Timestamp),
}

impl ChangesStatus {
    /// A `Saving` state always counts at least one request.
    pub open spec fn wf(self) -> bool {
        self matches ChangesStatus::Saving { requests_in_flight } ==> requests_in_flight > 0
    }

    pub open spec fn in_flight(self) -> nat {
        match self {
            ChangesStatus::Saving { requests_in_flight } => requests_in_flight as nat,
            _ => 0,
        }
    }

    /// The state after one more request has been sent.
    pub open spec fn started(self) -> ChangesStatus {
        ChangesStatus::Saving { requests_in_flight: (self.in_flight() + 1) as usize }
    }

    /// The state after one request has completed at `now`; with none in
    /// flight there is nothing to complete.
    pub open spec fn finished(self, now: Timestamp) -> ChangesStatus {
        match self {
            ChangesStatus::Saving { requests_in_flight } => if requests_in_flight > 1 {
                ChangesStatus::Saving { requests_in_flight: (requests_in_flight - 1) as usize }
            } else {
                ChangesStatus::Saved(now)
            },
            _ => self,
        }
    }

    /// The state after `n` requests have been sent.
    pub open spec fn started_n(self, n: nat) -> ChangesStatus
        decreases n,
    {
        if n == 0 {
            self
        } else {
            self.started_n((n - 1) as nat).started()
        }
    }

    /// The state after one completion at each of the given instants, in order.
    pub open spec fn finished_at(self, times: Seq<Timestamp>) -> ChangesStatus
        decreases times.len(),
    {
        if times.len() == 0 {
            self
        } else {
            self.finished_at(times.drop_last()).finished(times.last())
        }
    }

    pub fn new() -> (r: ChangesStatus)
        ensures
            r == ChangesStatus::NoChanges,
    {
        ChangesStatus::NoChanges
    }

    pub fn requests_in_flight(&self) -> (r: usize)
        ensures
            r == self.in_flight(),
    {
        match self {
            ChangesStatus::Saving { requests_in_flight } => *requests_in_flight,
            _ => 0,
        }
    }

    /// Records that a save request has been sent.
    pub fn request_started(&mut self)
        requires
            old(self).in_flight() < usize::MAX,
        ensures
            *final(self) == old(self).started(),
            final(self).wf(),
    {
        let n = self.requests_in_flight();
        *self = ChangesStatus::Saving { requests_in_flight: n + 1 };
    }

    /// Records that a save request has completed at `now`.
    pub fn request_finished(&mut self, now: Timestamp)
        requires
            old(self).wf(),
        ensures
            *final(self) == old(self).finished(now),
            final(self).wf(),
            final(self).in_flight() == if old(self).in_flight() > 0 {
                old(self).in_flight() - 1
            } else {
                0
            },
    {
        if let ChangesStatus::Saving { requests_in_flight } = *self {
            if requests_in_flight > 1 {
                *self = ChangesStatus::Saving { requests_in_flight: requests_in_flight - 1 };
            } else {
                *self = ChangesStatus::Saved(now);
            }
        }
    }
}

/// From a state with no request in flight, `n` requests sent one after another
/// are counted as `n` in flight; their completions, in whatever order they
/// arrive, count down by one each, and the state becomes `Saved` at the last
/// completion and not before.
pub proof fn lemma_saves_settle(s: ChangesStatus, n: nat, times: Seq<Timestamp>)
    requires
        s.wf(),
        s.in_flight() == 0,
        0 < n <= usize::MAX,
        times.len() == n,
    ensures
        s.started_n(n) == (ChangesStatus::Saving { requests_in_flight: n as usize }),
        forall|j: int|
            0 <= j < n ==> #[trigger] s.started_n(n).finished_at(times.take(j)) == (
            ChangesStatus::Saving { requests_in_flight: (n - j) as usize }),
        s.started_n(n).finished_at(times) == ChangesStatus::Saved(times.last()),
{
    lemma_started_n(s, n);
    assert forall|j: int| 0 <= j < n implies #[trigger] s.started_n(n).finished_at(times.take(j))
        == (ChangesStatus::Saving { requests_in_flight: (n - j) as usize }) by {
        lemma_finished_prefix(n, times, j);
    }
    lemma_finished_prefix(n, times, n - 1);
    assert(times.take(n as int).drop_last() =~= times.take(n - 1));
    assert(times.take(n as int) =~= times);
}

proof fn lemma_started_n(s: ChangesStatus, n: nat)
    requires
        s.in_flight() == 0,
        n <= usize::MAX,
    ensures
        n > 0 ==> s.started_n(n) == (ChangesStatus::Saving { requests_in_flight: n as usize }),
        s.started_n(n).in_flight() == n,
    decreases n,
{
    if n > 0 {
        lemma_started_n(s, (n - 1) as nat);
    }
}

proof fn lemma_finished_prefix(n: nat, times: Seq<Timestamp>, j: int)
    requires
        0 < n <= usize::MAX,
        times.len() == n,
        0 <= j < n,
    ensures
        (ChangesStatus::Saving { requests_in_flight: n as usize }).finished_at(times.take(j)) == (
        ChangesStatus::Saving { requests_in_flight: (n - j) as usize }),
    decreases j,
{
    if j > 0 {
        lemma_finished_prefix(n, times, j - 1);
        assert(times.take(j).drop_last() =~= times.take(j - 1));
    } else {
        assert(times.take(0).len() == 0);
    }
}

} // verus!
