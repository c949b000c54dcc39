//! The table of symbolication requests: submission with backpressure,
//! completion, retention after completion, and status polls.
use vstd::prelude::*;

use crate::cache::age;

verus! {

/// Seconds for which a finished request can still be polled.
pub const RETENTION_SECS: u64 = 90;

/// Where a symbolication request stands.
#[derive(Clone, Copy, Debug, PartialEq, Eq, Structural)]
pub enum RequestState {
    Pending,
    Completed,
    Failed,
}

/// One request of the table.
#[derive(Clone, Copy, Debug, PartialEq, Eq, Structural)]
pub struct RequestRecord {
    pub id: u64,
    pub state: RequestState,
    /// When the request finished, for a request that did.
    pub finished_at: Option<u64>,
}

/// Whether a finished request is past its retention at `now`.
pub open spec fn expired(r: RequestRecord, now: u64) -> bool {
    match r.finished_at {
        Some(t) => age(t, now) > RETENTION_SECS,
        None => false,
    }
}

/// What a status poll does.
#[derive(Clone, Copy, Debug, PartialEq, Eq, Structural)]
pub enum PollAction {
    /// The request is unknown, or past its retention.
    NotFound,
    /// Answer now with this state.
    Respond(RequestState),
    /// The request is pending: wait up to this many seconds for it to finish,
    /// then answer with its state then.
    WaitFor(u64),
}

/// The answer to a poll for a request that the table holds as `record`, with
/// the caller's `timeout` in seconds, at `now`.
pub open spec fn poll_action(record: Option<RequestRecord>, timeout: Option<u64>, now: u64) -> PollAction {
    match record {
        None => PollAction::NotFound,
        Some(r) => if expired(r, now) {
            PollAction::NotFound
        } else if r.state == RequestState::Pending {
            match timeout {
                Some(t) => if t > 0 {
                    PollAction::WaitFor(t)
                } else {
                    PollAction::Respond(RequestState::Pending)
                },
                None => PollAction::Respond(RequestState::Pending),
            }
        } else {
            PollAction::Respond(r.state)
        },
    }
}

/// The latest record with this id.
pub open spec fn lookup(records: Seq<RequestRecord>, id: u64) -> Option<RequestRecord>
    decreases records.len(),
{
    if records.len() == 0 {
        None
    } else if records.last().id == id {
        Some(records.last())
    } else {
        lookup(records.drop_last(), id)
    }
}

/// No two records share an id.
pub open spec fn unique_ids(s: Seq<RequestRecord>) -> bool {
    forall|i: int, j: int| 0 <= i < j < s.len() ==> s[i].id != s[j].id
}

proof fn lemma_lookup_none(s: Seq<RequestRecord>, k: u64)
    requires
        forall|j: int| 0 <= j < s.len() ==> s[j].id != k,
    ensures
        lookup(s, k) is None,
    decreases s.len(),
{
    if s.len() > 0 {
        lemma_lookup_none(s.drop_last(), k);
    }
}

proof fn lemma_unique_filter(s: Seq<RequestRecord>, p: spec_fn(RequestRecord) -> bool)
    requires
        unique_ids(s),
    ensures
        unique_ids(s.filter(p)),
    decreases s.len(),
{
    reveal(Seq::filter);
    if s.len() > 0 {
        let d = s.drop_last();
        lemma_unique_filter(d, p);
        let sub = d.filter(p);
        if p(s.last()) {
            let f = sub.push(s.last());
            assert(s.filter(p) == f);
            assert forall|i: int, j: int| 0 <= i < j < f.len() implies f[i].id != f[j].id by {
                if j == f.len() - 1 {
                    assert(f[i] == sub[i]);
                    assert(sub.contains(sub[i]));
                    d.lemma_filter_contains_rev(p, sub[i]);
                    let m = choose|m: int| 0 <= m < d.len() && d[m] == sub[i];
                    assert(s[m] == d[m]);
                } else {
                    assert(f[i] == sub[i] && f[j] == sub[j]);
                }
            }
        } else {
            assert(s.filter(p) == sub);
        }
    }
}

/// Why a submission is refused.
#[derive(Clone, Copy, Debug, PartialEq, Eq, Structural)]
pub enum SubmitError {
    /// The table holds as many requests as it may.
    QueueFull,
    /// The table already holds a request with this id.
    DuplicateId,
}

/// The requests of one service.
pub struct Registry {
    records: Vec<RequestRecord>,
    capacity: usize,
}

proof fn lemma_lookup_update(s: Seq<RequestRecord>, i: int, x: RequestRecord, k: u64)
    requires
        0 <= i < s.len(),
        s[i].id == x.id,
        forall|j: int| i < j < s.len() ==> s[j].id != x.id,
    ensures
        lookup(s.update(i, x), k) == if k == x.id {
            Some(x)
        } else {
            lookup(s, k)
        },
    decreases s.len(),
{
    let u = s.update(i, x);
    if i == s.len() - 1 {
        assert(u.drop_last() =~= s.drop_last());
    } else {
        assert(u.drop_last() =~= s.drop_last().update(i, x));
        lemma_lookup_update(s.drop_last(), i, x, k);
    }
}

proof fn lemma_lookup_filter(s: Seq<RequestRecord>, p: spec_fn(RequestRecord) -> bool, k: u64)
    ensures
        match lookup(s.filter(p), k) {
            Some(r) => p(r) && r.id == k,
            None => true,
        },
        match lookup(s, k) {
            Some(r) => p(r) ==> lookup(s.filter(p), k) == Some(r),
            None => lookup(s.filter(p), k) is None,
        },
    decreases s.len(),
{
    reveal(Seq::filter);
    if s.len() > 0 {
        lemma_lookup_filter(s.drop_last(), p, k);
        let sub = s.drop_last().filter(p);
        if p(s.last()) {
            assert(s.filter(p) == sub.push(s.last()));
            assert(sub.push(s.last()).drop_last() =~= sub);
        } else {
            assert(s.filter(p) == sub);
        }
    }
}

impl Registry {
    /// The record that a poll for `id` finds.
    pub closed spec fn get(&self, id: u64) -> Option<RequestRecord> {
        lookup(self.records@, id)
    }

    pub closed spec fn wf(&self) -> bool {
        unique_ids(self.records@)
    }

    /// Requests held, finished or not.
    pub closed spec fn len(&self) -> nat {
        self.records@.len()
    }

    pub closed spec fn capacity(&self) -> nat {
        self.capacity as nat
    }

    /// A table that holds up to `capacity` requests.
    pub fn new(capacity: usize) -> (r: Registry)
        ensures
            r.wf(),
            r.len() == 0,
            r.capacity() == capacity,
            forall|id: u64| r.get(id) is None,
    {
        Registry { records: Vec::new(), capacity }
    }

    fn find(&self, id: u64) -> (r: Option<usize>)
        ensures
            match r {
                Some(i) => i < self.records@.len() && self.records@[i as int].id == id && (forall|j: int|
                    i < j < self.records@.len() ==> self.records@[j].id != id) && self.get(id) == Some(
                    self.records@[i as int],
                ),
                None => self.get(id) is None && forall|j: int|
                    0 <= j < self.records@.len() ==> self.records@[j].id != id,
            },
    {
        let mut i: usize = self.records.len();
        assert(self.records@.subrange(0, i as int) =~= self.records@);
        while i > 0
            invariant
                i <= self.records@.len(),
                forall|j: int| i <= j < self.records@.len() ==> self.records@[j].id != id,
                lookup(self.records@, id) == lookup(self.records@.subrange(0, i as int), id),
            decreases i,
        {
            let ghost pre = self.records@.subrange(0, i as int);
            assert(pre.drop_last() =~= self.records@.subrange(0, i - 1));
            if self.records[i - 1].id == id {
                return Some(i - 1);
            }
            i = i - 1;
        }
        None
    }

    /// Adds a pending request. It is refused when the table is full, or when
    /// it holds `id` already.
    pub fn submit(&mut self, id: u64) -> (r: Result<(), SubmitError>)
        requires
            old(self).wf(),
        ensures
            final(self).wf(),
            old(self).len() >= old(self).capacity() ==> r == Err::<(), SubmitError>(SubmitError::QueueFull),
            old(self).len() < old(self).capacity() && old(self).get(id) is Some ==> r == Err::<(), SubmitError>(
                SubmitError::DuplicateId,
            ),
            old(self).len() < old(self).capacity() && old(self).get(id) is None ==> r is Ok,
            r is Ok ==> final(self).get(id) == Some(
                RequestRecord { id, state: RequestState::Pending, finished_at: None },
            ) && final(self).len() == old(self).len() + 1,
            r is Err ==> final(self).len() == old(self).len(),
            forall|k: u64| k != id ==> final(self).get(k) == old(self).get(k),
            r is Err ==> final(self).get(id) == old(self).get(id),
            final(self).capacity() == old(self).capacity(),
    {
        if self.records.len() >= self.capacity {
            return Err(SubmitError::QueueFull);
        }
        if self.find(id).is_some() {
            return Err(SubmitError::DuplicateId);
        }
        let rec = RequestRecord { id, state: RequestState::Pending, finished_at: None };
        let ghost before = self.records@;
        self.records.push(rec);
        assert(self.records@.drop_last() =~= before);
        Ok(())
    }

    /// Marks request `id` finished at `now`, failed or completed. Returns
    /// whether the table held it.
    pub fn finish(&mut self, id: u64, failed: bool, now: u64) -> (r: bool)
        requires
            old(self).wf(),
        ensures
            final(self).wf(),
            r == old(self).get(id) is Some,
            r ==> final(self).get(id) == Some(
                RequestRecord {
                    id,
                    state: if failed {
                        RequestState::Failed
                    } else {
                        RequestState::Completed
                    },
                    finished_at: Some(now),
                },
            ),
            forall|k: u64| k != id ==> final(self).get(k) == old(self).get(k),
            !r ==> final(self).get(id) == old(self).get(id),
            final(self).len() == old(self).len(),
            final(self).capacity() == old(self).capacity(),
    {
        match self.find(id) {
            Some(i) => {
                let state = if failed {
                    RequestState::Failed
                } else {
                    RequestState::Completed
                };
                let rec = RequestRecord { id, state, finished_at: Some(now) };
                proof {
                    assert forall|k: u64| true implies lookup(self.records@.update(i as int, rec), k) == if k == id {
                        Some(rec)
                    } else {
                        lookup(self.records@, k)
                    } by {
                        lemma_lookup_update(self.records@, i as int, rec, k);
                    }
                }
                self.records.set(i, rec);
                true
            },
            None => false,
        }
    }

    /// Drops the requests past their retention at `now`; the others stay.
    pub fn reap(&mut self, now: u64)
        requires
            old(self).wf(),
        ensures
            final(self).wf(),
            forall|k: u64|
                match #[trigger] old(self).get(k) {
                    Some(r) => if expired(r, now) {
                        final(self).get(k) is None
                    } else {
                        final(self).get(k) == Some(r)
                    },
                    None => final(self).get(k) is None,
                },
            final(self).len() <= old(self).len(),
            final(self).capacity() == old(self).capacity(),
    {
        let ghost p: spec_fn(RequestRecord) -> bool = |r: RequestRecord| !expired(r, now);
        assert(forall|r: RequestRecord| #[trigger] p(r) == !expired(r, now));
        let ghost old_records = self.records@;
        let mut kept: Vec<RequestRecord> = Vec::new();
        let mut i: usize = 0;
        while i < self.records.len()
            invariant
                i <= self.records@.len(),
                self.records@ == old_records,
                kept@ == old_records.subrange(0, i as int).filter(p),
                forall|r: RequestRecord| #[trigger] p(r) == !expired(r, now),
            decreases self.records@.len() - i,
        {
            let rec = self.records[i];
            assert(p(rec) == !expired(rec, now));
            assert(old_records.subrange(0, i + 1) =~= old_records.subrange(0, i as int).push(rec));
            proof {
                old_records.subrange(0, i as int).lemma_filter_push(rec, p);
            }
            let gone = match rec.finished_at {
                Some(t) => {
                    let a: u64 = if now >= t {
                        now - t
                    } else {
                        0
                    };
                    a > RETENTION_SECS
                },
                None => false,
            };
            if !gone {
                kept.push(rec);
            }
            i = i + 1;
        }
        assert(old_records.subrange(0, i as int) =~= old_records);
        proof {
            old_records.lemma_filter_len(p);
            lemma_unique_filter(old_records, p);
            assert forall|k: u64| true implies match #[trigger] lookup(old_records, k) {
                Some(r) => if expired(r, now) {
                    lookup(old_records.filter(p), k) is None
                } else {
                    lookup(old_records.filter(p), k) == Some(r)
                },
                None => lookup(old_records.filter(p), k) is None,
            } by {
                lemma_lookup_filter(old_records, p, k);
                lemma_lookup_filter_expired(old_records, p, k, now);
            }
        }
        self.records = kept;
    }

    /// What a poll for `id` with `timeout` does at `now`.
    pub fn get_status(&self, id: u64, timeout: Option<u64>, now: u64) -> (r: PollAction)
        ensures
            r == poll_action(self.get(id), timeout, now),
    {
        match self.find(id) {
            None => PollAction::NotFound,
            Some(i) => poll(self.records[i], timeout, now),
        }
    }
}

proof fn lemma_lookup_filter_expired(s: Seq<RequestRecord>, p: spec_fn(RequestRecord) -> bool, k: u64, now: u64)
    requires
        unique_ids(s),
        p == (|r: RequestRecord| !expired(r, now)),
    ensures
        match lookup(s, k) {
            Some(r) => expired(r, now) ==> lookup(s.filter(p), k) is None,
            None => true,
        },
    decreases s.len(),
{
    reveal(Seq::filter);
    if s.len() > 0 {
        lemma_lookup_filter_expired(s.drop_last(), p, k, now);
        lemma_lookup_filter(s.drop_last(), p, k);
        if s.last().id == k {
            assert forall|j: int| 0 <= j < s.drop_last().len() implies s.drop_last()[j].id != k by {
                assert(s[j] == s.drop_last()[j]);
            }
            lemma_lookup_none(s.drop_last(), k);
        }
        let sub = s.drop_last().filter(p);
        if p(s.last()) {
            assert(s.filter(p) == sub.push(s.last()));
            assert(sub.push(s.last()).drop_last() =~= sub);
        } else {
            assert(s.filter(p) == sub);
        }
    }
}

/// The answer to a poll for a request that the table holds as `record`.
pub fn poll(record: RequestRecord, timeout: Option<u64>, now: u64) -> (r: PollAction)
    ensures
        r == poll_action(Some(record), timeout, now),
{
    let gone = match record.finished_at {
        Some(t) => {
            let a: u64 = if now >= t {
                now - t
            } else {
                0
            };
            a > RETENTION_SECS
        },
        None => false,
    };
    if gone {
        PollAction::NotFound
    } else {
        match record.state {
            RequestState::Pending => match timeout {
                Some(t) => if t > 0 {
                    PollAction::WaitFor(t)
                } else {
                    PollAction::Respond(RequestState::Pending)
                },
                None => PollAction::Respond(RequestState::Pending),
            },
            state => PollAction::Respond(state),
        }
    }
}

/// A poll without a timeout, or with a timeout of zero, answers at once with
/// the current state.
pub proof fn lemma_poll_without_wait(record: RequestRecord, now: u64)
    requires
        !expired(record, now),
    ensures
        poll_action(Some(record), Some(0), now) == PollAction::Respond(record.state),
        poll_action(Some(record), None, now) == PollAction::Respond(record.state),
{
}

/// A request past its retention is not found.
pub proof fn lemma_poll_after_retention(record: RequestRecord, timeout: Option<u64>, now: u64)
    requires
        record.finished_at is Some,
        age(record.finished_at.unwrap(), now) > RETENTION_SECS,
    ensures
        poll_action(Some(record), timeout, now) == PollAction::NotFound,
{
}

} // verus!
