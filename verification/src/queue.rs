//! The durable job queue, held as plain rows: each job has a stable id (unique
//! in the queue), a kind, a JSON payload, a status and an attempt budget.
//! Enqueueing an existing id is ignored; rescheduling re-arms a finished row and
//! never disturbs one that is running.

use vstd::prelude::*;
use crate::text::{copy_opt, owned, str_eq};

verus! {

/// Where a queued job stands.
#[derive(Debug, Clone, Copy, PartialEq, Eq, Structural)]
pub enum JobStatus {
    Pending,
    Running,
    Succeeded,
    Failed,
}

/// One queued job.
#[derive(Debug, PartialEq, Eq)]
pub struct JobRow {
    pub id: String,
    pub kind: String,
    pub payload: String,
    pub status: JobStatus,
    pub attempts: i64,
    pub max_attempts: i64,
    pub last_error: Option<String>,
}

/// [`JobRow`] with its text as characters.
pub struct JobView {
    pub id: Seq<char>,
    pub kind: Seq<char>,
    pub payload: Seq<char>,
    pub status: JobStatus,
    pub attempts: i64,
    pub max_attempts: i64,
    pub last_error: Option<Seq<char>>,
}

impl View for JobRow {
    type V = JobView;

    open spec fn view(&self) -> JobView {
        JobView {
            id: self.id@,
            kind: self.kind@,
            payload: self.payload@,
            status: self.status,
            attempts: self.attempts,
            max_attempts: self.max_attempts,
            last_error: crate::activity::opt_text(self.last_error),
        }
    }
}

/// How many jobs stand in each status.
#[derive(Debug, Clone, Copy, PartialEq, Eq, Structural)]
pub struct JobCounts {
    pub pending: u64,
    pub running: u64,
    pub succeeded: u64,
    pub failed: u64,
}

/// The queue: rows in enqueue order, ids unique.
pub struct JobQueue {
    rows: Vec<JobRow>,
}

impl View for JobQueue {
    type V = Seq<JobView>;

    closed spec fn view(&self) -> Seq<JobView> {
        self.rows@.map_values(|r: JobRow| r@)
    }
}

/// The position of the row with id `id`, or -1 (the first from position `i`).
pub open spec fn index_from(rows: Seq<JobView>, id: Seq<char>, i: int) -> int
    decreases rows.len() - i,
{
    if i < 0 || i >= rows.len() {
        -1
    } else if rows[i].id == id {
        i
    } else {
        index_from(rows, id, i + 1)
    }
}

/// The position of the row with id `id`, or -1.
pub open spec fn index_of(rows: Seq<JobView>, id: Seq<char>) -> int {
    index_from(rows, id, 0)
}

/// The row with id `id`, if any.
pub open spec fn row_of(rows: Seq<JobView>, id: Seq<char>) -> Option<JobView> {
    let i = index_of(rows, id);
    if i < 0 { None } else { Some(rows[i]) }
}

/// No two rows share an id.
pub open spec fn ids_unique(rows: Seq<JobView>) -> bool {
    forall|i: int, j: int| 0 <= i < j < rows.len() ==> rows[i].id != rows[j].id
}

/// A fresh pending row.
pub open spec fn fresh_row(id: Seq<char>, kind: Seq<char>, payload: Seq<char>, max_attempts: i64) -> JobView {
    JobView { id, kind, payload, status: JobStatus::Pending, attempts: 0, max_attempts, last_error: None }
}

/// `row` claimed by a worker: running, one attempt more (saturating).
pub open spec fn claimed(row: JobView) -> JobView {
    JobView {
        status: JobStatus::Running,
        attempts: if row.attempts < i64::MAX { (row.attempts + 1) as i64 } else { row.attempts },
        ..row
    }
}

/// The position of the first pending row whose kind is accepted, or -1.
pub open spec fn first_pending_from(rows: Seq<JobView>, kinds: Option<Seq<Seq<char>>>, i: int) -> int
    decreases rows.len() - i,
{
    if i < 0 || i >= rows.len() {
        -1
    } else if rows[i].status == JobStatus::Pending && (match kinds {
        Some(ks) => ks.contains(rows[i].kind),
        None => true,
    }) {
        i
    } else {
        first_pending_from(rows, kinds, i + 1)
    }
}

/// How many rows stand in `status`.
pub open spec fn count_status(rows: Seq<JobView>, status: JobStatus) -> nat
    decreases rows.len(),
{
    if rows.len() == 0 {
        0
    } else {
        count_status(rows.drop_last(), status) + if rows.last().status == status { 1nat } else { 0nat }
    }
}

proof fn lemma_index_from_skip(rows: Seq<JobView>, id: Seq<char>, i: int, j: int)
    requires
        0 <= i <= j <= rows.len(),
        forall|k: int| i <= k < j ==> #[trigger] rows[k].id != id,
    ensures
        index_from(rows, id, i) == index_from(rows, id, j),
    decreases j - i,
{
    if i < j {
        lemma_index_from_skip(rows, id, i + 1, j);
    }
}

proof fn lemma_index_from_range(rows: Seq<JobView>, id: Seq<char>, i: int)
    requires
        0 <= i,
    ensures
        index_from(rows, id, i) == -1 || (i <= index_from(rows, id, i) < rows.len()
            && rows[index_from(rows, id, i)].id == id),
        index_from(rows, id, i) == -1 ==> forall|k: int| i <= k < rows.len() ==> #[trigger] rows[k].id != id,
    decreases rows.len() - i,
{
    if i < rows.len() && rows[i].id != id {
        lemma_index_from_range(rows, id, i + 1);
    }
}

/// The position of the row with id `id` is the unique position holding it.
pub proof fn lemma_index_of(rows: Seq<JobView>, id: Seq<char>)
    requires
        ids_unique(rows),
    ensures
        index_of(rows, id) == -1 <==> forall|k: int| 0 <= k < rows.len() ==> #[trigger] rows[k].id != id,
        index_of(rows, id) != -1 ==> 0 <= index_of(rows, id) < rows.len() && rows[index_of(rows, id)].id == id,
        forall|k: int| 0 <= k < rows.len() && #[trigger] rows[k].id == id ==> index_of(rows, id) == k,
{
    lemma_index_from_range(rows, id, 0);
}

proof fn lemma_first_pending_skip(rows: Seq<JobView>, kinds: Option<Seq<Seq<char>>>, i: int, j: int)
    requires
        0 <= i <= j <= rows.len(),
        forall|k: int| i <= k < j ==> first_pending_from(rows, kinds, k) != k,
    ensures
        first_pending_from(rows, kinds, i) == first_pending_from(rows, kinds, j),
    decreases j - i,
{
    if i < j {
        lemma_first_pending_skip(rows, kinds, i + 1, j);
    }
}

proof fn lemma_first_pending_range(rows: Seq<JobView>, kinds: Option<Seq<Seq<char>>>, i: int)
    requires
        0 <= i,
    ensures
        first_pending_from(rows, kinds, i) == -1 || (i <= first_pending_from(rows, kinds, i) < rows.len()
            && rows[first_pending_from(rows, kinds, i)].status == JobStatus::Pending),
    decreases rows.len() - i,
{
    if i < rows.len() {
        lemma_first_pending_range(rows, kinds, i + 1);
    }
}

proof fn lemma_count_update(rows: Seq<JobView>, i: int, row: JobView, status: JobStatus)
    requires
        0 <= i < rows.len(),
    ensures
        count_status(rows.update(i, row), status) + (if rows[i].status == status { 1int } else { 0int })
            == count_status(rows, status) + (if row.status == status { 1int } else { 0int }),
    decreases rows.len(),
{
    if i == rows.len() - 1 {
        assert(rows.update(i, row).drop_last() =~= rows.drop_last());
    } else {
        lemma_count_update(rows.drop_last(), i, row, status);
        assert(rows.update(i, row).drop_last() =~= rows.drop_last().update(i, row));
    }
}

proof fn lemma_count_bound(rows: Seq<JobView>, status: JobStatus)
    ensures
        count_status(rows, status) <= rows.len(),
    decreases rows.len(),
{
    if rows.len() > 0 {
        lemma_count_bound(rows.drop_last(), status);
    }
}


fn copy_row(row: &JobRow) -> (r: JobRow)
    ensures
        r@ == row@,
{
    JobRow {
        id: row.id.clone(),
        kind: row.kind.clone(),
        payload: row.payload.clone(),
        status: row.status,
        attempts: row.attempts,
        max_attempts: row.max_attempts,
        last_error: copy_opt(&row.last_error),
    }
}

impl JobQueue {
    /// The queue's rows satisfy its invariant: ids are unique.
    pub open spec fn wf(&self) -> bool {
        ids_unique(self@)
    }

    /// An empty queue.
    pub fn new() -> (q: JobQueue)
        ensures
            q@ == Seq::<JobView>::empty(),
            q.wf(),
    {
        let q = JobQueue { rows: Vec::new() };
        proof {
            assert(q@ =~= Seq::<JobView>::empty());
        }
        q
    }

    /// The number of rows.
    pub fn len(&self) -> (n: usize)
        ensures
            n == self@.len(),
    {
        self.rows.len()
    }

    fn position(&self, id: &str) -> (r: Option<usize>)
        ensures
            r is Some ==> r->0 as int == index_of(self@, id@) && r->0 < self@.len(),
            r is None ==> index_of(self@, id@) == -1,
    {
        let mut i: usize = 0;
        while i < self.rows.len()
            invariant
                i <= self.rows@.len(),
                self@.len() == self.rows@.len(),
                forall|k: int| 0 <= k < i ==> #[trigger] self@[k].id != id@,
            decreases self.rows.len() - i,
        {
            if str_eq(self.rows[i].id.as_str(), id) {
                proof {
                    lemma_index_from_skip(self@, id@, 0, i as int);
                }
                return Some(i);
            }
            i = i + 1;
        }
        proof {
            lemma_index_from_skip(self@, id@, 0, i as int);
        }
        None
    }

    fn set_row(&mut self, i: usize, row: JobRow)
        requires
            i < old(self)@.len(),
        ensures
            final(self)@ == old(self)@.update(i as int, row@),
    {
        self.rows.set(i, row);
        proof {
            assert(self@ =~= old(self)@.update(i as int, row@));
        }
    }

    /// Insert a fresh pending job unless a row with this id already exists
    /// (insert-or-ignore). `true` when a row was inserted.
    pub fn enqueue(&mut self, id: &str, kind: &str, payload: &str, max_attempts: i64) -> (inserted: bool)
        requires
            old(self).wf(),
        ensures
            final(self).wf(),
            inserted == (index_of(old(self)@, id@) == -1),
            inserted ==> final(self)@ == old(self)@.push(fresh_row(id@, kind@, payload@, max_attempts)),
            !inserted ==> final(self)@ == old(self)@,
    {
        match self.position(id) {
            Some(_) => false,
            None => {
                let row = JobRow {
                    id: owned(id),
                    kind: owned(kind),
                    payload: owned(payload),
                    status: JobStatus::Pending,
                    attempts: 0,
                    max_attempts,
                    last_error: None,
                };
                proof {
                    lemma_index_of(old(self)@, id@);
                }
                self.rows.push(row);
                proof {
                    assert(self@ =~= old(self)@.push(fresh_row(id@, kind@, payload@, max_attempts)));
                }
                true
            },
        }
    }

    /// Re-arm the job `id`: a missing id is inserted fresh; a finished
    /// (succeeded or failed) row is reset to a fresh pending row with this
    /// kind, payload and budget; a pending row is left as it is; a running row
    /// is never disturbed. `false` only for a running row.
    pub fn reschedule(&mut self, id: &str, kind: &str, payload: &str, max_attempts: i64) -> (armed: bool)
        requires
            old(self).wf(),
        ensures
            final(self).wf(),
            final(self)@ == spec_reschedule(old(self)@, id@, kind@, payload@, max_attempts),
            armed == !(row_of(old(self)@, id@) is Some && row_of(old(self)@, id@)->0.status == JobStatus::Running),
    {
        proof {
            lemma_index_of(old(self)@, id@);
        }
        match self.position(id) {
            None => {
                let inserted = self.enqueue(id, kind, payload, max_attempts);
                true
            },
            Some(i) => {
                match self.rows[i].status {
                    JobStatus::Running => false,
                    JobStatus::Pending => true,
                    _ => {
                        let row = JobRow {
                            id: owned(id),
                            kind: owned(kind),
                            payload: owned(payload),
                            status: JobStatus::Pending,
                            attempts: 0,
                            max_attempts,
                            last_error: None,
                        };
                        self.set_row(i, row);
                        proof {
                            let n = final(self)@;
                            assert forall|a: int, b: int| 0 <= a < b < n.len() implies n[a].id != n[b].id by {
                                if a != i && b != i {
                                    assert(n[a] == old(self)@[a] && n[b] == old(self)@[b]);
                                }
                            }
                        }
                        true
                    },
                }
            },
        }
    }

    /// Claim the first pending job (any kind when `kinds` is `None`): it becomes
    /// running with one attempt more, and a copy of the claimed row is returned.
    pub fn claim_next_matching(&mut self, kinds: Option<&Vec<String>>) -> (r: Option<JobRow>)
        requires
            old(self).wf(),
        ensures
            final(self).wf(),
            ({
                let ks = match kinds {
                    Some(v) => Some(v@.map_values(|s: String| s@)),
                    None => None,
                };
                let i = first_pending_from(old(self)@, ks, 0);
                if i < 0 {
                    r is None && final(self)@ == old(self)@
                } else {
                    r is Some && r->0@ == claimed(old(self)@[i]) && final(self)@ == old(self)@.update(i, claimed(old(self)@[i]))
                }
            }),
    {
        let ghost ks = match kinds {
            Some(v) => Some(v@.map_values(|s: String| s@)),
            None => None,
        };
        let mut i: usize = 0;
        while i < self.rows.len()
            invariant
                i <= self.rows@.len(),
                self@.len() == self.rows@.len(),
                self@ == old(self)@,
                self.wf(),
                ks == match kinds {
                    Some(v) => Some(v@.map_values(|s: String| s@)),
                    None => None,
                },
                forall|k: int| 0 <= k < i ==> first_pending_from(self@, ks, k) != k,
            decreases self.rows.len() - i,
        {
            let accepted = match kinds {
                Some(v) => contains_text(v, self.rows[i].kind.as_str()),
                None => true,
            };
            if self.rows[i].status == JobStatus::Pending && accepted {
                proof {
                    lemma_first_pending_skip(self@, ks, 0, i as int);
                }
                let row = &self.rows[i];
                let attempts = if row.attempts < i64::MAX { row.attempts + 1 } else { row.attempts };
                let new_row = JobRow {
                    id: row.id.clone(),
                    kind: row.kind.clone(),
                    payload: row.payload.clone(),
                    status: JobStatus::Running,
                    attempts,
                    max_attempts: row.max_attempts,
                    last_error: copy_opt(&row.last_error),
                };
                let out = copy_row(&new_row);
                self.set_row(i, new_row);
                proof {
                    let n = final(self)@;
                    assert forall|a: int, b: int| 0 <= a < b < n.len() implies n[a].id != n[b].id by {
                        assert(n[a].id == old(self)@[a].id && n[b].id == old(self)@[b].id);
                    }
                }
                return Some(out);
            }
            proof {
                lemma_first_pending_range(self@, ks, i + 1);
                assert(self@[i as int] == self.rows@[i as int]@);
            }
            i = i + 1;
        }
        proof {
            lemma_first_pending_skip(self@, ks, 0, i as int);
        }
        None
    }

    /// Claim the first pending job of any kind.
    pub fn claim_next(&mut self) -> (r: Option<JobRow>)
        requires
            old(self).wf(),
        ensures
            final(self).wf(),
            ({
                let i = first_pending_from(old(self)@, None, 0);
                if i < 0 {
                    r is None && final(self)@ == old(self)@
                } else {
                    r is Some && r->0@ == claimed(old(self)@[i]) && final(self)@ == old(self)@.update(i, claimed(old(self)@[i]))
                }
            }),
    {
        self.claim_next_matching(None)
    }

    /// Claim the first pending job whose kind is one of `kinds`.
    pub fn claim_next_for_kinds(&mut self, kinds: &Vec<String>) -> (r: Option<JobRow>)
        requires
            old(self).wf(),
        ensures
            final(self).wf(),
            ({
                let i = first_pending_from(old(self)@, Some(kinds@.map_values(|s: String| s@)), 0);
                if i < 0 {
                    r is None && final(self)@ == old(self)@
                } else {
                    r is Some && r->0@ == claimed(old(self)@[i]) && final(self)@ == old(self)@.update(i, claimed(old(self)@[i]))
                }
            }),
    {
        self.claim_next_matching(Some(kinds))
    }

    /// Settle the running job `id` as succeeded. `false` when no row has this id.
    pub fn mark_succeeded(&mut self, id: &str) -> (found: bool)
        requires
            old(self).wf(),
        ensures
            final(self).wf(),
            found == (row_of(old(self)@, id@) is Some),
            found ==> final(self)@ == old(self)@.update(index_of(old(self)@, id@),
                JobView { status: JobStatus::Succeeded, ..old(self)@[index_of(old(self)@, id@)] }),
            !found ==> final(self)@ == old(self)@,
    {
        proof {
            lemma_index_of(old(self)@, id@);
        }
        match self.position(id) {
            None => false,
            Some(i) => {
                let row = &self.rows[i];
                let new_row = JobRow {
                    id: row.id.clone(),
                    kind: row.kind.clone(),
                    payload: row.payload.clone(),
                    status: JobStatus::Succeeded,
                    attempts: row.attempts,
                    max_attempts: row.max_attempts,
                    last_error: copy_opt(&row.last_error),
                };
                self.set_row(i, new_row);
                proof {
                    let n = final(self)@;
                    assert forall|a: int, b: int| 0 <= a < b < n.len() implies n[a].id != n[b].id by {
                        assert(n[a].id == old(self)@[a].id && n[b].id == old(self)@[b].id);
                    }
                }
                true
            },
        }
    }

    /// Record a failed attempt of job `id` with `error`: the job goes back to
    /// pending while attempts remain (`attempts < max_attempts`), else it is
    /// terminally failed. Returns whether it stays retryable (`false` also when
    /// no row has this id, the queue then unchanged).
    pub fn mark_failed(&mut self, id: &str, error: &str) -> (retryable: bool)
        requires
            old(self).wf(),
        ensures
            final(self).wf(),
            match row_of(old(self)@, id@) {
                None => !retryable && final(self)@ == old(self)@,
                Some(row) => retryable == (row.attempts < row.max_attempts)
                    && final(self)@ == old(self)@.update(index_of(old(self)@, id@), JobView {
                        status: if row.attempts < row.max_attempts { JobStatus::Pending } else { JobStatus::Failed },
                        last_error: Some(error@),
                        ..row
                    }),
            },
    {
        proof {
            lemma_index_of(old(self)@, id@);
        }
        match self.position(id) {
            None => false,
            Some(i) => {
                let row = &self.rows[i];
                let retryable = row.attempts < row.max_attempts;
                let new_row = JobRow {
                    id: row.id.clone(),
                    kind: row.kind.clone(),
                    payload: row.payload.clone(),
                    status: if retryable { JobStatus::Pending } else { JobStatus::Failed },
                    attempts: row.attempts,
                    max_attempts: row.max_attempts,
                    last_error: Some(owned(error)),
                };
                self.set_row(i, new_row);
                proof {
                    let n = final(self)@;
                    assert forall|a: int, b: int| 0 <= a < b < n.len() implies n[a].id != n[b].id by {
                        assert(n[a].id == old(self)@[a].id && n[b].id == old(self)@[b].id);
                    }
                }
                retryable
            },
        }
    }

    /// How many jobs stand in each status.
    pub fn counts(&self) -> (c: JobCounts)
        ensures
            c.pending == count_status(self@, JobStatus::Pending),
            c.running == count_status(self@, JobStatus::Running),
            c.succeeded == count_status(self@, JobStatus::Succeeded),
            c.failed == count_status(self@, JobStatus::Failed),
    {
        let mut c = JobCounts { pending: 0, running: 0, succeeded: 0, failed: 0 };
        let mut i: usize = 0;
        while i < self.rows.len()
            invariant
                i <= self.rows@.len(),
                self@.len() == self.rows@.len(),
                c.pending == count_status(self@.take(i as int), JobStatus::Pending),
                c.running == count_status(self@.take(i as int), JobStatus::Running),
                c.succeeded == count_status(self@.take(i as int), JobStatus::Succeeded),
                c.failed == count_status(self@.take(i as int), JobStatus::Failed),
            decreases self.rows.len() - i,
        {
            proof {
                assert(self@.take(i + 1).drop_last() =~= self@.take(i as int));
                assert(self@.take(i + 1).last() == self@[i as int]);
                lemma_count_bound(self@.take(i as int), JobStatus::Pending);
                lemma_count_bound(self@.take(i as int), JobStatus::Running);
                lemma_count_bound(self@.take(i as int), JobStatus::Succeeded);
                lemma_count_bound(self@.take(i as int), JobStatus::Failed);
                assert(self@[i as int].status == self.rows@[i as int].status);
            }
            match self.rows[i].status {
                JobStatus::Pending => c.pending = c.pending + 1,
                JobStatus::Running => c.running = c.running + 1,
                JobStatus::Succeeded => c.succeeded = c.succeeded + 1,
                JobStatus::Failed => c.failed = c.failed + 1,
            }
            i = i + 1;
        }
        proof {
            assert(self@.take(i as int) =~= self@);
        }
        c
    }

    /// Make job `id` claimable again: it goes back to pending, its attempts
    /// and error kept. `false` when no row has this id.
    pub fn defer(&mut self, id: &str) -> (found: bool)
        requires
            old(self).wf(),
        ensures
            final(self).wf(),
            found == (row_of(old(self)@, id@) is Some),
            found ==> final(self)@ == old(self)@.update(index_of(old(self)@, id@),
                JobView { status: JobStatus::Pending, ..old(self)@[index_of(old(self)@, id@)] }),
            !found ==> final(self)@ == old(self)@,
    {
        proof {
            lemma_index_of(old(self)@, id@);
        }
        match self.position(id) {
            None => false,
            Some(i) => {
                let row = &self.rows[i];
                let new_row = JobRow {
                    id: row.id.clone(),
                    kind: row.kind.clone(),
                    payload: row.payload.clone(),
                    status: JobStatus::Pending,
                    attempts: row.attempts,
                    max_attempts: row.max_attempts,
                    last_error: copy_opt(&row.last_error),
                };
                self.set_row(i, new_row);
                proof {
                    let n = final(self)@;
                    assert forall|a: int, b: int| 0 <= a < b < n.len() implies n[a].id != n[b].id by {
                        assert(n[a].id == old(self)@[a].id && n[b].id == old(self)@[b].id);
                    }
                }
                true
            },
        }
    }

    /// A copy of the row with id `id`, if any.
    pub fn status(&self, id: &str) -> (r: Option<JobRow>)
        ensures
            r is Some <==> row_of(self@, id@) is Some,
            r is Some ==> r->0@ == row_of(self@, id@)->0,
    {
        match self.position(id) {
            Some(i) => Some(copy_row(&self.rows[i])),
            None => None,
        }
    }
}

/// The queue after [`JobQueue::reschedule`].
pub open spec fn spec_reschedule(rows: Seq<JobView>, id: Seq<char>, kind: Seq<char>, payload: Seq<char>, max_attempts: i64) -> Seq<JobView> {
    let i = index_of(rows, id);
    if i < 0 {
        rows.push(fresh_row(id, kind, payload, max_attempts))
    } else if rows[i].status == JobStatus::Running || rows[i].status == JobStatus::Pending {
        rows
    } else {
        rows.update(i, fresh_row(id, kind, payload, max_attempts))
    }
}

/// Whether `items` holds a string equal to `s`.
pub fn contains_text(items: &Vec<String>, s: &str) -> (r: bool)
    ensures
        r == items@.map_values(|x: String| x@).contains(s@),
{
    let ghost m = items@.map_values(|x: String| x@);
    let mut i: usize = 0;
    while i < items.len()
        invariant
            i <= items@.len(),
            m == items@.map_values(|x: String| x@),
            forall|k: int| 0 <= k < i ==> m[k] != s@,
        decreases items.len() - i,
    {
        if str_eq(items[i].as_str(), s) {
            proof {
                assert(m[i as int] == s@);
            }
            return true;
        }
        i = i + 1;
    }
    false
}


/// Every row that is pending or running in `a` is still there, unchanged, in
/// `b` (and both have unique ids).
pub open spec fn keeps_open_rows(a: Seq<JobView>, b: Seq<JobView>) -> bool {
    &&& ids_unique(a)
    &&& ids_unique(b)
    &&& forall|id: Seq<char>| #![trigger row_of(a, id)]
        row_of(a, id) is Some && (row_of(a, id)->0.status == JobStatus::Pending
            || row_of(a, id)->0.status == JobStatus::Running) ==> row_of(b, id) == row_of(a, id)
}

/// Rescheduling keeps ids unique and never touches a pending or running row;
/// afterwards the rescheduled row is there, pending or running (running
/// exactly when it was running before).
pub proof fn lemma_reschedule(rows: Seq<JobView>, id: Seq<char>, kind: Seq<char>, payload: Seq<char>, max_attempts: i64)
    requires
        ids_unique(rows),
    ensures
        keeps_open_rows(rows, spec_reschedule(rows, id, kind, payload, max_attempts)),
        ({
            let after = row_of(spec_reschedule(rows, id, kind, payload, max_attempts), id);
            &&& after is Some
            &&& (after->0.status == JobStatus::Pending || after->0.status == JobStatus::Running)
        }),
{
    let n = spec_reschedule(rows, id, kind, payload, max_attempts);
    lemma_index_of(rows, id);
    let i = index_of(rows, id);
    if i < 0 {
        assert forall|a: int, b: int| 0 <= a < b < n.len() implies n[a].id != n[b].id by {
            if b == rows.len() {
                assert(rows[a].id != id);
            }
        }
        lemma_index_of(n, id);
        assert(n[rows.len() as int].id == id);
        assert forall|x: Seq<char>| #![trigger row_of(rows, x)]
            row_of(rows, x) is Some && (row_of(rows, x)->0.status == JobStatus::Pending
                || row_of(rows, x)->0.status == JobStatus::Running) implies row_of(n, x) == row_of(rows, x) by {
            lemma_index_of(rows, x);
            lemma_index_of(n, x);
            let k = index_of(rows, x);
            assert(n[k] == rows[k]);
        }
    } else if rows[i].status == JobStatus::Running || rows[i].status == JobStatus::Pending {
    } else {
        assert forall|a: int, b: int| 0 <= a < b < n.len() implies n[a].id != n[b].id by {
            assert(n[a].id == rows[a].id && n[b].id == rows[b].id);
        }
        lemma_index_of(n, id);
        assert(n[i].id == id);
        assert forall|x: Seq<char>| #![trigger row_of(rows, x)]
            row_of(rows, x) is Some && (row_of(rows, x)->0.status == JobStatus::Pending
                || row_of(rows, x)->0.status == JobStatus::Running) implies row_of(n, x) == row_of(rows, x) by {
            lemma_index_of(rows, x);
            lemma_index_of(n, x);
            let k = index_of(rows, x);
            assert(k != i);
            assert(n[k] == rows[k]);
        }
    }
}

/// [`keeps_open_rows`] composes.
pub proof fn lemma_keeps_open_rows_trans(a: Seq<JobView>, b: Seq<JobView>, c: Seq<JobView>)
    requires
        keeps_open_rows(a, b),
        keeps_open_rows(b, c),
    ensures
        keeps_open_rows(a, c),
{
    assert forall|id: Seq<char>| #![trigger row_of(a, id)]
        row_of(a, id) is Some && (row_of(a, id)->0.status == JobStatus::Pending
            || row_of(a, id)->0.status == JobStatus::Running) implies row_of(c, id) == row_of(a, id) by {
        assert(row_of(b, id) == row_of(a, id));
    }
}

/// Every row of `b` whose kind is not `kind` is the row `a` had under its id.
pub open spec fn keeps_other_kinds(a: Seq<JobView>, b: Seq<JobView>, kind: Seq<char>) -> bool {
    forall|id: Seq<char>| #![trigger row_of(b, id)]
        row_of(b, id) is Some && row_of(b, id)->0.kind != kind ==> row_of(b, id) == row_of(a, id)
}

/// Rescheduling a job of `kind` leaves every row of another kind as it was.
pub proof fn lemma_reschedule_keeps_other_kinds(
    rows: Seq<JobView>,
    id: Seq<char>,
    kind: Seq<char>,
    payload: Seq<char>,
    max_attempts: i64,
)
    requires
        ids_unique(rows),
    ensures
        keeps_other_kinds(rows, spec_reschedule(rows, id, kind, payload, max_attempts), kind),
{
    let n = spec_reschedule(rows, id, kind, payload, max_attempts);
    lemma_reschedule(rows, id, kind, payload, max_attempts);
    lemma_index_of(rows, id);
    let i = index_of(rows, id);
    assert forall|x: Seq<char>| #![trigger row_of(n, x)]
        row_of(n, x) is Some && row_of(n, x)->0.kind != kind implies row_of(n, x) == row_of(rows, x) by {
        lemma_index_of(rows, x);
        lemma_index_of(n, x);
        let j = index_of(n, x);
        if i < 0 {
            assert(j < rows.len());
            assert(n[j] == rows[j]);
        } else if rows[i].status == JobStatus::Running || rows[i].status == JobStatus::Pending {
        } else {
            assert(j != i);
            assert(n[j] == rows[j]);
        }
    }
}

/// [`keeps_other_kinds`] composes.
pub proof fn lemma_keeps_other_kinds_trans(a: Seq<JobView>, b: Seq<JobView>, c: Seq<JobView>, kind: Seq<char>)
    requires
        keeps_other_kinds(a, b, kind),
        keeps_other_kinds(b, c, kind),
    ensures
        keeps_other_kinds(a, c, kind),
{
    assert forall|id: Seq<char>| #![trigger row_of(c, id)]
        row_of(c, id) is Some && row_of(c, id)->0.kind != kind implies row_of(c, id) == row_of(a, id) by {
        assert(row_of(b, id) == row_of(c, id));
    }
}

/// Rescheduling `id` leaves the row under every other id as it was, and
/// leaves under `id` a fresh pending row when there was none or a finished
/// one.
pub proof fn lemma_reschedule_rows(
    rows: Seq<JobView>,
    id: Seq<char>,
    kind: Seq<char>,
    payload: Seq<char>,
    max_attempts: i64,
    x: Seq<char>,
)
    requires
        ids_unique(rows),
    ensures
        x != id ==> row_of(spec_reschedule(rows, id, kind, payload, max_attempts), x) == row_of(rows, x),
        (row_of(rows, id) is None || row_of(rows, id)->0.status == JobStatus::Succeeded
            || row_of(rows, id)->0.status == JobStatus::Failed)
            ==> row_of(spec_reschedule(rows, id, kind, payload, max_attempts), id)
                == Some(fresh_row(id, kind, payload, max_attempts)),
{
    let n = spec_reschedule(rows, id, kind, payload, max_attempts);
    lemma_reschedule(rows, id, kind, payload, max_attempts);
    lemma_index_of(rows, id);
    lemma_index_of(rows, x);
    lemma_index_of(n, x);
    lemma_index_of(n, id);
    let i = index_of(rows, id);
    if i < 0 {
        assert(n[rows.len() as int].id == id);
        if x != id {
            if index_of(rows, x) >= 0 {
                assert(n[index_of(rows, x)] == rows[index_of(rows, x)]);
            }
        }
    } else if rows[i].status == JobStatus::Running || rows[i].status == JobStatus::Pending {
    } else {
        assert(n[i].id == id);
        if x != id {
            if index_of(rows, x) >= 0 {
                assert(index_of(rows, x) != i);
                assert(n[index_of(rows, x)] == rows[index_of(rows, x)]);
            }
        }
    }
}

} // verus!
