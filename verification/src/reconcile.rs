//! Startup reconciliation of the activity ledger: what a crash could have left
//! ambiguous is settled once, before any worker starts. Every rule touches only
//! rows still in the state it looks for, so a second pass changes nothing.
//! Each rule commits as a whole or not at all; one rule's failure does not stop
//! the others.

use vstd::prelude::*;
use crate::activity::opt_text;
use crate::kinds::{AUTOPILOT_STAGE_KIND, HISTORY_SWEEP_KIND, PIPELINE_REEXTRACTION_KIND};
use crate::queue::{ids_unique, keeps_open_rows, keeps_other_kinds, row_of, JobQueue, JobStatus, JobView};
use crate::runs::{
    lemma_reconcile_runs_idempotent, lemma_reconcile_runs_keeps_other_kinds, spec_reconcile_runs, AutopilotRuns, RunView,
};
use crate::text::{owned, str_eq};

verus! {

/// How many finished occurrences the ledger keeps.
pub const OCCURRENCE_RETENTION: usize = 500;

/// The error a transcript job interrupted by a restart records when it has none.
pub const TRANSCRIPT_INTERRUPTED: &'static str = "Interrupted by app restart";

/// The error a sweep or batch stranded by a restart records when it has none.
pub const NO_LIVE_JOB: &'static str = "Interrupted by app restart: no live job";

/// Where one occurrence of an activity stands.
#[derive(Debug, Clone, Copy, PartialEq, Eq, Structural)]
pub enum OccurrenceStatus {
    Running,
    Succeeded,
    Failed,
    Interrupted,
}

/// One occurrence (one attempt) in the activity ledger, oldest first.
#[derive(Debug)]
pub struct Occurrence {
    pub id: u64,
    pub activity_key: String,
    pub status: OccurrenceStatus,
}

/// A `transcript_jobs` row.
#[derive(Debug)]
pub struct TranscriptJob {
    pub id: String,
    pub status: String,
    pub error_code: Option<String>,
    pub error: Option<String>,
}

/// A history sweep or a re-extraction batch: a domain row whose parent queue
/// job has the row's own id.
#[derive(Debug)]
pub struct DomainRow {
    pub id: String,
    pub status: String,
    pub error: Option<String>,
}

/// A KPI ingest run (its own reclaim owns it; reconciliation never touches it).
#[derive(Debug)]
pub struct KpiRun {
    pub id: String,
    pub status: String,
}

/// `o` settled as interrupted when it is still running.
pub open spec fn interrupted(o: Occurrence) -> Occurrence {
    if o.status == OccurrenceStatus::Running {
        Occurrence { status: OccurrenceStatus::Interrupted, ..o }
    } else {
        o
    }
}

/// Every running occurrence settled as interrupted.
pub open spec fn spec_interrupt_all(s: Seq<Occurrence>) -> Seq<Occurrence> {
    s.map_values(|o: Occurrence| interrupted(o))
}

/// How many occurrences of `s` are finished (not running).
pub open spec fn finished_count(s: Seq<Occurrence>) -> nat
    decreases s.len(),
{
    if s.len() == 0 {
        0
    } else {
        finished_count(s.drop_last()) + if s.last().status != OccurrenceStatus::Running { 1nat } else { 0nat }
    }
}

/// `s` without its `n` oldest finished occurrences.
pub open spec fn drop_oldest_finished(s: Seq<Occurrence>, n: nat) -> Seq<Occurrence>
    decreases s.len(),
{
    if s.len() == 0 {
        s
    } else if s[0].status != OccurrenceStatus::Running && n > 0 {
        drop_oldest_finished(s.drop_first(), (n - 1) as nat)
    } else {
        seq![s[0]] + drop_oldest_finished(s.drop_first(), n)
    }
}

/// The ledger after retention: every running occurrence and the newest
/// [`OCCURRENCE_RETENTION`] finished ones.
pub open spec fn spec_prune(s: Seq<Occurrence>) -> Seq<Occurrence> {
    if finished_count(s) > OCCURRENCE_RETENTION {
        drop_oldest_finished(s, (finished_count(s) - OCCURRENCE_RETENTION) as nat)
    } else {
        s
    }
}

/// [`TranscriptJob`] with its text as characters.
pub struct TranscriptView {
    pub id: Seq<char>,
    pub status: Seq<char>,
    pub error_code: Option<Seq<char>>,
    pub error: Option<Seq<char>>,
}

impl View for TranscriptJob {
    type V = TranscriptView;

    open spec fn view(&self) -> TranscriptView {
        TranscriptView {
            id: self.id@,
            status: self.status@,
            error_code: opt_text(self.error_code),
            error: opt_text(self.error),
        }
    }
}

/// [`DomainRow`] with its text as characters.
pub struct DomainView {
    pub id: Seq<char>,
    pub status: Seq<char>,
    pub error: Option<Seq<char>>,
}

impl View for DomainRow {
    type V = DomainView;

    open spec fn view(&self) -> DomainView {
        DomainView { id: self.id@, status: self.status@, error: opt_text(self.error) }
    }
}

/// `e` when present, else `default`.
pub open spec fn coalesce(e: Option<Seq<char>>, default: Seq<char>) -> Seq<char> {
    match e {
        Some(x) => x,
        None => default,
    }
}

/// A transcript job left running by a crash, failed as interrupted.
pub open spec fn failed_transcript(t: TranscriptView) -> TranscriptView {
    if t.status == "running"@ {
        TranscriptView {
            status: "failed"@,
            error_code: Some("interrupted"@),
            error: Some(coalesce(t.error, TRANSCRIPT_INTERRUPTED@)),
            ..t
        }
    } else {
        t
    }
}

/// The parent job `id` of kind `kind` is live (pending or running).
pub open spec fn has_live_job(jobs: Seq<JobView>, id: Seq<char>, kind: Seq<char>) -> bool {
    match row_of(jobs, id) {
        Some(row) => row.kind == kind && (row.status == JobStatus::Pending || row.status == JobStatus::Running),
        None => false,
    }
}

/// A queued or running domain row with no live parent job, failed.
pub open spec fn orphan_failed(row: DomainView, jobs: Seq<JobView>, kind: Seq<char>) -> DomainView {
    if (row.status == "queued"@ || row.status == "running"@) && !has_live_job(jobs, row.id, kind) {
        DomainView { status: "failed"@, error: Some(coalesce(row.error, NO_LIVE_JOB@)), ..row }
    } else {
        row
    }
}

/// Every stranded domain row of `rows` failed.
pub open spec fn spec_fail_orphans(rows: Seq<DomainView>, jobs: Seq<JobView>, kind: Seq<char>) -> Seq<DomainView> {
    rows.map_values(|r: DomainView| orphan_failed(r, jobs, kind))
}

/// The views of the rows of a vector.
pub open spec fn transcript_views(v: Seq<TranscriptJob>) -> Seq<TranscriptView> {
    v.map_values(|t: TranscriptJob| t@)
}

/// The views of the rows of a vector.
pub open spec fn domain_views(v: Seq<DomainRow>) -> Seq<DomainView> {
    v.map_values(|r: DomainRow| r@)
}

/// Everything reconciliation reads and writes.
pub struct Store {
    pub jobs: JobQueue,
    pub runs: AutopilotRuns,
    pub occurrences: Vec<Occurrence>,
    pub transcripts: Vec<TranscriptJob>,
    pub history_sweeps: Vec<DomainRow>,
    pub reextraction_batches: Vec<DomainRow>,
    pub kpi_runs: Vec<KpiRun>,
}

/// The store as plain values.
pub struct StoreView {
    pub jobs: Seq<JobView>,
    pub runs: Seq<RunView>,
    pub occurrences: Seq<Occurrence>,
    pub transcripts: Seq<TranscriptView>,
    pub history_sweeps: Seq<DomainView>,
    pub reextraction_batches: Seq<DomainView>,
    pub kpi_runs: Seq<KpiRun>,
}

impl View for Store {
    type V = StoreView;

    open spec fn view(&self) -> StoreView {
        StoreView {
            jobs: self.jobs@,
            runs: self.runs@,
            occurrences: self.occurrences@,
            transcripts: transcript_views(self.transcripts@),
            history_sweeps: domain_views(self.history_sweeps@),
            reextraction_batches: domain_views(self.reextraction_batches@),
            kpi_runs: self.kpi_runs@,
        }
    }
}

/// Which rules' transactions commit. A rule whose transaction does not commit
/// leaves its rows as they were.
#[derive(Debug, Clone, Copy, PartialEq, Eq, Structural)]
pub struct RuleCommits {
    pub occurrences: bool,
    pub transcripts: bool,
    pub autopilot_runs: bool,
    pub history_sweeps: bool,
    pub reextraction_batches: bool,
}

/// The store after reconciliation, each rule applied when its transaction
/// commits: open occurrences interrupted then the ledger pruned; running
/// transcript jobs failed; stranded autopilot runs re-armed or failed; then
/// stranded history sweeps and re-extraction batches failed against the queue
/// as the run rule left it. KPI runs are never touched.
pub open spec fn spec_reconcile_with(s: StoreView, c: RuleCommits) -> StoreView {
    let occ = if c.occurrences { spec_prune(spec_interrupt_all(s.occurrences)) } else { s.occurrences };
    let tr = if c.transcripts { s.transcripts.map_values(|t: TranscriptView| failed_transcript(t)) } else { s.transcripts };
    let rj = if c.autopilot_runs { spec_reconcile_runs(s.runs, s.jobs) } else { (s.runs, s.jobs) };
    let sw = if c.history_sweeps { spec_fail_orphans(s.history_sweeps, rj.1, HISTORY_SWEEP_KIND@) } else { s.history_sweeps };
    let ba = if c.reextraction_batches {
        spec_fail_orphans(s.reextraction_batches, rj.1, PIPELINE_REEXTRACTION_KIND@)
    } else {
        s.reextraction_batches
    };
    StoreView {
        jobs: rj.1,
        runs: rj.0,
        occurrences: occ,
        transcripts: tr,
        history_sweeps: sw,
        reextraction_batches: ba,
        kpi_runs: s.kpi_runs,
    }
}

/// Every rule commits.
pub open spec fn all_commit() -> RuleCommits {
    RuleCommits { occurrences: true, transcripts: true, autopilot_runs: true, history_sweeps: true, reextraction_batches: true }
}

/// The store after a reconciliation whose rules all commit.
pub open spec fn spec_reconcile(s: StoreView) -> StoreView {
    spec_reconcile_with(s, all_commit())
}

fn interrupt_all(rows: &mut Vec<Occurrence>)
    ensures
        final(rows)@ == spec_interrupt_all(old(rows)@),
{
    let n = rows.len();
    let mut i: usize = 0;
    while i < n
        invariant
            n == rows@.len(),
            n == old(rows)@.len(),
            i <= n,
            forall|k: int| 0 <= k < i ==> #[trigger] rows@[k] == interrupted(old(rows)@[k]),
            forall|k: int| i <= k < n ==> #[trigger] rows@[k] == old(rows)@[k],
        decreases n - i,
    {
        if rows[i].status == OccurrenceStatus::Running {
            let o = Occurrence {
                id: rows[i].id,
                activity_key: rows[i].activity_key.clone(),
                status: OccurrenceStatus::Interrupted,
            };
            rows.set(i, o);
        }
        i = i + 1;
    }
    proof {
        assert(rows@ =~= spec_interrupt_all(old(rows)@));
    }
}

proof fn lemma_finished_count_front(s: Seq<Occurrence>)
    requires
        s.len() > 0,
    ensures
        finished_count(s) == finished_count(s.drop_first())
            + if s[0].status != OccurrenceStatus::Running { 1nat } else { 0nat },
    decreases s.len(),
{
    if s.len() > 1 {
        lemma_finished_count_front(s.drop_last());
        assert(s.drop_last().drop_first() =~= s.drop_first().drop_last());
        assert(s.drop_first().last() == s.last());
        assert(s.drop_last()[0] == s[0]);
        let t = s.drop_first();
        assert(finished_count(t) == finished_count(t.drop_last())
            + if t.last().status != OccurrenceStatus::Running { 1nat } else { 0nat });
    } else {
        assert(s.drop_first().len() == 0);
        assert(s.drop_last().len() == 0);
        assert(s.last() == s[0]);
        assert(finished_count(s.drop_first()) == 0);
        assert(finished_count(s.drop_last()) == 0);
    }
}

fn count_finished(rows: &Vec<Occurrence>) -> (r: usize)
    ensures
        r == finished_count(rows@),
{
    let mut c: usize = 0;
    let mut i: usize = 0;
    while i < rows.len()
        invariant
            i <= rows@.len(),
            c == finished_count(rows@.take(i as int)),
            c <= i,
        decreases rows.len() - i,
    {
        proof {
            assert(rows@.take(i + 1).drop_last() =~= rows@.take(i as int));
        }
        if rows[i].status != OccurrenceStatus::Running {
            c = c + 1;
        }
        i = i + 1;
    }
    proof {
        assert(rows@.take(i as int) =~= rows@);
    }
    c
}

/// Drop the oldest finished occurrences beyond the retention cap.
fn prune(rows: Vec<Occurrence>) -> (r: Vec<Occurrence>)
    ensures
        r@ == spec_prune(rows@),
{
    let finished = count_finished(&rows);
    if finished <= OCCURRENCE_RETENTION {
        return rows;
    }
    let ghost all = rows@;
    let n = rows.len();
    let mut excess: usize = finished - OCCURRENCE_RETENTION;
    let mut rest = rows;
    let mut out: Vec<Occurrence> = Vec::new();
    let mut k: usize = 0;
    proof {
        assert(all.skip(0) =~= all);
        assert(out@ + drop_oldest_finished(all, excess as nat) =~= drop_oldest_finished(all, excess as nat));
    }
    while rest.len() > 0
        invariant
            k + rest@.len() == all.len(),
            all.len() == n,
            rest@ == all.skip(k as int),
            out@ + drop_oldest_finished(all.skip(k as int), excess as nat)
                == drop_oldest_finished(all, (finished - OCCURRENCE_RETENTION) as nat),
        decreases rest.len(),
    {
        let o = rest.remove(0);
        proof {
            assert(all.skip(k as int)[0] == o);
            assert(all.skip(k as int).drop_first() =~= all.skip(k + 1));
            assert(rest@ =~= all.skip(k + 1));
        }
        if o.status != OccurrenceStatus::Running && excess > 0 {
            excess = excess - 1;
        } else {
            let ghost before = out@;
            out.push(o);
            proof {
                assert(before + (seq![o] + drop_oldest_finished(all.skip(k + 1), excess as nat))
                    =~= out@ + drop_oldest_finished(all.skip(k + 1), excess as nat));
            }
        }
        k = k + 1;
    }
    proof {
        assert(all.skip(k as int).len() == 0);
        assert(out@ =~= out@ + drop_oldest_finished(all.skip(k as int), excess as nat));
    }
    out
}

fn fail_running_transcripts(rows: &mut Vec<TranscriptJob>)
    ensures
        transcript_views(final(rows)@) == transcript_views(old(rows)@).map_values(|t: TranscriptView| failed_transcript(t)),
{
    let n = rows.len();
    let mut i: usize = 0;
    while i < n
        invariant
            n == rows@.len(),
            n == old(rows)@.len(),
            i <= n,
            forall|k: int| 0 <= k < i ==> #[trigger] rows@[k]@ == failed_transcript(old(rows)@[k]@),
            forall|k: int| i <= k < n ==> #[trigger] rows@[k] == old(rows)@[k],
        decreases n - i,
    {
        if str_eq(rows[i].status.as_str(), "running") {
            let error = match &rows[i].error {
                Some(e) => e.clone(),
                None => owned(TRANSCRIPT_INTERRUPTED),
            };
            let t = TranscriptJob {
                id: rows[i].id.clone(),
                status: owned("failed"),
                error_code: Some(owned("interrupted")),
                error: Some(error),
            };
            rows.set(i, t);
        }
        i = i + 1;
    }
    proof {
        assert(transcript_views(rows@) =~= transcript_views(old(rows)@).map_values(|t: TranscriptView| failed_transcript(t)));
    }
}

fn has_live_parent_job(jobs: &JobQueue, id: &str, kind: &str) -> (r: bool)
    ensures
        r == has_live_job(jobs@, id@, kind@),
{
    match jobs.status(id) {
        Some(row) => str_eq(row.kind.as_str(), kind) && (row.status == JobStatus::Pending || row.status == JobStatus::Running),
        None => false,
    }
}

fn fail_orphans(rows: &mut Vec<DomainRow>, jobs: &JobQueue, kind: &str)
    ensures
        domain_views(final(rows)@) == spec_fail_orphans(domain_views(old(rows)@), jobs@, kind@),
{
    let n = rows.len();
    let mut i: usize = 0;
    while i < n
        invariant
            n == rows@.len(),
            n == old(rows)@.len(),
            i <= n,
            forall|k: int| 0 <= k < i ==> #[trigger] rows@[k]@ == orphan_failed(old(rows)@[k]@, jobs@, kind@),
            forall|k: int| i <= k < n ==> #[trigger] rows@[k] == old(rows)@[k],
        decreases n - i,
    {
        let open = str_eq(rows[i].status.as_str(), "queued") || str_eq(rows[i].status.as_str(), "running");
        if open && !has_live_parent_job(jobs, rows[i].id.as_str(), kind) {
            let error = match &rows[i].error {
                Some(e) => e.clone(),
                None => owned(NO_LIVE_JOB),
            };
            let r = DomainRow { id: rows[i].id.clone(), status: owned("failed"), error: Some(error) };
            rows.set(i, r);
        }
        i = i + 1;
    }
    proof {
        assert(domain_views(rows@) =~= spec_fail_orphans(domain_views(old(rows)@), jobs@, kind@));
    }
}

impl Store {
    /// The queue's and the runs' own invariants.
    pub open spec fn wf(&self) -> bool {
        self.jobs.wf() && self.runs.wf()
    }

    /// An empty store.
    pub fn new() -> (s: Store)
        ensures
            s.wf(),
            s@.jobs.len() == 0,
            s@.runs.len() == 0,
            s@.occurrences.len() == 0,
            s@.transcripts.len() == 0,
            s@.history_sweeps.len() == 0,
            s@.reextraction_batches.len() == 0,
            s@.kpi_runs.len() == 0,
    {
        Store {
            jobs: JobQueue::new(),
            runs: AutopilotRuns::new(),
            occurrences: Vec::new(),
            transcripts: Vec::new(),
            history_sweeps: Vec::new(),
            reextraction_batches: Vec::new(),
            kpi_runs: Vec::new(),
        }
    }

    /// Reconcile, each rule committing as `commits` says (see
    /// [`spec_reconcile_with`]).
    pub fn reconcile_with(&mut self, commits: RuleCommits)
        requires
            old(self).wf(),
        ensures
            final(self).wf(),
            final(self)@ == spec_reconcile_with(old(self)@, commits),
    {
        if commits.occurrences {
            let mut occ: Vec<Occurrence> = Vec::new();
            std::mem::swap(&mut occ, &mut self.occurrences);
            interrupt_all(&mut occ);
            self.occurrences = prune(occ);
        }
        if commits.transcripts {
            fail_running_transcripts(&mut self.transcripts);
        }
        if commits.autopilot_runs {
            self.runs.reconcile_stranded(&mut self.jobs);
        }
        if commits.history_sweeps {
            fail_orphans(&mut self.history_sweeps, &self.jobs, HISTORY_SWEEP_KIND);
        }
        if commits.reextraction_batches {
            fail_orphans(&mut self.reextraction_batches, &self.jobs, PIPELINE_REEXTRACTION_KIND);
        }
    }

    /// Terminalize everything a crash could have left ambiguous, every rule
    /// committing (see [`spec_reconcile`]).
    pub fn reconcile_on_startup(&mut self)
        requires
            old(self).wf(),
        ensures
            final(self).wf(),
            final(self)@ == spec_reconcile(old(self)@),
    {
        self.reconcile_with(RuleCommits {
            occurrences: true,
            transcripts: true,
            autopilot_runs: true,
            history_sweeps: true,
            reextraction_batches: true,
        });
    }
}


// ---------------------------------------------------------------------------
// Reconciliation is idempotent.
// ---------------------------------------------------------------------------

/// No occurrence of `s` is running.
pub open spec fn none_running(s: Seq<Occurrence>) -> bool {
    forall|k: int| 0 <= k < s.len() ==> (#[trigger] s[k]).status != OccurrenceStatus::Running
}

proof fn lemma_drop_oldest(s: Seq<Occurrence>, n: nat)
    requires
        none_running(s),
        n <= finished_count(s),
    ensures
        none_running(drop_oldest_finished(s, n)),
        finished_count(drop_oldest_finished(s, n)) == finished_count(s) - n,
    decreases s.len(),
{
    if s.len() > 0 {
        lemma_finished_count_front(s);
        let t = s.drop_first();
        assert(none_running(t)) by {
            assert forall|k: int| 0 <= k < t.len() implies (#[trigger] t[k]).status != OccurrenceStatus::Running by {
                assert(t[k] == s[k + 1]);
            }
        }
        assert(s[0].status != OccurrenceStatus::Running);
        if n > 0 {
            lemma_drop_oldest(t, (n - 1) as nat);
        } else {
            lemma_drop_oldest(t, n);
            let d = drop_oldest_finished(t, n);
            let r = seq![s[0]] + d;
            assert(r.drop_first() =~= d);
            assert(r[0] == s[0]);
            lemma_finished_count_front(r);
            assert forall|k: int| 0 <= k < r.len() implies (#[trigger] r[k]).status != OccurrenceStatus::Running by {
                if k > 0 {
                    assert(r[k] == d[k - 1]);
                }
            }
        }
    }
}

proof fn lemma_occurrences_idempotent(o: Seq<Occurrence>)
    ensures
        spec_prune(spec_interrupt_all(spec_prune(spec_interrupt_all(o)))) == spec_prune(spec_interrupt_all(o)),
{
    let i = spec_interrupt_all(o);
    assert(none_running(i));
    let p = spec_prune(i);
    if finished_count(i) > OCCURRENCE_RETENTION {
        lemma_drop_oldest(i, (finished_count(i) - OCCURRENCE_RETENTION) as nat);
    }
    assert(none_running(p));
    assert(spec_interrupt_all(p) =~= p);
}

/// The stranded-state words are distinct.
proof fn lemma_words()
    ensures
        "failed"@ != "running"@,
        "failed"@ != "queued"@,
{
    reveal_strlit("failed");
    reveal_strlit("running");
    reveal_strlit("queued");
    assert("failed"@[0] != "running"@[0]);
    assert("failed"@[0] != "queued"@[0]);
}

/// Reconciliation is idempotent: a second pass over what a first (every rule
/// committing) left changes nothing.
pub proof fn lemma_reconcile_idempotent(s: StoreView)
    requires
        ids_unique(s.jobs),
    ensures
        spec_reconcile(spec_reconcile(s)) == spec_reconcile(s),
{
    let once = spec_reconcile(s);
    let twice = spec_reconcile(once);
    lemma_occurrences_idempotent(s.occurrences);
    lemma_reconcile_runs_idempotent(s.runs, s.jobs);
    lemma_words();
    let t1 = once.transcripts;
    assert(twice.transcripts =~= t1) by {
        assert forall|k: int| 0 <= k < t1.len() implies #[trigger] failed_transcript(t1[k]) == t1[k] by {}
    }
    let j = once.jobs;
    assert(twice.history_sweeps =~= once.history_sweeps) by {
        assert forall|k: int| 0 <= k < once.history_sweeps.len() implies
            #[trigger] orphan_failed(once.history_sweeps[k], j, HISTORY_SWEEP_KIND@) == once.history_sweeps[k] by {}
    }
    assert(twice.reextraction_batches =~= once.reextraction_batches) by {
        assert forall|k: int| 0 <= k < once.reextraction_batches.len() implies
            #[trigger] orphan_failed(once.reextraction_batches[k], j, PIPELINE_REEXTRACTION_KIND@) == once.reextraction_batches[k] by {}
    }
}


// ---------------------------------------------------------------------------
// What reconciliation leaves in the ledger.
// ---------------------------------------------------------------------------

proof fn lemma_all_finished(s: Seq<Occurrence>)
    requires
        none_running(s),
    ensures
        finished_count(s) == s.len(),
    decreases s.len(),
{
    if s.len() > 0 {
        let t = s.drop_last();
        assert(none_running(t)) by {
            assert forall|k: int| 0 <= k < t.len() implies (#[trigger] t[k]).status != OccurrenceStatus::Running by {
                assert(t[k] == s[k]);
            }
        }
        lemma_all_finished(t);
        assert(s.last() == s[s.len() - 1]);
    }
}

proof fn lemma_drop_all_finished(s: Seq<Occurrence>, n: nat)
    requires
        none_running(s),
        n <= s.len(),
    ensures
        drop_oldest_finished(s, n) == s.skip(n as int),
    decreases s.len(),
{
    if s.len() > 0 {
        let t = s.drop_first();
        assert(none_running(t)) by {
            assert forall|k: int| 0 <= k < t.len() implies (#[trigger] t[k]).status != OccurrenceStatus::Running by {
                assert(t[k] == s[k + 1]);
            }
        }
        assert(s[0].status != OccurrenceStatus::Running);
        if n > 0 {
            lemma_drop_all_finished(t, (n - 1) as nat);
            assert(t.skip(n - 1) =~= s.skip(n as int));
        } else {
            lemma_drop_all_finished(t, n);
            assert(seq![s[0]] + t =~= s);
        }
    }
}

/// Retention after a restart: once reconciliation ran (every rule
/// committing), no occurrence is left running (every one open before is
/// settled as interrupted before retention runs), and the ledger holds exactly
/// the newest [`OCCURRENCE_RETENTION`] occurrences, oldest dropped first.
pub proof fn lemma_reconcile_retention(s: StoreView)
    ensures
        none_running(spec_reconcile(s).occurrences),
        spec_reconcile(s).occurrences == (if s.occurrences.len() > OCCURRENCE_RETENTION {
            spec_interrupt_all(s.occurrences).skip(s.occurrences.len() - OCCURRENCE_RETENTION)
        } else {
            spec_interrupt_all(s.occurrences)
        }),
{
    let i = spec_interrupt_all(s.occurrences);
    assert(none_running(i));
    lemma_all_finished(i);
    if i.len() > OCCURRENCE_RETENTION {
        let n = (i.len() - OCCURRENCE_RETENTION) as nat;
        lemma_drop_all_finished(i, n);
        let kept = i.skip(n as int);
        assert forall|k: int| 0 <= k < kept.len() implies (#[trigger] kept[k]).status != OccurrenceStatus::Running by {
            assert(kept[k] == i[k + n]);
        }
    }
}

/// Whether a job of `kind` is live under `id` is the same in two queues that
/// agree on every open row and on every row of another kind than `written`.
proof fn lemma_liveness_kept(a: Seq<JobView>, b: Seq<JobView>, written: Seq<char>, kind: Seq<char>, id: Seq<char>)
    requires
        kind != written,
        keeps_open_rows(a, b),
        keeps_other_kinds(a, b, written),
    ensures
        has_live_job(b, id, kind) == has_live_job(a, id, kind),
{
    if has_live_job(a, id, kind) {
        assert(row_of(b, id) == row_of(a, id));
    }
    if has_live_job(b, id, kind) {
        assert(row_of(b, id) == row_of(a, id));
    }
}

/// Orphaned sweeps and batches after a restart: once reconciliation ran
/// (every rule committing), a history sweep (a re-extraction batch) row left
/// queued or running is failed, its error kept or else [`NO_LIVE_JOB`],
/// exactly when the queue as it stood at startup holds no pending or running
/// history sweep (re-extraction) job under the row's id; every other row is
/// unchanged. The autopilot rule that runs before writes only stage jobs, so
/// it never changes that answer.
pub proof fn lemma_reconcile_fails_orphans(s: StoreView)
    requires
        ids_unique(s.jobs),
    ensures
        spec_reconcile(s).history_sweeps.len() == s.history_sweeps.len(),
        forall|k: int| 0 <= k < s.history_sweeps.len() ==> #[trigger] spec_reconcile(s).history_sweeps[k]
            == orphan_failed(s.history_sweeps[k], s.jobs, HISTORY_SWEEP_KIND@),
        spec_reconcile(s).reextraction_batches.len() == s.reextraction_batches.len(),
        forall|k: int| 0 <= k < s.reextraction_batches.len() ==> #[trigger] spec_reconcile(s).reextraction_batches[k]
            == orphan_failed(s.reextraction_batches[k], s.jobs, PIPELINE_REEXTRACTION_KIND@),
{
    reveal_strlit("history_sweep");
    reveal_strlit("pipeline_reextraction");
    reveal_strlit("autopilot_stage");
    assert(HISTORY_SWEEP_KIND@.len() == 13);
    assert(PIPELINE_REEXTRACTION_KIND@.len() == 21);
    assert(AUTOPILOT_STAGE_KIND@.len() == 15);
    lemma_reconcile_runs_keeps_other_kinds(s.runs, s.jobs);
    let j = spec_reconcile_runs(s.runs, s.jobs).1;
    assert forall|k: int| 0 <= k < s.history_sweeps.len() implies #[trigger] spec_reconcile(s).history_sweeps[k]
        == orphan_failed(s.history_sweeps[k], s.jobs, HISTORY_SWEEP_KIND@) by {
        lemma_liveness_kept(s.jobs, j, AUTOPILOT_STAGE_KIND@, HISTORY_SWEEP_KIND@, s.history_sweeps[k].id);
    }
    assert forall|k: int| 0 <= k < s.reextraction_batches.len() implies #[trigger] spec_reconcile(s).reextraction_batches[k]
        == orphan_failed(s.reextraction_batches[k], s.jobs, PIPELINE_REEXTRACTION_KIND@) by {
        lemma_liveness_kept(s.jobs, j, AUTOPILOT_STAGE_KIND@, PIPELINE_REEXTRACTION_KIND@, s.reextraction_batches[k].id);
    }
}

} // verus!
