//! Autopilot run records and the queue jobs that drive their stages. A run is
//! keyed by a deterministic id; each stage of it is driven by one
//! `autopilot_stage` job whose id is deterministic too
//! (`autopilot:{run}:{stage}`), so re-arming a stage never creates a second
//! job for it.

use vstd::prelude::*;
use crate::activity::opt_text;
use crate::autopilot::{spec_stage_job_id, stage_job_id, STAGE_CROSS_REFERENCE, STAGE_DIFF, STAGE_EXTRACT, STAGE_FETCH, STAGE_MAX_ATTEMPTS, STAGE_NOTIFY};
use crate::json::{json_string, spec_json_string};
use crate::kinds::AUTOPILOT_STAGE_KIND;
use crate::queue::{
    ids_unique, keeps_open_rows, keeps_other_kinds, lemma_keeps_open_rows_trans, lemma_keeps_other_kinds_trans, lemma_reschedule,
    lemma_reschedule_keeps_other_kinds, lemma_reschedule_rows, fresh_row, row_of, spec_reschedule, JobQueue, JobStatus, JobView,
};
use crate::text::{copy_opt, opt_owned, owned, str_eq};

verus! {

/// One autopilot run.
#[derive(Debug)]
pub struct AutopilotRun {
    pub id: String,
    pub company_id: String,
    pub report_document_id: String,
    pub trigger: String,
    pub mode: String,
    pub sweep_id: Option<String>,
    /// `pending`, `running`, `succeeded`, `failed` or `partial`.
    pub status: String,
    /// The stage last started (`fetch` on a fresh run).
    pub stage: String,
    pub summary: Option<String>,
    pub last_error: Option<String>,
    pub kpi_delta_json: Option<String>,
    pub report_diff_ref: Option<String>,
    pub cross_refs_json: Option<String>,
}

/// [`AutopilotRun`] with its text as characters.
pub struct RunView {
    pub id: Seq<char>,
    pub company_id: Seq<char>,
    pub report_document_id: Seq<char>,
    pub trigger: Seq<char>,
    pub mode: Seq<char>,
    pub sweep_id: Option<Seq<char>>,
    pub status: Seq<char>,
    pub stage: Seq<char>,
    pub summary: Option<Seq<char>>,
    pub last_error: Option<Seq<char>>,
    pub kpi_delta_json: Option<Seq<char>>,
    pub report_diff_ref: Option<Seq<char>>,
    pub cross_refs_json: Option<Seq<char>>,
}

impl View for AutopilotRun {
    type V = RunView;

    open spec fn view(&self) -> RunView {
        RunView {
            id: self.id@,
            company_id: self.company_id@,
            report_document_id: self.report_document_id@,
            trigger: self.trigger@,
            mode: self.mode@,
            sweep_id: opt_text(self.sweep_id),
            status: self.status@,
            stage: self.stage@,
            summary: opt_text(self.summary),
            last_error: opt_text(self.last_error),
            kpi_delta_json: opt_text(self.kpi_delta_json),
            report_diff_ref: opt_text(self.report_diff_ref),
            cross_refs_json: opt_text(self.cross_refs_json),
        }
    }
}

/// An optional string slice as optional characters.
pub open spec fn opt_chars(o: Option<&str>) -> Option<Seq<char>> {
    match o {
        Some(s) => Some(s@),
        None => None,
    }
}

/// A run still in flight.
pub open spec fn is_open_status(status: Seq<char>) -> bool {
    status == "pending"@ || status == "running"@
}

/// A finished run.
pub open spec fn is_terminal_status(status: Seq<char>) -> bool {
    status == "succeeded"@ || status == "failed"@ || status == "partial"@
}

/// A freshly created run: pending at the fetch stage, nothing recorded yet.
pub open spec fn fresh_run(
    id: Seq<char>,
    company_id: Seq<char>,
    report_document_id: Seq<char>,
    trigger: Seq<char>,
    mode: Seq<char>,
    sweep_id: Option<Seq<char>>,
) -> RunView {
    RunView {
        id,
        company_id,
        report_document_id,
        trigger,
        mode,
        sweep_id,
        status: "pending"@,
        stage: STAGE_FETCH@,
        summary: None,
        last_error: None,
        kpi_delta_json: None,
        report_diff_ref: None,
        cross_refs_json: None,
    }
}

/// The position of the run with id `id` at or after `i`, or -1.
pub open spec fn run_index_from(runs: Seq<RunView>, id: Seq<char>, i: int) -> int
    decreases runs.len() - i,
{
    if i < 0 || i >= runs.len() {
        -1
    } else if runs[i].id == id {
        i
    } else {
        run_index_from(runs, id, i + 1)
    }
}

/// The position of the run with id `id`, or -1.
pub open spec fn run_index(runs: Seq<RunView>, id: Seq<char>) -> int {
    run_index_from(runs, id, 0)
}

/// No two runs share an id.
pub open spec fn run_ids_unique(runs: Seq<RunView>) -> bool {
    forall|i: int, j: int| 0 <= i < j < runs.len() ==> runs[i].id != runs[j].id
}

proof fn lemma_run_index_from(runs: Seq<RunView>, id: Seq<char>, i: int)
    requires
        0 <= i <= runs.len(),
    ensures
        run_index_from(runs, id, i) == -1 || (i <= run_index_from(runs, id, i) < runs.len()
            && runs[run_index_from(runs, id, i)].id == id),
        run_index_from(runs, id, i) == -1 <==> forall|k: int| i <= k < runs.len() ==> #[trigger] runs[k].id != id,
        forall|k: int| i <= k < runs.len() && #[trigger] runs[k].id == id ==> run_index_from(runs, id, i) <= k,
    decreases runs.len() - i,
{
    if i < runs.len() {
        lemma_run_index_from(runs, id, i + 1);
    }
}

/// What [`run_index`] gives on runs with unique ids.
pub proof fn lemma_run_index(runs: Seq<RunView>, id: Seq<char>)
    requires
        run_ids_unique(runs),
    ensures
        run_index(runs, id) == -1 <==> forall|k: int| 0 <= k < runs.len() ==> #[trigger] runs[k].id != id,
        run_index(runs, id) != -1 ==> 0 <= run_index(runs, id) < runs.len() && runs[run_index(runs, id)].id == id,
        forall|k: int| 0 <= k < runs.len() && #[trigger] runs[k].id == id ==> run_index(runs, id) == k,
{
    lemma_run_index_from(runs, id, 0);
}

/// The JSON payload of the stage job for `stage` of `run_id`.
pub open spec fn spec_stage_payload(run_id: Seq<char>, stage: Seq<char>) -> Seq<char> {
    "{\"run_id\":"@ + spec_json_string(run_id) + ",\"stage\":"@ + spec_json_string(stage) + "}"@
}

/// The JSON payload `{"run_id":..,"stage":..}` of a stage job.
pub fn stage_payload(run_id: &str, stage: &str) -> (r: String)
    ensures
        r@ == spec_stage_payload(run_id@, stage@),
{
    let mut s = owned("{\"run_id\":");
    let a = json_string(run_id);
    s.append(a.as_str());
    s.append(",\"stage\":");
    let b = json_string(stage);
    s.append(b.as_str());
    s.append("}");
    s
}

/// The queue after re-arming the job for `stage` of `run_id`.
pub open spec fn spec_enqueue_stage(jobs: Seq<JobView>, run_id: Seq<char>, stage: Seq<char>) -> Seq<JobView> {
    spec_reschedule(jobs, spec_stage_job_id(run_id, stage), AUTOPILOT_STAGE_KIND@, spec_stage_payload(run_id, stage), STAGE_MAX_ATTEMPTS)
}

/// Re-arm the queue job driving `stage` of `run_id` (see
/// [`JobQueue::reschedule`]): a missing or finished job is armed afresh, a
/// pending one stays, a running one is never disturbed. `false` only when the
/// job is running.
pub fn enqueue_stage(jobs: &mut JobQueue, run_id: &str, stage: &str) -> (armed: bool)
    requires
        old(jobs).wf(),
    ensures
        final(jobs).wf(),
        final(jobs)@ == spec_enqueue_stage(old(jobs)@, run_id@, stage@),
        armed == !(row_of(old(jobs)@, spec_stage_job_id(run_id@, stage@)) is Some
            && row_of(old(jobs)@, spec_stage_job_id(run_id@, stage@))->0.status == JobStatus::Running),
{
    let payload = stage_payload(run_id, stage);
    let job_id = stage_job_id(run_id, stage);
    jobs.reschedule(job_id.as_str(), AUTOPILOT_STAGE_KIND, payload.as_str(), STAGE_MAX_ATTEMPTS)
}

/// The job `id` is a live (pending or running) stage job.
pub open spec fn is_live_stage_job(jobs: Seq<JobView>, id: Seq<char>) -> bool {
    match row_of(jobs, id) {
        Some(row) => row.kind == AUTOPILOT_STAGE_KIND@
            && (row.status == JobStatus::Pending || row.status == JobStatus::Running),
        None => false,
    }
}

/// The five stage names in pipeline order.
pub open spec fn stage_names() -> Seq<Seq<char>> {
    seq![STAGE_FETCH@, STAGE_EXTRACT@, STAGE_DIFF@, STAGE_CROSS_REFERENCE@, STAGE_NOTIFY@]
}

/// `run_id` has a live stage job: exactly one of its five stage job ids names
/// a pending or running `autopilot_stage` job.
pub open spec fn spec_has_live_stage_job(jobs: Seq<JobView>, run_id: Seq<char>) -> bool {
    exists|k: int| 0 <= k < 5 && #[trigger] is_live_stage_job(jobs, spec_stage_job_id(run_id, stage_names()[k]))
}

fn live_stage_job(jobs: &JobQueue, run_id: &str, stage: &str) -> (r: bool)
    ensures
        r == is_live_stage_job(jobs@, spec_stage_job_id(run_id@, stage@)),
{
    let id = stage_job_id(run_id, stage);
    match jobs.status(id.as_str()) {
        Some(row) => str_eq(row.kind.as_str(), AUTOPILOT_STAGE_KIND)
            && (row.status == JobStatus::Pending || row.status == JobStatus::Running),
        None => false,
    }
}

/// Whether `run_id` has a live stage job right now (an exact match over its
/// five stage job ids).
pub fn has_live_stage_job(jobs: &JobQueue, run_id: &str) -> (r: bool)
    ensures
        r == spec_has_live_stage_job(jobs@, run_id@),
{
    let ghost names = stage_names();
    let a = live_stage_job(jobs, run_id, STAGE_FETCH);
    let b = live_stage_job(jobs, run_id, STAGE_EXTRACT);
    let c = live_stage_job(jobs, run_id, STAGE_DIFF);
    let d = live_stage_job(jobs, run_id, STAGE_CROSS_REFERENCE);
    let e = live_stage_job(jobs, run_id, STAGE_NOTIFY);
    proof {
        assert(names[0] == STAGE_FETCH@);
        assert(names[1] == STAGE_EXTRACT@);
        assert(names[2] == STAGE_DIFF@);
        assert(names[3] == STAGE_CROSS_REFERENCE@);
        assert(names[4] == STAGE_NOTIFY@);
        if a || b || c || d || e {
            if a { assert(is_live_stage_job(jobs@, spec_stage_job_id(run_id@, names[0]))); }
            if b { assert(is_live_stage_job(jobs@, spec_stage_job_id(run_id@, names[1]))); }
            if c { assert(is_live_stage_job(jobs@, spec_stage_job_id(run_id@, names[2]))); }
            if d { assert(is_live_stage_job(jobs@, spec_stage_job_id(run_id@, names[3]))); }
            if e { assert(is_live_stage_job(jobs@, spec_stage_job_id(run_id@, names[4]))); }
        } else {
            assert forall|k: int| 0 <= k < 5 implies !#[trigger] is_live_stage_job(jobs@, spec_stage_job_id(run_id@, names[k])) by {
                if k == 0 {} else if k == 1 {} else if k == 2 {} else if k == 3 {} else {}
            }
        }
    }
    a || b || c || d || e
}

fn copy_run(run: &AutopilotRun) -> (r: AutopilotRun)
    ensures
        r@ == run@,
{
    AutopilotRun {
        id: run.id.clone(),
        company_id: run.company_id.clone(),
        report_document_id: run.report_document_id.clone(),
        trigger: run.trigger.clone(),
        mode: run.mode.clone(),
        sweep_id: copy_opt(&run.sweep_id),
        status: run.status.clone(),
        stage: run.stage.clone(),
        summary: copy_opt(&run.summary),
        last_error: copy_opt(&run.last_error),
        kpi_delta_json: copy_opt(&run.kpi_delta_json),
        report_diff_ref: copy_opt(&run.report_diff_ref),
        cross_refs_json: copy_opt(&run.cross_refs_json),
    }
}

/// The autopilot runs, in creation order, ids unique.
pub struct AutopilotRuns {
    runs: Vec<AutopilotRun>,
}

impl View for AutopilotRuns {
    type V = Seq<RunView>;

    closed spec fn view(&self) -> Seq<RunView> {
        self.runs@.map_values(|r: AutopilotRun| r@)
    }
}

/// The run with id `id`, if any.
pub open spec fn run_of(runs: Seq<RunView>, id: Seq<char>) -> Option<RunView> {
    let i = run_index(runs, id);
    if i < 0 { None } else { Some(runs[i]) }
}

/// `runs` with the run at `i` replaced by `run`.
pub open spec fn replaced(runs: Seq<RunView>, i: int, run: RunView) -> Seq<RunView> {
    runs.update(i, run)
}

impl AutopilotRuns {
    /// Run ids are unique.
    pub open spec fn wf(&self) -> bool {
        run_ids_unique(self@)
    }

    /// No runs.
    pub fn new() -> (r: AutopilotRuns)
        ensures
            r@ == Seq::<RunView>::empty(),
            r.wf(),
    {
        let r = AutopilotRuns { runs: Vec::new() };
        proof {
            assert(r@ =~= Seq::<RunView>::empty());
        }
        r
    }

    /// The number of runs.
    pub fn len(&self) -> (n: usize)
        ensures
            n == self@.len(),
    {
        self.runs.len()
    }

    /// The run at position `i`.
    pub fn at(&self, i: usize) -> (r: &AutopilotRun)
        requires
            i < self@.len(),
        ensures
            r@ == self@[i as int],
    {
        &self.runs[i]
    }

    fn position(&self, id: &str) -> (r: Option<usize>)
        requires
            self.wf(),
        ensures
            r is Some ==> r->0 as int == run_index(self@, id@) && r->0 < self@.len(),
            r is None ==> run_index(self@, id@) == -1,
    {
        proof {
            lemma_run_index(self@, id@);
        }
        let mut i: usize = 0;
        while i < self.runs.len()
            invariant
                self.wf(),
                i <= self.runs@.len(),
                self@.len() == self.runs@.len(),
                forall|k: int| 0 <= k < i ==> #[trigger] self@[k].id != id@,
            decreases self.runs.len() - i,
        {
            if str_eq(self.runs[i].id.as_str(), id) {
                assert(self@[i as int].id == id@);
                proof {
                    lemma_run_index(self@, id@);
                }
                return Some(i);
            }
            i = i + 1;
        }
        proof {
            lemma_run_index(self@, id@);
        }
        None
    }

    fn put(&mut self, i: usize, run: AutopilotRun)
        requires
            old(self).wf(),
            i < old(self)@.len(),
            run@.id == old(self)@[i as int].id,
        ensures
            final(self).wf(),
            final(self)@ == old(self)@.update(i as int, run@),
    {
        self.runs.set(i, run);
        proof {
            assert(self@ =~= old(self)@.update(i as int, run@));
            let n = self@;
            assert forall|a: int, b: int| 0 <= a < b < n.len() implies n[a].id != n[b].id by {
                assert(n[a].id == old(self)@[a].id && n[b].id == old(self)@[b].id);
            }
        }
    }

    /// Create the run `id` unless one exists. `true` when it was created.
    pub fn create_run_if_absent(
        &mut self,
        id: &str,
        company_id: &str,
        report_document_id: &str,
        trigger: &str,
        mode: &str,
        sweep_id: Option<&str>,
    ) -> (created: bool)
        requires
            old(self).wf(),
        ensures
            final(self).wf(),
            created == (run_index(old(self)@, id@) == -1),
            created ==> final(self)@ == old(self)@.push(
                fresh_run(id@, company_id@, report_document_id@, trigger@, mode@, opt_chars(sweep_id)),
            ),
            !created ==> final(self)@ == old(self)@,
    {
        proof {
            lemma_run_index(old(self)@, id@);
        }
        match self.position(id) {
            Some(_) => false,
            None => {
                let run = AutopilotRun {
                    id: owned(id),
                    company_id: owned(company_id),
                    report_document_id: owned(report_document_id),
                    trigger: owned(trigger),
                    mode: owned(mode),
                    sweep_id: opt_owned(sweep_id),
                    status: owned("pending"),
                    stage: owned(STAGE_FETCH),
                    summary: None,
                    last_error: None,
                    kpi_delta_json: None,
                    report_diff_ref: None,
                    cross_refs_json: None,
                };
                self.runs.push(run);
                proof {
                    assert(self@ =~= old(self)@.push(
                        fresh_run(id@, company_id@, report_document_id@, trigger@, mode@, opt_chars(sweep_id)),
                    ));
                }
                true
            },
        }
    }

    /// The run `id`, if any.
    pub fn get_run(&self, id: &str) -> (r: Option<&AutopilotRun>)
        requires
            self.wf(),
        ensures
            r is Some <==> run_of(self@, id@) is Some,
            r is Some ==> r->0@ == run_of(self@, id@)->0,
    {
        match self.position(id) {
            Some(i) => Some(&self.runs[i]),
            None => None,
        }
    }

    /// Record that run `id` is at `stage` with `status`. `false` when no run
    /// has this id (nothing changes then).
    pub fn set_run_stage(&mut self, id: &str, stage: &str, status: &str) -> (found: bool)
        requires
            old(self).wf(),
        ensures
            final(self).wf(),
            found == (run_of(old(self)@, id@) is Some),
            found ==> final(self)@ == old(self)@.update(run_index(old(self)@, id@),
                RunView { stage: stage@, status: status@, ..old(self)@[run_index(old(self)@, id@)] }),
            !found ==> final(self)@ == old(self)@,
    {
        match self.position(id) {
            None => false,
            Some(i) => {
                let mut run = copy_run(&self.runs[i]);
                run.stage = owned(stage);
                run.status = owned(status);
                self.put(i, run);
                true
            },
        }
    }

    /// Finalize run `id`: its status, stage, summary and last error.
    pub fn finalize_run(
        &mut self,
        id: &str,
        status: &str,
        stage: &str,
        summary: Option<&str>,
        last_error: Option<&str>,
    ) -> (found: bool)
        requires
            old(self).wf(),
        ensures
            final(self).wf(),
            found == (run_of(old(self)@, id@) is Some),
            found ==> final(self)@ == old(self)@.update(run_index(old(self)@, id@), RunView {
                status: status@,
                stage: stage@,
                summary: opt_chars(summary),
                last_error: opt_chars(last_error),
                ..old(self)@[run_index(old(self)@, id@)]
            }),
            !found ==> final(self)@ == old(self)@,
    {
        match self.position(id) {
            None => false,
            Some(i) => {
                let mut run = copy_run(&self.runs[i]);
                run.status = owned(status);
                run.stage = owned(stage);
                run.summary = opt_owned(summary);
                run.last_error = opt_owned(last_error);
                self.put(i, run);
                true
            },
        }
    }

    /// Mark the run at `i` failed, keeping an error it already carries and
    /// else recording `error`.
    pub fn fail_at(&mut self, i: usize, error: &str)
        requires
            old(self).wf(),
            i < old(self)@.len(),
        ensures
            final(self).wf(),
            final(self)@ == old(self)@.update(i as int, RunView {
                status: "failed"@,
                last_error: Some(match old(self)@[i as int].last_error {
                    Some(e) => e,
                    None => error@,
                }),
                ..old(self)@[i as int]
            }),
    {
        let mut run = copy_run(&self.runs[i]);
        run.status = owned("failed");
        if run.last_error.is_none() {
            run.last_error = Some(owned(error));
        }
        self.put(i, run);
    }

    /// Re-arm a finished run for a fresh pass: pending at the fetch stage under
    /// `trigger` and `sweep_id`, with its previous summary and error cleared.
    pub fn rearm_run(&mut self, id: &str, trigger: &str, sweep_id: Option<&str>) -> (found: bool)
        requires
            old(self).wf(),
        ensures
            final(self).wf(),
            found == (run_of(old(self)@, id@) is Some),
            found ==> final(self)@ == old(self)@.update(run_index(old(self)@, id@), RunView {
                status: "pending"@,
                stage: STAGE_FETCH@,
                trigger: trigger@,
                sweep_id: opt_chars(sweep_id),
                summary: None,
                last_error: None,
                ..old(self)@[run_index(old(self)@, id@)]
            }),
            !found ==> final(self)@ == old(self)@,
    {
        match self.position(id) {
            None => false,
            Some(i) => {
                let mut run = copy_run(&self.runs[i]);
                run.status = owned("pending");
                run.stage = owned(STAGE_FETCH);
                run.trigger = owned(trigger);
                run.sweep_id = opt_owned(sweep_id);
                run.summary = None;
                run.last_error = None;
                self.put(i, run);
                true
            },
        }
    }

    /// Record the KPI delta JSON of run `id`.
    pub fn set_kpi_delta_json(&mut self, id: &str, delta: &str) -> (found: bool)
        requires
            old(self).wf(),
        ensures
            final(self).wf(),
            found == (run_of(old(self)@, id@) is Some),
            found ==> final(self)@ == old(self)@.update(run_index(old(self)@, id@),
                RunView { kpi_delta_json: Some(delta@), ..old(self)@[run_index(old(self)@, id@)] }),
            !found ==> final(self)@ == old(self)@,
    {
        match self.position(id) {
            None => false,
            Some(i) => {
                let mut run = copy_run(&self.runs[i]);
                run.kpi_delta_json = Some(owned(delta));
                self.put(i, run);
                true
            },
        }
    }

    /// Record the report-diff reference JSON of run `id`.
    pub fn set_report_diff_ref(&mut self, id: &str, diff_ref: &str) -> (found: bool)
        requires
            old(self).wf(),
        ensures
            final(self).wf(),
            found == (run_of(old(self)@, id@) is Some),
            found ==> final(self)@ == old(self)@.update(run_index(old(self)@, id@),
                RunView { report_diff_ref: Some(diff_ref@), ..old(self)@[run_index(old(self)@, id@)] }),
            !found ==> final(self)@ == old(self)@,
    {
        match self.position(id) {
            None => false,
            Some(i) => {
                let mut run = copy_run(&self.runs[i]);
                run.report_diff_ref = Some(owned(diff_ref));
                self.put(i, run);
                true
            },
        }
    }

    /// Record the cross-reference counts JSON of run `id`.
    pub fn set_cross_refs_json(&mut self, id: &str, refs: &str) -> (found: bool)
        requires
            old(self).wf(),
        ensures
            final(self).wf(),
            found == (run_of(old(self)@, id@) is Some),
            found ==> final(self)@ == old(self)@.update(run_index(old(self)@, id@),
                RunView { cross_refs_json: Some(refs@), ..old(self)@[run_index(old(self)@, id@)] }),
            !found ==> final(self)@ == old(self)@,
    {
        match self.position(id) {
            None => false,
            Some(i) => {
                let mut run = copy_run(&self.runs[i]);
                run.cross_refs_json = Some(owned(refs));
                self.put(i, run);
                true
            },
        }
    }
}


// ---------------------------------------------------------------------------
// Stranded runs after a restart.
// ---------------------------------------------------------------------------

/// `last_error` recorded on a run failed because its stage job is dead.
pub const NO_LIVE_STAGE_JOB: &'static str = "Interrupted by app restart: no live stage job";

/// The status words are distinct.
pub proof fn lemma_status_literals()
    ensures
        "failed"@ != "pending"@,
        "failed"@ != "running"@,
        "pending"@ != "running"@,
        "succeeded"@ != "pending"@,
        "succeeded"@ != "running"@,
{
    reveal_strlit("failed");
    reveal_strlit("pending");
    reveal_strlit("running");
    reveal_strlit("succeeded");
    assert("failed"@[0] != "pending"@[0]);
    assert("failed"@[0] != "running"@[0]);
    assert("pending"@[0] != "running"@[0]);
    assert("succeeded"@[0] != "pending"@[0]);
    assert("succeeded"@[0] != "running"@[0]);
}

/// `run` failed, keeping the error it carries, else recording `error`.
pub open spec fn failed_run(run: RunView, error: Seq<char>) -> RunView {
    RunView {
        status: "failed"@,
        last_error: Some(match run.last_error {
            Some(e) => e,
            None => error,
        }),
        ..run
    }
}

/// One run's restart rule. An open run with a live stage job is left alone;
/// one whose current stage job is dead-lettered (terminally failed) is
/// failed; any other (its stage job missing, or finished from a previous
/// life) has its current stage re-armed, its own status untouched.
pub open spec fn run_step(runs: Seq<RunView>, jobs: Seq<JobView>, i: int) -> (Seq<RunView>, Seq<JobView>) {
    let r = runs[i];
    if !is_open_status(r.status) || spec_has_live_stage_job(jobs, r.id) {
        (runs, jobs)
    } else {
        let cur = row_of(jobs, spec_stage_job_id(r.id, r.stage));
        if cur is Some && cur->0.status == JobStatus::Failed {
            (runs.update(i, failed_run(r, NO_LIVE_STAGE_JOB@)), jobs)
        } else {
            (runs, spec_enqueue_stage(jobs, r.id, r.stage))
        }
    }
}

/// The rule applied to the first `n` runs in order.
pub open spec fn reconcile_runs_upto(runs: Seq<RunView>, jobs: Seq<JobView>, n: nat) -> (Seq<RunView>, Seq<JobView>)
    decreases n,
{
    if n == 0 {
        (runs, jobs)
    } else {
        let p = reconcile_runs_upto(runs, jobs, (n - 1) as nat);
        run_step(p.0, p.1, n - 1)
    }
}

/// The restart rule applied to every run in order.
pub open spec fn spec_reconcile_runs(runs: Seq<RunView>, jobs: Seq<JobView>) -> (Seq<RunView>, Seq<JobView>) {
    reconcile_runs_upto(runs, jobs, runs.len())
}

/// Run `i` needs nothing more: it is finished, or it has a live stage job, or
/// its current stage job is pending or running.
pub open spec fn settled(runs: Seq<RunView>, jobs: Seq<JobView>, i: int) -> bool {
    let r = runs[i];
    let cur = row_of(jobs, spec_stage_job_id(r.id, r.stage));
    ||| !is_open_status(r.status)
    ||| spec_has_live_stage_job(jobs, r.id)
    ||| (cur is Some && (cur->0.status == JobStatus::Pending || cur->0.status == JobStatus::Running))
}

proof fn lemma_live_kept(a: Seq<JobView>, b: Seq<JobView>, run_id: Seq<char>)
    requires
        keeps_open_rows(a, b),
        spec_has_live_stage_job(a, run_id),
    ensures
        spec_has_live_stage_job(b, run_id),
{
    let k = choose|k: int| 0 <= k < 5 && #[trigger] is_live_stage_job(a, spec_stage_job_id(run_id, stage_names()[k]));
    let id = spec_stage_job_id(run_id, stage_names()[k]);
    assert(row_of(a, id) is Some);
    assert(row_of(b, id) == row_of(a, id));
    assert(is_live_stage_job(b, id));
}

proof fn lemma_settled_kept(runs: Seq<RunView>, a: Seq<JobView>, b: Seq<JobView>, i: int)
    requires
        0 <= i < runs.len(),
        keeps_open_rows(a, b),
        settled(runs, a, i),
    ensures
        settled(runs, b, i),
{
    let r = runs[i];
    if spec_has_live_stage_job(a, r.id) {
        lemma_live_kept(a, b, r.id);
    }
    let id = spec_stage_job_id(r.id, r.stage);
    if row_of(a, id) is Some && (row_of(a, id)->0.status == JobStatus::Pending || row_of(a, id)->0.status == JobStatus::Running) {
        assert(row_of(b, id) == row_of(a, id));
    }
}

/// One step keeps the runs' ids and every other run, keeps every open queue
/// row, and settles run `i`.
proof fn lemma_run_step(runs: Seq<RunView>, jobs: Seq<JobView>, i: int)
    requires
        0 <= i < runs.len(),
        ids_unique(jobs),
    ensures
        ({
            let (r2, j2) = run_step(runs, jobs, i);
            &&& r2.len() == runs.len()
            &&& forall|k: int| 0 <= k < runs.len() && k != i ==> #[trigger] r2[k] == runs[k]
            &&& r2[i].id == runs[i].id
            &&& keeps_open_rows(jobs, j2)
            &&& settled(r2, j2, i)
        }),
{
    let r = runs[i];
    assert forall|id: Seq<char>| #![trigger row_of(jobs, id)]
        row_of(jobs, id) is Some && (row_of(jobs, id)->0.status == JobStatus::Pending
            || row_of(jobs, id)->0.status == JobStatus::Running) implies row_of(jobs, id) == row_of(jobs, id) by {}
    if !is_open_status(r.status) || spec_has_live_stage_job(jobs, r.id) {
    } else {
        let cur = row_of(jobs, spec_stage_job_id(r.id, r.stage));
        if cur is Some && cur->0.status == JobStatus::Failed {
            lemma_status_literals();
        } else {
            lemma_reschedule(jobs, spec_stage_job_id(r.id, r.stage), AUTOPILOT_STAGE_KIND@, spec_stage_payload(r.id, r.stage), STAGE_MAX_ATTEMPTS);
        }
    }
}

/// After the rule ran over the first `n` runs: the ids are kept, the runs from
/// `n` on are untouched, every open queue row is kept and the first `n` runs
/// are settled.
proof fn lemma_upto(runs: Seq<RunView>, jobs: Seq<JobView>, n: nat)
    requires
        n <= runs.len(),
        ids_unique(jobs),
    ensures
        ({
            let (r2, j2) = reconcile_runs_upto(runs, jobs, n);
            &&& r2.len() == runs.len()
            &&& forall|k: int| 0 <= k < runs.len() ==> #[trigger] r2[k].id == runs[k].id
            &&& forall|k: int| n <= k < runs.len() ==> #[trigger] r2[k] == runs[k]
            &&& keeps_open_rows(jobs, j2)
            &&& forall|k: int| 0 <= k < n ==> #[trigger] settled(r2, j2, k)
        }),
    decreases n,
{
    if n == 0 {
        assert forall|id: Seq<char>| #![trigger row_of(jobs, id)]
            row_of(jobs, id) is Some && (row_of(jobs, id)->0.status == JobStatus::Pending
                || row_of(jobs, id)->0.status == JobStatus::Running) implies row_of(jobs, id) == row_of(jobs, id) by {}
    } else {
        let m = (n - 1) as nat;
        lemma_upto(runs, jobs, m);
        let (r1, j1) = reconcile_runs_upto(runs, jobs, m);
        lemma_run_step(r1, j1, m as int);
        let (r2, j2) = run_step(r1, j1, m as int);
        lemma_keeps_open_rows_trans(jobs, j1, j2);
        assert forall|k: int| 0 <= k < n implies #[trigger] settled(r2, j2, k) by {
            if k < m {
                assert(settled(r1, j1, k));
                assert(r2[k] == r1[k]);
                lemma_settled_kept(r1, j1, j2, k);
                assert(settled(r1, j2, k));
            }
        }
        assert forall|k: int| 0 <= k < runs.len() implies #[trigger] r2[k].id == runs[k].id by {
            if k != m {
                assert(r2[k] == r1[k]);
            }
        }
        assert forall|k: int| n <= k < runs.len() implies #[trigger] r2[k] == runs[k] by {
            assert(r2[k] == r1[k]);
        }
    }
}

/// When every run is settled, the rule changes nothing.
proof fn lemma_upto_settled(runs: Seq<RunView>, jobs: Seq<JobView>, n: nat)
    requires
        n <= runs.len(),
        forall|k: int| 0 <= k < runs.len() ==> #[trigger] settled(runs, jobs, k),
    ensures
        reconcile_runs_upto(runs, jobs, n) == (runs, jobs),
    decreases n,
{
    if n > 0 {
        lemma_upto_settled(runs, jobs, (n - 1) as nat);
        let i = n - 1;
        assert(settled(runs, jobs, i));
        let r = runs[i];
        if is_open_status(r.status) && !spec_has_live_stage_job(jobs, r.id) {
            let id = spec_stage_job_id(r.id, r.stage);
            let idx = crate::queue::index_of(jobs, id);
            assert(spec_reschedule(jobs, id, AUTOPILOT_STAGE_KIND@, spec_stage_payload(r.id, r.stage), STAGE_MAX_ATTEMPTS) == jobs);
        }
    }
}

/// The restart rule over the first `n` runs writes only stage jobs: every
/// queue row of another kind is left as it was.
proof fn lemma_upto_keeps_other_kinds(runs: Seq<RunView>, jobs: Seq<JobView>, n: nat)
    requires
        n <= runs.len(),
        ids_unique(jobs),
    ensures
        keeps_other_kinds(jobs, reconcile_runs_upto(runs, jobs, n).1, AUTOPILOT_STAGE_KIND@),
    decreases n,
{
    if n == 0 {
        assert forall|id: Seq<char>| #![trigger row_of(jobs, id)]
            row_of(jobs, id) is Some && row_of(jobs, id)->0.kind != AUTOPILOT_STAGE_KIND@
            implies row_of(jobs, id) == row_of(jobs, id) by {}
    } else {
        let m = (n - 1) as nat;
        lemma_upto_keeps_other_kinds(runs, jobs, m);
        lemma_upto(runs, jobs, m);
        let (r1, j1) = reconcile_runs_upto(runs, jobs, m);
        let (r2, j2) = run_step(r1, j1, m as int);
        let r = r1[m as int];
        if j2 == j1 {
            lemma_keeps_other_kinds_trans(jobs, j1, j2, AUTOPILOT_STAGE_KIND@);
        } else {
            lemma_reschedule_keeps_other_kinds(j1, spec_stage_job_id(r.id, r.stage), AUTOPILOT_STAGE_KIND@,
                spec_stage_payload(r.id, r.stage), STAGE_MAX_ATTEMPTS);
            lemma_keeps_other_kinds_trans(jobs, j1, j2, AUTOPILOT_STAGE_KIND@);
        }
    }
}

/// The restart rule writes only stage jobs: every queue row of another kind
/// is left as it was.
pub proof fn lemma_reconcile_runs_keeps_other_kinds(runs: Seq<RunView>, jobs: Seq<JobView>)
    requires
        ids_unique(jobs),
    ensures
        keeps_other_kinds(jobs, spec_reconcile_runs(runs, jobs).1, AUTOPILOT_STAGE_KIND@),
        keeps_open_rows(jobs, spec_reconcile_runs(runs, jobs).1),
{
    lemma_upto_keeps_other_kinds(runs, jobs, runs.len());
    lemma_upto(runs, jobs, runs.len());
}

/// Over the first `n` runs the rule leaves each run as it was or fails one
/// that was open with no live stage job in the queue it started from.
proof fn lemma_upto_runs_outcome(runs: Seq<RunView>, jobs: Seq<JobView>, n: nat)
    requires
        n <= runs.len(),
        ids_unique(jobs),
    ensures
        forall|k: int| 0 <= k < n ==> {
            let r = #[trigger] reconcile_runs_upto(runs, jobs, n).0[k];
            ||| r == runs[k]
            ||| (is_open_status(runs[k].status) && !spec_has_live_stage_job(jobs, runs[k].id)
                && r == failed_run(runs[k], NO_LIVE_STAGE_JOB@))
        },
    decreases n,
{
    if n > 0 {
        let m = (n - 1) as nat;
        lemma_upto_runs_outcome(runs, jobs, m);
        lemma_upto(runs, jobs, m);
        let (r1, j1) = reconcile_runs_upto(runs, jobs, m);
        lemma_run_step(r1, j1, m as int);
        let (r2, j2) = run_step(r1, j1, m as int);
        assert(r1[m as int] == runs[m as int]);
        if spec_has_live_stage_job(jobs, runs[m as int].id) {
            lemma_live_kept(jobs, j1, runs[m as int].id);
        }
        assert forall|k: int| 0 <= k < n implies {
            let r = #[trigger] reconcile_runs_upto(runs, jobs, n).0[k];
            ||| r == runs[k]
            ||| (is_open_status(runs[k].status) && !spec_has_live_stage_job(jobs, runs[k].id)
                && r == failed_run(runs[k], NO_LIVE_STAGE_JOB@))
        } by {
            if k < m {
                assert(r2[k] == r1[k]);
                assert(reconcile_runs_upto(runs, jobs, m).0[k] == r1[k]);
            }
        }
    }
}

/// What the restart rule does to the runs and the queue: afterwards no open
/// run is stranded (each run is finished, or has a live stage job, or its
/// current stage job is pending or running); each run is either left as it
/// was or, when it was open with no live stage job at startup, failed with
/// [`NO_LIVE_STAGE_JOB`], so a finished run and a run with a live stage job
/// are never touched; every pending or running queue row is kept, and rows
/// of other kinds than stage jobs are left as they were.
pub proof fn lemma_reconcile_runs_settles_every_run(runs: Seq<RunView>, jobs: Seq<JobView>)
    requires
        ids_unique(jobs),
    ensures
        ({
            let (r2, j2) = spec_reconcile_runs(runs, jobs);
            &&& r2.len() == runs.len()
            &&& forall|k: int| 0 <= k < runs.len() ==> #[trigger] settled(r2, j2, k)
            &&& forall|k: int| 0 <= k < runs.len() ==> {
                ||| #[trigger] r2[k] == runs[k]
                ||| (is_open_status(runs[k].status) && !spec_has_live_stage_job(jobs, runs[k].id)
                    && r2[k] == failed_run(runs[k], NO_LIVE_STAGE_JOB@))
            }
            &&& keeps_open_rows(jobs, j2)
            &&& keeps_other_kinds(jobs, j2, AUTOPILOT_STAGE_KIND@)
        }),
{
    lemma_upto(runs, jobs, runs.len());
    lemma_upto_runs_outcome(runs, jobs, runs.len());
    lemma_upto_keeps_other_kinds(runs, jobs, runs.len());
}

/// `s` holds no colon.
pub open spec fn has_no_colon(s: Seq<char>) -> bool {
    forall|i: int| 0 <= i < s.len() ==> s[i] != ':'
}

/// A stage job id names its run and stage: two ids of stages without a colon
/// are equal only for the same run and stage.
proof fn lemma_stage_job_id_injective(r1: Seq<char>, s1: Seq<char>, r2: Seq<char>, s2: Seq<char>)
    requires
        has_no_colon(s1),
        has_no_colon(s2),
        spec_stage_job_id(r1, s1) == spec_stage_job_id(r2, s2),
    ensures
        r1 == r2,
        s1 == s2,
{
    reveal_strlit("autopilot:");
    reveal_strlit(":");
    let p = "autopilot:"@;
    assert(p.len() == 10);
    let a1 = p + r1 + ":"@ + s1;
    let a2 = p + r2 + ":"@ + s2;
    assert(a1 == a2);
    if s1.len() < s2.len() {
        let q: int = 10int + r1.len();
        assert(a1[q] == ':');
        assert(a2[q] == s2[q - 10 - r2.len() - 1]);
        assert(false);
    }
    if s2.len() < s1.len() {
        let q: int = 10int + r2.len();
        assert(a2[q] == ':');
        assert(a1[q] == s1[q - 10 - r1.len() - 1]);
        assert(false);
    }
    assert(r1.len() == r2.len());
    assert forall|i: int| 0 <= i < r1.len() implies r1[i] == r2[i] by {
        assert(a1[10 + i] == r1[i]);
        assert(a2[10 + i] == r2[i]);
    }
    assert(r1 =~= r2);
    assert forall|i: int| 0 <= i < s1.len() implies s1[i] == s2[i] by {
        assert(a1[11 + r1.len() + i] == s1[i]);
        assert(a2[11 + r2.len() + i] == s2[i]);
    }
    assert(s1 =~= s2);
}

/// The stage names hold no colon.
proof fn lemma_stage_names_no_colon()
    ensures
        forall|q: int| 0 <= q < 5 ==> has_no_colon(#[trigger] stage_names()[q]),
{
    reveal_strlit("fetch");
    reveal_strlit("extract");
    reveal_strlit("diff");
    reveal_strlit("cross_reference");
    reveal_strlit("notify");
}

/// The rule over runs `a` to `n` leaves the queue row under `x` as it was
/// when no run among them names `x` as its current stage job.
proof fn lemma_upto_foreign_rows(runs: Seq<RunView>, jobs: Seq<JobView>, a: nat, n: nat, x: Seq<char>)
    requires
        a <= n <= runs.len(),
        ids_unique(jobs),
        forall|j: int| a <= j < n ==> spec_stage_job_id(#[trigger] runs[j].id, runs[j].stage) != x,
    ensures
        row_of(reconcile_runs_upto(runs, jobs, n).1, x) == row_of(reconcile_runs_upto(runs, jobs, a).1, x),
    decreases n,
{
    if n > a {
        let m = (n - 1) as nat;
        lemma_upto_foreign_rows(runs, jobs, a, m, x);
        lemma_upto(runs, jobs, m);
        let (r1, j1) = reconcile_runs_upto(runs, jobs, m);
        let r = r1[m as int];
        assert(r == runs[m as int]);
        assert(spec_stage_job_id(runs[m as int].id, runs[m as int].stage) != x);
        lemma_reschedule_rows(j1, spec_stage_job_id(r.id, r.stage), AUTOPILOT_STAGE_KIND@,
            spec_stage_payload(r.id, r.stage), STAGE_MAX_ATTEMPTS, x);
    }
}

/// The rule over runs `a` to `n` leaves run `k` (before `a`) as it was.
proof fn lemma_upto_keeps_run(runs: Seq<RunView>, jobs: Seq<JobView>, a: nat, n: nat, k: int)
    requires
        0 <= k < a <= n <= runs.len(),
        ids_unique(jobs),
    ensures
        reconcile_runs_upto(runs, jobs, n).0[k] == reconcile_runs_upto(runs, jobs, a).0[k],
    decreases n,
{
    if n > a {
        let m = (n - 1) as nat;
        lemma_upto_keeps_run(runs, jobs, a, m, k);
        lemma_upto(runs, jobs, m);
        let (r1, j1) = reconcile_runs_upto(runs, jobs, m);
        lemma_run_step(r1, j1, m as int);
    }
}

/// What the restart rule does to a stranded run, one open with no live
/// stage job at startup (run ids unique, stages without a colon): when its
/// current stage job is dead-lettered (terminally failed) the run is failed
/// with [`NO_LIVE_STAGE_JOB`]; when that job is missing or has succeeded (a
/// stale row of an earlier life), the run is left as it was and its current
/// stage job is re-armed as a fresh pending stage job.
pub proof fn lemma_reconcile_stranded_run(runs: Seq<RunView>, jobs: Seq<JobView>, k: int)
    requires
        ids_unique(jobs),
        run_ids_unique(runs),
        forall|j: int| 0 <= j < runs.len() ==> has_no_colon(#[trigger] runs[j].stage),
        0 <= k < runs.len(),
        is_open_status(runs[k].status),
        !spec_has_live_stage_job(jobs, runs[k].id),
    ensures
        ({
            let cur = spec_stage_job_id(runs[k].id, runs[k].stage);
            let (r2, j2) = spec_reconcile_runs(runs, jobs);
            &&& (row_of(jobs, cur) matches Some(row) && row.status == JobStatus::Failed)
                ==> r2[k] == failed_run(runs[k], NO_LIVE_STAGE_JOB@)
            &&& (row_of(jobs, cur) is None || row_of(jobs, cur)->0.status == JobStatus::Succeeded)
                ==> r2[k] == runs[k] && row_of(j2, cur) == Some(fresh_row(cur, AUTOPILOT_STAGE_KIND@,
                    spec_stage_payload(runs[k].id, runs[k].stage), STAGE_MAX_ATTEMPTS))
        }),
{
    let id = runs[k].id;
    let cur = spec_stage_job_id(id, runs[k].stage);
    lemma_stage_names_no_colon();
    // Before run `k`, no earlier run touches a stage job of run `k`.
    assert forall|s: Seq<char>| has_no_colon(s) implies
        row_of(reconcile_runs_upto(runs, jobs, k as nat).1, #[trigger] spec_stage_job_id(id, s))
            == row_of(jobs, spec_stage_job_id(id, s)) by {
        assert forall|j: int| 0 <= j < k implies spec_stage_job_id(#[trigger] runs[j].id, runs[j].stage)
            != spec_stage_job_id(id, s) by {
            if spec_stage_job_id(runs[j].id, runs[j].stage) == spec_stage_job_id(id, s) {
                lemma_stage_job_id_injective(runs[j].id, runs[j].stage, id, s);
            }
        }
        lemma_upto_foreign_rows(runs, jobs, 0, k as nat, spec_stage_job_id(id, s));
    }
    lemma_upto(runs, jobs, k as nat);
    let (r1, j1) = reconcile_runs_upto(runs, jobs, k as nat);
    assert(r1[k] == runs[k]);
    assert(!spec_has_live_stage_job(j1, id)) by {
        if spec_has_live_stage_job(j1, id) {
            let q = choose|q: int| 0 <= q < 5 && #[trigger] is_live_stage_job(j1, spec_stage_job_id(id, stage_names()[q]));
            assert(has_no_colon(stage_names()[q]));
            assert(row_of(j1, spec_stage_job_id(id, stage_names()[q])) == row_of(jobs, spec_stage_job_id(id, stage_names()[q])));
            assert(is_live_stage_job(jobs, spec_stage_job_id(id, stage_names()[q])));
        }
    }
    assert(row_of(j1, cur) == row_of(jobs, cur));
    let (rk, jk) = run_step(r1, j1, k);
    lemma_run_step(r1, j1, k);
    lemma_reschedule_rows(j1, cur, AUTOPILOT_STAGE_KIND@, spec_stage_payload(id, runs[k].stage), STAGE_MAX_ATTEMPTS, cur);
    let n = runs.len();
    lemma_upto_keeps_run(runs, jobs, (k + 1) as nat, n, k);
    assert forall|j: int| k + 1 <= j < n implies spec_stage_job_id(#[trigger] runs[j].id, runs[j].stage) != cur by {
        if spec_stage_job_id(runs[j].id, runs[j].stage) == cur {
            lemma_stage_job_id_injective(runs[j].id, runs[j].stage, id, runs[k].stage);
        }
    }
    lemma_upto_foreign_rows(runs, jobs, (k + 1) as nat, n, cur);
}

/// The restart rule is idempotent: a second pass over what the first left
/// changes neither the runs nor the queue.
pub proof fn lemma_reconcile_runs_idempotent(runs: Seq<RunView>, jobs: Seq<JobView>)
    requires
        ids_unique(jobs),
    ensures
        spec_reconcile_runs(spec_reconcile_runs(runs, jobs).0, spec_reconcile_runs(runs, jobs).1)
            == spec_reconcile_runs(runs, jobs),
        ids_unique(spec_reconcile_runs(runs, jobs).1),
{
    lemma_upto(runs, jobs, runs.len());
    let (r1, j1) = spec_reconcile_runs(runs, jobs);
    lemma_upto_settled(r1, j1, r1.len());
}

impl AutopilotRuns {
    /// Apply the restart rule ([`run_step`]) to every run, in order: a run
    /// stranded by a crash is re-armed at its last-started stage, or failed
    /// when that stage's job is dead-lettered; a run with a live stage job,
    /// and every finished run, is left alone.
    pub fn reconcile_stranded(&mut self, jobs: &mut JobQueue)
        requires
            old(self).wf(),
            old(jobs).wf(),
        ensures
            final(self).wf(),
            final(jobs).wf(),
            (final(self)@, final(jobs)@) == spec_reconcile_runs(old(self)@, old(jobs)@),
    {
        let n = self.len();
        let mut i: usize = 0;
        while i < n
            invariant
                self.wf(),
                jobs.wf(),
                old(jobs).wf(),
                n == old(self)@.len(),
                i <= n,
                (self@, jobs@) == reconcile_runs_upto(old(self)@, old(jobs)@, i as nat),
            decreases n - i,
        {
            proof {
                lemma_upto(old(self)@, old(jobs)@, i as nat);
            }
            let run = self.at(i);
            let open = str_eq(run.status.as_str(), "pending") || str_eq(run.status.as_str(), "running");
            let id = owned(run.id.as_str());
            let stage = owned(run.stage.as_str());
            if open && !has_live_stage_job(jobs, id.as_str()) {
                let job_id = stage_job_id(id.as_str(), stage.as_str());
                let dead = match jobs.status(job_id.as_str()) {
                    Some(row) => row.status == JobStatus::Failed,
                    None => false,
                };
                if dead {
                    self.fail_at(i, NO_LIVE_STAGE_JOB);
                } else {
                    let armed = enqueue_stage(jobs, id.as_str(), stage.as_str());
                }
            }
            i = i + 1;
        }
    }
}

} // verus!
