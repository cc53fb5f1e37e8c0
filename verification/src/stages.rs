//! Driving an autopilot run through its stages: what a stage job does with its
//! run once the stage's own outside work has an outcome, the run's final
//! summary, and the idempotent entry point that starts (or re-arms) a run for
//! one report document.

use vstd::prelude::*;
use crate::autopilot::{
    last_attempt_exhausted, next_stage, reason_code, spec_from_delta_reason, spec_next_stage,
    spec_stage_job_id, stage_job_id, KpiUnavailableReason, STAGE_CROSS_REFERENCE, STAGE_DIFF,
    STAGE_EXTRACT, STAGE_FETCH, STAGE_NOTIFY,
};
use crate::json::{
    json_bool_field, json_str_field, json_string, json_u64_field, spec_json_bool_field, spec_json_str_field,
    spec_json_string, spec_json_u64_field,
};
use crate::queue::{row_of, JobQueue, JobStatus, JobView};
use crate::runs::{
    enqueue_stage, fresh_run, is_open_status, is_terminal_status, lemma_run_index, opt_chars, run_ids_unique, run_index, run_of,
    spec_enqueue_stage, AutopilotRun, AutopilotRuns, RunView,
};
use crate::text::{concat2, concat3, decimal, owned, spec_decimal, str_eq};

verus! {

/// The payload of an `autopilot_stage` job: which run, which stage.
#[derive(Debug)]
pub struct StagePayload {
    pub run_id: String,
    pub stage: String,
}

/// Read a stage job's payload: both `run_id` and `stage` must be JSON strings.
pub fn parse_stage_payload(payload: &str) -> (r: Option<StagePayload>)
    ensures
        r is Some <==> (spec_json_str_field(payload@, "run_id"@) is Some
            && spec_json_str_field(payload@, "stage"@) is Some),
        r is Some ==> r->0.run_id@ == spec_json_str_field(payload@, "run_id"@)->0
            && r->0.stage@ == spec_json_str_field(payload@, "stage"@)->0,
{
    let run_id = json_str_field(payload, "run_id");
    let stage = json_str_field(payload, "stage");
    match (run_id, stage) {
        (Some(run_id), Some(stage)) => Some(StagePayload { run_id, stage }),
        _ => None,
    }
}

// ---------------------------------------------------------------------------
// The run summary.
// ---------------------------------------------------------------------------

/// A count read from JSON, absent read as zero.
pub open spec fn count_or_zero(o: Option<u64>) -> nat {
    match o {
        Some(n) => n as nat,
        None => 0,
    }
}

/// The KPI token of a run's delta: the typed reason when extraction was not
/// available, else the confirmed/proposed counts when the delta carries both.
pub open spec fn kpi_part(delta: Option<Seq<char>>) -> Seq<Seq<char>> {
    match delta {
        None => Seq::empty(),
        Some(d) => if spec_json_bool_field(d, "extractionAvailable"@) == Some(false) {
            let reason = match spec_json_str_field(d, "reason"@) {
                Some(r) => r,
                None => "no_deterministic_tier"@,
            };
            seq!["kpi_extraction_unavailable:"@ + reason_code(spec_from_delta_reason(reason))]
        } else {
            match (spec_json_u64_field(d, "factsAutoConfirmed"@), spec_json_u64_field(d, "factsProposed"@)) {
                (Some(c), Some(p)) => seq!["kpi_confirmed:"@ + spec_decimal(c as nat) + ":"@ + spec_decimal(p as nat)],
                _ => Seq::empty(),
            }
        },
    }
}

/// The token saying a report diff is available.
pub open spec fn diff_part(diff_ref: Option<Seq<char>>) -> Seq<Seq<char>> {
    if diff_ref is Some { seq!["report_diff_available"@] } else { Seq::empty() }
}

/// The cross-reference tokens: claims to verify (overdue plus due), open
/// research questions, and expectations to review, each only when non-zero.
pub open spec fn refs_part(refs: Option<Seq<char>>) -> Seq<Seq<char>> {
    match refs {
        None => Seq::empty(),
        Some(j) => {
            let to_verify = count_or_zero(spec_json_u64_field(j, "claimsOverdue"@))
                + count_or_zero(spec_json_u64_field(j, "claimsDue"@));
            let questions = count_or_zero(spec_json_u64_field(j, "openQuestions"@));
            let expectations = count_or_zero(spec_json_u64_field(j, "expectationsToReview"@));
            (if to_verify > 0 { seq!["claims_to_verify:"@ + spec_decimal(to_verify)] } else { Seq::empty() })
                + (if questions > 0 { seq!["research_questions:"@ + spec_decimal(questions)] } else { Seq::empty() })
                + (if expectations > 0 { seq!["expectations_to_review"@] } else { Seq::empty() })
        },
    }
}

/// `parts` joined with `sep` between neighbours.
pub open spec fn join(parts: Seq<Seq<char>>, sep: Seq<char>) -> Seq<char>
    decreases parts.len(),
{
    if parts.len() == 0 {
        Seq::empty()
    } else if parts.len() == 1 {
        parts[0]
    } else {
        join(parts.drop_last(), sep) + sep + parts.last()
    }
}

/// The typed token stream a finished run's notification carries: its tokens
/// joined with `"; "`, or `report_processed` when there is none.
pub open spec fn spec_summary(run: RunView) -> Seq<char> {
    let parts = kpi_part(run.kpi_delta_json) + diff_part(run.report_diff_ref) + refs_part(run.cross_refs_json);
    if parts.len() == 0 { "report_processed"@ } else { join(parts, "; "@) }
}

fn kpi_tokens(delta: &Option<String>) -> (r: Vec<String>)
    ensures
        r@.map_values(|s: String| s@) == kpi_part(crate::activity::opt_text(*delta)),
{
    let mut out: Vec<String> = Vec::new();
    if let Some(d) = delta {
        let d = d.as_str();
        if json_bool_field(d, "extractionAvailable") == Some(false) {
            let reason = match json_str_field(d, "reason") {
                Some(r) => r,
                None => owned("no_deterministic_tier"),
            };
            let code = KpiUnavailableReason::from_delta_reason(reason.as_str()).as_str();
            out.push(concat2("kpi_extraction_unavailable:", code));
        } else {
            let confirmed = json_u64_field(d, "factsAutoConfirmed");
            let proposed = json_u64_field(d, "factsProposed");
            if let (Some(c), Some(p)) = (confirmed, proposed) {
                let cs = decimal(c as u128);
                let ps = decimal(p as u128);
                let mut t = concat3("kpi_confirmed:", cs.as_str(), ":");
                t.append(ps.as_str());
                out.push(t);
            }
        }
    }
    proof {
        assert(out@.map_values(|s: String| s@) =~= kpi_part(crate::activity::opt_text(*delta)));
    }
    out
}

fn refs_tokens(refs: &Option<String>) -> (r: Vec<String>)
    ensures
        r@.map_values(|s: String| s@) == refs_part(crate::activity::opt_text(*refs)),
{
    let mut out: Vec<String> = Vec::new();
    if let Some(j) = refs {
        let j = j.as_str();
        let overdue: u64 = match json_u64_field(j, "claimsOverdue") { Some(n) => n, None => 0 };
        let due: u64 = match json_u64_field(j, "claimsDue") { Some(n) => n, None => 0 };
        let questions: u64 = match json_u64_field(j, "openQuestions") { Some(n) => n, None => 0 };
        let expectations: u64 = match json_u64_field(j, "expectationsToReview") { Some(n) => n, None => 0 };
        let to_verify: u128 = overdue as u128 + due as u128;
        if to_verify > 0 {
            let n = decimal(to_verify);
            out.push(concat2("claims_to_verify:", n.as_str()));
        }
        if questions > 0 {
            let n = decimal(questions as u128);
            out.push(concat2("research_questions:", n.as_str()));
        }
        if expectations > 0 {
            out.push(owned("expectations_to_review"));
        }
    }
    proof {
        assert(out@.map_values(|s: String| s@) =~= refs_part(crate::activity::opt_text(*refs)));
    }
    out
}

pub fn join_words(parts: &Vec<String>, sep: &str) -> (r: String)
    ensures
        r@ == join(parts@.map_values(|s: String| s@), sep@),
{
    let ghost views = parts@.map_values(|s: String| s@);
    let mut out = String::new();
    let mut i: usize = 0;
    proof {
        assert(views.take(0).len() == 0);
    }
    while i < parts.len()
        invariant
            i <= parts@.len(),
            views == parts@.map_values(|s: String| s@),
            out@ == join(views.take(i as int), sep@),
        decreases parts.len() - i,
    {
        proof {
            assert(views.take(i + 1).drop_last() =~= views.take(i as int));
            assert(views.take(i + 1).last() == parts@[i as int]@);
        }
        if i > 0 {
            out.append(sep);
        } else {
            proof {
                assert(out@ =~= Seq::<char>::empty());
            }
        }
        out.append(parts[i].as_str());
        proof {
            if i == 0 {
                assert(out@ =~= views.take(1)[0]);
            }
        }
        i = i + 1;
    }
    proof {
        assert(views.take(i as int) =~= views);
    }
    out
}

/// Compose a finished run's notification summary (see [`spec_summary`]).
pub fn compose_summary(run: &AutopilotRun) -> (r: String)
    ensures
        r@ == spec_summary(run@),
{
    let mut parts = kpi_tokens(&run.kpi_delta_json);
    let ghost a = parts@;
    if run.report_diff_ref.is_some() {
        parts.push(owned("report_diff_available"));
    }
    proof {
        assert(parts@.map_values(|s: String| s@) =~= kpi_part(run@.kpi_delta_json) + diff_part(run@.report_diff_ref));
    }
    let ghost b = parts@;
    let mut refs = refs_tokens(&run.cross_refs_json);
    parts.append(&mut refs);
    proof {
        assert(parts@.map_values(|s: String| s@) =~= kpi_part(run@.kpi_delta_json) + diff_part(run@.report_diff_ref)
            + refs_part(run@.cross_refs_json));
    }
    if parts.len() == 0 {
        owned("report_processed")
    } else {
        join_words(&parts, "; ")
    }
}

// ---------------------------------------------------------------------------
// Re-arming a finished run.
// ---------------------------------------------------------------------------

/// The reason a run recorded when it could not extract: only when its delta
/// says `extractionAvailable: false` and carries a string `reason`.
pub open spec fn spec_unavailable_reason(delta: Option<Seq<char>>) -> Option<Seq<char>> {
    match delta {
        Some(d) if spec_json_bool_field(d, "extractionAvailable"@) == Some(false) => spec_json_str_field(d, "reason"@),
        _ => None,
    }
}

/// The reason a run recorded when it could not extract.
pub fn extraction_unavailable_reason(kpi_delta_json: Option<&str>) -> (r: Option<String>)
    ensures
        crate::activity::opt_text(r) == spec_unavailable_reason(opt_chars(kpi_delta_json)),
{
    match kpi_delta_json {
        None => None,
        Some(d) => {
            if json_bool_field(d, "extractionAvailable") != Some(false) {
                return None;
            }
            json_str_field(d, "reason")
        },
    }
}

/// The pipeline version a run stamped into its delta, capped at `u32::MAX`;
/// a missing delta or version reads as 0.
pub open spec fn spec_stored_pipeline_version(delta: Option<Seq<char>>) -> u32 {
    match delta {
        Some(d) => match spec_json_u64_field(d, "pipelineVersion"@) {
            Some(v) => if v > u32::MAX { u32::MAX } else { v as u32 },
            None => 0,
        },
        None => 0,
    }
}

/// The pipeline version a run stamped into its delta.
pub fn stored_pipeline_version(kpi_delta_json: Option<&str>) -> (r: u32)
    ensures
        r == spec_stored_pipeline_version(opt_chars(kpi_delta_json)),
{
    match kpi_delta_json {
        None => 0,
        Some(d) => match json_u64_field(d, "pipelineVersion") {
            Some(v) => if v > 4294967295u64 { 4294967295u32 } else { v as u32 },
            None => 0,
        },
    }
}

/// The couldn't-extract reasons a capability upgrade can still overturn.
pub open spec fn is_rearm_reason(reason: Seq<char>) -> bool {
    reason == "no_deterministic_tier"@ || reason == "witness_fallback"@ || reason == "not_extractable"@
        || reason == "not_pdf"@ || reason == "no_stored_file"@ || reason == "skipped_budget"@
        || reason == "no_vision_provider"@
}

/// A finished run is re-armed only when it succeeded with a re-armable
/// couldn't-extract verdict stamped by an older pipeline version than
/// `current_version`, and its document is now extractable.
pub open spec fn spec_should_rearm(run: RunView, document_extractable: bool, current_version: u32) -> bool {
    &&& run.status == "succeeded"@
    &&& spec_unavailable_reason(run.kpi_delta_json) is Some
    &&& spec_stored_pipeline_version(run.kpi_delta_json) < current_version
    &&& is_rearm_reason(spec_unavailable_reason(run.kpi_delta_json)->0)
    &&& document_extractable
}

/// Re-arming a finished run: a succeeded run whose delta says
/// `extractionAvailable: false` with one of the gaps a capability upgrade can
/// overturn (`no_deterministic_tier`, `witness_fallback`, `not_extractable`,
/// `not_pdf`, `no_stored_file`, `skipped_budget`, `no_vision_provider`),
/// stamped by an older pipeline version, is re-armed exactly when its
/// document is now extractable; the by-design `pdf_document` gap, a run that
/// did not succeed, and a verdict of the current pipeline version or later
/// are never re-armed.
pub proof fn lemma_rearm_rule(
    run: RunView,
    delta: Seq<char>,
    reason: Seq<char>,
    version: u64,
    document_extractable: bool,
    current_version: u32,
)
    requires
        run.kpi_delta_json == Some(delta),
        spec_json_bool_field(delta, "extractionAvailable"@) == Some(false),
        spec_json_str_field(delta, "reason"@) == Some(reason),
        spec_json_u64_field(delta, "pipelineVersion"@) == Some(version),
    ensures
        (run.status == "succeeded"@ && version < current_version
            && (reason == "no_deterministic_tier"@ || reason == "witness_fallback"@ || reason == "not_extractable"@
                || reason == "not_pdf"@ || reason == "no_stored_file"@ || reason == "skipped_budget"@
                || reason == "no_vision_provider"@))
            ==> spec_should_rearm(run, document_extractable, current_version) == document_extractable,
        reason == "pdf_document"@ ==> !spec_should_rearm(run, document_extractable, current_version),
        run.status != "succeeded"@ ==> !spec_should_rearm(run, document_extractable, current_version),
        version >= current_version ==> !spec_should_rearm(run, document_extractable, current_version),
{
    reveal_strlit("pdf_document");
    reveal_strlit("no_deterministic_tier");
    reveal_strlit("witness_fallback");
    reveal_strlit("not_extractable");
    reveal_strlit("not_pdf");
    reveal_strlit("no_stored_file");
    reveal_strlit("skipped_budget");
    reveal_strlit("no_vision_provider");
    assert("pdf_document"@[1] != "no_deterministic_tier"@[1]);
    assert("pdf_document"@[0] != "witness_fallback"@[0]);
    assert("pdf_document"@[1] != "not_extractable"@[1]);
    assert("pdf_document"@[1] != "not_pdf"@[1]);
    assert("pdf_document"@[1] != "no_stored_file"@[1]);
    assert("pdf_document"@[0] != "skipped_budget"@[0]);
    assert("pdf_document"@[1] != "no_vision_provider"@[1]);
}

/// Whether a finished run should be re-armed for a fresh extraction attempt.
pub fn terminal_run_should_rearm(run: &AutopilotRun, document_extractable: bool, current_version: u32) -> (r: bool)
    ensures
        r == spec_should_rearm(run@, document_extractable, current_version),
{
    if !str_eq(run.status.as_str(), "succeeded") {
        return false;
    }
    let delta = match &run.kpi_delta_json {
        Some(d) => Some(d.as_str()),
        None => None,
    };
    let reason = match extraction_unavailable_reason(delta) {
        Some(r) => r,
        None => return false,
    };
    if stored_pipeline_version(delta) >= current_version {
        return false;
    }
    let r = reason.as_str();
    let rearmable = str_eq(r, "no_deterministic_tier") || str_eq(r, "witness_fallback") || str_eq(r, "not_extractable")
        || str_eq(r, "not_pdf") || str_eq(r, "no_stored_file") || str_eq(r, "skipped_budget")
        || str_eq(r, "no_vision_provider");
    rearmable && document_extractable
}


// ---------------------------------------------------------------------------
// Running one stage.
// ---------------------------------------------------------------------------

/// How a stage's own work (its fetch, extraction, diff or cross-reference)
/// ended: done, a transient failure the queue may retry, or a fatal one.
#[derive(Debug)]
pub enum StageOutcome {
    Done,
    Transient(String),
    Fatal(String),
}

/// How a stage's outcome counts: `None` for success, else whether the failure
/// is retryable and its message. Only the fetch stage fails transiently; any
/// other stage's failure is fatal, and an unknown stage is a fatal failure.
pub open spec fn stage_failure(stage: Seq<char>, outcome: StageOutcome) -> Option<(bool, Seq<char>)> {
    if stage == STAGE_FETCH@ {
        match outcome {
            StageOutcome::Done => None,
            StageOutcome::Transient(m) => Some((true, m@)),
            StageOutcome::Fatal(m) => Some((false, m@)),
        }
    } else if stage == STAGE_EXTRACT@ || stage == STAGE_DIFF@ || stage == STAGE_CROSS_REFERENCE@ {
        match outcome {
            StageOutcome::Done => None,
            StageOutcome::Transient(m) => Some((false, m@)),
            StageOutcome::Fatal(m) => Some((false, m@)),
        }
    } else {
        Some((false, "unknown autopilot stage: "@ + stage))
    }
}

/// The payload's run id and stage, when both are JSON strings.
pub open spec fn spec_payload(payload: Seq<char>) -> Option<(Seq<char>, Seq<char>)> {
    match (spec_json_str_field(payload, "run_id"@), spec_json_str_field(payload, "stage"@)) {
        (Some(r), Some(s)) => Some((r, s)),
        _ => None,
    }
}

/// A run finished by its notify stage: succeeded, with its summary.
pub open spec fn notified(run: RunView) -> RunView {
    RunView {
        status: "succeeded"@,
        stage: STAGE_NOTIFY@,
        summary: Some(spec_summary(run)),
        last_error: None,
        ..run
    }
}

/// A run stopped by a failed stage.
pub open spec fn stopped(run: RunView, stage: Seq<char>, message: Seq<char>) -> RunView {
    RunView {
        status: "failed"@,
        stage,
        summary: Some("Autopilot stopped at "@ + stage + " stage."@),
        last_error: Some(message),
        ..run
    }
}

/// What running one stage does: the runs and queue after it, and its reply
/// (`Err` with a message, or `Ok`). A malformed payload or an unknown run is
/// an error; a finished run is left alone. Otherwise the run is marked running
/// at the stage. The notify stage finalizes it as succeeded with its summary.
/// Any other stage's success re-arms the next stage, or, when the store
/// refuses that queue write (`hand_off` is `Err`), finalizes the run as failed
/// at the next stage with a typed reason while the stage's own reply stays
/// `Ok`; a transient failure with attempts left on the stage job is handed
/// back to the queue as an error; any other failure stops the run as failed.
pub open spec fn spec_run_stage(
    runs: Seq<RunView>,
    jobs: Seq<JobView>,
    payload: Seq<char>,
    outcome: StageOutcome,
    hand_off: Result<(), Seq<char>>,
) -> (Seq<RunView>, Seq<JobView>, Result<(), Seq<char>>) {
    match spec_payload(payload) {
        None => (runs, jobs, Err("invalid autopilot stage payload"@)),
        Some((run_id, stage)) => match run_of(runs, run_id) {
            None => (runs, jobs, Err("autopilot run not found: "@ + run_id)),
            Some(run) => if is_terminal_status(run.status) {
                (runs, jobs, Ok(()))
            } else {
                let i = run_index(runs, run_id);
                let started = RunView { stage, status: "running"@, ..run };
                let runs1 = runs.update(i, started);
                if stage == STAGE_NOTIFY@ {
                    (runs1.update(i, notified(started)), jobs, Ok(()))
                } else {
                    match stage_failure(stage, outcome) {
                        None => match spec_next_stage(stage) {
                            Some(n) => match hand_off {
                                Ok(_) => (runs1, spec_enqueue_stage(jobs, run_id, n), Ok(())),
                                Err(e) => (runs1.update(i, enqueue_failed(started, n, e)), jobs, Ok(())),
                            },
                            None => (runs1, jobs, Ok(())),
                        },
                        Some((transient, m)) => {
                            let row = row_of(jobs, spec_stage_job_id(run_id, stage));
                            if transient && row is Some && row->0.attempts < row->0.max_attempts {
                                (runs1, jobs, Err(m))
                            } else {
                                (runs1.update(i, stopped(started, stage, m)), jobs, Ok(()))
                            }
                        },
                    }
                }
            },
        },
    }
}

/// The reply of a stage run as plain values.
pub open spec fn reply_view(r: Result<(), String>) -> Result<(), Seq<char>> {
    match r {
        Ok(_) => Ok(()),
        Err(e) => Err(e@),
    }
}

/// Finish run `run_id` from its notify stage: succeeded, with its summary.
/// `false` when no run has this id.
pub fn finalize_notify(runs: &mut AutopilotRuns, run_id: &str) -> (found: bool)
    requires
        old(runs).wf(),
    ensures
        final(runs).wf(),
        found == (run_of(old(runs)@, run_id@) is Some),
        found ==> final(runs)@ == old(runs)@.update(run_index(old(runs)@, run_id@),
            notified(old(runs)@[run_index(old(runs)@, run_id@)])),
        !found ==> final(runs)@ == old(runs)@,
{
    let summary = match runs.get_run(run_id) {
        Some(run) => compose_summary(run),
        None => return false,
    };
    runs.finalize_run(run_id, "succeeded", STAGE_NOTIFY, Some(summary.as_str()), None)
}

/// Run one pipeline stage of the run a stage job names, given how the stage's
/// own work ended and the store's answer to the hand-off's queue write (see
/// [`spec_run_stage`]).
pub fn run_stage(
    runs: &mut AutopilotRuns,
    jobs: &mut JobQueue,
    payload: &str,
    outcome: StageOutcome,
    hand_off: Result<(), String>,
) -> (r: Result<(), String>)
    requires
        old(runs).wf(),
        old(jobs).wf(),
    ensures
        final(runs).wf(),
        final(jobs).wf(),
        ({
            let (rs, js, reply) = spec_run_stage(old(runs)@, old(jobs)@, payload@, outcome, reply_view(hand_off));
            &&& final(runs)@ == rs
            &&& final(jobs)@ == js
            &&& reply_view(r) == reply
        }),
{
    let p = match parse_stage_payload(payload) {
        Some(p) => p,
        None => return Err(owned("invalid autopilot stage payload")),
    };
    let run_id = p.run_id.as_str();
    let stage = p.stage.as_str();
    let status = match runs.get_run(run_id) {
        Some(run) => owned(run.status.as_str()),
        None => return Err(concat2("autopilot run not found: ", run_id)),
    };
    if str_eq(status.as_str(), "succeeded") || str_eq(status.as_str(), "failed") || str_eq(status.as_str(), "partial") {
        return Ok(());
    }
    let ghost i = run_index(old(runs)@, run_id@);
    let found = runs.set_run_stage(run_id, stage, "running");
    proof {
        lemma_run_index(old(runs)@, run_id@);
        lemma_run_index(runs@, run_id@);
        assert(runs@[i].id == run_id@);
    }
    if str_eq(stage, STAGE_NOTIFY) {
        let done = finalize_notify(runs, run_id);
        return Ok(());
    }
    let failure: Option<(bool, String)> = if str_eq(stage, STAGE_FETCH) {
        match outcome {
            StageOutcome::Done => None,
            StageOutcome::Transient(m) => Some((true, m)),
            StageOutcome::Fatal(m) => Some((false, m)),
        }
    } else if str_eq(stage, STAGE_EXTRACT) || str_eq(stage, STAGE_DIFF) || str_eq(stage, STAGE_CROSS_REFERENCE) {
        match outcome {
            StageOutcome::Done => None,
            StageOutcome::Transient(m) => Some((false, m)),
            StageOutcome::Fatal(m) => Some((false, m)),
        }
    } else {
        Some((false, concat2("unknown autopilot stage: ", stage)))
    };
    match failure {
        None => {
            if let Some(next) = next_stage(stage) {
                match hand_off {
                    Ok(()) => {
                        let armed = enqueue_stage(jobs, run_id, next);
                    },
                    Err(error) => {
                        let found = fail_run_stage_enqueue(runs, run_id, next, error.as_str());
                    },
                }
            }
            Ok(())
        },
        Some((transient, message)) => {
            if transient {
                let job_id = stage_job_id(run_id, stage);
                let exhausted = match jobs.status(job_id.as_str()) {
                    Some(row) => last_attempt_exhausted(row.attempts, row.max_attempts),
                    None => true,
                };
                if !exhausted {
                    return Err(message);
                }
            }
            let summary = concat3("Autopilot stopped at ", stage, " stage.");
            let done = runs.finalize_run(run_id, "failed", stage, Some(summary.as_str()), Some(message.as_str()));
            Ok(())
        },
    }
}


// ---------------------------------------------------------------------------
// Starting a run for one report document.
// ---------------------------------------------------------------------------

/// The outcome of starting a run for one report document.
#[derive(Debug, Clone, Copy, PartialEq, Eq, Structural)]
pub enum EnqueueExtractionOutcome {
    /// A fresh run was created and its first stage armed.
    Created,
    /// An existing open run had its current stage re-armed, or a finished run
    /// was re-armed from the fetch stage.
    Rearmed,
    /// A finished run that needs nothing more.
    DedupedTerminal,
    /// The stage could not be armed; the run is finalized failed.
    Failed,
}

/// What starting a run decided: arm `stage` of `run_id` (then report
/// `outcome`), or nothing to arm.
#[derive(Debug)]
pub enum ExtractionStep {
    Arm { run_id: String, stage: String, outcome: EnqueueExtractionOutcome },
    Settled(EnqueueExtractionOutcome),
}

/// The deterministic run id of `(company, document)`.
pub open spec fn spec_extraction_run_id(company_id: Seq<char>, document_id: Seq<char>) -> Seq<char> {
    "autopilot_run:"@ + company_id + ":"@ + document_id
}

/// A finished run re-armed for a fresh pass.
pub open spec fn rearmed(run: RunView, trigger: Seq<char>, sweep_id: Option<Seq<char>>) -> RunView {
    RunView {
        status: "pending"@,
        stage: STAGE_FETCH@,
        trigger,
        sweep_id,
        summary: None,
        last_error: None,
        ..run
    }
}

/// What [`begin_extraction_run`] does: the runs after it, the stage to arm
/// (run id and stage) if any, and the outcome. A missing run is created and
/// its fetch stage armed; an open run has its current stage re-armed; a
/// finished run that [`spec_should_rearm`] is re-armed from fetch; any other
/// finished run is left alone.
pub open spec fn spec_begin_extraction(
    runs: Seq<RunView>,
    company_id: Seq<char>,
    document_id: Seq<char>,
    trigger: Seq<char>,
    mode: Seq<char>,
    sweep_id: Option<Seq<char>>,
    document_extractable: bool,
    current_version: u32,
) -> (Seq<RunView>, Option<(Seq<char>, Seq<char>)>, EnqueueExtractionOutcome) {
    let id = spec_extraction_run_id(company_id, document_id);
    match run_of(runs, id) {
        None => (
            runs.push(fresh_run(id, company_id, document_id, trigger, mode, sweep_id)),
            Some((id, STAGE_FETCH@)),
            EnqueueExtractionOutcome::Created,
        ),
        Some(run) => if is_open_status(run.status) {
            (runs, Some((id, run.stage)), EnqueueExtractionOutcome::Rearmed)
        } else if spec_should_rearm(run, document_extractable, current_version) {
            (
                runs.update(run_index(runs, id), rearmed(run, trigger, sweep_id)),
                Some((id, STAGE_FETCH@)),
                EnqueueExtractionOutcome::Rearmed,
            )
        } else {
            (runs, None, EnqueueExtractionOutcome::DedupedTerminal)
        },
    }
}

/// A step as plain values.
pub open spec fn step_view(step: ExtractionStep) -> (Option<(Seq<char>, Seq<char>)>, EnqueueExtractionOutcome) {
    match step {
        ExtractionStep::Arm { run_id, stage, outcome } => (Some((run_id@, stage@)), outcome),
        ExtractionStep::Settled(outcome) => (None, outcome),
    }
}

/// Decide how to start (or re-arm) the run for one report document, and
/// record that on the runs; the stage to arm is handed back.
pub fn begin_extraction_run(
    runs: &mut AutopilotRuns,
    company_id: &str,
    document_id: &str,
    trigger: &str,
    mode: &str,
    sweep_id: Option<&str>,
    document_extractable: bool,
    current_version: u32,
) -> (step: ExtractionStep)
    requires
        old(runs).wf(),
    ensures
        final(runs).wf(),
        ({
            let (rs, arm, outcome) = spec_begin_extraction(old(runs)@, company_id@, document_id@, trigger@,
                mode@, opt_chars(sweep_id), document_extractable, current_version);
            &&& final(runs)@ == rs
            &&& step_view(step) == (arm, outcome)
        }),
{
    let mut run_id = concat3("autopilot_run:", company_id, ":");
    run_id.append(document_id);
    if runs.create_run_if_absent(run_id.as_str(), company_id, document_id, trigger, mode, sweep_id) {
        return ExtractionStep::Arm { run_id, stage: owned(STAGE_FETCH), outcome: EnqueueExtractionOutcome::Created };
    }
    let (open, stage, rearm) = match runs.get_run(run_id.as_str()) {
        Some(existing) => {
            let open = str_eq(existing.status.as_str(), "pending") || str_eq(existing.status.as_str(), "running");
            (open, owned(existing.stage.as_str()), terminal_run_should_rearm(existing, document_extractable, current_version))
        },
        None => {
            proof {
                lemma_run_index(runs@, run_id@);
            }
            return ExtractionStep::Settled(EnqueueExtractionOutcome::Failed);
        },
    };
    if open {
        ExtractionStep::Arm { run_id, stage, outcome: EnqueueExtractionOutcome::Rearmed }
    } else if rearm {
        let found = runs.rearm_run(run_id.as_str(), trigger, sweep_id);
        ExtractionStep::Arm { run_id, stage: owned(STAGE_FETCH), outcome: EnqueueExtractionOutcome::Rearmed }
    } else {
        ExtractionStep::Settled(EnqueueExtractionOutcome::DedupedTerminal)
    }
}

/// The typed `last_error` of a run whose stage could not be enqueued.
pub open spec fn spec_enqueue_failure_message(stage: Seq<char>, error: Seq<char>) -> Seq<char> {
    "stage "@ + stage + " could not be enqueued: "@ + error
}

/// A run finalized as failed because `stage` could not be enqueued.
pub open spec fn enqueue_failed(run: RunView, stage: Seq<char>, error: Seq<char>) -> RunView {
    RunView {
        status: "failed"@,
        stage,
        summary: None,
        last_error: Some(spec_enqueue_failure_message(stage, error)),
        ..run
    }
}

/// The runs after run `run_id` is finalized as failed because `stage` could
/// not be enqueued; unchanged when no run has this id.
pub open spec fn spec_fail_stage_enqueue(runs: Seq<RunView>, run_id: Seq<char>, stage: Seq<char>, error: Seq<char>) -> Seq<RunView> {
    match run_of(runs, run_id) {
        Some(run) => runs.update(run_index(runs, run_id), enqueue_failed(run, stage, error)),
        None => runs,
    }
}

/// Finalize run `run_id` as failed because `stage` could not be enqueued, with
/// a typed `last_error` naming the stage. `false` when no run has this id.
pub fn fail_run_stage_enqueue(runs: &mut AutopilotRuns, run_id: &str, stage: &str, error: &str) -> (found: bool)
    requires
        old(runs).wf(),
    ensures
        final(runs).wf(),
        found == (run_of(old(runs)@, run_id@) is Some),
        final(runs)@ == spec_fail_stage_enqueue(old(runs)@, run_id@, stage@, error@),
{
    let mut message = concat3("stage ", stage, " could not be enqueued: ");
    message.append(error);
    runs.finalize_run(run_id, "failed", stage, None, Some(message.as_str()))
}

/// Settle a started run once its stage was (or could not be) armed: success
/// reports the decided outcome; a failed arming finalizes the run failed and
/// reports `Failed`.
pub fn finish_extraction_run(
    runs: &mut AutopilotRuns,
    run_id: &str,
    stage: &str,
    armed: Result<(), String>,
    outcome: EnqueueExtractionOutcome,
) -> (r: EnqueueExtractionOutcome)
    requires
        old(runs).wf(),
    ensures
        final(runs).wf(),
        armed is Ok ==> r == outcome && final(runs)@ == old(runs)@,
        armed is Err ==> r == EnqueueExtractionOutcome::Failed
            && final(runs)@ == spec_fail_stage_enqueue(old(runs)@, run_id@, stage@, reply_view(armed)->Err_0),
{
    match armed {
        Ok(()) => outcome,
        Err(error) => {
            let found = fail_run_stage_enqueue(runs, run_id, stage, error.as_str());
            EnqueueExtractionOutcome::Failed
        },
    }
}

/// The runs, the queue and the outcome after starting (or re-arming) the run
/// for one report document: [`spec_begin_extraction`], with the stage it names
/// re-armed on the queue; when the store refuses that queue write (`write` is
/// `Err`), the queue is left as it was, the run is finalized as failed at that
/// stage with a typed reason, and the outcome is `Failed`.
pub open spec fn spec_enqueue_extraction(
    runs: Seq<RunView>,
    jobs: Seq<JobView>,
    company_id: Seq<char>,
    document_id: Seq<char>,
    trigger: Seq<char>,
    mode: Seq<char>,
    sweep_id: Option<Seq<char>>,
    document_extractable: bool,
    current_version: u32,
    write: Result<(), Seq<char>>,
) -> (Seq<RunView>, Seq<JobView>, EnqueueExtractionOutcome) {
    let (rs, arm, outcome) = spec_begin_extraction(runs, company_id, document_id, trigger, mode, sweep_id,
        document_extractable, current_version);
    match arm {
        Some((id, stage)) => match write {
            Ok(_) => (rs, spec_enqueue_stage(jobs, id, stage), outcome),
            Err(e) => (spec_fail_stage_enqueue(rs, id, stage, e), jobs, EnqueueExtractionOutcome::Failed),
        },
        None => (rs, jobs, outcome),
    }
}

/// Start (or re-arm) the run for one report document, idempotently, arming
/// its stage on the queue, given the store's answer to that queue write (see
/// [`spec_enqueue_extraction`]).
pub fn enqueue_extraction_run(
    runs: &mut AutopilotRuns,
    jobs: &mut JobQueue,
    company_id: &str,
    document_id: &str,
    trigger: &str,
    mode: &str,
    sweep_id: Option<&str>,
    document_extractable: bool,
    current_version: u32,
    queue_write: Result<(), String>,
) -> (r: EnqueueExtractionOutcome)
    requires
        old(runs).wf(),
        old(jobs).wf(),
    ensures
        final(runs).wf(),
        final(jobs).wf(),
        (final(runs)@, final(jobs)@, r) == spec_enqueue_extraction(old(runs)@, old(jobs)@, company_id@, document_id@,
            trigger@, mode@, opt_chars(sweep_id), document_extractable, current_version, reply_view(queue_write)),
{
    let step = begin_extraction_run(runs, company_id, document_id, trigger, mode, sweep_id, document_extractable, current_version);
    match step {
        ExtractionStep::Arm { run_id, stage, outcome } => match queue_write {
            Ok(()) => {
                let armed = enqueue_stage(jobs, run_id.as_str(), stage.as_str());
                outcome
            },
            Err(error) => finish_extraction_run(runs, run_id.as_str(), stage.as_str(), Err(error), outcome),
        },
        ExtractionStep::Settled(outcome) => outcome,
    }
}

/// Arm the first (fetch) stage of run `run_id`, given the store's answer to
/// that queue write: when it is refused the queue is left as it was and the
/// run is finalized as failed at the fetch stage with a typed reason, never
/// left pending with no job to drive it. `true` when the job was armed (a
/// running fetch job is left untouched and reports `false`).
pub fn enqueue_first_stage(
    runs: &mut AutopilotRuns,
    jobs: &mut JobQueue,
    run_id: &str,
    queue_write: Result<(), String>,
) -> (armed: bool)
    requires
        old(runs).wf(),
        old(jobs).wf(),
    ensures
        final(runs).wf(),
        final(jobs).wf(),
        queue_write is Ok ==> final(jobs)@ == spec_enqueue_stage(old(jobs)@, run_id@, STAGE_FETCH@)
            && final(runs)@ == old(runs)@
            && armed == !(row_of(old(jobs)@, spec_stage_job_id(run_id@, STAGE_FETCH@)) is Some
                && row_of(old(jobs)@, spec_stage_job_id(run_id@, STAGE_FETCH@))->0.status == JobStatus::Running),
        queue_write is Err ==> final(jobs)@ == old(jobs)@ && !armed
            && final(runs)@ == spec_fail_stage_enqueue(old(runs)@, run_id@, STAGE_FETCH@, reply_view(queue_write)->Err_0),
{
    match queue_write {
        Ok(()) => enqueue_stage(jobs, run_id, STAGE_FETCH),
        Err(error) => {
            let found = fail_run_stage_enqueue(runs, run_id, STAGE_FETCH, error.as_str());
            false
        },
    }
}


// ---------------------------------------------------------------------------
// What the stage bodies record on the run.
// ---------------------------------------------------------------------------

/// How the deterministic extraction of a run's document went.
pub enum StructuredAttempt {
    /// A deterministic tier emitted `produced` facts.
    Emitted { produced: u64, tier: Option<String> },
    /// A tier ran but emitted nothing for the issuer.
    NoEmit,
    /// The document is not eligible (no derivable period).
    NotEligible,
    /// The extraction could not run.
    Failed,
}

/// The KPI delta of an extraction that could not produce facts.
pub open spec fn spec_gap_delta(reason: Seq<char>, pipeline_version: u32) -> Seq<char> {
    "{\"extractionAvailable\":false,\"pipelineVersion\":"@ + spec_decimal(pipeline_version as nat) + ",\"reason\":"@
        + spec_json_string(reason) + "}"@
}

/// The KPI delta of an extraction that emitted `produced` facts (every
/// emitting tier is deterministic, so all of them are auto-confirmed).
pub open spec fn spec_emitted_delta(produced: u64, tier: Option<Seq<char>>, mode: Seq<char>, pipeline_version: u32) -> Seq<char> {
    let p = spec_decimal(produced as nat);
    "{\"extractionAvailable\":true,\"factsAutoConfirmed\":"@ + p + ",\"factsProposed\":"@ + p + ",\"mode\":"@
        + spec_json_string(mode) + ",\"pipelineVersion\":"@ + spec_decimal(pipeline_version as nat) + ",\"produced\":"@ + p
        + ",\"structured\":true,\"tier\":"@ + match tier {
            Some(t) => spec_json_string(t),
            None => "null"@,
        } + "}"@
}

/// The reason an extraction produced no facts: a stored real PDF is the
/// expected `pdf_document` gap when a tier ran without emitting or the
/// document was not eligible; otherwise no deterministic tier could read it.
pub open spec fn spec_extract_gap_reason(attempt: StructuredAttempt, real_pdf: bool) -> Option<KpiUnavailableReason> {
    match attempt {
        StructuredAttempt::Emitted { .. } => None,
        StructuredAttempt::NoEmit | StructuredAttempt::NotEligible => Some(
            if real_pdf { KpiUnavailableReason::PdfDocument } else { KpiUnavailableReason::NoDeterministicTier }),
        StructuredAttempt::Failed => Some(KpiUnavailableReason::NoDeterministicTier),
    }
}

/// The KPI delta the extract stage records on its run.
pub open spec fn spec_extract_delta(attempt: StructuredAttempt, mode: Seq<char>, real_pdf: bool, pipeline_version: u32) -> Seq<char> {
    match attempt {
        StructuredAttempt::Emitted { produced, tier } => spec_emitted_delta(produced, match tier {
            Some(t) => Some(t@),
            None => None,
        }, mode, pipeline_version),
        _ => spec_gap_delta(reason_code(spec_extract_gap_reason(attempt, real_pdf)->0), pipeline_version),
    }
}

/// The KPI delta the extract stage records (see [`spec_extract_delta`]).
pub fn extract_stage_delta(attempt: &StructuredAttempt, mode: &str, real_pdf: bool, pipeline_version: u32) -> (r: String)
    ensures
        r@ == spec_extract_delta(*attempt, mode@, real_pdf, pipeline_version),
{
    let version = decimal(pipeline_version as u128);
    match attempt {
        StructuredAttempt::Emitted { produced, tier } => {
            let p = decimal(*produced as u128);
            let mut s = concat3("{\"extractionAvailable\":true,\"factsAutoConfirmed\":", p.as_str(), ",\"factsProposed\":");
            s.append(p.as_str());
            s.append(",\"mode\":");
            s.append(json_string(mode).as_str());
            s.append(",\"pipelineVersion\":");
            s.append(version.as_str());
            s.append(",\"produced\":");
            s.append(p.as_str());
            s.append(",\"structured\":true,\"tier\":");
            match tier {
                Some(t) => s.append(json_string(t.as_str()).as_str()),
                None => s.append("null"),
            }
            s.append("}");
            s
        },
        _ => {
            let reason = match attempt {
                StructuredAttempt::Failed => KpiUnavailableReason::NoDeterministicTier,
                _ => if real_pdf { KpiUnavailableReason::PdfDocument } else { KpiUnavailableReason::NoDeterministicTier },
            };
            let mut s = concat3("{\"extractionAvailable\":false,\"pipelineVersion\":", version.as_str(), ",\"reason\":");
            s.append(json_string(reason.as_str()).as_str());
            s.append("}");
            s
        },
    }
}

/// The report-diff reference the diff stage records: the older and newer
/// report documents and their statement type.
pub open spec fn spec_diff_ref(older: Seq<char>, newer: Seq<char>, statement_type: Seq<char>) -> Seq<char> {
    "{\"newerReportDocumentId\":"@ + spec_json_string(newer) + ",\"olderReportDocumentId\":"@ + spec_json_string(older)
        + ",\"statementType\":"@ + spec_json_string(statement_type) + "}"@
}

/// The report-diff reference of a newer report and the one before it.
pub fn diff_ref_json(older: &str, newer: &str, statement_type: &str) -> (r: String)
    ensures
        r@ == spec_diff_ref(older@, newer@, statement_type@),
{
    let mut s = concat3("{\"newerReportDocumentId\":", json_string(newer).as_str(), ",\"olderReportDocumentId\":");
    s.append(json_string(older).as_str());
    s.append(",\"statementType\":");
    s.append(json_string(statement_type).as_str());
    s.append("}");
    s
}

/// The cross-references the cross-reference stage records: the company's
/// overdue and due claims, open research questions, and expectations to review.
pub open spec fn spec_cross_refs(overdue: u64, due: u64, open_questions: u64, to_review: u64) -> Seq<char> {
    "{\"claimsDue\":"@ + spec_decimal(due as nat) + ",\"claimsOverdue\":"@ + spec_decimal(overdue as nat)
        + ",\"expectationsToReview\":"@ + spec_decimal(to_review as nat) + ",\"openQuestions\":"@
        + spec_decimal(open_questions as nat) + "}"@
}

/// The cross-references of a run's company.
pub fn cross_refs_json(overdue: u64, due: u64, open_questions: u64, to_review: u64) -> (r: String)
    ensures
        r@ == spec_cross_refs(overdue, due, open_questions, to_review),
{
    let mut s = concat3("{\"claimsDue\":", decimal(due as u128).as_str(), ",\"claimsOverdue\":");
    s.append(decimal(overdue as u128).as_str());
    s.append(",\"expectationsToReview\":");
    s.append(decimal(to_review as u128).as_str());
    s.append(",\"openQuestions\":");
    s.append(decimal(open_questions as u128).as_str());
    s.append("}");
    s
}

/// How many expectations are up for review: frozen and not yet resolved.
pub open spec fn spec_reviewable(expectations: Seq<(bool, bool)>) -> nat
    decreases expectations.len(),
{
    if expectations.len() == 0 {
        0
    } else {
        spec_reviewable(expectations.drop_last())
            + if expectations.last().0 && !expectations.last().1 { 1nat } else { 0nat }
    }
}

/// Count the expectations up for review, each given as (frozen, resolved).
pub fn expectations_to_review(expectations: &Vec<(bool, bool)>) -> (r: u64)
    requires
        expectations@.len() <= u64::MAX,
    ensures
        r == spec_reviewable(expectations@),
{
    let mut n: u64 = 0;
    let mut i: usize = 0;
    proof {
        assert(expectations@.take(0) =~= Seq::<(bool, bool)>::empty());
    }
    while i < expectations.len()
        invariant
            i <= expectations@.len(),
            expectations@.len() <= u64::MAX,
            n <= i,
            n == spec_reviewable(expectations@.take(i as int)),
        decreases expectations.len() - i,
    {
        proof {
            assert(expectations@.take(i + 1).drop_last() =~= expectations@.take(i as int));
            assert(expectations@.take(i + 1).last() == expectations@[i as int]);
        }
        let (frozen, resolved) = expectations[i];
        if frozen && !resolved {
            n = n + 1;
        }
        i = i + 1;
    }
    proof {
        assert(expectations@.take(i as int) =~= expectations@);
    }
    n
}


// ---------------------------------------------------------------------------
// One run per report document.
// ---------------------------------------------------------------------------

pub(crate) proof fn lemma_run_present_after_begin(
    runs: Seq<RunView>,
    company_id: Seq<char>,
    document_id: Seq<char>,
    trigger: Seq<char>,
    mode: Seq<char>,
    sweep_id: Option<Seq<char>>,
    document_extractable: bool,
    current_version: u32,
)
    requires
        run_ids_unique(runs),
    ensures
        ({
            let (rs, _, _) = spec_begin_extraction(runs, company_id, document_id, trigger, mode, sweep_id,
                document_extractable, current_version);
            &&& run_ids_unique(rs)
            &&& run_of(rs, spec_extraction_run_id(company_id, document_id)) is Some
            &&& rs.len() <= runs.len() + 1
        }),
{
    let id = spec_extraction_run_id(company_id, document_id);
    lemma_run_index(runs, id);
    let (rs, _, _) = spec_begin_extraction(runs, company_id, document_id, trigger, mode, sweep_id,
        document_extractable, current_version);
    match run_of(runs, id) {
        None => {
            let run = fresh_run(id, company_id, document_id, trigger, mode, sweep_id);
            assert(rs == runs.push(run));
            assert forall|i: int, j: int| 0 <= i < j < rs.len() implies rs[i].id != rs[j].id by {
                if j == runs.len() {
                    assert(runs[i].id != id);
                } else {
                    assert(rs[i] == runs[i] && rs[j] == runs[j]);
                }
            }
            lemma_run_index(rs, id);
            assert(rs[runs.len() as int].id == id);
        },
        Some(run) => {
            let i = run_index(runs, id);
            assert(runs[i].id == id);
            assert(rs.len() == runs.len());
            assert(rs[i].id == id);
            assert forall|a: int, b: int| 0 <= a < b < rs.len() implies rs[a].id != rs[b].id by {
                assert(rs[a].id == runs[a].id && rs[b].id == runs[b].id);
            }
            lemma_run_index(rs, id);
        },
    }
}

/// Starting an extraction run keeps every run that was there: a run id present
/// before is present after, and no run is dropped.
pub(crate) proof fn lemma_begin_keeps_runs(
    runs: Seq<RunView>,
    company_id: Seq<char>,
    document_id: Seq<char>,
    trigger: Seq<char>,
    mode: Seq<char>,
    sweep_id: Option<Seq<char>>,
    document_extractable: bool,
    current_version: u32,
    x: Seq<char>,
)
    requires
        run_ids_unique(runs),
        run_of(runs, x) is Some,
    ensures
        ({
            let (rs, _, _) = spec_begin_extraction(runs, company_id, document_id, trigger, mode, sweep_id,
                document_extractable, current_version);
            &&& run_of(rs, x) is Some
            &&& rs.len() >= runs.len()
            &&& (run_of(runs, spec_extraction_run_id(company_id, document_id)) is Some ==> rs.len() == runs.len())
        }),
{
    let id = spec_extraction_run_id(company_id, document_id);
    lemma_run_present_after_begin(runs, company_id, document_id, trigger, mode, sweep_id, document_extractable, current_version);
    lemma_run_index(runs, x);
    lemma_run_index(runs, id);
    let (rs, _, _) = spec_begin_extraction(runs, company_id, document_id, trigger, mode, sweep_id,
        document_extractable, current_version);
    let k = run_index(runs, x);
    assert(runs[k].id == x);
    match run_of(runs, id) {
        None => {
            assert(rs == runs.push(fresh_run(id, company_id, document_id, trigger, mode, sweep_id)));
            assert(rs[k].id == x);
        },
        Some(_) => {
            assert(rs.len() == runs.len());
            assert(rs[k].id == x);
        },
    }
    lemma_run_index(rs, x);
}

/// One run per report document: starting the extraction run of the same
/// company and document twice (with any trigger, mode, sweep or
/// extractability, and whatever the store answers to each queue write)
/// creates the run at most once, so the second start never creates one and
/// adds no run.
pub proof fn lemma_one_run_per_report_document(
    runs: Seq<RunView>,
    jobs: Seq<JobView>,
    company_id: Seq<char>,
    document_id: Seq<char>,
    first: (Seq<char>, Seq<char>, Option<Seq<char>>, bool),
    second: (Seq<char>, Seq<char>, Option<Seq<char>>, bool),
    current_version: u32,
    writes: (Result<(), Seq<char>>, Result<(), Seq<char>>),
)
    requires
        run_ids_unique(runs),
    ensures
        ({
            let (r1, j1, o1) = spec_enqueue_extraction(runs, jobs, company_id, document_id, first.0, first.1, first.2,
                first.3, current_version, writes.0);
            let (r2, j2, o2) = spec_enqueue_extraction(r1, j1, company_id, document_id, second.0, second.1, second.2,
                second.3, current_version, writes.1);
            &&& r1.len() <= runs.len() + 1
            &&& o2 != EnqueueExtractionOutcome::Created
            &&& r2.len() == r1.len()
            &&& run_ids_unique(r2)
        }),
{
    lemma_run_present_after_begin(runs, company_id, document_id, first.0, first.1, first.2, first.3, current_version);
    let (rb1, arm1, ob1) = spec_begin_extraction(runs, company_id, document_id, first.0, first.1, first.2, first.3,
        current_version);
    if let Some((id1, st1)) = arm1 {
        if let Err(e) = writes.0 {
            lemma_fail_stage_enqueue_keeps_ids(rb1, id1, st1, e);
        }
    }
    let (r1, j1, o1) = spec_enqueue_extraction(runs, jobs, company_id, document_id, first.0, first.1, first.2,
        first.3, current_version, writes.0);
    let id = spec_extraction_run_id(company_id, document_id);
    assert(run_of(r1, id) is Some) by {
        lemma_run_index(rb1, id);
        lemma_run_index(r1, id);
        let k = run_index(rb1, id);
        assert(r1[k].id == id);
    }
    lemma_run_present_after_begin(r1, company_id, document_id, second.0, second.1, second.2, second.3, current_version);
    lemma_run_index(r1, id);
    let (rb, arm, o2) = spec_begin_extraction(r1, company_id, document_id, second.0, second.1, second.2, second.3,
        current_version);
    assert(o2 != EnqueueExtractionOutcome::Created);
    assert(rb.len() == r1.len());
    if let Some((id2, st2)) = arm {
        if let Err(e) = writes.1 {
            lemma_fail_stage_enqueue_keeps_ids(rb, id2, st2, e);
        }
    }
}

/// Failing a run for a refused queue write keeps every run id in place.
proof fn lemma_fail_stage_enqueue_keeps_ids(runs: Seq<RunView>, run_id: Seq<char>, stage: Seq<char>, error: Seq<char>)
    requires
        run_ids_unique(runs),
    ensures
        spec_fail_stage_enqueue(runs, run_id, stage, error).len() == runs.len(),
        forall|k: int| 0 <= k < runs.len() ==> #[trigger] spec_fail_stage_enqueue(runs, run_id, stage, error)[k].id == runs[k].id,
        run_ids_unique(spec_fail_stage_enqueue(runs, run_id, stage, error)),
{
    lemma_run_index(runs, run_id);
}

} // verus!
