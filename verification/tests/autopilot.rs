use brawler_core::autopilot::{
    disclosure_month_from_url, is_structured_document, last_attempt_exhausted,
    newest_periodic_reports_per_type, prefers_candidate, report_disclosure_key, stage_job_id,
    ReportDoc, STAGE_FETCH, STAGE_MAX_ATTEMPTS,
};
use brawler_core::queue::{JobQueue, JobStatus};
use brawler_core::kinds::AUTOPILOT_STAGE_KIND;
use brawler_core::runs::{enqueue_stage, AutopilotRuns};
use brawler_core::stages::{
    begin_extraction_run, compose_summary, enqueue_extraction_run, extraction_unavailable_reason,
    cross_refs_json, expectations_to_review, finish_extraction_run, run_stage, stored_pipeline_version, terminal_run_should_rearm,
    EnqueueExtractionOutcome, ExtractionStep, StageOutcome,
};
use brawler_core::stages::{
    diff_ref_json, enqueue_first_stage, fail_run_stage_enqueue, extract_stage_delta, StructuredAttempt,
};
use brawler_core::autopilot::{next_stage, resolved_container, Container, KpiUnavailableReason};
use brawler_core::runs::has_live_stage_job;

fn report_doc(id: &str, url: &str, title: &str, created_at: &str) -> ReportDoc {
    ReportDoc {
        id: id.to_owned(),
        url: url.to_owned(),
        title: Some(title.to_owned()),
        fetch_status: "fetched".to_owned(),
        fetched_at: None,
        created_at: created_at.to_owned(),
        detected_container: None,
        statement: Some("ssf".to_owned()),
        local_path: Some("report_documents/x.pdf".to_owned()),
        markup_is_inline_xbrl: false,
    }
}

#[test]
fn last_attempt_exhaustion_matrix() {
    assert!(!last_attempt_exhausted(1, STAGE_MAX_ATTEMPTS));
    assert!(!last_attempt_exhausted(2, STAGE_MAX_ATTEMPTS));
    assert!(last_attempt_exhausted(3, STAGE_MAX_ATTEMPTS));
}

#[test]
fn a_first_stage_enqueue_failure_creates_the_run_failed_with_a_typed_reason() {
    let mut runs = AutopilotRuns::new();
    let mut jobs = JobQueue::new();
    // The store refuses the fetch stage's queue insert.
    let outcome = enqueue_extraction_run(
        &mut runs,
        &mut jobs,
        "company_fst",
        "document_first_stage",
        "manual",
        "autopilot",
        None,
        true,
        1,
        Err("fetch stage poisoned for test".to_owned()),
    );
    assert_eq!(outcome, EnqueueExtractionOutcome::Failed);
    assert_eq!(jobs.len(), 0, "no stage job was written");

    let run = runs.get_run("autopilot_run:company_fst:document_first_stage").expect("run row exists");
    assert_eq!(run.status, "failed");
    assert!(
        run.last_error
            .as_deref()
            .is_some_and(|error| error.contains("fetch") && error.contains("could not be enqueued")),
        "last_error must name the stage: {:?}",
        run.last_error
    );
}

#[test]
fn a_settled_arming_failure_reports_failed_and_names_the_stage() {
    let mut runs = AutopilotRuns::new();
    let step = begin_extraction_run(&mut runs, "company_fst", "document_first_stage", "manual", "autopilot", None, true, 1);
    let (run_id, stage, decided) = match step {
        ExtractionStep::Arm { run_id, stage, outcome } => (run_id, stage, outcome),
        ExtractionStep::Settled(_) => panic!("a fresh run arms its first stage"),
    };
    assert_eq!(decided, EnqueueExtractionOutcome::Created);
    let outcome = finish_extraction_run(&mut runs, &run_id, &stage, Err("fetch stage poisoned for test".to_owned()), decided);
    assert_eq!(outcome, EnqueueExtractionOutcome::Failed);
    let run = runs.get_run(&run_id).expect("run row exists");
    assert_eq!(run.last_error.as_deref(), Some("stage fetch could not be enqueued: fetch stage poisoned for test"));
    assert_eq!(run.summary, None);
}

#[test]
fn enqueue_first_stage_fails_the_run_when_the_store_refuses_the_write() {
    let mut runs = AutopilotRuns::new();
    let mut jobs = JobQueue::new();
    assert!(runs.create_run_if_absent("run_manual", "c", "d", "manual", "autopilot", None));
    assert!(!enqueue_first_stage(&mut runs, &mut jobs, "run_manual", Err("disk full".to_owned())));
    assert_eq!(jobs.len(), 0);
    let run = runs.get_run("run_manual").expect("run");
    assert_eq!(run.status, "failed");
    assert_eq!(run.stage, "fetch");
    assert_eq!(run.last_error.as_deref(), Some("stage fetch could not be enqueued: disk full"));

    assert!(runs.create_run_if_absent("run_ok", "c", "d2", "manual", "autopilot", None));
    assert!(enqueue_first_stage(&mut runs, &mut jobs, "run_ok", Ok(())));
    assert_eq!(runs.get_run("run_ok").expect("run").status, "pending");
    assert_eq!(jobs.status(&stage_job_id("run_ok", STAGE_FETCH)).expect("armed").status, JobStatus::Pending);
}

#[test]
fn disclosure_key_reads_the_emitent_month_from_espi_urls() {
    assert_eq!(
        disclosure_month_from_url("https://bonnier.pl/static/att/emitent/2026-05/20260520_172023_x_ssf.pdf"),
        Some("2026-05".to_owned())
    );
    assert_eq!(
        disclosure_month_from_url("https://www.bankier.pl/static/att/emitent/2023-09/c-F-2023-Q2-SSF.pdf"),
        Some("2023-09".to_owned())
    );
    assert_eq!(disclosure_month_from_url("https://modivo.pl/relacje-inwestorskie"), None);

    let mut doc = report_doc("d", "https://example.com/ir", "Q1 SSF", "2026-06-15T10:00:00Z");
    doc.fetched_at = Some("2023-08-01T09:00:00Z".to_owned());
    assert_eq!(report_disclosure_key(&doc), "2023-08-01");
    doc.fetched_at = None;
    assert_eq!(report_disclosure_key(&doc), "2026-06-15");
}

#[test]
fn newest_per_type_ranks_by_disclosure_not_created_at() {
    let stale_2023 = report_doc(
        "doc_2023_q2_ssf",
        "https://www.bankier.pl/static/att/emitent/2023-09/c-F-2023-Q2-SSF.pdf",
        "Cyber Folks 2023 Q2 SSF",
        "2026-06-15T16:49:36.268Z",
    );
    let latest_2026 = report_doc(
        "doc_2026_q1_ssf",
        "https://bonnier.pl/static/att/emitent/2026-05/20260520_x_ssf.pdf",
        "Cyber Folks 2026 Q1 SSF",
        "2026-06-15T16:49:36.167Z",
    );

    let picked = newest_periodic_reports_per_type(vec![stale_2023, latest_2026]);

    assert_eq!(picked.len(), 1, "both are the same statement type (ssf)");
    assert_eq!(
        picked[0].id, "doc_2026_q1_ssf",
        "the actual-latest report must win, not the recently-backfilled old one"
    );
}

#[test]
fn newest_per_type_prefers_xhtml_on_disclosure_tie() {
    let pdf = report_doc(
        "doc_ssf_pdf",
        "https://bonnier.pl/static/att/emitent/2026-05/20260520_ssf.pdf",
        "Cyber Folks 2026 Q1 SSF",
        "2026-06-15T16:49:36.000Z",
    );
    let xhtml = report_doc(
        "doc_ssf_xhtml",
        "https://bonnier.pl/static/att/emitent/2026-05/20260520_ssf.xhtml",
        "Cyber Folks 2026 Q1 SSF",
        "2026-06-15T16:49:36.100Z",
    );

    let picked = newest_periodic_reports_per_type(vec![pdf, xhtml]);
    assert_eq!(picked.len(), 1);
    assert_eq!(picked[0].id, "doc_ssf_xhtml", "xhtml must win a disclosure-date tie over its pdf sibling");
}

#[test]
fn newest_per_type_strictly_newer_pdf_still_beats_older_xhtml() {
    let older_xhtml = report_doc(
        "doc_ssf_xhtml_old",
        "https://bonnier.pl/static/att/emitent/2026-03/20260320_ssf.xhtml",
        "Cyber Folks 2025 Q4 SSF",
        "2026-04-01T10:00:00.000Z",
    );
    let newer_pdf = report_doc(
        "doc_ssf_pdf_new",
        "https://bonnier.pl/static/att/emitent/2026-05/20260520_ssf.pdf",
        "Cyber Folks 2026 Q1 SSF",
        "2026-06-15T10:00:00.000Z",
    );

    let picked = newest_periodic_reports_per_type(vec![older_xhtml, newer_pdf]);
    assert_eq!(picked.len(), 1);
    assert_eq!(picked[0].id, "doc_ssf_pdf_new", "a strictly newer disclosure date must win regardless of format");
}

#[test]
fn structured_tie_break_prefers_the_markup_stored_under_a_pdf_name() {
    let mut markup = report_doc(
        "doc_markup",
        "https://bonnier.pl/static/att/emitent/2025-05/ssf_2025.pdf",
        "SSF 2025",
        "2025-05-02T00:00:00Z",
    );
    markup.detected_container = Some("xml".to_owned());
    let mut pdf = report_doc(
        "doc_pdf",
        "https://bonnier.pl/static/att/emitent/2025-05/ssf_2025_scan.pdf",
        "SSF 2025 scan",
        "2025-05-01T00:00:00Z",
    );
    pdf.detected_container = Some("pdf".to_owned());

    assert!(is_structured_document(&markup));
    assert!(!is_structured_document(&pdf));
    assert!(prefers_candidate(&pdf, &markup), "the genuinely structured sibling must win the canonical slot");
    assert!(!prefers_candidate(&markup, &pdf), "and the PDF must not displace it on a re-run");

    let mut package = report_doc(
        "doc_zip",
        "https://bonnier.pl/static/att/emitent/2025-05/ssf_2025_pkg.pdf",
        "SSF 2025 package",
        "2025-05-03T00:00:00Z",
    );
    package.detected_container = Some("zip".to_owned());
    assert!(is_structured_document(&package));
}

#[test]
fn metadata_only_and_unclassified_documents_are_not_periodic_reports() {
    let mut metadata = report_doc("m", "https://bonnier.pl/static/att/emitent/2026-05/a.pdf", "SSF", "2026-06-01T00:00:00Z");
    metadata.fetch_status = "metadata_only".to_owned();
    let mut other = report_doc("o", "https://bonnier.pl/static/att/emitent/2026-05/b.pdf", "Notice", "2026-06-01T00:00:00Z");
    other.statement = None;
    let mut annual = report_doc("r", "https://bonnier.pl/static/att/emitent/2026-04/r.pdf", "RR", "2026-06-01T00:00:00Z");
    annual.statement = Some("rr".to_owned());
    let picked = newest_periodic_reports_per_type(vec![metadata, other, annual]);
    assert_eq!(picked.len(), 1);
    assert_eq!(picked[0].id, "r");
}

#[test]
fn a_run_walks_its_stages_and_finalizes_with_a_token_summary() {
    let mut runs = AutopilotRuns::new();
    let mut jobs = JobQueue::new();
    let outcome = enqueue_extraction_run(&mut runs, &mut jobs, "c1", "d1", "detection", "autopilot", None, true, 1, Ok(()));
    assert_eq!(outcome, EnqueueExtractionOutcome::Created);
    let run_id = "autopilot_run:c1:d1";
    assert_eq!(jobs.status(&stage_job_id(run_id, "fetch")).expect("armed").status, JobStatus::Pending);

    // Enqueuing again re-arms the open run's current stage and creates nothing.
    let again = enqueue_extraction_run(&mut runs, &mut jobs, "c1", "d1", "detection", "autopilot", None, true, 1, Ok(()));
    assert_eq!(again, EnqueueExtractionOutcome::Rearmed);
    assert_eq!(runs.len(), 1);
    assert_eq!(jobs.len(), 1);

    assert!(runs.set_kpi_delta_json(run_id, r#"{"extractionAvailable":false,"reason":"pdf_document","pipelineVersion":3}"#));
    assert!(runs.set_report_diff_ref(run_id, r#"{"olderReportDocumentId":"a"}"#));
    assert!(runs.set_cross_refs_json(
        run_id,
        r#"{"claimsOverdue":2,"claimsDue":1,"openQuestions":4,"expectationsToReview":1}"#
    ));

    while let Some(claimed) = jobs.claim_next() {
        let result = run_stage(&mut runs, &mut jobs, &claimed.payload, StageOutcome::Done, Ok(()));
        assert!(result.is_ok());
        assert!(jobs.mark_succeeded(&claimed.id));
    }
    assert_eq!(jobs.len(), 5, "one job per stage");
    let run = runs.get_run(run_id).expect("run");
    assert_eq!(run.status, "succeeded");
    assert_eq!(run.stage, "notify");
    assert_eq!(
        run.summary.as_deref(),
        Some("kpi_extraction_unavailable:pdf_document; report_diff_available; claims_to_verify:3; research_questions:4; expectations_to_review")
    );

    // A finished run is deduplicated.
    let done = enqueue_extraction_run(&mut runs, &mut jobs, "c1", "d1", "detection", "autopilot", None, true, 1, Ok(()));
    assert_eq!(done, EnqueueExtractionOutcome::DedupedTerminal);
}

#[test]
fn compose_summary_counts_confirmed_facts_and_defaults_to_report_processed() {
    let mut runs = AutopilotRuns::new();
    assert!(runs.create_run_if_absent("r", "c", "d", "detection", "autopilot", None));
    assert_eq!(compose_summary(runs.get_run("r").unwrap()), "report_processed");
    assert!(runs.set_kpi_delta_json("r", r#"{"extractionAvailable":true,"factsProposed":12,"factsAutoConfirmed":12}"#));
    assert_eq!(compose_summary(runs.get_run("r").unwrap()), "kpi_confirmed:12:12");
    assert!(runs.set_kpi_delta_json("r", r#"{"extractionAvailable":false}"#));
    assert_eq!(
        compose_summary(runs.get_run("r").unwrap()),
        "kpi_extraction_unavailable:no_deterministic_tier"
    );
    assert!(runs.set_kpi_delta_json("r", r#"{"extractionAvailable":false,"reason":"provider_error:429"}"#));
    assert_eq!(compose_summary(runs.get_run("r").unwrap()), "kpi_extraction_unavailable:provider_error");
}

#[test]
fn a_transient_fetch_failure_retries_until_the_last_attempt_then_fails_the_run() {
    let mut runs = AutopilotRuns::new();
    let mut jobs = JobQueue::new();
    enqueue_extraction_run(&mut runs, &mut jobs, "c", "d", "detection", "autopilot", None, true, 1, Ok(()));
    let run_id = "autopilot_run:c:d";
    for attempt in 1..=3 {
        let claimed = jobs.claim_next().expect("fetch job");
        assert_eq!(claimed.attempts, attempt);
        let result = run_stage(&mut runs, &mut jobs, &claimed.payload, StageOutcome::Transient("connection refused".to_owned()), Ok(()));
        if attempt < 3 {
            assert_eq!(result, Err("connection refused".to_owned()));
            assert!(jobs.mark_failed(&claimed.id, "connection refused"));
            assert_eq!(runs.get_run(run_id).unwrap().status, "running");
        } else {
            assert!(result.is_ok());
            assert!(jobs.mark_succeeded(&claimed.id));
        }
    }
    let run = runs.get_run(run_id).unwrap();
    assert_eq!(run.status, "failed");
    assert_eq!(run.summary.as_deref(), Some("Autopilot stopped at fetch stage."));
    assert_eq!(run.last_error.as_deref(), Some("connection refused"));
}

#[test]
fn a_fatal_extract_failure_finalizes_on_the_first_attempt_and_unknown_stages_fail() {
    let mut runs = AutopilotRuns::new();
    let mut jobs = JobQueue::new();
    assert!(runs.create_run_if_absent("r", "c", "d", "detection", "autopilot", None));
    let result = run_stage(
        &mut runs,
        &mut jobs,
        r#"{"run_id":"r","stage":"extract"}"#,
        StageOutcome::Transient("parse".to_owned()),
        Ok(()),
    );
    assert!(result.is_ok(), "fatal failure must not be retried");
    assert_eq!(runs.get_run("r").unwrap().status, "failed");

    assert!(runs.create_run_if_absent("u", "c", "e", "detection", "autopilot", None));
    assert!(run_stage(&mut runs, &mut jobs, r#"{"run_id":"u","stage":"bogus"}"#, StageOutcome::Done, Ok(())).is_ok());
    assert_eq!(runs.get_run("u").unwrap().last_error.as_deref(), Some("unknown autopilot stage: bogus"));

    assert!(run_stage(&mut runs, &mut jobs, "not json", StageOutcome::Done, Ok(())).is_err());
    assert!(run_stage(&mut runs, &mut jobs, r#"{"run_id":"missing","stage":"fetch"}"#, StageOutcome::Done, Ok(())).is_err());
}

#[test]
fn terminal_runs_rearm_only_for_a_stale_rearmable_gap_on_an_extractable_document() {
    let mut runs = AutopilotRuns::new();
    let id = "autopilot_run:c:d";
    assert!(runs.create_run_if_absent(id, "c", "d", "detection", "autopilot", None));
    assert!(runs.set_kpi_delta_json(id, r#"{"extractionAvailable":false,"reason":"no_deterministic_tier","pipelineVersion":1}"#));
    assert!(runs.finalize_run(id, "succeeded", "notify", Some("x"), None));
    let run = runs.get_run(id).unwrap();
    assert!(terminal_run_should_rearm(run, true, 2));
    assert!(!terminal_run_should_rearm(run, false, 2), "a dead document stays deduped");
    assert!(!terminal_run_should_rearm(run, true, 1), "the current version already decided");
    assert_eq!(
        extraction_unavailable_reason(run.kpi_delta_json.as_deref()),
        Some("no_deterministic_tier".to_owned())
    );
    assert_eq!(stored_pipeline_version(run.kpi_delta_json.as_deref()), 1);
    assert_eq!(stored_pipeline_version(None), 0);
    assert_eq!(stored_pipeline_version(Some(r#"{"pipelineVersion":99999999999}"#)), u32::MAX);

    let mut jobs = JobQueue::new();
    let outcome = enqueue_extraction_run(&mut runs, &mut jobs, "c", "d", "history_sweep", "autopilot", Some("s1"), true, 2, Ok(()));
    assert_eq!(outcome, EnqueueExtractionOutcome::Rearmed);
    let rearmed = runs.get_run(id).unwrap();
    assert_eq!(rearmed.status, "pending");
    assert_eq!(rearmed.stage, "fetch");
    assert_eq!(rearmed.trigger, "history_sweep");
    assert_eq!(rearmed.sweep_id.as_deref(), Some("s1"));
    assert_eq!(jobs.status(&stage_job_id(id, "fetch")).unwrap().status, JobStatus::Pending);

    assert!(runs.set_kpi_delta_json(id, r#"{"extractionAvailable":false,"reason":"pdf_document","pipelineVersion":1}"#));
    assert!(runs.finalize_run(id, "succeeded", "notify", None, None));
    assert!(!terminal_run_should_rearm(runs.get_run(id).unwrap(), true, 2), "a by-design PDF gap is never re-armed");
    let outcome = enqueue_extraction_run(&mut runs, &mut jobs, "c", "d", "detection", "autopilot", None, true, 2, Ok(()));
    assert_eq!(outcome, EnqueueExtractionOutcome::DedupedTerminal);
    assert_eq!(runs.len(), 1);
}

/// A run whose document is still pending fetch, with its fetch stage armed.
fn pending_fetch_run(runs: &mut AutopilotRuns, jobs: &mut JobQueue, run_id: &str) {
    assert!(runs.create_run_if_absent(run_id, "company_tst", "document_pending", "manual", "autopilot", None));
    assert!(enqueue_stage(jobs, run_id, STAGE_FETCH));
}

fn fetch_payload(run_id: &str) -> String {
    format!(r#"{{"run_id":"{run_id}","stage":"{STAGE_FETCH}"}}"#)
}

#[test]
fn transient_fetch_failure_goes_back_to_the_queue_and_keeps_the_run_alive() {
    let mut runs = AutopilotRuns::new();
    let mut jobs = JobQueue::new();
    let run_id = "run_transient";
    pending_fetch_run(&mut runs, &mut jobs, run_id);
    let job = jobs.claim_next().expect("a job");
    assert_eq!(job.kind, AUTOPILOT_STAGE_KIND);
    let row = jobs.status(&stage_job_id(run_id, STAGE_FETCH)).expect("job row");
    assert_eq!(row.max_attempts, STAGE_MAX_ATTEMPTS, "stage jobs must arm queue retries");

    let result = run_stage(&mut runs, &mut jobs, &fetch_payload(run_id), StageOutcome::Transient("connection refused".to_owned()), Ok(()));

    assert!(result.is_err(), "transient failure must go back to the queue");
    let run = runs.get_run(run_id).expect("run");
    assert_ne!(run.status, "failed", "run must stay alive for the retry");
}

#[test]
fn transient_fetch_failure_on_the_last_attempt_finalizes_the_run() {
    let mut runs = AutopilotRuns::new();
    let mut jobs = JobQueue::new();
    let run_id = "run_exhausted";
    pending_fetch_run(&mut runs, &mut jobs, run_id);
    for _ in 0..(STAGE_MAX_ATTEMPTS - 1) {
        let job = jobs.claim_next().expect("a job");
        assert!(jobs.mark_failed(&job.id, "transient blip"), "non-final attempts stay retryable");
    }
    let _last = jobs.claim_next().expect("a job");

    let result = run_stage(&mut runs, &mut jobs, &fetch_payload(run_id), StageOutcome::Transient("connection refused".to_owned()), Ok(()));

    assert!(result.is_ok(), "exhausted attempt must not loop the job");
    let run = runs.get_run(run_id).expect("run");
    assert_eq!(run.status, "failed", "the run is honestly finalized");
}

#[test]
fn fatal_fetch_failure_finalizes_immediately_despite_remaining_attempts() {
    let mut runs = AutopilotRuns::new();
    let mut jobs = JobQueue::new();
    let run_id = "run_fatal";
    pending_fetch_run(&mut runs, &mut jobs, run_id);
    let _job = jobs.claim_next().expect("a job");

    let result = run_stage(&mut runs, &mut jobs, &fetch_payload(run_id), StageOutcome::Fatal("invalid content type: boom".to_owned()), Ok(()));

    assert!(result.is_ok(), "fatal failure must not be retried");
    let run = runs.get_run(run_id).expect("run");
    assert_eq!(run.status, "failed");
}

fn run_with_delta(runs: &mut AutopilotRuns, run_id: &str, document_id: &str, delta: &str) {
    assert!(runs.create_run_if_absent(run_id, "company_x", document_id, "manual", "autopilot", None));
    assert!(runs.set_kpi_delta_json(run_id, delta));
}

#[test]
fn compose_summary_reports_honest_counts_for_a_structured_tier_delta() {
    let mut runs = AutopilotRuns::new();
    let run_id = "run_structured_counts";
    run_with_delta(
        &mut runs,
        run_id,
        "doc1",
        r#"{"extractionAvailable":true,"structured":true,"tier":"esef","produced":40,"factsProposed":40,"factsAutoConfirmed":40,"mode":"autopilot"}"#,
    );
    let summary = compose_summary(runs.get_run(run_id).expect("run"));
    assert!(summary.contains("kpi_confirmed:40:40"), "summary must carry the honest typed count token: {summary}");
    assert!(!summary.contains("auto-confirmed"), "English prose leaked into the typed summary: {summary}");
}

#[test]
fn compose_summary_emits_only_typed_tokens_with_no_english_prose() {
    let mut runs = AutopilotRuns::new();
    let run_id = "run_all_tokens";
    run_with_delta(
        &mut runs,
        run_id,
        "docTok",
        r#"{"extractionAvailable":true,"structured":true,"factsProposed":7,"factsAutoConfirmed":7}"#,
    );
    assert!(runs.set_cross_refs_json(
        run_id,
        r#"{"claimsOverdue":2,"claimsDue":1,"openQuestions":3,"expectationsToReview":0}"#
    ));
    let summary = compose_summary(runs.get_run(run_id).expect("run"));
    assert!(summary.contains("kpi_confirmed:7:7"), "summary: {summary}");
    assert!(summary.contains("claims_to_verify:3"), "summary: {summary}");
    assert!(summary.contains("research_questions:3"), "summary: {summary}");
    for prose in ["auto-confirmed", "to verify", "open research question", "New report processed", "extracted"] {
        assert!(!summary.contains(prose), "English prose {prose:?} leaked into the typed summary: {summary}");
    }
}

#[test]
fn compose_summary_maps_witness_fallback_to_its_own_typed_code() {
    let mut runs = AutopilotRuns::new();
    let run_id = "run_witness_fallback";
    run_with_delta(&mut runs, run_id, "docWfb", r#"{"extractionAvailable":false,"reason":"witness_fallback"}"#);
    let summary = compose_summary(runs.get_run(run_id).expect("run"));
    assert!(
        summary.contains("kpi_extraction_unavailable:witness_fallback"),
        "witness fallback must surface its own typed code: {summary}"
    );
    assert!(
        !summary.contains("no_deterministic_tier"),
        "witness fallback must not collapse into no_deterministic_tier: {summary}"
    );
}

#[test]
fn compose_summary_emits_typed_reason_codes_that_stay_distinguishable() {
    let cases: [(&str, &str); 6] = [
        ("no_deterministic_tier", "no_deterministic_tier"),
        ("not_extractable", "no_deterministic_tier"),
        ("no_vision_provider", "provider_not_configured"),
        ("quota_exhausted", "quota_exhausted"),
        ("provider_error", "provider_error"),
        ("pdf_document", "pdf_document"),
    ];
    let mut runs = AutopilotRuns::new();
    let mut emitted: Vec<String> = Vec::new();
    for (index, (stored_reason, expected_code)) in cases.into_iter().enumerate() {
        let run_id = format!("run_reason_{index}");
        let document_id = format!("doc_{index}");
        let delta = format!(r#"{{"extractionAvailable":false,"reason":"{stored_reason}"}}"#);
        run_with_delta(&mut runs, &run_id, &document_id, &delta);
        let summary = compose_summary(runs.get_run(&run_id).expect("run"));
        assert!(
            summary.contains(expected_code),
            "stored reason {stored_reason} must surface the typed code {expected_code}, got: {summary}"
        );
        assert!(!summary.contains("no AI provider configured"), "the guessed English diagnosis must be gone, got: {summary}");
        emitted.push(summary);
    }
    assert_ne!(emitted[0], emitted[2], "a missing deterministic tier and an exhausted quota must stay distinguishable");
    assert_ne!(emitted[2], emitted[3], "an exhausted quota and a provider error must stay distinguishable");
    assert_ne!(emitted[1], emitted[3], "an unconfigured provider and a provider error must stay distinguishable");
}

/// The cross-reference stage of a run whose occurrence carries `expectations`
/// (each as frozen, resolved), with no claims and no open questions.
fn cross_reference_stage(runs: &mut AutopilotRuns, run_id: &str, expectations: &[(bool, bool)]) {
    let to_review = expectations_to_review(&expectations.to_vec());
    assert!(runs.set_cross_refs_json(run_id, &cross_refs_json(0, 0, 0, to_review)));
}

#[test]
fn cross_reference_links_expectation_review_when_expectations_exist() {
    let mut runs = AutopilotRuns::new();
    let run_id = "run_xref_expect";
    assert!(runs.create_run_if_absent(run_id, "company_cdr", "doc1", "manual", "autopilot", None));

    // One frozen, unresolved expectation for the occurrence.
    cross_reference_stage(&mut runs, run_id, &[(true, false)]);

    let run = runs.get_run(run_id).expect("run");
    let refs: serde_json::Value =
        serde_json::from_str(run.cross_refs_json.as_deref().expect("cross_refs written")).expect("cross_refs json");
    assert_eq!(
        refs.get("expectationsToReview").and_then(|v| v.as_u64()),
        Some(1),
        "a frozen, unresolved expectation for the occurrence is counted"
    );
    let summary = compose_summary(run);
    assert!(summary.contains("expectations_to_review"), "summary should carry the typed expectations token: {summary}");
}

#[test]
fn cross_reference_omits_expectation_link_when_none_exist() {
    let mut runs = AutopilotRuns::new();
    let run_id = "run_xref_no_expect";
    assert!(runs.create_run_if_absent(run_id, "company_cdr", "doc1", "manual", "autopilot", None));

    cross_reference_stage(&mut runs, run_id, &[]);

    let run = runs.get_run(run_id).expect("run");
    let refs: serde_json::Value =
        serde_json::from_str(run.cross_refs_json.as_deref().expect("cross_refs written")).expect("cross_refs json");
    assert_eq!(refs.get("expectationsToReview").and_then(|v| v.as_u64()), Some(0), "no expectation → zero count");
    let summary = compose_summary(run);
    assert!(!summary.contains("expectations_to_review"), "no expectations token when none exist: {summary}");
}

#[test]
fn unfrozen_or_resolved_expectations_are_not_up_for_review() {
    assert_eq!(expectations_to_review(&vec![(false, false), (true, true), (true, false), (true, false)]), 2);
    assert_eq!(
        cross_refs_json(2, 1, 4, 0),
        r#"{"claimsDue":1,"claimsOverdue":2,"expectationsToReview":0,"openQuestions":4}"#
    );
}

/// The pipeline version of the running build, in these scenarios.
const CURRENT_VERSION: u32 = 3;

/// A succeeded, couldn't-extract terminal run over an extractable document.
fn terminal_unavailable_run(runs: &mut AutopilotRuns, run_id: &str, delta: &str) {
    assert!(runs.create_run_if_absent(run_id, "company_cbf", &format!("doc_{run_id}"), "detection", "autopilot", None));
    assert!(runs.set_kpi_delta_json(run_id, delta));
    assert!(runs.finalize_run(run_id, "succeeded", "notify", Some("s"), None));
}

#[test]
fn a_current_version_couldnt_extract_run_is_not_re_armed() {
    let mut runs = AutopilotRuns::new();
    let delta = extract_stage_delta(&StructuredAttempt::NoEmit, "autopilot", false, CURRENT_VERSION);
    terminal_unavailable_run(&mut runs, "run_current_ver", &delta);
    assert!(
        !terminal_run_should_rearm(runs.get_run("run_current_ver").unwrap(), true, CURRENT_VERSION),
        "a run stamped with the current pipeline version must settle (no re-arm)"
    );
}

#[test]
fn a_legacy_run_re_arms_once_then_settles() {
    let mut runs = AutopilotRuns::new();
    terminal_unavailable_run(
        &mut runs,
        "run_legacy",
        r#"{"extractionAvailable":false,"reason":"no_deterministic_tier"}"#,
    );
    assert!(
        terminal_run_should_rearm(runs.get_run("run_legacy").unwrap(), true, CURRENT_VERSION),
        "a legacy (unstamped) couldn't-extract run must re-arm once under the new build"
    );
    // The re-run records its new, stamped delta.
    let stamped = extract_stage_delta(&StructuredAttempt::NoEmit, "autopilot", false, CURRENT_VERSION);
    assert!(runs.set_kpi_delta_json("run_legacy", &stamped));
    assert!(
        !terminal_run_should_rearm(runs.get_run("run_legacy").unwrap(), true, CURRENT_VERSION),
        "after recording a stamped delta the period must dedup on the next enqueue"
    );
}

#[test]
fn a_lower_version_witness_fallback_still_re_arms_on_upgrade() {
    let mut runs = AutopilotRuns::new();
    let delta = format!(
        r#"{{"extractionAvailable":false,"reason":"witness_fallback","pipelineVersion":{}}}"#,
        CURRENT_VERSION - 1
    );
    terminal_unavailable_run(&mut runs, "run_lower_ver", &delta);
    assert!(
        terminal_run_should_rearm(runs.get_run("run_lower_ver").unwrap(), true, CURRENT_VERSION),
        "a parser upgrade must still reach a lower-version witness_fallback period"
    );
}

#[test]
fn a_pdf_document_gap_is_never_rearmed() {
    let mut runs = AutopilotRuns::new();
    let delta = format!(
        r#"{{"extractionAvailable":false,"reason":"pdf_document","pipelineVersion":{}}}"#,
        CURRENT_VERSION - 1
    );
    terminal_unavailable_run(&mut runs, "run_pdf_gap", &delta);
    assert!(
        !terminal_run_should_rearm(runs.get_run("run_pdf_gap").unwrap(), true, CURRENT_VERSION),
        "the by-design PDF gap must never re-arm"
    );
}

#[test]
fn gap_reason_names_a_pdf_document_and_keeps_the_fallback_otherwise() {
    let pdf = extract_stage_delta(&StructuredAttempt::NoEmit, "autopilot", true, CURRENT_VERSION);
    assert_eq!(pdf, r#"{"extractionAvailable":false,"pipelineVersion":3,"reason":"pdf_document"}"#);
    let xhtml = extract_stage_delta(&StructuredAttempt::NoEmit, "autopilot", false, CURRENT_VERSION);
    assert_eq!(xhtml, r#"{"extractionAvailable":false,"pipelineVersion":3,"reason":"no_deterministic_tier"}"#);
    // A failed extraction never earns the by-design PDF reason.
    let failed = extract_stage_delta(&StructuredAttempt::Failed, "autopilot", true, CURRENT_VERSION);
    assert!(failed.contains("no_deterministic_tier"));
    let emitted = extract_stage_delta(
        &StructuredAttempt::Emitted { produced: 40, tier: Some("esef".to_owned()) },
        "autopilot",
        false,
        CURRENT_VERSION,
    );
    assert_eq!(
        emitted,
        r#"{"extractionAvailable":true,"factsAutoConfirmed":40,"factsProposed":40,"mode":"autopilot","pipelineVersion":3,"produced":40,"structured":true,"tier":"esef"}"#
    );
}

#[test]
fn a_hand_off_enqueue_failure_fails_the_run_with_a_typed_reason() {
    let mut runs = AutopilotRuns::new();
    let mut jobs = JobQueue::new();
    let run_id = "run_handoff_poison";
    assert!(runs.create_run_if_absent(run_id, "company_q1", "document_q1", "manual", "autopilot", None));
    assert!(enqueue_first_stage(&mut runs, &mut jobs, run_id, Ok(())));

    // The fetch stage runs and succeeds; the store then refuses the extract hand-off.
    let claimed = jobs.claim_next().expect("fetch job");
    let result = run_stage(
        &mut runs,
        &mut jobs,
        &claimed.payload,
        StageOutcome::Done,
        Err("extract hand-off poisoned for test".to_owned()),
    );
    assert!(result.is_ok(), "the fetch stage's own job succeeded");
    assert!(jobs.mark_succeeded(&claimed.id));

    let run = runs.get_run(run_id).expect("run");
    assert_eq!(run.status, "failed", "the run must be finalized failed, not left dangling with no live job");
    assert!(
        run.last_error.as_deref().is_some_and(|error| error.contains("extract") && error.contains("could not be enqueued")),
        "last_error must name the stage: {:?}",
        run.last_error
    );
    assert_eq!(
        run.last_error.as_deref(),
        Some("stage extract could not be enqueued: extract hand-off poisoned for test")
    );
    assert!(jobs.status(&stage_job_id(run_id, "extract")).is_none(), "no extract job was written");
    let fetch_job = jobs.status(&stage_job_id(run_id, STAGE_FETCH)).expect("fetch job row exists");
    assert_eq!(fetch_job.status, JobStatus::Succeeded, "the fetch stage's own job genuinely succeeded");
    assert!(!fail_run_stage_enqueue(&mut runs, "missing", "extract", "x"), "an unknown run is reported");
}

#[test]
fn stages_follow_one_another_and_end_at_notify() {
    assert_eq!(next_stage("fetch"), Some("extract"));
    assert_eq!(next_stage("extract"), Some("diff"));
    assert_eq!(next_stage("diff"), Some("cross_reference"));
    assert_eq!(next_stage("cross_reference"), Some("notify"));
    assert_eq!(next_stage("notify"), None);
    assert_eq!(next_stage("bogus"), None);
}

#[test]
fn a_run_is_live_while_one_of_its_stage_jobs_is_pending_or_running() {
    let mut runs = AutopilotRuns::new();
    let mut jobs = JobQueue::new();
    assert!(!has_live_stage_job(&jobs, "run_a"));
    assert!(enqueue_first_stage(&mut runs, &mut jobs, "run_a", Ok(())));
    assert!(has_live_stage_job(&jobs, "run_a"));
    assert!(!has_live_stage_job(&jobs, "run_b"), "another run's job does not count");
    let claimed = jobs.claim_next().expect("job");
    assert!(has_live_stage_job(&jobs, "run_a"), "a running job is live");
    assert!(jobs.mark_succeeded(&claimed.id));
    assert!(!has_live_stage_job(&jobs, "run_a"), "a finished job is not");
}

#[test]
fn stored_delta_reasons_map_to_typed_codes() {
    assert_eq!(KpiUnavailableReason::from_delta_reason("quota_exhausted"), KpiUnavailableReason::QuotaExhausted);
    assert_eq!(KpiUnavailableReason::from_delta_reason("no_vision_provider"), KpiUnavailableReason::ProviderNotConfigured);
    assert_eq!(KpiUnavailableReason::from_delta_reason("provider_error:429"), KpiUnavailableReason::ProviderError);
    assert_eq!(KpiUnavailableReason::from_delta_reason("witness_fallback"), KpiUnavailableReason::WitnessFallback);
    assert_eq!(KpiUnavailableReason::from_delta_reason("pdf_document"), KpiUnavailableReason::PdfDocument);
    assert_eq!(KpiUnavailableReason::from_delta_reason("not_extractable"), KpiUnavailableReason::NoDeterministicTier);
}

#[test]
fn the_sniffed_container_wins_over_the_file_name() {
    let mut doc = report_doc("d", "https://x/emitent/2025-05/ssf.pdf", "SSF 2025", "2025-05-01T00:00:00Z");
    assert_eq!(resolved_container(&doc), Container::Pdf);
    doc.detected_container = Some("xml".to_owned());
    assert_eq!(resolved_container(&doc), Container::Xml);
    doc.detected_container = Some("unknown".to_owned());
    assert_eq!(resolved_container(&doc), Container::Pdf, "an unrecognised code falls back to the name");
}

#[test]
fn the_diff_reference_names_both_documents() {
    assert_eq!(
        diff_ref_json("doc_old", "doc_new", "ssf"),
        r#"{"newerReportDocumentId":"doc_new","olderReportDocumentId":"doc_old","statementType":"ssf"}"#
    );
}
