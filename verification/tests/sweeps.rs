use brawler_core::autopilot::{document_is_extractable, run_detection_sweep, DetectionCompany, ReportDoc};
use brawler_core::awaited_paths::{calls_core, direct_paths, is_test_file};
use brawler_core::feed_cleanup::{cleanup_metrics, delete_unsaved_feed_items, prune_old_feed_items, CleanupMode};
use brawler_core::health_facts::{backfill_company_health_facts, HealthDocument, HealthFactsBackfillResult, StructuredRun};
use brawler_core::reconcile::DomainRow;
use brawler_core::history_sweep::{
    enqueue_history_sweep, fetched_periodic_documents, history_sweep_candidates, run_history_sweep,
    select_sweep_document, CoveragePeriod, CoverageReport, HistorySweepCandidate, HistorySweepPayload,
    HistorySweepResult, PeriodDocument, PeriodicKind, SweepDocument,
};
use brawler_core::insider_attachment::{
    backfill_company_insider_attachments, fetch_and_parse_insider_attachments, filing_verdict, flatten_sections,
    is_notification_candidate, needs_fetch, terminal_marker, AttachmentDocument, DocumentAttempt, FilingResult,
    FilingVerdict, MergeDiagnostics, Section,
};
use brawler_core::kinds::{AUTOPILOT_STAGE_KIND, HISTORY_SWEEP_KIND};
use brawler_core::queue::{JobQueue, JobStatus};
use brawler_core::runs::AutopilotRuns;
use brawler_core::worker::{build_worker, JobWorker};
use brawler_core::lanes::registered_kinds;

const VERSION: u32 = 7;

fn doc(id: &str, url: &str, created_at: &str, local_path: Option<&str>, container: Option<&str>) -> ReportDoc {
    ReportDoc {
        id: id.to_owned(),
        url: url.to_owned(),
        title: Some("Raport roczny".to_owned()),
        fetch_status: "fetched".to_owned(),
        fetched_at: None,
        created_at: created_at.to_owned(),
        detected_container: container.map(|c| c.to_owned()),
        statement: Some("ssf".to_owned()),
        local_path: local_path.map(|p| p.to_owned()),
        markup_is_inline_xbrl: false,
    }
}

// --- extractability --------------------------------------------------------

#[test]
fn extractability_follows_the_container() {
    assert!(document_is_extractable(&doc("d", "https://x/r.pdf", "2025-01-01", Some("r.pdf"), None)));
    assert!(document_is_extractable(&doc("d", "https://x/r.zip", "2025-01-01", Some("r.zip"), None)));
    assert!(!document_is_extractable(&doc("d", "https://x/r.pdf", "2025-01-01", None, None)), "no stored file");
    let mut markup = doc("d", "https://x/r.xhtml", "2025-01-01", Some("r.xhtml"), None);
    assert!(!document_is_extractable(&markup), "markup without inline XBRL");
    markup.markup_is_inline_xbrl = true;
    assert!(document_is_extractable(&markup));
    let garbage = doc("d", "https://x/r.pdf", "2025-01-01", Some("r.pdf"), Some("bin"));
    assert!(document_is_extractable(&garbage), "an unknown sniffed code falls back to the name");
}

// --- detection sweep -------------------------------------------------------

#[test]
fn detection_starts_one_run_per_newest_report_and_is_idempotent() {
    let mut runs = AutopilotRuns::new();
    let mut jobs = JobQueue::new();
    let companies = || {
        vec![
            DetectionCompany {
                company_id: "company_cdr".to_owned(),
                mode: Some("autopilot".to_owned()),
                documents: Some(vec![
                    doc("doc_old", "https://x/2024.pdf", "2024-03-01", Some("a.pdf"), None),
                    doc("doc_new", "https://x/2025.pdf", "2025-03-01", Some("b.pdf"), None),
                ]),
            },
            DetectionCompany {
                company_id: "company_off".to_owned(),
                mode: Some("off".to_owned()),
                documents: Some(vec![doc("doc_off", "https://x/off.pdf", "2025-03-01", Some("c.pdf"), None)]),
            },
            DetectionCompany { company_id: "company_err".to_owned(), mode: None, documents: None },
        ]
    };
    run_detection_sweep(&mut runs, &mut jobs, companies(), VERSION);
    assert_eq!(runs.len(), 1, "one run for the newest report only");
    let run = runs.get_run("autopilot_run:company_cdr:doc_new").expect("run for the newest report");
    assert_eq!(run.trigger, "detection");
    assert_eq!(run.mode, "autopilot");
    assert_eq!(run.sweep_id, None);
    let job = jobs.status("autopilot:autopilot_run:company_cdr:doc_new:fetch").expect("fetch stage armed");
    assert_eq!(job.kind, AUTOPILOT_STAGE_KIND);

    run_detection_sweep(&mut runs, &mut jobs, companies(), VERSION);
    assert_eq!(runs.len(), 1, "a second sweep starts no duplicate run");
    assert_eq!(jobs.len(), 1);
}

// --- history sweep ---------------------------------------------------------

fn period_doc(id: &str, year: i64, kind: PeriodicKind, created_at: &str, extractable_pdf: bool) -> PeriodDocument {
    PeriodDocument {
        fiscal_year: year,
        period_type: "FY".to_owned(),
        kind,
        document: doc(
            id,
            if extractable_pdf { "https://x/r.pdf" } else { "https://x/r.xhtml" },
            created_at,
            Some("r"),
            None,
        ),
    }
}

#[test]
fn the_canonical_is_kept_when_extractable_and_replaced_by_the_best_sibling_otherwise() {
    let docs = vec![
        period_doc("canon", 2024, PeriodicKind::Ssf, "2025-01-01", true),
        period_doc("sib_jsf", 2024, PeriodicKind::Jsf, "2025-03-01", true),
    ];
    assert_eq!(select_sweep_document(&docs, 2024, "FY", "canon"), ("canon".to_owned(), Some(true)));

    let docs = vec![
        period_doc("canon", 2024, PeriodicKind::Ssf, "2025-01-01", false),
        period_doc("sib_jsf", 2024, PeriodicKind::Jsf, "2025-03-01", true),
        period_doc("sib_ssf_old", 2024, PeriodicKind::Ssf, "2025-01-02", true),
        period_doc("sib_ssf_new", 2024, PeriodicKind::Ssf, "2025-02-01", true),
        period_doc("other_year", 2023, PeriodicKind::Ssf, "2025-05-01", true),
    ];
    assert_eq!(
        select_sweep_document(&docs, 2024, "FY", "canon"),
        ("sib_ssf_new".to_owned(), Some(true)),
        "ssf before jsf, then the newest"
    );

    let docs = vec![period_doc("canon", 2024, PeriodicKind::Ssf, "2025-01-01", false)];
    assert_eq!(select_sweep_document(&docs, 2024, "FY", "canon"), ("canon".to_owned(), Some(false)), "kept when alone");
    assert_eq!(select_sweep_document(&docs, 2024, "FY", "missing"), ("missing".to_owned(), None));
}

#[test]
fn candidates_are_fetched_reports_without_facts() {
    let sweep_docs = vec![
        SweepDocument {
            document: doc("d2025", "https://x/2025.pdf", "2026-01-01", Some("a"), None),
            doc_kind: Some("periodic_ssf".to_owned()),
            period: Some((2025, "FY".to_owned())),
        },
        SweepDocument {
            document: doc("note", "https://x/n.pdf", "2026-01-01", Some("b"), None),
            doc_kind: Some("espi_notice".to_owned()),
            period: Some((2025, "FY".to_owned())),
        },
    ];
    let grouped = fetched_periodic_documents(sweep_docs);
    assert_eq!(grouped.len(), 1);
    let coverage = vec![
        CoveragePeriod {
            fiscal_year: 2025,
            period_type: "FY".to_owned(),
            report: Some(CoverageReport { document_id: "d2025".to_owned(), fetched: true }),
            facts_total: 0,
        },
        CoveragePeriod {
            fiscal_year: 2024,
            period_type: "FY".to_owned(),
            report: Some(CoverageReport { document_id: "d2024".to_owned(), fetched: true }),
            facts_total: 12,
        },
        CoveragePeriod {
            fiscal_year: 2023,
            period_type: "FY".to_owned(),
            report: Some(CoverageReport { document_id: "d2023".to_owned(), fetched: false }),
            facts_total: 0,
        },
        CoveragePeriod { fiscal_year: 2022, period_type: "FY".to_owned(), report: None, facts_total: 0 },
    ];
    let candidates = history_sweep_candidates(&coverage, &grouped);
    assert_eq!(candidates.len(), 1);
    assert_eq!(candidates[0].document_id, "d2025");
    assert_eq!(candidates[0].fiscal_year, 2025);
    assert!(candidates[0].document_extractable);
}

fn candidate(doc_id: &str) -> HistorySweepCandidate {
    HistorySweepCandidate { document_id: doc_id.to_owned(), fiscal_year: 2024, period_type: "FY".to_owned(), document_extractable: true }
}

#[test]
fn a_sweep_counts_every_candidate_and_is_idempotent() {
    let mut runs = AutopilotRuns::new();
    let mut jobs = JobQueue::new();
    let result = run_history_sweep(&mut runs, &mut jobs, "sweep_1", "company_cdr", "assist",
        Ok(vec![candidate("d1"), candidate("d2")]), VERSION);
    let HistorySweepResult::Completed(outcome) = result else {
        panic!("the sweep completes");
    };
    assert_eq!((outcome.candidates_total, outcome.runs_enqueued, outcome.skipped_existing, outcome.runs_failed), (2, 2, 0, 0));
    assert_eq!(outcome.enqueued_run_ids, vec!["autopilot_run:company_cdr:d1".to_owned(), "autopilot_run:company_cdr:d2".to_owned()]);
    assert_eq!(outcome.skipped_reason, None);
    let run = runs.get_run("autopilot_run:company_cdr:d1").expect("run");
    assert_eq!(run.trigger, "history_sweep");
    assert_eq!(run.sweep_id.as_deref(), Some("sweep_1"));
    assert_eq!(runs.len(), 2);

    // A second sweep re-arms the still-open runs: nothing new is created.
    let again = run_history_sweep(&mut runs, &mut jobs, "sweep_2", "company_cdr", "assist",
        Ok(vec![candidate("d1"), candidate("d2")]), VERSION);
    let HistorySweepResult::Completed(outcome) = again else {
        panic!("the sweep completes");
    };
    assert_eq!(outcome.runs_enqueued + outcome.skipped_existing + outcome.runs_failed, outcome.candidates_total);
    assert_eq!(runs.len(), 2);
}

#[test]
fn a_sweep_in_mode_off_is_skipped_with_a_reason() {
    let mut runs = AutopilotRuns::new();
    let mut jobs = JobQueue::new();
    let result = run_history_sweep(&mut runs, &mut jobs, "sweep_1", "company_cdr", "off", Ok(vec![candidate("d1")]), VERSION);
    let HistorySweepResult::Completed(outcome) = result else {
        panic!("the sweep completes");
    };
    assert_eq!(outcome.skipped_reason.as_deref(), Some("automation_off"));
    assert_eq!(outcome.runs_enqueued, 0);
    assert_eq!(runs.len(), 0);
    assert_eq!(jobs.len(), 0);

    let failed = run_history_sweep(&mut runs, &mut jobs, "sweep_1", "company_cdr", "assist", Err("coverage failed".to_owned()), VERSION);
    assert!(matches!(failed, HistorySweepResult::Failed(ref e) if e == "coverage failed"));
}

#[test]
fn the_sweep_job_is_keyed_by_the_sweep_id() {
    let mut jobs = JobQueue::new();
    let mut sweeps: Vec<DomainRow> = Vec::new();
    assert!(enqueue_history_sweep(&mut sweeps, &mut jobs, "sweep_42").is_ok());
    assert_eq!(
        enqueue_history_sweep(&mut sweeps, &mut jobs, "sweep_42").err().as_deref(),
        Some("history sweep job already exists: sweep_42"),
        "a second sweep under the same id writes nothing"
    );
    assert_eq!(sweeps.len(), 1, "one sweep row, created with its job");
    assert_eq!(sweeps[0].id, "sweep_42");
    assert_eq!(sweeps[0].status, "queued");
    let row = jobs.status("sweep_42").expect("queued");
    assert_eq!(row.kind, HISTORY_SWEEP_KIND);
    assert_eq!(row.payload, "{\"sweep_id\":\"sweep_42\"}");
    assert_eq!(row.status, JobStatus::Pending);
    assert_eq!(row.max_attempts, 1);
    let payload = HistorySweepPayload::from_json(&row.payload).expect("payload reads back");
    assert_eq!(payload.sweep_id, "sweep_42");
    assert_eq!(HistorySweepPayload::from_json("{}").err().as_deref(), Some("history sweep payload missing sweep_id"));
    assert!(HistorySweepPayload::from_json("{oops").is_err());
}

// --- insider attachments ---------------------------------------------------

#[test]
fn insider_filings_end_in_the_right_outcome() {
    let candidate = AttachmentDocument {
        id: "doc".to_owned(),
        source_type: "espi_attachment".to_owned(),
        url: "https://static.att/powiadomienie.xhtml".to_owned(),
        is_signature: false,
        local_path: None,
    };
    assert!(is_notification_candidate(&candidate));
    assert!(!is_notification_candidate(&AttachmentDocument { is_signature: true, ..candidate }));
    assert!(needs_fetch(&None));
    assert!(needs_fetch(&Some("  ".to_owned())));
    assert!(!needs_fetch(&Some("reports/x.pdf".to_owned())));

    assert_eq!(filing_verdict(0, &vec![]), FilingVerdict::NoAttachment);
    assert_eq!(filing_verdict(1, &vec![DocumentAttempt::Extracted { units: 1 }]), FilingVerdict::Merge);
    assert_eq!(filing_verdict(1, &vec![DocumentAttempt::FetchFailed]), FilingVerdict::FetchRetry);
    assert_eq!(filing_verdict(1, &vec![DocumentAttempt::NoTextLayer]), FilingVerdict::NoTextLayer);
    assert_eq!(filing_verdict(2, &vec![DocumentAttempt::FetchFailed, DocumentAttempt::NoTextLayer]), FilingVerdict::NoTextLayer);
    assert_eq!(filing_verdict(1, &vec![DocumentAttempt::Extracted { units: 0 }]), FilingVerdict::NotFound);
    assert_eq!(filing_verdict(1, &vec![]), FilingVerdict::FetchRetry);

    assert_eq!(terminal_marker(FilingResult::FetchRetry), None, "a transient failure is not marked");
    assert_eq!(terminal_marker(FilingResult::NoTextLayer), Some("no_text_layer"));
}

#[test]
fn an_insider_sweep_is_counted() {
    let parsed = FilingResult::Parsed(MergeDiagnostics { filled: 4, appended: 0, conflicts: 1 });
    let summary = fetch_and_parse_insider_attachments(vec![Ok(parsed), Ok(FilingResult::FetchRetry), Ok(FilingResult::NotFound)])
        .expect("sweep");
    assert_eq!(summary.filings_attempted, 3);
    assert_eq!(summary.parsed, 1);
    assert_eq!(summary.filled, 4);
    assert_eq!(summary.conflicts, 1);
    assert_eq!(summary.fetch_retry, 1);
    assert_eq!(summary.not_found, 1);
    assert_eq!(
        fetch_and_parse_insider_attachments(vec![Ok(parsed), Err("disk full".to_owned()), Ok(parsed)]),
        Err("disk full".to_owned())
    );
    assert_eq!(backfill_company_insider_attachments(Err("locked".to_owned()), vec![Ok(parsed)]), Err("locked".to_owned()));
    assert_eq!(backfill_company_insider_attachments(Ok(()), vec![Ok(parsed)]).map(|s| s.parsed), Ok(1));
}

#[test]
fn extracted_sections_flatten_for_the_form_parser() {
    let sections = vec![
        Section { heading: "<preamble>".to_owned(), body: "Powiadomienie".to_owned() },
        Section { heading: "Szczegóły transakcji".to_owned(), body: "Wolumen: 1 000".to_owned() },
    ];
    assert_eq!(flatten_sections(&sections), "Powiadomienie\nSzczegóły transakcji\nWolumen: 1 000\n");
}

// --- health facts ----------------------------------------------------------

fn esef_doc(period: bool, extraction: Result<StructuredRun, String>) -> HealthDocument {
    HealthDocument { fetched_periodic: true, has_stored_file: true, esef_route: true, period_derived: period, extraction }
}

#[test]
fn backfill_adds_new_concepts_idempotently_without_touching_old_facts() {
    let first = backfill_company_health_facts(vec![esef_doc(true, Ok(StructuredRun { created: 3, reobserved: 0, divergences: 0 }))])
        .expect("first backfill");
    assert_eq!(first.documents_processed, 1);
    assert_eq!(first.facts_created, 3);
    let second = backfill_company_health_facts(vec![esef_doc(true, Ok(StructuredRun { created: 4, reobserved: 3, divergences: 0 }))])
        .expect("second backfill");
    assert_eq!((second.facts_created, second.facts_reobserved, second.divergences), (4, 3, 0));
    let skipped = backfill_company_health_facts(vec![
        esef_doc(false, Ok(StructuredRun { created: 9, reobserved: 9, divergences: 9 })),
        HealthDocument { esef_route: false, ..esef_doc(true, Err("never run".to_owned())) },
    ])
    .expect("nothing in scope runs");
    assert_eq!(
        skipped,
        HealthFactsBackfillResult { documents_processed: 0, documents_skipped_no_period: 1, facts_created: 0, facts_reobserved: 0, divergences: 0 }
    );
    assert_eq!(backfill_company_health_facts(vec![esef_doc(true, Err("bad package".to_owned()))]), Err("bad package".to_owned()));
}

// --- feed cleanup ----------------------------------------------------------

#[test]
fn feed_cleanup_reports_its_outcome() {
    let (outcome, metrics) = prune_old_feed_items(Ok(5));
    assert_eq!(outcome, Ok(5));
    assert_eq!((metrics.module, metrics.status, metrics.deleted), ("retention", "succeeded", Some(5)));
    let (_, metrics) = delete_unsaved_feed_items(Ok(0));
    assert_eq!((metrics.module, metrics.status, metrics.deleted), ("unsaved", "succeeded", None));
    let (outcome, metrics) = delete_unsaved_feed_items(Err("locked".to_owned()));
    assert_eq!(outcome, Err("locked".to_owned()));
    assert_eq!((metrics.status, metrics.deleted), ("failed", None));
}

// --- awaited paths ---------------------------------------------------------

#[test]
fn only_allowed_files_call_an_unwrapped_core() {
    let paths = direct_paths();
    assert_eq!(paths.len(), 5);
    let backfill = paths.iter().find(|p| p.core_fn == "backfill_company_history").expect("registered");
    assert!(backfill.allows_caller("jobs/backfill.rs"));
    assert!(backfill.allows_caller("jobs/backfill_tests.rs"));
    assert!(!backfill.allows_caller("commands/sources.rs"));
    let refresh = paths.iter().find(|p| p.core_fn == "refresh_source_for_trigger").expect("registered");
    assert!(refresh.allows_caller("jobs/handlers.rs"));
    assert!(is_test_file("storage/tests/schema.rs"));
    assert!(is_test_file("jobs/autopilot/tests.rs"));
    assert!(!is_test_file("jobs/testsupport.rs"));
    assert!(calls_core("    let p = backfill_company_history(state, id);", "backfill_company_history"));
    assert!(!calls_core("pub fn backfill_company_history(state: &AppState)", "backfill_company_history"));
    assert!(!calls_core("// see backfill_company_history_direct", "backfill_company_history"));
}

// --- the worker ------------------------------------------------------------

#[test]
fn the_worker_has_a_handler_for_every_registered_kind() {
    let worker = build_worker();
    for kind in registered_kinds() {
        assert!(worker.handles(kind), "{kind} has a handler");
        assert_eq!(worker.dispatch(kind), None);
    }
    assert_eq!(worker.dispatch("nope"), Some("no handler registered for job kind nope".to_owned()));
    let mut empty = JobWorker::new();
    assert!(!empty.handles("history_sweep"));
    empty.register("history_sweep");
    empty.register("history_sweep");
    assert!(empty.handles("history_sweep"));
}

#[test]
fn transient_fetch_failure_retries_no_marker() {
    // Every candidate document failed to fetch: the filing is retried, not marked.
    let verdict = filing_verdict(1, &vec![DocumentAttempt::FetchFailed]);
    assert_eq!(verdict, FilingVerdict::FetchRetry);
    let summary = fetch_and_parse_insider_attachments(vec![Ok(FilingResult::FetchRetry)]).expect("sweep");
    assert_eq!(summary.fetch_retry, 1);
    assert_eq!(terminal_marker(FilingResult::FetchRetry), None, "a transient fetch failure is NOT marked terminal");

    // The next sweep, with the document readable, parses and merges it.
    assert_eq!(filing_verdict(1, &vec![DocumentAttempt::Extracted { units: 1 }]), FilingVerdict::Merge);
    let parsed = FilingResult::Parsed(MergeDiagnostics { filled: 3, appended: 0, conflicts: 0 });
    let summary2 = fetch_and_parse_insider_attachments(vec![Ok(parsed)]).expect("sweep2");
    assert_eq!(summary2.parsed, 1);
}

#[test]
fn no_text_layer_document_parks_terminally() {
    // A scanned PDF with no extractable text layer.
    let verdict = filing_verdict(1, &vec![DocumentAttempt::NoTextLayer]);
    assert_eq!(verdict, FilingVerdict::NoTextLayer);
    let summary = fetch_and_parse_insider_attachments(vec![Ok(FilingResult::NoTextLayer)]).expect("sweep");
    assert_eq!(summary.no_text_layer + summary.not_found, 1);
    assert!(terminal_marker(FilingResult::NoTextLayer).is_some(), "an unreadable document is terminal");
    assert_eq!(summary.filled, 0, "no figures guessed");
}

#[test]
fn cleanup_metrics_name_the_mode_and_count_only_real_deletions() {
    let m = cleanup_metrics(CleanupMode::Retention, &Ok(12));
    assert_eq!((m.module, m.status, m.deleted), ("retention", "succeeded", Some(12)));
    let m = cleanup_metrics(CleanupMode::Unsaved, &Ok(0));
    assert_eq!((m.module, m.status, m.deleted), ("unsaved", "succeeded", None));
    let m = cleanup_metrics(CleanupMode::Unsaved, &Err("locked".to_owned()));
    assert_eq!((m.module, m.status, m.deleted), ("unsaved", "failed", None));
}

#[test]
fn a_sweep_payload_round_trips_through_json() {
    let payload = HistorySweepPayload { sweep_id: "sweep_\"1\"".to_owned() };
    let json = payload.to_json();
    assert_eq!(json, r#"{"sweep_id":"sweep_\"1\""}"#);
    let back = HistorySweepPayload::from_json(&json).expect("parses");
    assert_eq!(back.sweep_id, payload.sweep_id);
}

#[test]
fn payload_literals_are_what_serde_json_writes() {
    let mut samples: Vec<String> = (0u32..0x80).filter_map(char::from_u32).map(|c| c.to_string()).collect();
    samples.push("plain id".to_owned());
    samples.push("quote \" backslash \\ tab \t nl \n".to_owned());
    samples.push("\u{7f}\u{1f}\u{0}é€😀\u{2028}".to_owned());
    for sample in samples {
        let payload = HistorySweepPayload { sweep_id: sample.clone() }.to_json();
        let expected = format!("{{\"sweep_id\":{}}}", serde_json::to_string(&sample).expect("string"));
        assert_eq!(payload, expected, "sample {sample:?}");
        assert_eq!(HistorySweepPayload::from_json(&payload).expect("reads back").sweep_id, sample);
    }
}
