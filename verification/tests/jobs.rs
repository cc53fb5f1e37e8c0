use brawler_core::ai_analysis::{
    provider_plan, run_ai_analysis_job, AnalysisAction, AnalysisEvent, AnalysisStage, DiagnosticSeverity, ProviderPlan,
    GEMINI_PROVIDER_ID, TEST_SAMPLE_ANALYSIS_PROVIDER_ID,
};
use brawler_core::claim_extraction::{
    company_name, document_mime, run_claim_extraction_job, transcript_text, ClaimAction, ClaimEvent, ClaimJob,
    ClaimStage, ParsedClaim, SourceDocument, NOT_FETCHED, NO_DOCUMENT_SUPPORT, NO_SEGMENTS,
};
use brawler_core::content_embedding::{
    batch_ranges, check_vector_count, plan_embedding, run_content_embedding_job, EmbedJobStatus, EmbedStart,
    EmbeddableContent, EMBEDDING_STRATEGY, EMBED_BATCH_SIZE,
};
use brawler_core::event_derivation::{
    event_kind, is_calendar_date, parse_espi_event_date_output, run_ai_event_derivation, AiEventDerivationSummary,
    event_date_proposal, EventCandidateRun, ProposedEvent, DEFAULT_BATCH_LIMIT, NO_PROVIDER_ERROR, PROPOSED_STATUS,
};
use brawler_core::interpretation::model_dir;
use brawler_core::kpi_extraction::{
    is_transient_error_code, run_kpi_extraction_job, tier4_reason_error, KpiAction, KpiEvent, KpiExtractionJobError,
    KpiStage, Tier4Outcome, NOT_FETCHED_MESSAGE, KpiPeriod, KpiDiagnosticMeta, closing_diagnostic,
};
use brawler_core::queue::JobQueue;

// --- model directory -------------------------------------------------------

#[test]
fn model_dir_is_filesystem_safe() {
    let dir = model_dir("/data", "intfloat/multilingual-e5-small");
    assert_eq!(dir, "/data/models/intfloat__multilingual-e5-small");
}

// --- KPI extraction --------------------------------------------------------

/// The availability classification of each provider error code, as the
/// provider boundary defines it: only rate limits, unavailability and network
/// errors are worth a retry.
const PROVIDER_ERROR_CODES: &[(&str, bool)] = &[
    ("provider_not_configured", false),
    ("provider_limit", true),
    ("provider_unavailable", true),
    ("provider_error", false),
    ("network_error", true),
    ("parse_error", false),
    ("unknown", false),
];

#[test]
fn transient_classification_mirrors_provider_availability_errors() {
    for (code, is_availability_error) in PROVIDER_ERROR_CODES {
        assert_eq!(is_transient_error_code(code), *is_availability_error, "classification drift for code {code:?}");
    }
    assert!(!is_transient_error_code("non_pdf_document"));
    assert!(!is_transient_error_code("unknown"));
}

fn period() -> KpiPeriod {
    KpiPeriod { fiscal_year: 2025, period_type: "annual".to_owned(), period_end: "2025-12-31".to_owned() }
}

fn kpi_events_until_extract(extracted: Result<Tier4Outcome, (String, String)>) -> Vec<KpiEvent> {
    vec![
        KpiEvent::JobLoaded(Ok("queued".to_owned())),
        KpiEvent::DocumentLoaded(Ok("fetched".to_owned())),
        KpiEvent::PeriodDerived(Some(period())),
        KpiEvent::MarkedRunning(Ok(())),
        KpiEvent::Extracted(extracted),
    ]
}

#[test]
fn kpi_extraction_with_facts_completes_with_the_committed_count() {
    let jobs = JobQueue::new();
    let (stage, action, _) = run_kpi_extraction_job(
        &jobs,
        "kpi_job_1",
        kpi_events_until_extract(Ok(Tier4Outcome { reason: "facts_emitted".to_owned(), produced_facts: 2, proposal_count: 0 })),
    );
    assert_eq!(stage, KpiStage::Done);
    assert_eq!(action, KpiAction::Complete { committed_fact_count: 2 });
}

#[test]
fn a_completed_kpi_run_leaves_the_full_diagnostic_trail() {
    let jobs = JobQueue::new();
    let (_, action, diagnostics) = run_kpi_extraction_job(
        &jobs,
        "kpi_job_1",
        kpi_events_until_extract(Ok(Tier4Outcome { reason: "facts_emitted".to_owned(), produced_facts: 2, proposal_count: 1 })),
    );
    let stages: Vec<&str> = diagnostics.iter().map(|d| d.stage).collect();
    assert_eq!(stages, vec!["running", "request_sent", "parsed"]);
    assert_eq!(diagnostics[1].meta, KpiDiagnosticMeta::Period(period()));
    assert_eq!(
        diagnostics[2].meta,
        KpiDiagnosticMeta::Parsed { reason: "facts_emitted".to_owned(), committed_fact_count: 2, proposal_count: 1 }
    );
    assert_eq!(closing_diagnostic(&action).expect("stored").stage, "stored");
    let failed = closing_diagnostic(&KpiAction::MarkFailed { code: "no_period".to_owned(), error: "x".to_owned() })
        .expect("failed");
    assert_eq!(failed.stage, "failed");
    assert_eq!(failed.severity, DiagnosticSeverity::Error);
    assert_eq!(failed.meta, KpiDiagnosticMeta::Failed { error_code: "no_period".to_owned(), error: "x".to_owned() });
}

#[test]
fn a_succeeded_kpi_job_is_returned_as_it_is() {
    let jobs = JobQueue::new();
    let (stage, action, _) = run_kpi_extraction_job(&jobs, "kpi_job_1", vec![KpiEvent::JobLoaded(Ok("succeeded".to_owned()))]);
    assert_eq!(stage, KpiStage::Done);
    assert_eq!(action, KpiAction::AlreadySucceeded);
}

#[test]
fn transient_provider_failure_reschedules_the_queue_job_with_backoff() {
    let mut jobs = JobQueue::new();
    jobs.enqueue("kpi_job_1", "kpi_extraction", "kpi_job_1", 3);
    jobs.claim_next().expect("claimed");
    let (_, action, diagnostics) = run_kpi_extraction_job(
        &jobs,
        "kpi_job_1",
        kpi_events_until_extract(Err(("provider_limit".to_owned(), "rate limited".to_owned()))),
    );
    assert_eq!(action, KpiAction::RetryScheduled { message: "provider_limit: rate limited".to_owned() });
    let retry = diagnostics.iter().find(|d| d.stage == "retry_scheduled").expect("a retry_scheduled diagnostic records the transient failure");
    assert_eq!(retry.severity, DiagnosticSeverity::Warning);
    assert_eq!(
        retry.meta,
        KpiDiagnosticMeta::RetryScheduled {
            error_code: "provider_limit".to_owned(),
            error: "rate limited".to_owned(),
            attempt: 1,
            max_attempts: 3,
        }
    );
    assert!(closing_diagnostic(&action).is_none(), "a retried attempt is not failed");
    let error = KpiExtractionJobError::TransientRetryScheduled("provider_limit: rate limited".to_owned());
    assert!(error.message().contains("provider_limit"));
}

#[test]
fn exhausted_transient_retries_end_in_a_failed_domain_job() {
    let mut jobs = JobQueue::new();
    jobs.enqueue("kpi_job_1", "kpi_extraction", "kpi_job_1", 1);
    jobs.claim_next().expect("claimed");
    let (_, action, _) = run_kpi_extraction_job(
        &jobs,
        "kpi_job_1",
        kpi_events_until_extract(Err(("provider_limit".to_owned(), "rate limited".to_owned()))),
    );
    assert_eq!(
        action,
        KpiAction::MarkFailed {
            code: "provider_limit".to_owned(),
            error: "rate limited (queue retries exhausted after 1 attempts)".to_owned(),
        }
    );
}

#[test]
fn terminal_provider_error_fast_fails_without_queue_retry() {
    let mut jobs = JobQueue::new();
    jobs.enqueue("kpi_job_1", "kpi_extraction", "kpi_job_1", 3);
    jobs.claim_next().expect("claimed");
    let (_, action, _) = run_kpi_extraction_job(
        &jobs,
        "kpi_job_1",
        kpi_events_until_extract(Err(("provider_error".to_owned(), "bad request".to_owned()))),
    );
    assert_eq!(action, KpiAction::MarkFailed { code: "provider_error".to_owned(), error: "bad request".to_owned() });
}

#[test]
fn an_inline_transient_failure_keeps_its_message() {
    let jobs = JobQueue::new();
    let (_, action, _) = run_kpi_extraction_job(
        &jobs,
        "kpi_job_1",
        kpi_events_until_extract(Err(("network_error".to_owned(), "connection reset".to_owned()))),
    );
    assert_eq!(action, KpiAction::MarkFailed { code: "network_error".to_owned(), error: "connection reset".to_owned() });
}

#[test]
fn kpi_extraction_prechecks_fail_with_their_codes() {
    let jobs = JobQueue::new();
    let (_, not_fetched, _) = run_kpi_extraction_job(
        &jobs,
        "kpi_job_1",
        vec![KpiEvent::JobLoaded(Ok("queued".to_owned())), KpiEvent::DocumentLoaded(Ok("metadata_only".to_owned()))],
    );
    assert_eq!(
        not_fetched,
        KpiAction::MarkFailed { code: "provider_error".to_owned(), error: NOT_FETCHED_MESSAGE.to_owned() }
    );
    let (_, no_period, _) = run_kpi_extraction_job(
        &jobs,
        "kpi_job_1",
        vec![
            KpiEvent::JobLoaded(Ok("queued".to_owned())),
            KpiEvent::DocumentLoaded(Ok("fetched".to_owned())),
            KpiEvent::PeriodDerived(None),
        ],
    );
    assert!(matches!(no_period, KpiAction::MarkFailed { ref code, .. } if code == "no_period"));
    let (_, not_pdf, _) = run_kpi_extraction_job(
        &jobs,
        "kpi_job_1",
        kpi_events_until_extract(Ok(Tier4Outcome { reason: "not_pdf".to_owned(), produced_facts: 0, proposal_count: 0 })),
    );
    assert!(matches!(not_pdf, KpiAction::MarkFailed { ref code, .. } if code == "non_pdf_document"));
    assert_eq!(tier4_reason_error("bootstrap_failed").map(|(c, _)| c), Some("parse_error"));
    assert_eq!(tier4_reason_error("bootstrap_proposals"), None);
    let (_, internal, _) = run_kpi_extraction_job(&jobs, "kpi_job_1", vec![KpiEvent::JobLoaded(Err("no such job".to_owned()))]);
    assert_eq!(internal, KpiAction::Internal("no such job".to_owned()));
}

// --- AI analysis -----------------------------------------------------------

fn analysis_success(provider: &str) -> Vec<AnalysisEvent> {
    vec![
        AnalysisEvent::JobLoaded(Ok(("queued".to_owned(), provider.to_owned()))),
        AnalysisEvent::FeedItemLoaded(Ok(())),
        AnalysisEvent::MarkedRunning(Ok(())),
        AnalysisEvent::Analyzed(Ok(())),
    ]
}

#[test]
fn deterministic_analysis_job_completes_with_result() {
    let (stage, action, _) = run_ai_analysis_job(analysis_success(TEST_SAMPLE_ANALYSIS_PROVIDER_ID));
    assert_eq!(stage, AnalysisStage::Done);
    assert_eq!(action, AnalysisAction::Complete);
}

#[test]
fn deterministic_analysis_job_records_diagnostic_lifecycle_when_enabled() {
    let (_, _, diagnostics) = run_ai_analysis_job(analysis_success(TEST_SAMPLE_ANALYSIS_PROVIDER_ID));
    let stages: Vec<&str> = diagnostics.iter().map(|d| d.stage).collect();
    assert_eq!(
        stages,
        vec![
            "running",
            "credential_checked",
            "provider_resolved",
            "context_loaded",
            "request_sent",
            "response_received",
            "parsed",
            "stored"
        ]
    );
    assert!(diagnostics.iter().all(|d| d.severity == DiagnosticSeverity::Info));
}

#[test]
fn an_unknown_analysis_provider_fails_the_job() {
    assert_eq!(provider_plan("provider_other"), ProviderPlan::Unknown);
    let (stage, action, diagnostics) =
        run_ai_analysis_job(vec![AnalysisEvent::JobLoaded(Ok(("queued".to_owned(), "provider_other".to_owned())))]);
    assert_eq!(stage, AnalysisStage::Done);
    assert_eq!(
        action,
        AnalysisAction::MarkFailed {
            code: "provider_error".to_owned(),
            error: "Unknown AI analysis provider: provider_other".to_owned(),
        }
    );
    assert_eq!(diagnostics.last().map(|d| d.stage), Some("failed"));
}

#[test]
fn gemini_without_a_key_warns_at_the_credential_check() {
    assert_eq!(provider_plan(GEMINI_PROVIDER_ID), ProviderPlan::Gemini);
    let events = vec![
        AnalysisEvent::JobLoaded(Ok(("queued".to_owned(), GEMINI_PROVIDER_ID.to_owned()))),
        AnalysisEvent::GeminiResolved { settings: Ok(()), key_configured: false, built: Ok(()) },
        AnalysisEvent::FeedItemLoaded(Ok(())),
        AnalysisEvent::MarkedRunning(Ok(())),
        AnalysisEvent::Analyzed(Err(("provider_limit".to_owned(), "quota".to_owned()))),
    ];
    let (_, action, diagnostics) = run_ai_analysis_job(events);
    assert_eq!(action, AnalysisAction::MarkFailed { code: "provider_limit".to_owned(), error: "quota".to_owned() });
    let checked = diagnostics.iter().find(|d| d.stage == "credential_checked").expect("credential check recorded");
    assert_eq!(checked.severity, DiagnosticSeverity::Warning);
    assert_eq!(diagnostics.last().map(|d| d.severity), Some(DiagnosticSeverity::Error));
}

// --- event derivation ------------------------------------------------------

#[test]
fn parser_rejects_null_and_invalid_dates() {
    assert_eq!(parse_espi_event_date_output(r#"{"date":"null"}"#, "test").expect("parse"), None);
    assert_eq!(parse_espi_event_date_output(r#"{"date":"2030-02-31"}"#, "test").expect("parse"), None);
    assert_eq!(
        parse_espi_event_date_output(r#"{"date":"2030-09-15"}"#, "test").expect("parse"),
        Some("2030-09-15".to_owned())
    );
}

#[test]
fn undatable_dividend_is_a_candidate_and_ai_date_derives_proposed_event() {
    assert_eq!(event_kind("dividend"), Some("dividend payment date (or, if absent, the dividend record date)"));
    let candidates = vec![EventCandidateRun {
        signal_id: "signal_1".to_owned(),
        category: "dividend".to_owned(),
        reply: Some(Ok(r#"{"date":"2030-09-15"}"#.to_owned())),
        derived: Some(Ok(true)),
    }];
    let summary = run_ai_event_derivation(true, Some("provider_gemini".to_owned()), Ok(()), &candidates).expect("run");
    assert_eq!(summary, AiEventDerivationSummary { enabled: true, examined: 1, derived: 1, skipped: 0 });

    // Derived once, the signal is no longer a candidate: deriving again creates nothing.
    let again = vec![EventCandidateRun {
        signal_id: "signal_1".to_owned(),
        category: "dividend".to_owned(),
        reply: Some(Ok(r#"{"date":"2030-09-15"}"#.to_owned())),
        derived: Some(Ok(false)),
    }];
    let summary = run_ai_event_derivation(true, Some("provider_gemini".to_owned()), Ok(()), &again).expect("run");
    assert_eq!(summary.derived, 0);
    assert_eq!(summary.skipped, 1);
}

#[test]
fn fallback_is_noop_when_disabled_by_default() {
    let summary = run_ai_event_derivation(false, None, Ok(()), &Vec::new()).expect("run");
    assert!(!summary.enabled);
    assert_eq!(summary.examined, 0);
}

#[test]
fn enabled_fallback_with_no_candidates_is_a_clean_noop() {
    let summary = run_ai_event_derivation(true, None, Ok(()), &Vec::new()).expect("run");
    assert!(summary.enabled);
    assert_eq!(summary.examined, 0);
    assert_eq!(summary.derived, 0);
}

#[test]
fn event_derivation_needs_a_configured_provider_and_counts_each_candidate() {
    let candidates = vec![
        EventCandidateRun { signal_id: "s".to_owned(), category: "general_meeting".to_owned(), reply: Some(Ok(r#"{"date":"2031-01-10"}"#.to_owned())), derived: Some(Ok(true)) },
        EventCandidateRun { signal_id: "s".to_owned(), category: "buyback".to_owned(), reply: None, derived: None },
        EventCandidateRun { signal_id: "s".to_owned(), category: "dividend".to_owned(), reply: Some(Err("timeout".to_owned())), derived: None },
        EventCandidateRun { signal_id: "s".to_owned(), category: "dividend".to_owned(), reply: Some(Ok("not json".to_owned())), derived: None },
    ];
    assert_eq!(run_ai_event_derivation(true, Some("   ".to_owned()), Ok(()), &candidates), Err(NO_PROVIDER_ERROR.to_owned()));
    assert_eq!(run_ai_event_derivation(true, Some("p".to_owned()), Err("bad key".to_owned()), &candidates), Err("bad key".to_owned()));
    let summary = run_ai_event_derivation(true, Some("p".to_owned()), Ok(()), &candidates).expect("run");
    assert_eq!(summary, AiEventDerivationSummary { enabled: true, examined: 4, derived: 1, skipped: 3 });
    assert!(parse_espi_event_date_output("not json", "p").is_err());
}

#[test]
fn calendar_dates_respect_month_lengths_and_leap_years() {
    assert!(is_calendar_date("2024-02-29"));
    assert!(!is_calendar_date("2023-02-29"));
    assert!(!is_calendar_date("1900-02-29"));
    assert!(is_calendar_date("2000-02-29"));
    assert!(!is_calendar_date("2030-04-31"));
    assert!(is_calendar_date("2030-12-31"));
    assert!(!is_calendar_date("2030-13-01"));
    assert!(!is_calendar_date("2030-00-10"));
    assert!(!is_calendar_date("2030-1-10"));
}

// --- content embedding -----------------------------------------------------

#[test]
fn skips_when_strategy_is_static() {
    match run_content_embedding_job("static", None) {
        EmbedStart::Skip(outcome) => {
            assert_eq!(outcome.status, EmbedJobStatus::SkippedStrategyStatic);
            assert_eq!(outcome.embedded, 0);
        },
        other => panic!("expected a skip, got {other:?}"),
    }
}

#[test]
fn skips_when_embedding_selected_but_no_model() {
    match run_content_embedding_job(EMBEDDING_STRATEGY, None) {
        EmbedStart::Skip(outcome) => assert_eq!(outcome.status, EmbedJobStatus::SkippedModelUnavailable),
        other => panic!("expected a skip, got {other:?}"),
    }
    assert_eq!(
        run_content_embedding_job(EMBEDDING_STRATEGY, Some("m1".to_owned())),
        EmbedStart::Embed { model_id: "m1".to_owned() }
    );
}

fn content(id: &str, text: &str) -> EmbeddableContent {
    EmbeddableContent { content_id: id.to_owned(), text: text.to_owned() }
}

#[test]
fn embed_plan_skips_unchanged_and_blank_and_reembeds_changed() {
    let first = plan_embedding("m1", None, &Vec::new(), vec![content("feed_01", "alfa"), content("feed_02", "beta")]);
    assert!(first.prune, "an empty index is rebuilt for the model");
    assert_eq!(first.pending.len(), 2);
    assert_eq!(first.pending[0].hash.len(), 64);
    assert_ne!(first.pending[0].hash, "alfa");
    assert_ne!(first.pending[0].hash, first.pending[1].hash);
    let existing: Vec<(String, String)> =
        first.pending.iter().map(|p| (p.content_id.clone(), p.hash.clone())).collect();

    let second = plan_embedding(
        "m1",
        Some("m1"),
        &existing,
        vec![content("feed_01", "alfa"), content("feed_02", "beta zmienione"), content("blank", "   ")],
    );
    assert!(!second.prune);
    assert_eq!(second.skipped, 1);
    assert_eq!(second.pending.len(), 1);
    assert_eq!(second.pending[0].content_id, "feed_02");
    let outcome = second.outcome(1, 0);
    assert_eq!(outcome.status, EmbedJobStatus::Embedded);
    assert_eq!(outcome.model_id.as_deref(), Some("m1"));
    assert_eq!((outcome.embedded, outcome.skipped, outcome.pruned), (1, 1, 0));

    let switched = plan_embedding("new", Some("old"), &existing, vec![content("feed_01", "alfa")]);
    assert!(switched.prune, "a model change prunes the other model's vectors");
}

#[test]
fn embed_batches_cover_every_item_once() {
    let n = EMBED_BATCH_SIZE * 2 + 5;
    let ranges = batch_ranges(n);
    assert_eq!(ranges, vec![(0, 32), (32, 64), (64, 69)]);
    assert!(batch_ranges(0).is_empty());
    assert_eq!(batch_ranges(32), vec![(0, 32)]);
    assert_eq!(check_vector_count(3, 3), Ok(()));
    assert_eq!(check_vector_count(2, 3), Err("embedder returned 2 vectors for 3 inputs".to_owned()));
}

// --- claim extraction ------------------------------------------------------

fn sample_claims() -> Vec<ParsedClaim> {
    vec![
        ParsedClaim {
            statement: "We expect net revenue of at least 1 mln by the fourth quarter.".to_owned(),
            due_fiscal_year: Some(2026),
            due_period_type: Some("Q4".to_owned()),
            target_metric_key: Some("net_revenue".to_owned()),
            target_comparator: Some("gte".to_owned()),
            target_value_numeric: Some("1000000".to_owned()),
            target_unit: Some("PLN".to_owned()),
            source_snippet: None,
        },
        ParsedClaim {
            statement: "We will keep investing in new titles.".to_owned(),
            due_fiscal_year: None,
            due_period_type: None,
            target_metric_key: None,
            target_comparator: None,
            target_value_numeric: None,
            target_unit: None,
            source_snippet: None,
        },
    ]
}

fn run_for_source(source_type: &str, source_id: &str) {
    let load = if source_type == "transcript" {
        ClaimEvent::TranscriptLoaded(Ok(vec![
            "  We expect net revenue of at least 1 mln by the fourth quarter.  ".to_owned(),
        ]))
    } else {
        ClaimEvent::DocumentLoaded(Ok(SourceDocument { fetch_status: "fetched".to_owned(), has_stored_file: true, read: Ok(()) }))
    };
    let events = vec![
        ClaimEvent::JobLoaded(Ok(ClaimJob {
            status: "queued".to_owned(),
            source_type: source_type.to_owned(),
            source_id: source_id.to_owned(),
        })),
        ClaimEvent::ProviderResolved(Ok(true)),
        load,
        ClaimEvent::MarkedRunning(Ok(())),
        ClaimEvent::Completed(Ok("{\"claims\":[...]}".to_owned())),
        ClaimEvent::Parsed(Ok(sample_claims())),
    ];
    let (stage, action) = run_claim_extraction_job(events);
    assert_eq!(stage, ClaimStage::Done);
    let ClaimAction::Propose(proposals) = action else {
        panic!("the job proposes");
    };
    assert_eq!(proposals.len(), 2, "two sample claims proposed");
    let expected_type = if source_type == "transcript" { "transcript" } else { "report_document" };
    assert!(proposals
        .iter()
        .all(|p| p.source_evidence_type == expected_type && p.source_evidence_id == source_id));
    let quantitative = proposals
        .iter()
        .find(|p| p.claim.target_metric_key.as_deref() == Some("net_revenue"))
        .expect("quantitative proposal");
    assert_eq!(quantitative.claim.due_fiscal_year, Some(2026));
    assert_eq!(quantitative.claim.due_period_type.as_deref(), Some("Q4"));
    assert!(proposals.iter().any(|p| p.claim.target_metric_key.is_none()), "qualitative proposal");
}

#[test]
fn extracts_and_confirms_claims_from_a_report_document() {
    run_for_source("report_document", "report_document_1");
}

#[test]
fn extracts_and_confirms_claims_from_a_transcript() {
    run_for_source("transcript", "transcript_job_1");
}

fn claim_job(source_type: &str) -> ClaimEvent {
    ClaimEvent::JobLoaded(Ok(ClaimJob {
        status: "queued".to_owned(),
        source_type: source_type.to_owned(),
        source_id: "src_1".to_owned(),
    }))
}

fn failure_of(action: ClaimAction) -> (String, String) {
    match action {
        ClaimAction::MarkFailed { code, error } => (code, error),
        _ => panic!("expected a failure"),
    }
}

#[test]
fn claim_extraction_failures_carry_their_codes() {
    let (_, a) = run_claim_extraction_job(vec![claim_job("report_document"), ClaimEvent::ProviderResolved(Ok(false))]);
    assert_eq!(failure_of(a), ("provider_unavailable".to_owned(), NO_DOCUMENT_SUPPORT.to_owned()));
    let (_, a) = run_claim_extraction_job(vec![
        claim_job("transcript"),
        ClaimEvent::ProviderResolved(Ok(true)),
        ClaimEvent::TranscriptLoaded(Ok(vec!["   ".to_owned()])),
    ]);
    assert_eq!(failure_of(a), ("source_not_found".to_owned(), NO_SEGMENTS.to_owned()));
    let (_, a) = run_claim_extraction_job(vec![
        claim_job("report_document"),
        ClaimEvent::ProviderResolved(Ok(true)),
        ClaimEvent::DocumentLoaded(Ok(SourceDocument { fetch_status: "pending".to_owned(), has_stored_file: false, read: Ok(()) })),
    ]);
    assert_eq!(failure_of(a), ("source_not_found".to_owned(), NOT_FETCHED.to_owned()));
    let (_, a) = run_claim_extraction_job(vec![
        claim_job("report_document"),
        ClaimEvent::ProviderResolved(Ok(true)),
        ClaimEvent::DocumentLoaded(Ok(SourceDocument {
            fetch_status: "fetched".to_owned(),
            has_stored_file: true,
            read: Err("permission denied".to_owned()),
        })),
    ]);
    assert_eq!(
        failure_of(a),
        ("source_not_found".to_owned(), "failed to read report document file: permission denied".to_owned())
    );
    let (_, a) = run_claim_extraction_job(vec![
        claim_job("report_document"),
        ClaimEvent::ProviderResolved(Ok(true)),
        ClaimEvent::DocumentLoaded(Ok(SourceDocument { fetch_status: "fetched".to_owned(), has_stored_file: true, read: Ok(()) })),
        ClaimEvent::MarkedRunning(Err("locked".to_owned())),
    ]);
    assert_eq!(failure_of(a), ("extraction_failed".to_owned(), "locked".to_owned()));
}

#[test]
fn claim_sources_are_prepared_for_the_provider() {
    assert_eq!(
        transcript_text(&vec![" first ".to_owned(), "".to_owned(), "  ".to_owned(), "second".to_owned()]),
        "first\nsecond"
    );
    assert_eq!(document_mime(Some("application/pdf; charset=binary")), "application/pdf");
    assert_eq!(document_mime(Some("text/html;charset=utf-8")), "text/html");
    assert_eq!(document_mime(Some("application/octet-stream")), "application/pdf");
    assert_eq!(document_mime(Some("  ")), "application/pdf");
    assert_eq!(document_mime(None), "application/pdf");
    let companies = vec![("company_cdr".to_owned(), "CD PROJEKT S.A.".to_owned())];
    assert_eq!(company_name(&companies, "company_cdr"), "CD PROJEKT S.A.");
    assert_eq!(company_name(&companies, "company_x"), "company_x");
}

#[test]
fn embed_corpus_populates_the_index() {
    let contents = vec![
        content("feed_01", "zarząd rekomenduje dywidendę"),
        content("feed_02", "raport okresowy za trzeci kwartał"),
    ];
    let plan = plan_embedding("m1", None, &Vec::new(), contents);
    assert_eq!(plan.pending.len(), 2);
    assert_eq!(plan.skipped, 0);
    let outcome = plan.outcome(plan.pending.len(), 0);
    assert_eq!(outcome.status, EmbedJobStatus::Embedded);
    assert_eq!(outcome.embedded, 2);
    assert_eq!(outcome.skipped, 0);
    assert_eq!(outcome.model_id.as_deref(), Some("m1"));
}

#[test]
fn embed_corpus_skips_unchanged_and_reembeds_changed() {
    let first = plan_embedding("m1", None, &Vec::new(), vec![content("feed_01", "alfa"), content("feed_02", "beta")]);
    let stored: Vec<(String, String)> = first.pending.iter().map(|p| (p.content_id.clone(), p.hash.clone())).collect();
    let second = plan_embedding(
        "m1",
        Some("m1"),
        &stored,
        vec![content("feed_01", "alfa"), content("feed_02", "beta zmienione")],
    );
    let outcome = second.outcome(second.pending.len(), 0);
    assert_eq!(outcome.embedded, 1);
    assert_eq!(outcome.skipped, 1);
}

#[test]
fn embed_corpus_prunes_and_rebuilds_on_model_change() {
    let old = plan_embedding("old", None, &Vec::new(), vec![content("feed_01", "alfa")]);
    let stored: Vec<(String, String)> = old.pending.iter().map(|p| (p.content_id.clone(), p.hash.clone())).collect();
    // The new model holds no vectors yet, so nothing is skipped; the old model's are pruned.
    let new = plan_embedding("new", Some("old"), &Vec::new(), vec![content("feed_01", "alfa")]);
    assert!(new.prune);
    assert_eq!(new.pending.len(), 1);
    let outcome = new.outcome(1, stored.len());
    assert_eq!(outcome.pruned, 1);
    assert_eq!(outcome.model_id.as_deref(), Some("new"));
}

#[test]
fn embed_corpus_handles_batches_and_skips_blank() {
    let mut contents: Vec<EmbeddableContent> = (0..(EMBED_BATCH_SIZE * 2 + 5))
        .map(|i| content(&format!("feed_{i:03}"), &format!("treść numer {i}")))
        .collect();
    contents.push(content("blank", "   "));
    let plan = plan_embedding("m1", None, &Vec::new(), contents);
    assert_eq!(plan.pending.len(), EMBED_BATCH_SIZE * 2 + 5);
    let batches = batch_ranges(plan.pending.len());
    assert_eq!(batches.len(), 3);
    let embedded: usize = batches.iter().map(|(start, end)| end - start).sum();
    assert_eq!(plan.outcome(embedded, 0).embedded, EMBED_BATCH_SIZE * 2 + 5);
}

#[test]
fn content_hash_is_stable_and_text_sensitive() {
    let hashes = |text: &str| plan_embedding("m1", None, &Vec::new(), vec![content("a", text)]).pending[0].hash.clone();
    assert_eq!(hashes("alfa"), hashes("alfa"));
    assert_ne!(hashes("alfa"), hashes("beta"));
    assert_eq!(
        hashes("alfa"),
        "a405eba78bf2e6db44ebe0b28bbc9cdc449f9ac990d2029c50a15e6853cfdf20",
        "the SHA-256 of the text, as lower-case hex"
    );
}

#[test]
fn a_derived_event_is_only_ever_proposed() {
    let proposal = event_date_proposal("signal_1", "dividend", &Some(Ok(r#"{"date":"2030-09-15"}"#.to_owned())), "p");
    assert_eq!(
        proposal,
        Some(ProposedEvent { signal_id: "signal_1".to_owned(), date: "2030-09-15".to_owned(), status: PROPOSED_STATUS })
    );
    assert_eq!(PROPOSED_STATUS, "proposed");
    assert_eq!(event_date_proposal("s", "buyback", &Some(Ok(r#"{"date":"2030-09-15"}"#.to_owned())), "p"), None);
    assert_eq!(event_date_proposal("s", "dividend", &Some(Ok(r#"{"date":"null"}"#.to_owned())), "p"), None);
    assert_eq!(event_date_proposal("s", "dividend", &Some(Err("timeout".to_owned())), "p"), None);
    assert_eq!(event_date_proposal("s", "dividend", &None, "p"), None);
}

#[test]
fn a_pass_examines_at_most_the_batch_limit() {
    let candidates: Vec<EventCandidateRun> = (0..30)
        .map(|i| EventCandidateRun {
            signal_id: format!("signal_{i}"),
            category: "dividend".to_owned(),
            reply: Some(Ok(r#"{"date":"2030-09-15"}"#.to_owned())),
            derived: Some(Ok(true)),
        })
        .collect();
    let summary = run_ai_event_derivation(true, Some("p".to_owned()), Ok(()), &candidates).expect("run");
    assert_eq!(DEFAULT_BATCH_LIMIT, 25);
    assert_eq!(summary, AiEventDerivationSummary { enabled: true, examined: 25, derived: 25, skipped: 0 });
}
