use brawler_core::backfill::{
    backfill_step, classify_fetch_error, enqueue_company_backfill_catch_up, failure_code, failure_log_line,
    backfill_job_outcome, direct_backfill_settlement, payload_company, run_backfill, run_company_backfill_job, start_backfill, BackfillAction, BackfillEvent,
    BackfillStage, FetchErrorKind, FetchStats, MarketStatus, HTTP_ERROR, INTERNAL, NOT_TRACKED, NO_BANKIER_PAGE,
    PARSE_ERROR, UNSUPPORTED_MARKET,
};
use brawler_core::queue::{JobQueue, JobStatus};

const NOW: &str = "2025-06-01T10:00:00Z";

fn stats(pages: u64) -> FetchStats {
    FetchStats { pages_fetched: pages, detail_errors: 0, truncated: false }
}

/// The step outcomes of a tracked GPW company whose listing has two periodic
/// reports, each with one attachment, and whose sweep chains as `sweep`.
fn two_report_events(items: u64, stored: u64, sweep: Option<&str>) -> Vec<BackfillEvent> {
    vec![
        BackfillEvent::MarketChecked(Ok(MarketStatus::Eligible)),
        BackfillEvent::TargetLookedUp(Ok(true)),
        BackfillEvent::ListingFetched(Ok(stats(2))),
        BackfillEvent::Ingested(Ok(items)),
        BackfillEvent::AttachmentsFetched(Ok((stored, 0))),
        BackfillEvent::SweepChained(sweep.map(|s| s.to_owned())),
    ]
}

fn new_connect_events() -> Vec<BackfillEvent> {
    vec![BackfillEvent::MarketChecked(Ok(MarketStatus::Ineligible { exchange: "NC".to_owned() }))]
}

fn not_tracked_events() -> Vec<BackfillEvent> {
    vec![
        BackfillEvent::MarketChecked(Ok(MarketStatus::Eligible)),
        BackfillEvent::TargetLookedUp(Ok(false)),
    ]
}

fn no_page_events() -> Vec<BackfillEvent> {
    vec![
        BackfillEvent::MarketChecked(Ok(MarketStatus::Eligible)),
        BackfillEvent::TargetLookedUp(Ok(true)),
        BackfillEvent::ListingFetched(Err((FetchErrorKind::MissingTagId, "missing Bankier tag id".to_owned()))),
    ]
}

fn bad_json_events() -> Vec<BackfillEvent> {
    vec![
        BackfillEvent::MarketChecked(Ok(MarketStatus::Eligible)),
        BackfillEvent::TargetLookedUp(Ok(true)),
        BackfillEvent::ListingFetched(Err((FetchErrorKind::Json, "key must be a string at line 1".to_owned()))),
    ]
}

#[test]
fn backfill_populates_history_and_stores_periodic_documents() {
    let (progress, _) = run_backfill("company_cdr", NOW, two_report_events(2, 2, Some("sweep_1")));
    assert_eq!(progress.status, "completed", "error: {:?}", progress.error);
    assert_eq!(progress.items_ingested, 2);
    assert_eq!(progress.documents_stored, 2);
    assert_eq!(progress.pages_fetched, 2);
    assert_eq!(progress.company_id, "company_cdr");
    assert_eq!(progress.started_at, NOW);
}

#[test]
fn completed_backfill_chains_a_history_sweep() {
    let (progress, _) = run_backfill("company_cdr", NOW, two_report_events(2, 2, Some("sweep_42")));
    assert_eq!(progress.status, "completed", "error: {:?}", progress.error);
    assert_eq!(
        progress.chained_sweep_id.as_deref(),
        Some("sweep_42"),
        "the backfill result must carry the chained sweep's id"
    );

    // A sweep that could not be chained leaves the backfill completed.
    let (unchained, _) = run_backfill("company_cdr", NOW, two_report_events(2, 2, None));
    assert_eq!(unchained.status, "completed");
    assert_eq!(unchained.chained_sweep_id, None);
}

#[test]
fn rerunning_backfill_does_not_duplicate() {
    // Ingestion dedups: the second run creates nothing and stores nothing new.
    let (first, _) = run_backfill("company_cdr", NOW, two_report_events(2, 2, Some("sweep_1")));
    let (second, _) = run_backfill("company_cdr", NOW, two_report_events(0, 0, Some("sweep_2")));
    assert_eq!(first.status, "completed");
    assert_eq!(second.status, "completed");
    assert_eq!(
        first.documents_stored + second.documents_stored,
        2,
        "re-running backfill must not duplicate documents"
    );
    assert_eq!(second.items_ingested, 0);
}

#[test]
fn non_periodic_xhtml_attachment_is_fetched_during_backfill() {
    let events = vec![
        BackfillEvent::MarketChecked(Ok(MarketStatus::Eligible)),
        BackfillEvent::TargetLookedUp(Ok(true)),
        BackfillEvent::ListingFetched(Ok(stats(1))),
        BackfillEvent::Ingested(Ok(1)),
        BackfillEvent::AttachmentsFetched(Ok((1, 0))),
        BackfillEvent::SweepChained(None),
    ];
    let (progress, _) = run_backfill("company_cdr", NOW, events);
    assert_eq!(progress.status, "completed", "error: {:?}", progress.error);
    assert_eq!(progress.documents_stored, 1);
}

#[test]
fn backfill_for_unsupported_market_fails_with_machine_readable_error() {
    let (progress, _) = run_backfill("company_nc", NOW, new_connect_events());
    assert_eq!(progress.status, "failed");
    let error = progress.error.expect("a failed backfill carries an error");
    assert!(error.starts_with("unsupported_market"), "error must start with the machine-readable prefix, got: {error}");
    assert_eq!(error, "unsupported_market: NC has no history-capable source adapter");
}

#[test]
fn failed_backfill_emits_a_log_line() {
    let (progress, _) = run_backfill("company_log", NOW, new_connect_events());
    assert_eq!(progress.status, "failed");
    let code = failure_code(&progress).expect("a failed backfill carries a code");
    let line = failure_log_line(&progress.company_id, &code, "NC has no history-capable source adapter");
    assert!(line.contains("company_log") && line.contains("status=failed"), "line: {line}");
    assert_eq!(
        line,
        "module=backfill company=company_log status=failed code=unsupported_market error=NC has no history-capable source adapter"
    );
}

#[test]
fn untracked_company_fails_cleanly() {
    let (progress, _) = run_backfill("company_missing", NOW, not_tracked_events());
    assert_eq!(progress.status, "failed");
    assert!(progress.error.is_some());
    assert_eq!(progress.error.as_deref(), Some("not_tracked: company is not a tracked company"));
}

#[test]
fn newconnect_backfill_records_typed_cause_and_durable_trail() {
    let mut run = start_backfill("company_exc", NOW);
    let action = backfill_step(
        &mut run,
        BackfillEvent::MarketChecked(Ok(MarketStatus::Ineligible { exchange: "NC".to_owned() })),
        NOW,
    );
    assert_eq!(run.progress.status, "failed");
    assert_eq!(failure_code(&run.progress).as_deref(), Some("unsupported_market"));
    match action {
        BackfillAction::Failed { code, record_source_error, .. } => {
            assert_eq!(code, UNSUPPORTED_MARKET);
            let line = failure_log_line("company_exc", code, "NC has no history-capable source adapter");
            assert!(line.contains("company_exc") && line.contains("code=unsupported_market"));
            assert!(!record_source_error, "an ineligible-market backfill must not flag the shared adapter");
        },
        other => panic!("expected a failure, got {other:?}"),
    }
}

#[test]
fn adapter_fault_backfill_records_source_outcome() {
    let mut run = start_backfill("company_noid", NOW);
    let mut last = BackfillAction::Completed;
    for event in no_page_events() {
        last = backfill_step(&mut run, event, NOW);
    }
    assert_eq!(run.progress.status, "failed");
    assert_eq!(failure_code(&run.progress).as_deref(), Some("no_bankier_page"));
    match last {
        BackfillAction::Failed { code, message, record_source_error } => {
            assert_eq!(code, NO_BANKIER_PAGE);
            assert!(record_source_error, "an adapter-fault backfill must record a typed source outcome");
            assert!(message.starts_with("no_bankier_page"), "message: {message}");
        },
        other => panic!("expected a failure, got {other:?}"),
    }
}

#[test]
fn distinct_backfill_failure_causes_stay_distinguishable() {
    let (unsupported, _) = run_backfill("company_ncx", NOW, new_connect_events());
    let (not_tracked, _) = run_backfill("company_missing", NOW, not_tracked_events());
    let (no_page, _) = run_backfill("company_nopg", NOW, no_page_events());
    let (parse_err, _) = run_backfill("company_badj", NOW, bad_json_events());

    for progress in [&unsupported, &not_tracked, &no_page, &parse_err] {
        assert_eq!(progress.status, "failed", "each cause is a failure");
    }
    let codes: Vec<Option<String>> =
        [&unsupported, &not_tracked, &no_page, &parse_err].iter().map(|progress| failure_code(progress)).collect();
    assert_eq!(
        codes,
        vec![
            Some("unsupported_market".to_owned()),
            Some("not_tracked".to_owned()),
            Some("no_bankier_page".to_owned()),
            Some("parse_error".to_owned()),
        ],
        "each distinct cause must carry its own machine-readable code"
    );
    let unique: std::collections::HashSet<_> = codes.iter().collect();
    assert_eq!(unique.len(), 4, "distinct causes must never collapse into one message: {codes:?}");
}

#[test]
fn empty_listing_completes_without_collapsing_into_failure() {
    let events = vec![
        BackfillEvent::MarketChecked(Ok(MarketStatus::Eligible)),
        BackfillEvent::TargetLookedUp(Ok(true)),
        BackfillEvent::ListingFetched(Ok(stats(1))),
        BackfillEvent::Ingested(Ok(0)),
        BackfillEvent::AttachmentsFetched(Ok((0, 0))),
        BackfillEvent::SweepChained(None),
    ];
    let (progress, _) = run_backfill("company_empt", NOW, events);
    assert_eq!(progress.status, "completed", "an empty listing completes honestly, error: {:?}", progress.error);
    assert_eq!(progress.items_ingested, 0);
    assert!(progress.error.is_none(), "a completed empty backfill carries no error");
}

#[test]
fn run_company_backfill_job_rejects_a_malformed_payload() {
    let error = run_company_backfill_job("{}", NOW, Vec::new()).expect_err("missing companyId is an error");
    assert!(error.contains("companyId"), "error names the missing field: {error}");
    assert_eq!(error, "company backfill missing companyId");
    let not_json = run_company_backfill_job("{ not json", NOW, Vec::new()).expect_err("not JSON is an error");
    assert!(!not_json.is_empty());
}

#[test]
fn company_backfill_job_settles_with_the_backfill_outcome() {
    let payload = "{\"companyId\":\"company_cdr\"}";
    assert_eq!(payload_company(payload), Ok("company_cdr".to_owned()));
    assert_eq!(run_company_backfill_job(payload, NOW, two_report_events(2, 2, Some("sweep_1"))), Ok(()));
    let failed = run_company_backfill_job(payload, NOW, new_connect_events()).expect_err("a failed backfill is an error");
    assert_eq!(failed, "unsupported_market: NC has no history-capable source adapter");
}

#[test]
fn fetch_errors_map_to_distinct_codes() {
    assert_eq!(classify_fetch_error(FetchErrorKind::Request), HTTP_ERROR);
    assert_eq!(classify_fetch_error(FetchErrorKind::MissingTagId), NO_BANKIER_PAGE);
    assert_eq!(classify_fetch_error(FetchErrorKind::MissingSlug), NO_BANKIER_PAGE);
    assert_eq!(classify_fetch_error(FetchErrorKind::Json), PARSE_ERROR);
    assert_eq!(classify_fetch_error(FetchErrorKind::TimestampFormat), INTERNAL);
    assert_eq!(classify_fetch_error(FetchErrorKind::Url), INTERNAL);
}

#[test]
fn storage_errors_fail_with_the_internal_code() {
    let events = vec![
        BackfillEvent::MarketChecked(Ok(MarketStatus::Eligible)),
        BackfillEvent::TargetLookedUp(Ok(true)),
        BackfillEvent::ListingFetched(Ok(FetchStats { pages_fetched: 3, detail_errors: 1, truncated: true })),
        BackfillEvent::Ingested(Err("database is locked".to_owned())),
    ];
    let (progress, _) = run_backfill("company_cdr", NOW, events);
    assert_eq!(progress.status, "failed");
    assert_eq!(progress.error.as_deref(), Some("internal: database is locked"));
    assert_eq!(progress.pages_fetched, 3, "the counts gathered so far are kept");
    assert!(progress.truncated);
}

#[test]
fn attachment_failures_add_to_the_detail_errors() {
    let events = vec![
        BackfillEvent::MarketChecked(Ok(MarketStatus::Eligible)),
        BackfillEvent::TargetLookedUp(Ok(true)),
        BackfillEvent::ListingFetched(Ok(FetchStats { pages_fetched: 2, detail_errors: 1, truncated: false })),
        BackfillEvent::Ingested(Ok(4)),
        BackfillEvent::AttachmentsFetched(Ok((3, 2))),
    ];
    let (progress, _) = run_backfill("company_cdr", NOW, events);
    assert_eq!(progress.status, "completed");
    assert_eq!(progress.detail_errors, 3);
    assert_eq!(progress.documents_stored, 3);
}

#[test]
fn an_event_for_another_step_changes_nothing() {
    let mut run = start_backfill("company_cdr", NOW);
    let action = backfill_step(&mut run, BackfillEvent::Ingested(Ok(5)), "later");
    assert_eq!(action, BackfillAction::Next(BackfillStage::CheckMarket));
    assert_eq!(run.stage, BackfillStage::CheckMarket);
    assert_eq!(run.progress.items_ingested, 0);
    assert_eq!(run.progress.updated_at, NOW);
}

#[test]
fn catch_up_enqueues_one_backfill_for_an_automated_company_without_coverage() {
    let mut jobs = JobQueue::new();
    let pending = vec![("company_cdr".to_owned(), "autopilot".to_owned())];
    assert_eq!(enqueue_company_backfill_catch_up(&mut jobs, &pending), 1);
    let row = jobs.status("company_backfill:company_cdr").expect("a durable company_backfill job is queued");
    assert_eq!(row.kind, "company_backfill");
    assert_eq!(row.payload, "{\"companyId\":\"company_cdr\"}");
    assert_eq!(row.status, JobStatus::Pending);
    assert_eq!(row.max_attempts, 3);
    assert_eq!(enqueue_company_backfill_catch_up(&mut jobs, &pending), 0, "a second catch-up pass does not re-enqueue");
    assert_eq!(jobs.len(), 1);
}

#[test]
fn catch_up_skips_a_company_in_mode_off() {
    let mut jobs = JobQueue::new();
    let pending = vec![("company_pkn".to_owned(), "off".to_owned()), ("company_lpp".to_owned(), "notify".to_owned())];
    assert_eq!(enqueue_company_backfill_catch_up(&mut jobs, &pending), 1);
    assert!(jobs.status("company_backfill:company_pkn").is_none(), "an off-mode company is never auto-backfilled");
    assert!(jobs.status("company_backfill:company_lpp").is_some());
}

#[test]
fn catch_up_skips_a_company_that_already_has_periodic_coverage() {
    // The store selects only companies lacking a fetched periodic report; a
    // company holding one ("LPP" with its fetched annual report) is not among them.
    let mut jobs = JobQueue::new();
    let pending: Vec<(String, String)> = Vec::new();
    let enqueued = enqueue_company_backfill_catch_up(&mut jobs, &pending);
    assert_eq!(enqueued, 0, "a company with a fetched periodic report is not re-backfilled");
    assert!(jobs.status("company_backfill:company_gpw_lpp").is_none());
}

fn progress(status: &str, error: Option<&str>) -> brawler_core::backfill::BackfillProgress {
    let mut p = start_backfill("company_gpw_cdr", NOW).progress;
    p.status = status.to_owned();
    p.error = error.map(str::to_owned);
    p
}

#[test]
fn a_failed_backfill_settles_its_activity_with_the_error() {
    assert_eq!(direct_backfill_settlement(&progress("succeeded", None)), Ok(()));
    assert_eq!(
        direct_backfill_settlement(&progress("failed", Some("http_error: timeout"))),
        Err("http_error: timeout".to_owned())
    );
    assert_eq!(direct_backfill_settlement(&progress("failed", None)), Err("backfill failed".to_owned()));
}

#[test]
fn a_failed_backfill_job_reports_its_error_to_the_queue() {
    assert_eq!(backfill_job_outcome(&progress("succeeded", None)), Ok(()));
    assert_eq!(
        backfill_job_outcome(&progress("failed", Some("unsupported_market: NewConnect"))),
        Err("unsupported_market: NewConnect".to_owned())
    );
    assert_eq!(backfill_job_outcome(&progress("failed", None)), Err("company backfill failed".to_owned()));
}

#[test]
fn only_a_listing_fault_marks_the_bankier_source() {
    let (_, unsupported) = run_backfill("company_ncx", NOW, new_connect_events());
    let (_, not_tracked) = run_backfill("company_missing", NOW, not_tracked_events());
    let (_, no_page) = run_backfill("company_nopg", NOW, no_page_events());
    let (_, completed) = run_backfill("company_cdr", NOW, two_report_events(2, 2, None));
    assert_eq!(unsupported, None, "an unsupported market leaves the source untouched");
    assert_eq!(not_tracked, None, "an untracked company leaves the source untouched");
    assert_eq!(completed, None, "a completed backfill marks no fault");
    let message = no_page.expect("a listing fault marks the source");
    assert!(message.starts_with("no_bankier_page"), "message: {message}");
}
