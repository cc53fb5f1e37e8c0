use brawler_core::activity::{
    direct_source_refresh_identity, source_refresh_payload,
    aggregator_fundamentals_pull_identity, company_backfill_identity_fallback, identity_for_job,
    identity_for_transcript, registry_refresh_identity, source_refresh_identity, ActivityFamily,
    ActivityLookups, ActivityTarget, ActivityTool, KpiRunScope, RunScope, TranscriptJobRef,
};
use brawler_core::awaited_paths::direct_paths;
use brawler_core::kinds::{
    AGGREGATOR_FUNDAMENTALS_PULL_KIND, AUTOPILOT_STAGE_KIND, COMPANY_BACKFILL_KIND, FX_DAILY_PULL_KIND,
    HISTORY_SWEEP_KIND, KPI_INGEST_COMMIT_KIND, KPI_INGEST_VALIDATE_KIND, MANAGEMENT_EXTRACTION_KIND,
    MORNING_BRIEFING_KIND, OWNERSHIP_EXTRACTION_KIND, PIPELINE_REEXTRACTION_KIND, QUOTE_BACKFILL_KIND,
    REGISTRY_REFRESH_KIND, SOURCE_COMPANY_REFRESH_KIND, SOURCE_REFRESH_KIND,
};
use brawler_core::lanes::registered_kinds;
use brawler_core::table::TextEntry;
use std::collections::{BTreeSet, HashMap};

const CDR: &str = "company_gpw_cdr";
const DOC: &str = "doc_q2_2026";
const KPI_DOC: &str = "doc_annual_2025";
const SWEEP: &str = "sweep_1";
const BATCH: &str = "batch_1";
const RUN: &str = "run:doc_q2_2026";
const KPI_RUN: &str = "kpiing_real";
const DECOY_KPI_RUN: &str = "kpiing_decoy";

fn entry(key: &str, value: &str) -> TextEntry {
    TextEntry { key: key.to_owned(), value: value.to_owned() }
}

/// The stored rows identity resolution joins against: one company with two
/// documents, a sweep, a re-extraction batch, an autopilot run and two KPI runs.
fn lookups() -> ActivityLookups {
    ActivityLookups {
        adapter_names: vec![entry("gpw-espi-ebi", "GPW ESPI/EBI"), entry("nbp-fx", "NBP")],
        tickers: vec![entry(CDR, "CDR")],
        document_titles: vec![entry(DOC, "Raport Q2 2026"), entry(KPI_DOC, "Raport roczny 2025")],
        sweep_companies: vec![entry(SWEEP, CDR)],
        batch_companies: vec![entry(BATCH, CDR)],
        autopilot_runs: vec![RunScope {
            run_id: RUN.to_owned(),
            company_id: CDR.to_owned(),
            report_document_id: DOC.to_owned(),
            sweep_id: None,
        }],
        kpi_runs: vec![
            KpiRunScope { run_id: KPI_RUN.to_owned(), company_id: CDR.to_owned(), report_document_id: KPI_DOC.to_owned() },
            KpiRunScope {
                run_id: DECOY_KPI_RUN.to_owned(),
                company_id: CDR.to_owned(),
                report_document_id: DOC.to_owned(),
            },
        ],
    }
}

/// One `(kind, job_id, payload)` per registered kind, in the payload shape
/// each handler enqueues.
fn representative_payloads() -> Vec<(&'static str, String, String)> {
    vec![
        (SOURCE_REFRESH_KIND, "src:1".to_owned(), r#"{"adapterId":"gpw-espi-ebi"}"#.to_owned()),
        (
            SOURCE_COMPANY_REFRESH_KIND,
            "src-co:1".to_owned(),
            format!(r#"{{"adapterId":"bankier-company","companyId":"{CDR}"}}"#),
        ),
        (REGISTRY_REFRESH_KIND, REGISTRY_REFRESH_KIND.to_owned(), r#"{"staleAfterSeconds":86400}"#.to_owned()),
        (FX_DAILY_PULL_KIND, FX_DAILY_PULL_KIND.to_owned(), "{}".to_owned()),
        (AGGREGATOR_FUNDAMENTALS_PULL_KIND, AGGREGATOR_FUNDAMENTALS_PULL_KIND.to_owned(), "{}".to_owned()),
        (MORNING_BRIEFING_KIND, MORNING_BRIEFING_KIND.to_owned(), r#"{"force":false}"#.to_owned()),
        (COMPANY_BACKFILL_KIND, format!("{COMPANY_BACKFILL_KIND}:{CDR}"), format!(r#"{{"companyId":"{CDR}"}}"#)),
        (QUOTE_BACKFILL_KIND, format!("{QUOTE_BACKFILL_KIND}:{CDR}"), format!(r#"{{"companyId":"{CDR}"}}"#)),
        (HISTORY_SWEEP_KIND, "sweep-job:1".to_owned(), format!(r#"{{"sweep_id":"{SWEEP}"}}"#)),
        (PIPELINE_REEXTRACTION_KIND, "batch-job:1".to_owned(), format!(r#"{{"batch_id":"{BATCH}"}}"#)),
        (
            OWNERSHIP_EXTRACTION_KIND,
            format!("{OWNERSHIP_EXTRACTION_KIND}:{DOC}"),
            format!(r#"{{"companyId":"{CDR}","reportDocumentId":"{DOC}"}}"#),
        ),
        (
            MANAGEMENT_EXTRACTION_KIND,
            format!("{MANAGEMENT_EXTRACTION_KIND}:{DOC}"),
            format!(r#"{{"companyId":"{CDR}","reportDocumentId":"{DOC}"}}"#),
        ),
        (AUTOPILOT_STAGE_KIND, "autopilot-job:1".to_owned(), format!(r#"{{"run_id":"{RUN}","stage":"fetch"}}"#)),
        (
            KPI_INGEST_VALIDATE_KIND,
            format!("{KPI_INGEST_VALIDATE_KIND}:{KPI_RUN}:rev1"),
            format!(r#"{{"jobId":"x","runId":"{KPI_RUN}","revision":1}}"#),
        ),
        (
            KPI_INGEST_COMMIT_KIND,
            format!("{KPI_INGEST_COMMIT_KIND}:{KPI_RUN}:rev1:h"),
            format!(r#"{{"jobId":"x","runId":"{KPI_RUN}","revision":1,"manifestHash":"h"}}"#),
        ),
    ]
}

#[test]
fn every_registered_kind_has_an_activity_identity() {
    let registered: BTreeSet<&str> = registered_kinds().into_iter().collect();
    let payloads = representative_payloads();
    let covered: BTreeSet<&str> = payloads.iter().map(|(kind, _, _)| *kind).collect();
    assert_eq!(registered, covered, "every registered kind must have a representative payload in this gate");

    let lookups = lookups();
    for (kind, job_id, payload) in &payloads {
        let identity = identity_for_job(kind, job_id, payload, &lookups);
        assert!(identity.is_some(), "kind {kind} must resolve to an identity");
        assert_ne!(
            identity.unwrap().family,
            ActivityFamily::Corrupted,
            "kind {kind} must not resolve to Corrupted given a real payload"
        );
    }
}

#[test]
fn identity_resolves_every_real_payload_shape() {
    let by_kind: HashMap<&str, (String, String)> = representative_payloads()
        .into_iter()
        .map(|(kind, job_id, payload)| (kind, (job_id, payload)))
        .collect();
    let lookups = lookups();

    let (job_id, payload) = &by_kind["scheduled_source_refresh"];
    let identity = identity_for_job("scheduled_source_refresh", job_id, payload, &lookups).unwrap();
    assert_eq!(identity.activity_key, "source-refresh:gpw-espi-ebi");
    assert_eq!(identity.family, ActivityFamily::SourceRefresh);
    assert_eq!(identity.target, ActivityTarget::Sources);

    let (job_id, payload) = &by_kind["history_sweep"];
    let identity = identity_for_job("history_sweep", job_id, payload, &lookups).unwrap();
    assert!(identity.activity_key.starts_with("report-sweep:"));
    assert_eq!(identity.family, ActivityFamily::ReportSweep);
    assert!(identity.company_id.is_some());

    let (job_id, payload) = &by_kind["autopilot_stage"];
    let identity = identity_for_job("autopilot_stage", job_id, payload, &lookups).unwrap();
    assert!(identity.activity_key.starts_with("report-reading:"));
    assert_eq!(identity.family, ActivityFamily::ReportReading);

    let (job_id, payload) = &by_kind["kpi_ingest_validate"];
    let identity = identity_for_job("kpi_ingest_validate", job_id, payload, &lookups).unwrap();
    assert!(identity.activity_key.starts_with("kpi-ingest:"));
    assert_eq!(identity.family, ActivityFamily::KpiIngest);
}

#[test]
fn malformed_payload_yields_corrupted_item_not_silence() {
    let identity = identity_for_job("scheduled_source_refresh", "job-x", "{}", &lookups()).expect("some");
    assert_eq!(identity.family, ActivityFamily::Corrupted);
    assert_eq!(identity.subject, "job-x");
}

#[test]
fn kpi_identity_is_authoritative_from_the_job_id_never_a_tampered_payload() {
    let job_id = format!("{KPI_INGEST_VALIDATE_KIND}:{KPI_RUN}:rev1");
    let payload = format!(r#"{{"jobId":"x","runId":"{DECOY_KPI_RUN}","revision":1}}"#);
    let identity = identity_for_job(KPI_INGEST_VALIDATE_KIND, &job_id, &payload, &lookups()).expect("identity");
    assert_eq!(
        identity.activity_key,
        format!("kpi-ingest:{KPI_RUN}"),
        "the identity must come from the CLAIMED job id, never the payload's runId"
    );
    assert_ne!(identity.activity_key, format!("kpi-ingest:{DECOY_KPI_RUN}"));
}

#[test]
fn kpi_identity_from_a_malformed_job_id_is_corrupted_not_the_payloads_run() {
    let identity = identity_for_job(
        KPI_INGEST_VALIDATE_KIND,
        "not-a-real-kpi-job-id",
        r#"{"jobId":"x","runId":"kpiing_deadbeef","revision":1}"#,
        &lookups(),
    )
    .expect("identity");
    assert_eq!(identity.family, ActivityFamily::Corrupted);
}

#[test]
fn briefing_subject_is_never_composed_prose() {
    let identity = identity_for_job(MORNING_BRIEFING_KIND, "briefing", "{}", &lookups()).expect("identity");
    assert_eq!(identity.family, ActivityFamily::Briefing);
    assert_eq!(identity.subject, "");
}

#[test]
fn unregistered_kind_yields_none() {
    assert!(identity_for_job("qualitative_assessment", "job-x", "{}", &lookups()).is_none());
}

#[test]
fn registry_refresh_subject_is_never_composed_prose() {
    let identity = identity_for_job(REGISTRY_REFRESH_KIND, "registry-refresh", "{}", &lookups()).expect("identity");
    assert_eq!(identity.subject, "");
    assert_eq!(identity, registry_refresh_identity());
}

#[test]
fn direct_wrapper_fallback_identities_need_no_connection() {
    let lookups = lookups();
    assert_eq!(
        source_refresh_identity(&lookups, "gpw-espi-ebi"),
        identity_for_job(SOURCE_REFRESH_KIND, "direct:gpw-espi-ebi", r#"{"adapterId":"gpw-espi-ebi"}"#, &lookups)
            .expect("identity")
    );
    assert_eq!(
        registry_refresh_identity(),
        identity_for_job(REGISTRY_REFRESH_KIND, "direct:registry-refresh", "{}", &lookups).expect("identity")
    );
    assert_eq!(
        aggregator_fundamentals_pull_identity(),
        identity_for_job(AGGREGATOR_FUNDAMENTALS_PULL_KIND, "direct:fundamentals-pull", "{}", &lookups)
            .expect("identity")
    );
}

#[test]
fn company_backfill_fallback_uses_the_raw_company_id_as_subject() {
    let identity = company_backfill_identity_fallback("company_gpw_cdr");
    assert_eq!(identity.activity_key, "history-fetch:company_gpw_cdr");
    assert_eq!(identity.family, ActivityFamily::HistoryFetch);
    assert_eq!(identity.subject, "company_gpw_cdr");
    assert_eq!(identity.company_id.as_deref(), Some("company_gpw_cdr"));
}

#[test]
fn every_direct_path_resolves_a_real_activity_identity() {
    let lookups = lookups();
    let cases: &[(&str, &str, &str)] = &[
        (SOURCE_REFRESH_KIND, "direct:gpw-espi-ebi", r#"{"adapterId":"gpw-espi-ebi"}"#),
        (AGGREGATOR_FUNDAMENTALS_PULL_KIND, "direct:aggregator_fundamentals_pull", "{}"),
        (COMPANY_BACKFILL_KIND, "direct:company_backfill:company_x", r#"{"companyId":"company_x"}"#),
        (REGISTRY_REFRESH_KIND, "direct:registry_refresh", "{}"),
    ];
    for (kind, job_id, payload) in cases {
        let identity = identity_for_job(kind, job_id, payload, &lookups);
        assert!(identity.is_some(), "direct path {kind} ({job_id}) must resolve to an identity");
        assert_ne!(
            identity.unwrap().family,
            ActivityFamily::Corrupted,
            "direct path {kind} must not resolve to Corrupted given its real synthetic payload"
        );
    }

    let identity = identity_for_transcript(&TranscriptJobRef {
        id: "job_01".to_owned(),
        company_id: None,
        source_url: "https://www.youtube.com/watch?v=mock".to_owned(),
        source_label: Some("Earnings call".to_owned()),
    });
    assert_eq!(identity.family, ActivityFamily::Transcript);
    assert_ne!(identity.family, ActivityFamily::Corrupted);
    assert_eq!(identity.subject, "Earnings call");
    assert_eq!(direct_paths().len(), 5);
}

#[test]
fn scoped_identities_name_the_company_ticker_and_document_title() {
    let lookups = lookups();
    let backfill = identity_for_job(
        COMPANY_BACKFILL_KIND,
        "company_backfill:x",
        &format!(r#"{{"companyId":"{CDR}"}}"#),
        &lookups,
    )
    .unwrap();
    assert_eq!(backfill.activity_key, format!("history-fetch:{CDR}"));
    assert_eq!(backfill.subject, "CDR");
    assert_eq!(
        backfill.target,
        ActivityTarget::Company { company_id: CDR.to_owned(), tool: Some(ActivityTool::Pokrycie) }
    );

    let reading = identity_for_job(
        OWNERSHIP_EXTRACTION_KIND,
        "ownership:x",
        &format!(r#"{{"companyId":"{CDR}","reportDocumentId":"{DOC}"}}"#),
        &lookups,
    )
    .unwrap();
    assert_eq!(reading.activity_key, format!("ownership-reading:{DOC}"));
    assert_eq!(reading.family, ActivityFamily::OwnershipReading);
    assert_eq!(reading.subject, "Raport Q2 2026");
    assert_eq!(
        reading.target,
        ActivityTarget::Company {
            company_id: CDR.to_owned(),
            tool: Some(ActivityTool::Dokumenty { document_id: DOC.to_owned() })
        }
    );

    let unknown_company = identity_for_job(
        QUOTE_BACKFILL_KIND,
        "quote:x",
        r#"{"companyId":"company_gone"}"#,
        &lookups,
    )
    .unwrap();
    assert_eq!(unknown_company.subject, "company_gone");
    assert_eq!(unknown_company.activity_key, "price-history:company_gone");
}

#[test]
fn kpi_commit_job_id_names_its_run_and_a_missing_hash_is_corrupted() {
    let lookups = lookups();
    let commit = identity_for_job(
        KPI_INGEST_COMMIT_KIND,
        &format!("{KPI_INGEST_COMMIT_KIND}:{KPI_RUN}:rev2:abc"),
        "{}",
        &lookups,
    )
    .unwrap();
    assert_eq!(commit.activity_key, format!("kpi-ingest:{KPI_RUN}"));
    assert_eq!(commit.subject, "Raport roczny 2025");

    let no_hash =
        identity_for_job(KPI_INGEST_COMMIT_KIND, &format!("{KPI_INGEST_COMMIT_KIND}:{KPI_RUN}:rev2"), "{}", &lookups)
            .unwrap();
    assert_eq!(no_hash.family, ActivityFamily::Corrupted);
}

#[test]
fn transcript_identity_falls_back_to_the_url_for_a_blank_label() {
    let job = TranscriptJobRef {
        id: "t1".to_owned(),
        company_id: None,
        source_url: "https://youtu.be/x".to_owned(),
        source_label: Some("   ".to_owned()),
    };
    let identity = identity_for_transcript(&job);
    assert_eq!(identity.activity_key, "transcript:t1");
    assert_eq!(identity.subject, "https://youtu.be/x");
    assert_eq!(identity.target, ActivityTarget::Transcripts);
}

#[test]
fn a_direct_source_refresh_resolves_as_its_queued_job_would() {
    let lookups = lookups();
    for adapter in ["gpw-espi-ebi", "unknown-adapter", "quote\"and\\slash"] {
        assert_eq!(
            direct_source_refresh_identity("direct:any", adapter, &lookups),
            source_refresh_identity(&lookups, adapter),
            "adapter {adapter}"
        );
        let payload = source_refresh_payload(adapter);
        let value: serde_json::Value = serde_json::from_str(&payload).expect("json");
        assert_eq!(value.get("adapterId").and_then(|v| v.as_str()), Some(adapter));
    }
}
