use brawler_core::aggregator::{
    acquire_for_pull, apply_commit, disagreement_outcome_ref, witness_disagreement_detail, CrossCheck,
    CrossCheckOutcome, enqueue_daily_pull, outranks_aggregator_tier, pull_one_page,
    run_aggregator_fundamentals_pull, run_aggregator_fundamentals_pull_serialized, start_serialized_pull, finish_serialized_pull, AggregatorCell, AggregatorFactCommit, AggregatorPullSummary,
    CompanyPull, DisagreementLedger, EffectVerdict, PageResolution, SourceLocks, WitnessAction,
    ALREADY_RECORDED, HIGHER_TIER_HOLDS_SLOT, NO_KPI_DEFINITION, PAGES_EMPTY, PAGES_UNAVAILABLE, ZERO_CELLS,
};
use brawler_core::kinds::{AGGREGATOR_FUNDAMENTALS_PULL_KIND, BIZNESRADAR_FUNDAMENTALS_ADAPTER_ID};
use brawler_core::queue::JobQueue;

#[test]
fn enqueue_daily_pull_arms_one_queue_job_idempotently() {
    let mut jobs = JobQueue::new();
    enqueue_daily_pull(&mut jobs);
    enqueue_daily_pull(&mut jobs);

    let kinds = vec![AGGREGATOR_FUNDAMENTALS_PULL_KIND.to_owned()];
    let claimed = jobs.claim_next_for_kinds(&kinds).expect("the daily trigger must arm a queued pull job");
    assert_eq!(claimed.kind, AGGREGATOR_FUNDAMENTALS_PULL_KIND);
    assert!(
        jobs.claim_next_for_kinds(&kinds).is_none(),
        "re-arming reuses the same stable job id — one queued pull, not a pile"
    );
}

#[test]
fn on_demand_pull_defers_to_an_in_flight_biznesradar_run() {
    let companies = || vec![CompanyPull { company_id: "c".to_owned(), pages: vec![PageResolution::Unavailable] }];
    let fetched = std::cell::Cell::new(0);
    let mut locks = SourceLocks::new();
    assert!(locks.try_acquire(BIZNESRADAR_FUNDAMENTALS_ADAPTER_ID), "lock initially free");
    let error = run_aggregator_fundamentals_pull_serialized(&mut locks, || {
        fetched.set(fetched.get() + 1);
        companies()
    })
    .expect_err("a concurrent on-demand pull must be rejected, not run in parallel");
    assert!(error.contains("aggregator_pull_already_running"), "busy error carries the typed code: {error}");
    assert_eq!(fetched.get(), 0, "no page is fetched while another pull holds the source");
    assert!(locks.is_held(BIZNESRADAR_FUNDAMENTALS_ADAPTER_ID), "the in-flight run keeps its hold");

    assert!(locks.release(BIZNESRADAR_FUNDAMENTALS_ADAPTER_ID));
    let (summary, _) = run_aggregator_fundamentals_pull_serialized(&mut locks, || {
        fetched.set(fetched.get() + 1);
        companies()
    })
    .expect("runs once the lock is free");
    assert_eq!(fetched.get(), 1);
    let (direct, _) = run_aggregator_fundamentals_pull(&companies());
    assert_eq!(summary, direct, "the serialized pull returns what the pull returns");
    assert_eq!(summary.companies, 1);
    assert!(!locks.is_held(BIZNESRADAR_FUNDAMENTALS_ADAPTER_ID), "the source is released afterwards");
}

#[test]
fn a_leased_pull_holds_the_source_until_it_finishes() {
    let mut locks = SourceLocks::new();
    let lease = start_serialized_pull(&mut locks).expect("free source");
    assert!(locks.is_held(BIZNESRADAR_FUNDAMENTALS_ADAPTER_ID));
    let refused = start_serialized_pull(&mut locks).expect_err("busy while leased");
    assert!(refused.contains("aggregator_pull_already_running"));
    let companies = vec![CompanyPull { company_id: "c".to_owned(), pages: vec![PageResolution::Unavailable] }];
    let (summary, _) = finish_serialized_pull(&mut locks, lease, &companies);
    assert_eq!(summary.companies, 1);
    assert!(!locks.is_held(BIZNESRADAR_FUNDAMENTALS_ADAPTER_ID), "finishing releases the source");
}

#[test]
fn acquiring_the_source_refuses_a_second_pull() {
    let mut locks = SourceLocks::new();
    acquire_for_pull(&mut locks).expect("free source");
    let error = acquire_for_pull(&mut locks).expect_err("busy source");
    assert!(error.contains("aggregator_pull_already_running"));
}

#[test]
fn every_zero_effect_aggregator_state_names_a_reason() {
    let with = |mutate: fn(&mut AggregatorPullSummary)| {
        let mut summary = AggregatorPullSummary { companies: 12, ..AggregatorPullSummary::default() };
        mutate(&mut summary);
        summary.effect_verdict()
    };

    assert_eq!(with(|s| s.pages_unavailable = 24), EffectVerdict::NothingProduced { reason: PAGES_UNAVAILABLE });
    assert_eq!(
        with(|s| {
            s.pages_resolved = 24;
            s.slots_skipped_higher_tier = 40;
        }),
        EffectVerdict::NothingProduced { reason: HIGHER_TIER_HOLDS_SLOT }
    );
    assert_eq!(
        with(|s| {
            s.pages_resolved = 24;
            s.facts_reobserved = 40;
        }),
        EffectVerdict::NothingProduced { reason: ALREADY_RECORDED }
    );
    assert_eq!(
        with(|s| {
            s.pages_resolved = 24;
            s.zero_cells_skipped = 40;
        }),
        EffectVerdict::NothingProduced { reason: ZERO_CELLS }
    );
    assert_eq!(
        with(|s| {
            s.pages_resolved = 24;
            s.no_definition = 40;
        }),
        EffectVerdict::NothingProduced { reason: NO_KPI_DEFINITION }
    );
    assert_eq!(
        with(|s| {
            s.pages_resolved = 24;
            s.pages_empty = 24;
        }),
        EffectVerdict::NothingProduced { reason: PAGES_EMPTY }
    );
    assert_eq!(with(|s| s.facts_written = 1), EffectVerdict::Produced);
    assert_eq!(with(|s| s.facts_updated = 1), EffectVerdict::Produced);
    assert_eq!(with(|s| s.witness_disagreements = 1), EffectVerdict::Produced);
    assert_eq!(with(|s| s.witness_corroborations = 1), EffectVerdict::Produced);
    assert_eq!(AggregatorPullSummary::default().effect_verdict(), EffectVerdict::NoInputs);
}

#[test]
fn a_resolved_page_with_no_cells_counts_pages_empty() {
    let mut summary = AggregatorPullSummary::default();
    let mut ledger = DisagreementLedger::new();

    // The page "<html><body><p>strona bez tabeli finansowej</p></body></html>"
    // parses to no cells at all.
    let actions = pull_one_page(&mut summary, &mut ledger, "company_gpw_cdr", &vec![], &vec![]);

    assert!(actions.is_empty());
    assert_eq!(summary.pages_empty, 1, "the empty parse must be counted");
    assert_eq!(summary.facts_written, 0);
}

#[test]
fn an_unrelated_state_with_inputs_and_no_reason_is_unexplained() {
    let summary = AggregatorPullSummary { companies: 3, pages_resolved: 3, ..AggregatorPullSummary::default() };
    assert_eq!(summary.effect_verdict(), EffectVerdict::Unexplained);
}

#[test]
fn tiers_above_the_aggregator_are_witnessed_and_manual_slots_too() {
    assert!(outranks_aggregator_tier("esef"));
    assert!(outranks_aggregator_tier("agent"));
    assert!(!outranks_aggregator_tier("html_aggregator"));
    assert!(!outranks_aggregator_tier("legacy"));

    let mut s = AggregatorPullSummary::default();
    let held_by_aggregator = AggregatorFactCommit::Reobserved {
        existing_tier: Some("html_aggregator".to_owned()),
        existing_method: "api".to_owned(),
    };
    assert_eq!(apply_commit(&mut s, &held_by_aggregator), WitnessAction::Nothing, "never self-witnessing");
    let manual = AggregatorFactCommit::Reobserved { existing_tier: None, existing_method: "manual".to_owned() };
    assert_eq!(apply_commit(&mut s, &manual), WitnessAction::Corroborate { upgrade_verdict: false });
    let diverging = AggregatorFactCommit::SkippedHigherTier {
        existing_tier: "esef".to_owned(),
        existing_method: "api".to_owned(),
        disagrees: Some(true),
    };
    assert_eq!(apply_commit(&mut s, &diverging), WitnessAction::Disagree);
    let unparsable = AggregatorFactCommit::SkippedHigherTier {
        existing_tier: "esef".to_owned(),
        existing_method: "api".to_owned(),
        disagrees: None,
    };
    assert_eq!(apply_commit(&mut s, &unparsable), WitnessAction::Nothing);
    assert_eq!(apply_commit(&mut s, &AggregatorFactCommit::Created), WitnessAction::Nothing);
    assert_eq!(apply_commit(&mut s, &AggregatorFactCommit::NoDefinition), WitnessAction::Nothing);
    assert_eq!(s.facts_reobserved, 2);
    assert_eq!(s.witness_corroborations, 1);
    assert_eq!(s.witness_disagreements, 1);
    assert_eq!(s.slots_skipped_higher_tier, 2);
    assert_eq!(s.facts_written, 1);
    assert_eq!(s.no_definition, 1);
}

fn diverging_page(metric: &str) -> PageResolution {
    PageResolution::Page {
        cells: vec![
            AggregatorCell { metric_key: metric.to_owned(), zero: false },
            AggregatorCell { metric_key: "revenue".to_owned(), zero: true },
        ],
        commits: vec![AggregatorFactCommit::SkippedHigherTier {
            existing_tier: "esef".to_owned(),
            existing_method: "api".to_owned(),
            disagrees: Some(true),
        }],
    }
}

#[test]
fn systematic_cross_company_disagreement_flags_a_mapping_suspect() {
    let companies: Vec<CompanyPull> = (0..5)
        .map(|i| CompanyPull {
            company_id: format!("company_su{i}"),
            pages: vec![diverging_page("total_assets"), diverging_page("a_metric"), PageResolution::Unavailable],
        })
        .collect();

    let (summary, actions) = run_aggregator_fundamentals_pull(&companies);

    assert_eq!(summary.mapping_suspects, vec!["a_metric".to_owned(), "total_assets".to_owned()], "sorted, each once");
    assert_eq!(summary.companies, 5);
    assert_eq!(summary.pages_resolved, 10);
    assert_eq!(summary.pages_unavailable, 5);
    assert_eq!(summary.zero_cells_skipped, 10);
    assert_eq!(summary.witness_disagreements, 10);
    assert_eq!(actions[0][0], vec![WitnessAction::Disagree]);
    assert!(actions[0][2].is_empty());
}

#[test]
fn a_scattered_single_company_disagreement_is_not_a_mapping_suspect() {
    let companies = vec![CompanyPull { company_id: "c".to_owned(), pages: vec![diverging_page("total_assets")] }];
    let (summary, _) = run_aggregator_fundamentals_pull(&companies);
    assert!(summary.witness_disagreements >= 1, "the informational entry still records: {summary:?}");
    assert!(summary.mapping_suspects.is_empty(), "one company is noise, not a mapping suspect: {summary:?}");
}

#[test]
fn disagreement_detail_lists_only_the_failed_checks() {
    let checks = vec![
        CrossCheck {
            metric_key: "revenue".to_owned(),
            outcome: CrossCheckOutcome::Fail {
                expected: "100".to_owned(),
                actual: "120.5".to_owned(),
                residual: "20.5".to_owned(),
            },
        },
        CrossCheck { metric_key: "net_income".to_owned(), outcome: CrossCheckOutcome::NotFailed },
    ];
    let detail = witness_disagreement_detail(&checks, "https://www.biznesradar.pl/raporty/X", "esef");
    assert_eq!(
        detail,
        "{\"failedCrossChecks\":[],\"failedIdentities\":[],\"witnessDisagreements\":[{\"detail\":{\"actual\":\"120.5\",\"expected\":\"100\",\"issuerTier\":\"esef\",\"pageUrl\":\"https://www.biznesradar.pl/raporty/X\",\"residual\":\"20.5\",\"sourceAdapterId\":\"biznesradar-fundamenty\"},\"metricKey\":\"revenue\"}]}"
    );
    let parsed: serde_json::Value = serde_json::from_str(&detail).expect("the detail is JSON");
    assert_eq!(parsed["witnessDisagreements"].as_array().map(|a| a.len()), Some(1));
    assert_eq!(parsed["witnessDisagreements"][0]["detail"]["sourceAdapterId"], BIZNESRADAR_FUNDAMENTALS_ADAPTER_ID);
}

#[test]
fn disagreement_detail_without_failures_has_an_empty_list() {
    let checks = vec![CrossCheck { metric_key: "assets".to_owned(), outcome: CrossCheckOutcome::NotFailed }];
    assert_eq!(
        witness_disagreement_detail(&checks, "p", "manual"),
        "{\"failedCrossChecks\":[],\"failedIdentities\":[],\"witnessDisagreements\":[]}"
    );
}

#[test]
fn disagreement_outcome_ref_folds_the_metric_into_the_page() {
    assert_eq!(disagreement_outcome_ref("https://a/b", "revenue"), "https://a/b#revenue");
}

fn cell(metric: &str) -> AggregatorCell {
    AggregatorCell { metric_key: metric.to_owned(), zero: false }
}

fn skipped(tier: &str, method: &str, disagrees: Option<bool>) -> AggregatorFactCommit {
    AggregatorFactCommit::SkippedHigherTier {
        existing_tier: tier.to_owned(),
        existing_method: method.to_owned(),
        disagrees,
    }
}

/// One company whose balance page resolves (with `cells` committed as
/// `commits`) and whose income and cash-flow pages are unavailable.
fn balance_only(cells: Vec<AggregatorCell>, commits: Vec<AggregatorFactCommit>) -> Vec<CompanyPull> {
    vec![CompanyPull {
        company_id: "company_gpw_cdr".to_owned(),
        pages: vec![PageResolution::Page { cells, commits }, PageResolution::Unavailable, PageResolution::Unavailable],
    }]
}

fn only_actions(actions: &[Vec<Vec<WitnessAction>>]) -> Vec<WitnessAction> {
    actions.iter().flatten().flatten().copied().collect()
}

#[test]
fn pull_writes_aggregator_facts_for_every_sample_period() {
    // Inventories and current assets for two fiscal years, all landing in empty slots.
    let cells = vec![cell("inventories"), cell("current_assets"), cell("inventories"), cell("current_assets")];
    let commits = (0..4).map(|_| AggregatorFactCommit::Created).collect();
    let (summary, _) = run_aggregator_fundamentals_pull(&balance_only(cells, commits));
    assert_eq!(summary.facts_written, 4, "every period's cell is written: {summary:?}");
    assert!(summary.pages_resolved >= 1);
    assert!(summary.pages_unavailable >= 1);
}

#[test]
fn pull_never_overwrites_a_manual_slot() {
    let (summary, actions) =
        run_aggregator_fundamentals_pull(&balance_only(vec![cell("inventories")], vec![skipped("manual", "manual", Some(true))]));
    assert_eq!(summary.facts_written, 0, "a manual fact is untouchable by the aggregator");
    assert!(summary.slots_skipped_higher_tier >= 1, "the manual slot must be reported as skipped: {summary:?}");
    assert!(summary.witness_disagreements >= 1, "a manual divergence records an informational disagreement: {summary:?}");
    assert_eq!(only_actions(&actions), vec![WitnessAction::Disagree]);
}

#[test]
fn pull_records_witness_disagreement_against_an_issuer_slot_without_overwriting() {
    let (summary, actions) =
        run_aggregator_fundamentals_pull(&balance_only(vec![cell("current_assets")], vec![skipped("esef", "api", Some(true))]));
    assert_eq!(summary.facts_written + summary.facts_updated, 0, "an ESEF slot is never overwritten");
    assert!(summary.witness_disagreements >= 1, "a divergent issuer slot records a witness_disagreement: {summary:?}");
    assert_eq!(only_actions(&actions), vec![WitnessAction::Disagree]);

    let checks = vec![CrossCheck {
        metric_key: "current_assets".to_owned(),
        outcome: CrossCheckOutcome::Fail {
            expected: "16815000".to_owned(),
            actual: "999".to_owned(),
            residual: "16814001".to_owned(),
        },
    }];
    let detail: serde_json::Value = serde_json::from_str(&witness_disagreement_detail(
        &checks,
        "https://www.biznesradar.pl/raporty-finansowe-bilans/CDR",
        "esef",
    ))
    .expect("detail parses");
    assert!(detail.get("witnessDisagreements").and_then(|v| v.as_array()).is_some());
    assert!(detail.get("aggregatorValue").is_none() && detail.get("issuerValue").is_none());
    let entry = &detail["witnessDisagreements"][0];
    assert_eq!(entry["metricKey"], "current_assets");
    assert_eq!(entry["detail"]["actual"], "999", "actual is the issuer value: {detail}");
    assert!(entry["detail"].get("expected").is_some(), "expected is the aggregator value: {detail}");
}

#[test]
fn pull_records_witness_disagreement_against_a_positional_pdf_slot() {
    let (summary, actions) =
        run_aggregator_fundamentals_pull(&balance_only(vec![cell("current_assets")], vec![skipped("pdf", "html_positional", Some(true))]));
    assert!(summary.witness_disagreements >= 1, "a divergent positional slot records a disagreement: {summary:?}");
    assert_eq!(only_actions(&actions), vec![WitnessAction::Disagree]);
}

#[test]
fn pull_reobserves_an_agreeing_issuer_slot_without_a_disagreement() {
    let reobserved = AggregatorFactCommit::Reobserved { existing_tier: Some("esef".to_owned()), existing_method: "api".to_owned() };
    let (summary, _) = run_aggregator_fundamentals_pull(&balance_only(vec![cell("inventories")], vec![reobserved]));
    assert_eq!(summary.witness_disagreements, 0, "an agreeing issuer slot is never flagged: {summary:?}");
    assert!(summary.facts_reobserved >= 1, "the agreeing issuer slot is re-observed, not rewritten: {summary:?}");
}

#[test]
fn pull_corroborates_an_agreeing_issuer_slot_and_upgrades_the_verdict() {
    let reobserved = AggregatorFactCommit::Reobserved { existing_tier: Some("esef".to_owned()), existing_method: "api".to_owned() };
    let (summary, actions) = run_aggregator_fundamentals_pull(&balance_only(vec![cell("inventories")], vec![reobserved]));
    assert!(summary.witness_corroborations >= 1, "an agreeing issuer slot is corroborated: {summary:?}");
    assert_eq!(summary.witness_disagreements, 0);
    assert_eq!(only_actions(&actions), vec![WitnessAction::Corroborate { upgrade_verdict: true }]);
}

#[test]
fn pull_stamps_a_manual_slot_without_touching_its_verdict() {
    // Within tolerance of the aggregator's figure: agreement.
    let (summary, actions) =
        run_aggregator_fundamentals_pull(&balance_only(vec![cell("inventories")], vec![skipped("manual", "manual", Some(false))]));
    assert_eq!(summary.witness_disagreements, 0, "inside tolerance is agreement, not a disagreement: {summary:?}");
    assert!(summary.witness_corroborations >= 1, "{summary:?}");
    assert_eq!(
        only_actions(&actions),
        vec![WitnessAction::Corroborate { upgrade_verdict: false }],
        "a manual verdict is NEVER upgraded by the automaton"
    );
}

#[test]
fn pull_never_self_witnesses_its_own_slot() {
    let own = AggregatorFactCommit::Reobserved {
        existing_tier: Some("html_aggregator".to_owned()),
        existing_method: "html_aggregator".to_owned(),
    };
    let (summary, actions) = run_aggregator_fundamentals_pull(&balance_only(vec![cell("inventories")], vec![own]));
    assert!(summary.facts_reobserved >= 1, "the second pull re-observes its own facts: {summary:?}");
    assert_eq!(summary.witness_corroborations, 0, "the aggregator never corroborates itself: {summary:?}");
    assert_eq!(only_actions(&actions), vec![WitnessAction::Nothing]);
}

#[test]
fn a_disagreeing_issuer_slot_is_flagged_and_never_corroborated() {
    let (summary, actions) =
        run_aggregator_fundamentals_pull(&balance_only(vec![cell("current_assets")], vec![skipped("esef", "api", Some(true))]));
    assert!(summary.witness_disagreements >= 1, "{summary:?}");
    assert_eq!(summary.witness_corroborations, 0, "a disagreement stamps no corroboration");
    assert!(only_actions(&actions).iter().all(|a| !matches!(a, WitnessAction::Corroborate { .. })));
}

#[test]
fn pull_skips_an_empty_zero_aggregator_cell() {
    let cells = vec![
        AggregatorCell { metric_key: "inventories".to_owned(), zero: true },
        cell("current_assets"),
    ];
    let (summary, actions) = run_aggregator_fundamentals_pull(&balance_only(cells, vec![AggregatorFactCommit::Created]));
    assert!(summary.zero_cells_skipped >= 1, "summary: {summary:?}");
    assert_eq!(summary.facts_written, 1, "the non-zero sibling in the same period is written");
    assert_eq!(only_actions(&actions).len(), 1, "a zero cell is never committed");
}

#[test]
fn a_rerun_reobserves_unchanged_slots_rather_than_duplicating() {
    let cells = || vec![cell("inventories"), cell("current_assets")];
    let (first, _) = run_aggregator_fundamentals_pull(&balance_only(
        cells(),
        vec![AggregatorFactCommit::Created, AggregatorFactCommit::Created],
    ));
    let own = || AggregatorFactCommit::Reobserved {
        existing_tier: Some("html_aggregator".to_owned()),
        existing_method: "html_aggregator".to_owned(),
    };
    let (second, _) = run_aggregator_fundamentals_pull(&balance_only(cells(), vec![own(), own()]));
    assert!(first.facts_written > 0);
    assert_eq!(second.facts_written, 0, "a re-run writes no new facts");
    assert!(second.facts_reobserved > 0, "the re-run re-observes the aggregator's own slots: {second:?}");
}

#[test]
fn a_source_is_held_by_at_most_one_pull_at_a_time() {
    let mut locks = SourceLocks::new();
    assert!(!locks.is_held("biznesradar-fundamenty"));
    assert!(locks.try_acquire("biznesradar-fundamenty"));
    assert!(locks.is_held("biznesradar-fundamenty"));
    assert!(!locks.try_acquire("biznesradar-fundamenty"), "a second pull defers");
    assert!(locks.release("biznesradar-fundamenty"));
    assert!(!locks.is_held("biznesradar-fundamenty"));
    assert!(!locks.release("biznesradar-fundamenty"), "releasing an unheld source reports it");
}
