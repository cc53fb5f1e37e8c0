//! The job kinds the worker handles, the isolated worker lanes that drain them
//! (a slow source refresh never starves autopilot), the per-kind serialization
//! key, and where each kind's terminal failure becomes visible to the user.

use vstd::prelude::*;
use crate::json::{json_i64_field, json_str_field, spec_json_i64_field, spec_json_str_field};
use crate::kinds::{
    AGGREGATOR_FUNDAMENTALS_PULL_KIND, AUTOPILOT_STAGE_KIND, BANKIER_COMPANY_ADAPTER_ID,
    BIZNESRADAR_FUNDAMENTALS_ADAPTER_ID, COMPANY_BACKFILL_KIND, FX_DAILY_PULL_KIND,
    HISTORY_SWEEP_KIND, KPI_INGEST_COMMIT_KIND, KPI_INGEST_VALIDATE_KIND,
    MANAGEMENT_EXTRACTION_KIND, MORNING_BRIEFING_KIND, NBP_FX_ADAPTER_ID,
    OWNERSHIP_EXTRACTION_KIND, PIPELINE_REEXTRACTION_KIND, QUOTE_BACKFILL_KIND, REGISTRY_REFRESH_KIND,
    SOURCE_COMPANY_REFRESH_KIND, SOURCE_REFRESH_KIND, YAHOO_EOD_ADAPTER_ID,
};
use crate::text::{owned, str_eq};

verus! {

/// The characters of each kind name.
pub open spec fn kind_views(kinds: Seq<&'static str>) -> Seq<Seq<char>> {
    kinds.map_values(|k: &'static str| k@)
}

/// The job kinds the worker registers a handler for, in registration order.
pub open spec fn spec_registered_kinds() -> Seq<Seq<char>> {
    seq![
        MORNING_BRIEFING_KIND@,
        HISTORY_SWEEP_KIND@,
        OWNERSHIP_EXTRACTION_KIND@,
        MANAGEMENT_EXTRACTION_KIND@,
        AUTOPILOT_STAGE_KIND@,
        SOURCE_REFRESH_KIND@,
        SOURCE_COMPANY_REFRESH_KIND@,
        REGISTRY_REFRESH_KIND@,
        QUOTE_BACKFILL_KIND@,
        COMPANY_BACKFILL_KIND@,
        FX_DAILY_PULL_KIND@,
        AGGREGATOR_FUNDAMENTALS_PULL_KIND@,
        PIPELINE_REEXTRACTION_KIND@,
        KPI_INGEST_VALIDATE_KIND@,
        KPI_INGEST_COMMIT_KIND@,
    ]
}

/// The job kinds the worker registers a handler for.
pub fn registered_kinds() -> (r: Vec<&'static str>)
    ensures
        kind_views(r@) == spec_registered_kinds(),
{
    let r = vec![
        MORNING_BRIEFING_KIND,
        HISTORY_SWEEP_KIND,
        OWNERSHIP_EXTRACTION_KIND,
        MANAGEMENT_EXTRACTION_KIND,
        AUTOPILOT_STAGE_KIND,
        SOURCE_REFRESH_KIND,
        SOURCE_COMPANY_REFRESH_KIND,
        REGISTRY_REFRESH_KIND,
        QUOTE_BACKFILL_KIND,
        COMPANY_BACKFILL_KIND,
        FX_DAILY_PULL_KIND,
        AGGREGATOR_FUNDAMENTALS_PULL_KIND,
        PIPELINE_REEXTRACTION_KIND,
        KPI_INGEST_VALIDATE_KIND,
        KPI_INGEST_COMMIT_KIND,
    ];
    proof {
        assert(kind_views(r@) =~= spec_registered_kinds());
    }
    r
}

/// Whether the worker has a handler for `kind`.
pub fn is_registered_kind(kind: &str) -> (r: bool)
    ensures
        r == spec_registered_kinds().contains(kind@),
{
    let kinds = registered_kinds();
    let mut i: usize = 0;
    while i < kinds.len()
        invariant
            i <= kinds@.len(),
            kind_views(kinds@) == spec_registered_kinds(),
            forall|k: int| 0 <= k < i ==> spec_registered_kinds()[k] != kind@,
        decreases kinds.len() - i,
    {
        if str_eq(kinds[i], kind) {
            proof {
                assert(spec_registered_kinds()[i as int] == kind@);
            }
            return true;
        }
        proof {
            assert(spec_registered_kinds()[i as int] == kinds@[i as int]@);
        }
        i = i + 1;
    }
    false
}

/// Worker counts per lane (settings-driven).
#[derive(Debug, Clone, Copy, PartialEq, Eq, Structural)]
pub struct QueueConfig {
    pub sources_workers: u32,
    pub autopilot_workers: u32,
}

/// One isolated worker lane: the kinds it drains and its thread count.
#[derive(Debug)]
pub struct WorkerPool {
    pub name: &'static str,
    pub kinds: Vec<&'static str>,
    pub workers: usize,
}

/// The kinds the `sources` lane drains: the source refreshes, the backfills
/// and the market-data pulls.
pub open spec fn sources_lane() -> Seq<Seq<char>> {
    seq![
        SOURCE_REFRESH_KIND@,
        SOURCE_COMPANY_REFRESH_KIND@,
        REGISTRY_REFRESH_KIND@,
        QUOTE_BACKFILL_KIND@,
        COMPANY_BACKFILL_KIND@,
        AGGREGATOR_FUNDAMENTALS_PULL_KIND@,
        FX_DAILY_PULL_KIND@,
    ]
}

/// The kinds the `autopilot` lane drains: the stages, the sweeps, the
/// deterministic extractions, the briefing, the re-extraction batches and the
/// KPI ingest steps.
pub open spec fn autopilot_lane() -> Seq<Seq<char>> {
    seq![
        AUTOPILOT_STAGE_KIND@,
        HISTORY_SWEEP_KIND@,
        OWNERSHIP_EXTRACTION_KIND@,
        MANAGEMENT_EXTRACTION_KIND@,
        MORNING_BRIEFING_KIND@,
        PIPELINE_REEXTRACTION_KIND@,
        KPI_INGEST_VALIDATE_KIND@,
        KPI_INGEST_COMMIT_KIND@,
    ]
}

/// At least one worker.
pub open spec fn at_least_one(n: u32) -> usize {
    if n < 1 { 1 } else { n as usize }
}

/// The lane layout: `sources` then `autopilot`, each with its kinds and a
/// worker count of at least one.
pub fn pool_layout(config: QueueConfig) -> (r: Vec<WorkerPool>)
    ensures
        r@.len() == 2,
        r@[0].name@ == "sources"@,
        kind_views(r@[0].kinds@) == sources_lane(),
        r@[0].workers == at_least_one(config.sources_workers),
        r@[1].name@ == "autopilot"@,
        kind_views(r@[1].kinds@) == autopilot_lane(),
        r@[1].workers == at_least_one(config.autopilot_workers),
{
    let sources = vec![
        SOURCE_REFRESH_KIND,
        SOURCE_COMPANY_REFRESH_KIND,
        REGISTRY_REFRESH_KIND,
        QUOTE_BACKFILL_KIND,
        COMPANY_BACKFILL_KIND,
        AGGREGATOR_FUNDAMENTALS_PULL_KIND,
        FX_DAILY_PULL_KIND,
    ];
    let autopilot = vec![
        AUTOPILOT_STAGE_KIND,
        HISTORY_SWEEP_KIND,
        OWNERSHIP_EXTRACTION_KIND,
        MANAGEMENT_EXTRACTION_KIND,
        MORNING_BRIEFING_KIND,
        PIPELINE_REEXTRACTION_KIND,
        KPI_INGEST_VALIDATE_KIND,
        KPI_INGEST_COMMIT_KIND,
    ];
    proof {
        assert(kind_views(sources@) =~= sources_lane());
        assert(kind_views(autopilot@) =~= autopilot_lane());
    }
    let sw: usize = if config.sources_workers < 1 { 1 } else { config.sources_workers as usize };
    let aw: usize = if config.autopilot_workers < 1 { 1 } else { config.autopilot_workers as usize };
    vec![
        WorkerPool { name: "sources", kinds: sources, workers: sw },
        WorkerPool { name: "autopilot", kinds: autopilot, workers: aw },
    ]
}

/// The kind names are pairwise distinct.
pub(crate) proof fn lemma_kind_names_distinct()
    ensures
        spec_registered_kinds().no_duplicates(),
{
    reveal_strlit("morning_briefing");
    reveal_strlit("history_sweep");
    reveal_strlit("ownership_extraction");
    reveal_strlit("management_extraction");
    reveal_strlit("autopilot_stage");
    reveal_strlit("scheduled_source_refresh");
    reveal_strlit("source_company_refresh");
    reveal_strlit("scheduled_registry_refresh");
    reveal_strlit("quote_backfill");
    reveal_strlit("company_backfill");
    reveal_strlit("fx_daily_pull");
    reveal_strlit("aggregator_fundamentals_pull");
    reveal_strlit("pipeline_reextraction");
    reveal_strlit("kpi_ingest_validate");
    reveal_strlit("kpi_ingest_commit");
    let s = spec_registered_kinds();
    assert(s[0][0] != s[9][0]);
    assert(s[1][0] != s[10][0]);
    assert(s[3][0] != s[12][0]);
    assert forall|i: int, j: int| 0 <= i < s.len() && 0 <= j < s.len() && i != j implies s[i] != s[j] by {
        if (i == 0 && j == 9) || (i == 9 && j == 0) {
            assert(s[i][0] != s[j][0]);
        } else if (i == 1 && j == 10) || (i == 10 && j == 1) {
            assert(s[i][0] != s[j][0]);
        } else if (i == 3 && j == 12) || (i == 12 && j == 3) {
            assert(s[i][0] != s[j][0]);
        } else {
            assert(s[i].len() != s[j].len());
        }
    }
}

/// Where the `k`-th kind of the two lanes, in order, stands in the registry.
pub open spec fn lane_position(k: int) -> int {
    if k == 0 { 5 } else if k == 1 { 6 } else if k == 2 { 7 } else if k == 3 { 8 } else if k == 4 { 9 }
    else if k == 5 { 11 } else if k == 6 { 10 } else if k == 7 { 4 } else if k == 8 { 1 } else if k == 9 { 2 }
    else if k == 10 { 3 } else if k == 11 { 0 } else { k }
}

/// Where the `i`-th registered kind stands in the two lanes, in order.
pub open spec fn lane_of(i: int) -> int {
    if i == 5 { 0 } else if i == 6 { 1 } else if i == 7 { 2 } else if i == 8 { 3 } else if i == 9 { 4 }
    else if i == 11 { 5 } else if i == 10 { 6 } else if i == 4 { 7 } else if i == 1 { 8 } else if i == 2 { 9 }
    else if i == 3 { 10 } else if i == 0 { 11 } else { i }
}

/// Every registered kind is drained by exactly one lane, and every kind a lane
/// drains is registered: the two lanes together list each registered kind once.
pub proof fn lemma_every_registered_kind_in_exactly_one_lane()
    ensures
        (sources_lane() + autopilot_lane()).no_duplicates(),
        (sources_lane() + autopilot_lane()).to_set() == spec_registered_kinds().to_set(),
        forall|k: Seq<char>| #![trigger spec_registered_kinds().contains(k)]
            spec_registered_kinds().contains(k) ==> (sources_lane().contains(k) != autopilot_lane().contains(k)),
{
    lemma_kind_names_distinct();
    let r = spec_registered_kinds();
    let l = sources_lane() + autopilot_lane();
    assert(l.len() == r.len());
    assert forall|k: int| 0 <= k < l.len() implies #[trigger] l[k] == r[lane_position(k)] by {
        if k < 7 {
            assert(l[k] == sources_lane()[k]);
        } else {
            assert(l[k] == autopilot_lane()[k - 7]);
        }
    }
    assert forall|i: int| 0 <= i < r.len() implies lane_position(#[trigger] lane_of(i)) == i && 0 <= lane_of(i) < l.len() by {}
    assert(l.to_set() =~= r.to_set()) by {
        assert forall|x: Seq<char>| l.to_set().contains(x) <==> r.to_set().contains(x) by {
            if l.contains(x) {
                let k = choose|k: int| 0 <= k < l.len() && l[k] == x;
                assert(l[k] == r[lane_position(k)]);
            }
            if r.contains(x) {
                let i = choose|i: int| 0 <= i < r.len() && r[i] == x;
                let k = lane_of(i);
                assert(lane_position(k) == i);
                assert(l[k] == r[lane_position(k)]);
            }
        }
    }
    assert forall|i: int, j: int| 0 <= i < l.len() && 0 <= j < l.len() && i != j implies l[i] != l[j] by {
        assert(l[i] == r[lane_position(i)]);
        assert(l[j] == r[lane_position(j)]);
    }
    assert forall|k: Seq<char>| #![trigger spec_registered_kinds().contains(k)]
        spec_registered_kinds().contains(k) implies (sources_lane().contains(k) != autopilot_lane().contains(k)) by {
        let s = sources_lane();
        let a = autopilot_lane();
        if s.contains(k) && a.contains(k) {
            let i = choose|i: int| 0 <= i < s.len() && s[i] == k;
            let j = choose|j: int| 0 <= j < a.len() && a[j] == k;
            assert(l[i] == k);
            assert(l[s.len() + j] == k);
        }
        if !s.contains(k) && !a.contains(k) {
            assert(l.to_set().contains(k));
            let i = choose|i: int| 0 <= i < l.len() && l[i] == k;
            if i < s.len() {
                assert(s[i] == k);
            } else {
                assert(a[i - s.len()] == k);
            }
        }
    }
}

// ---------------------------------------------------------------------------
// Serialization keys.
// ---------------------------------------------------------------------------

/// The `adapterId` a source-refresh payload names: the per-source
/// serialization key.
pub fn payload_adapter_id(payload: &str) -> (r: Option<String>)
    ensures
        crate::activity::opt_text(r) == spec_json_str_field(payload@, "adapterId"@),
{
    json_str_field(payload, "adapterId")
}

/// The adapter a scheduled source refresh refreshes: its payload's
/// `adapterId`, which it cannot run without.
pub fn source_refresh_adapter(payload: &str) -> (r: Result<String, String>)
    ensures
        match spec_json_str_field(payload@, "adapterId"@) {
            Some(a) => r matches Ok(x) && x@ == a,
            None => r matches Err(e) && e@ == "scheduled source refresh missing adapterId"@,
        },
{
    match json_str_field(payload, "adapterId") {
        Some(a) => Ok(a),
        None => Err(owned("scheduled source refresh missing adapterId")),
    }
}

/// How old the company directories may be before a scheduled registry refresh
/// refreshes them: the payload's `staleAfterSeconds`, else a day.
pub fn registry_stale_after_seconds(payload: &str) -> (r: i64)
    ensures
        r == match spec_json_i64_field(payload@, "staleAfterSeconds"@) {
            Some(n) => n,
            None => 86_400,
        },
{
    match json_i64_field(payload, "staleAfterSeconds") {
        Some(n) => n,
        None => 86_400,
    }
}

/// The key a job of `kind` serializes on: the two source refreshes key on
/// their payload's adapter id, each external pull on its own source's adapter
/// id; every other kind runs unserialized.
pub open spec fn spec_serialization_key(kind: Seq<char>, payload: Seq<char>) -> Option<Seq<char>> {
    if kind == SOURCE_REFRESH_KIND@ || kind == SOURCE_COMPANY_REFRESH_KIND@ {
        spec_json_str_field(payload, "adapterId"@)
    } else if kind == QUOTE_BACKFILL_KIND@ {
        Some(YAHOO_EOD_ADAPTER_ID@)
    } else if kind == COMPANY_BACKFILL_KIND@ {
        Some(BANKIER_COMPANY_ADAPTER_ID@)
    } else if kind == FX_DAILY_PULL_KIND@ {
        Some(NBP_FX_ADAPTER_ID@)
    } else if kind == AGGREGATOR_FUNDAMENTALS_PULL_KIND@ {
        Some(BIZNESRADAR_FUNDAMENTALS_ADAPTER_ID@)
    } else {
        None
    }
}

/// The key a job of `kind` with `payload` serializes on, if any.
pub fn serialization_key(kind: &str, payload: &str) -> (r: Option<String>)
    ensures
        crate::activity::opt_text(r) == spec_serialization_key(kind@, payload@),
{
    if str_eq(kind, SOURCE_REFRESH_KIND) || str_eq(kind, SOURCE_COMPANY_REFRESH_KIND) {
        payload_adapter_id(payload)
    } else if str_eq(kind, QUOTE_BACKFILL_KIND) {
        Some(owned(YAHOO_EOD_ADAPTER_ID))
    } else if str_eq(kind, COMPANY_BACKFILL_KIND) {
        Some(owned(BANKIER_COMPANY_ADAPTER_ID))
    } else if str_eq(kind, FX_DAILY_PULL_KIND) {
        Some(owned(NBP_FX_ADAPTER_ID))
    } else if str_eq(kind, AGGREGATOR_FUNDAMENTALS_PULL_KIND) {
        Some(owned(BIZNESRADAR_FUNDAMENTALS_ADAPTER_ID))
    } else {
        None
    }
}

// ---------------------------------------------------------------------------
// Failure surfaces.
// ---------------------------------------------------------------------------

/// The one user-visible place a terminally failed job of a kind shows up.
#[derive(Debug, Clone, Copy, PartialEq, Eq, Structural)]
pub enum FailureSurface {
    /// A `job_failed` attention event in the Today stream (the generic surface).
    TodayAttention,
    /// The source adapter's own health row on the Sources screen.
    SourcesAdapterHealth,
    /// The autopilot run card (the run is finalized failed with its error).
    AutopilotRunCard,
}

/// Where a kind's terminal failure shows up; `None` for an unclassified kind.
pub open spec fn spec_failure_surface(kind: Seq<char>) -> Option<FailureSurface> {
    if kind == SOURCE_REFRESH_KIND@ || kind == SOURCE_COMPANY_REFRESH_KIND@ || kind == REGISTRY_REFRESH_KIND@
        || kind == FX_DAILY_PULL_KIND@ {
        Some(FailureSurface::SourcesAdapterHealth)
    } else if kind == AUTOPILOT_STAGE_KIND@ {
        Some(FailureSurface::AutopilotRunCard)
    } else if kind == MORNING_BRIEFING_KIND@ || kind == HISTORY_SWEEP_KIND@ || kind == OWNERSHIP_EXTRACTION_KIND@
        || kind == MANAGEMENT_EXTRACTION_KIND@ || kind == QUOTE_BACKFILL_KIND@ || kind == COMPANY_BACKFILL_KIND@
        || kind == AGGREGATOR_FUNDAMENTALS_PULL_KIND@ || kind == PIPELINE_REEXTRACTION_KIND@
        || kind == KPI_INGEST_VALIDATE_KIND@ || kind == KPI_INGEST_COMMIT_KIND@ {
        Some(FailureSurface::TodayAttention)
    } else {
        None
    }
}

/// The failure surface of one job kind, or `None` when it is not classified.
pub fn failure_surface(kind: &str) -> (r: Option<FailureSurface>)
    ensures
        r == spec_failure_surface(kind@),
{
    if str_eq(kind, SOURCE_REFRESH_KIND) || str_eq(kind, SOURCE_COMPANY_REFRESH_KIND) || str_eq(kind, REGISTRY_REFRESH_KIND)
        || str_eq(kind, FX_DAILY_PULL_KIND) {
        Some(FailureSurface::SourcesAdapterHealth)
    } else if str_eq(kind, AUTOPILOT_STAGE_KIND) {
        Some(FailureSurface::AutopilotRunCard)
    } else if str_eq(kind, MORNING_BRIEFING_KIND) || str_eq(kind, HISTORY_SWEEP_KIND) || str_eq(kind, OWNERSHIP_EXTRACTION_KIND)
        || str_eq(kind, MANAGEMENT_EXTRACTION_KIND) || str_eq(kind, QUOTE_BACKFILL_KIND) || str_eq(kind, COMPANY_BACKFILL_KIND)
        || str_eq(kind, AGGREGATOR_FUNDAMENTALS_PULL_KIND) || str_eq(kind, PIPELINE_REEXTRACTION_KIND)
        || str_eq(kind, KPI_INGEST_VALIDATE_KIND) || str_eq(kind, KPI_INGEST_COMMIT_KIND) {
        Some(FailureSurface::TodayAttention)
    } else {
        None
    }
}

/// The surface of each registered kind: the source-refresh family (the
/// scheduled and per-company source refreshes, the registry refresh and the
/// NBP FX pull) records its own adapter error on the Sources screen; an
/// autopilot stage fails its run card; every other kind raises the generic
/// attention event in Today.
pub proof fn lemma_failure_surface_table()
    ensures
        spec_failure_surface(MORNING_BRIEFING_KIND@) == Some(FailureSurface::TodayAttention),
        spec_failure_surface(HISTORY_SWEEP_KIND@) == Some(FailureSurface::TodayAttention),
        spec_failure_surface(OWNERSHIP_EXTRACTION_KIND@) == Some(FailureSurface::TodayAttention),
        spec_failure_surface(MANAGEMENT_EXTRACTION_KIND@) == Some(FailureSurface::TodayAttention),
        spec_failure_surface(AUTOPILOT_STAGE_KIND@) == Some(FailureSurface::AutopilotRunCard),
        spec_failure_surface(SOURCE_REFRESH_KIND@) == Some(FailureSurface::SourcesAdapterHealth),
        spec_failure_surface(SOURCE_COMPANY_REFRESH_KIND@) == Some(FailureSurface::SourcesAdapterHealth),
        spec_failure_surface(REGISTRY_REFRESH_KIND@) == Some(FailureSurface::SourcesAdapterHealth),
        spec_failure_surface(QUOTE_BACKFILL_KIND@) == Some(FailureSurface::TodayAttention),
        spec_failure_surface(COMPANY_BACKFILL_KIND@) == Some(FailureSurface::TodayAttention),
        spec_failure_surface(FX_DAILY_PULL_KIND@) == Some(FailureSurface::SourcesAdapterHealth),
        spec_failure_surface(AGGREGATOR_FUNDAMENTALS_PULL_KIND@) == Some(FailureSurface::TodayAttention),
        spec_failure_surface(PIPELINE_REEXTRACTION_KIND@) == Some(FailureSurface::TodayAttention),
        spec_failure_surface(KPI_INGEST_VALIDATE_KIND@) == Some(FailureSurface::TodayAttention),
        spec_failure_surface(KPI_INGEST_COMMIT_KIND@) == Some(FailureSurface::TodayAttention),
{
    lemma_kind_names_distinct();
    let r = spec_registered_kinds();
    assert(r[0] == MORNING_BRIEFING_KIND@);
    assert(r[1] == HISTORY_SWEEP_KIND@);
    assert(r[2] == OWNERSHIP_EXTRACTION_KIND@);
    assert(r[3] == MANAGEMENT_EXTRACTION_KIND@);
    assert(r[4] == AUTOPILOT_STAGE_KIND@);
    assert(r[5] == SOURCE_REFRESH_KIND@);
    assert(r[6] == SOURCE_COMPANY_REFRESH_KIND@);
    assert(r[7] == REGISTRY_REFRESH_KIND@);
    assert(r[8] == QUOTE_BACKFILL_KIND@);
    assert(r[9] == COMPANY_BACKFILL_KIND@);
    assert(r[10] == FX_DAILY_PULL_KIND@);
    assert(r[11] == AGGREGATOR_FUNDAMENTALS_PULL_KIND@);
    assert(r[12] == PIPELINE_REEXTRACTION_KIND@);
    assert(r[13] == KPI_INGEST_VALIDATE_KIND@);
    assert(r[14] == KPI_INGEST_COMMIT_KIND@);
}

/// Every registered kind has a failure surface; a classified kind is
/// registered; and each of the three surfaces is used by some registered kind.
pub proof fn lemma_failure_surfaces_cover_the_registry()
    ensures
        forall|k: Seq<char>| #![trigger spec_registered_kinds().contains(k)]
            spec_registered_kinds().contains(k) ==> spec_failure_surface(k) is Some,
        forall|k: Seq<char>| #![trigger spec_failure_surface(k)]
            spec_failure_surface(k) is Some ==> spec_registered_kinds().contains(k),
        spec_failure_surface(SOURCE_REFRESH_KIND@) == Some(FailureSurface::SourcesAdapterHealth),
        spec_failure_surface(AUTOPILOT_STAGE_KIND@) == Some(FailureSurface::AutopilotRunCard),
        spec_failure_surface(MORNING_BRIEFING_KIND@) == Some(FailureSurface::TodayAttention),
{
    lemma_kind_names_distinct();
    let r = spec_registered_kinds();
    assert(r[5] != r[4] && r[6] != r[4] && r[7] != r[4] && r[10] != r[4]);
    assert(r[5] != r[0] && r[6] != r[0] && r[7] != r[0] && r[10] != r[0] && r[4] != r[0]);
    assert forall|k: Seq<char>| #![trigger spec_registered_kinds().contains(k)]
        spec_registered_kinds().contains(k) implies spec_failure_surface(k) is Some by {
        let i = choose|i: int| 0 <= i < r.len() && r[i] == k;
        if i == 0 {} else if i == 1 {} else if i == 2 {} else if i == 3 {} else if i == 4 {} else if i == 5 {}
        else if i == 6 {} else if i == 7 {} else if i == 8 {} else if i == 9 {} else if i == 10 {} else if i == 11 {}
        else if i == 12 {} else if i == 13 {} else {}
    }
    assert forall|k: Seq<char>| #![trigger spec_failure_surface(k)]
        spec_failure_surface(k) is Some implies spec_registered_kinds().contains(k) by {
        if k == MORNING_BRIEFING_KIND@ { assert(r[0] == k); }
        else if k == HISTORY_SWEEP_KIND@ { assert(r[1] == k); }
        else if k == OWNERSHIP_EXTRACTION_KIND@ { assert(r[2] == k); }
        else if k == MANAGEMENT_EXTRACTION_KIND@ { assert(r[3] == k); }
        else if k == AUTOPILOT_STAGE_KIND@ { assert(r[4] == k); }
        else if k == SOURCE_REFRESH_KIND@ { assert(r[5] == k); }
        else if k == SOURCE_COMPANY_REFRESH_KIND@ { assert(r[6] == k); }
        else if k == REGISTRY_REFRESH_KIND@ { assert(r[7] == k); }
        else if k == QUOTE_BACKFILL_KIND@ { assert(r[8] == k); }
        else if k == COMPANY_BACKFILL_KIND@ { assert(r[9] == k); }
        else if k == FX_DAILY_PULL_KIND@ { assert(r[10] == k); }
        else if k == AGGREGATOR_FUNDAMENTALS_PULL_KIND@ { assert(r[11] == k); }
        else if k == PIPELINE_REEXTRACTION_KIND@ { assert(r[12] == k); }
        else if k == KPI_INGEST_VALIDATE_KIND@ { assert(r[13] == k); }
        else if k == KPI_INGEST_COMMIT_KIND@ { assert(r[14] == k); }
    }
}

} // verus!
