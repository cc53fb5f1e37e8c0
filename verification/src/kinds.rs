//! The durable-queue job kinds, the adapters the library names, the worker
//! lanes that drain each kind, and where a kind's terminal failure surfaces.

use vstd::prelude::*;

verus! {

/// A scheduled source-adapter refresh.
pub const SOURCE_REFRESH_KIND: &'static str = "scheduled_source_refresh";
/// A per-company refresh of a company-scoped source.
pub const SOURCE_COMPANY_REFRESH_KIND: &'static str = "source_company_refresh";
/// A scheduled company-registry refresh-if-stale check.
pub const REGISTRY_REFRESH_KIND: &'static str = "scheduled_registry_refresh";
/// The NBP FX daily pull / full-history backfill.
pub const FX_DAILY_PULL_KIND: &'static str = "fx_daily_pull";
/// The BiznesRadar-primary fundamentals pull.
pub const AGGREGATOR_FUNDAMENTALS_PULL_KIND: &'static str = "aggregator_fundamentals_pull";
/// A morning briefing composition.
pub const MORNING_BRIEFING_KIND: &'static str = "morning_briefing";
/// An automatic per-company report-history backfill.
pub const COMPANY_BACKFILL_KIND: &'static str = "company_backfill";
/// A full-history quote backfill for one company.
pub const QUOTE_BACKFILL_KIND: &'static str = "quote_backfill";
/// One history sweep.
pub const HISTORY_SWEEP_KIND: &'static str = "history_sweep";
/// One pipeline re-extraction batch.
pub const PIPELINE_REEXTRACTION_KIND: &'static str = "pipeline_reextraction";
/// Shareholders-table extraction of one stored periodic report.
pub const OWNERSHIP_EXTRACTION_KIND: &'static str = "ownership_extraction";
/// Management-holdings extraction of one stored periodic report.
pub const MANAGEMENT_EXTRACTION_KIND: &'static str = "management_extraction";
/// One stage of an autopilot run.
pub const AUTOPILOT_STAGE_KIND: &'static str = "autopilot_stage";
/// The validate step of a KPI ingest run.
pub const KPI_INGEST_VALIDATE_KIND: &'static str = "kpi_ingest_validate";
/// The commit step of a KPI ingest run.
pub const KPI_INGEST_COMMIT_KIND: &'static str = "kpi_ingest_commit";

/// The BiznesRadar fundamentals adapter (the aggregator pull serializes on it).
pub const BIZNESRADAR_FUNDAMENTALS_ADAPTER_ID: &'static str = "biznesradar-fundamenty";
/// The NBP FX adapter.
pub const NBP_FX_ADAPTER_ID: &'static str = "nbp-fx";
/// The display name of the BiznesRadar fundamentals source.
pub const BIZNESRADAR_FUNDAMENTALS_DISPLAY_NAME: &'static str = "BiznesRadar";
/// The display name of the NBP FX source.
pub const NBP_FX_DISPLAY_NAME: &'static str = "NBP";


/// The Yahoo end-of-day quote source (the quote backfill serializes on it).
pub const YAHOO_EOD_ADAPTER_ID: &'static str = "yahoo-eod";

/// The Bankier company-listing source (the company backfill serializes on it).
pub const BANKIER_COMPANY_ADAPTER_ID: &'static str = "bankier-company";

} // verus!
