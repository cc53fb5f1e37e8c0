use vstd::prelude::*;

pub mod activity;
pub mod ai_analysis;
pub mod aggregator;
pub mod autopilot;
pub mod awaited_paths;
pub mod backfill;
pub mod bytes;
pub mod claim_extraction;
pub mod content_embedding;
pub mod event_derivation;
pub mod feed_cleanup;
pub mod fx;
pub mod health_facts;
pub mod history_sweep;
pub mod insider_attachment;
pub mod interpretation;
pub mod ir_resolution;
pub mod json;
pub mod kinds;
pub mod kpi_extraction;
pub mod lanes;
pub mod queue;
pub mod reconcile;
pub mod runs;
pub mod stages;
pub mod table;
pub mod text;
pub mod worker;

verus! {

} // verus!
