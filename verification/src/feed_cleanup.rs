//! Feed cleanup runs (retention pruning and deleting unsaved items): how each
//! run's outcome is reported to the runtime metrics. A run is counted under
//! its module and status; a run that deleted items also adds them to the
//! deleted-items counter.

use vstd::prelude::*;

verus! {

/// The runs counter.
pub const RUNS_COUNTER: &'static str = "brawler_feed_cleanup_runs_total";
/// The duration histogram.
pub const DURATION_METRIC: &'static str = "brawler_feed_cleanup_duration_seconds";
/// The deleted-items counter.
pub const DELETED_COUNTER: &'static str = "brawler_feed_cleanup_deleted_total";

/// Which cleanup ran.
#[derive(Debug, Clone, Copy, PartialEq, Eq, Structural)]
pub enum CleanupMode {
    /// Items older than the retention window.
    Retention,
    /// Items the user never saved.
    Unsaved,
}

/// The `module` label of a cleanup.
pub open spec fn spec_mode_label(mode: CleanupMode) -> Seq<char> {
    match mode {
        CleanupMode::Retention => "retention"@,
        CleanupMode::Unsaved => "unsaved"@,
    }
}

/// What a cleanup run reports: the labels of its run and duration, and how
/// many deleted items to add to the deleted counter (none for zero).
#[derive(Debug, Clone, Copy, PartialEq, Eq)]
pub struct CleanupMetrics {
    pub module: &'static str,
    pub status: &'static str,
    pub deleted: Option<u64>,
}

/// The metrics of a cleanup run with `outcome` (see [`cleanup_metrics_spec`]).
pub fn cleanup_metrics(mode: CleanupMode, outcome: &Result<u64, String>) -> (m: CleanupMetrics)
    ensures
        m == cleanup_metrics_spec(mode, *outcome),
        m.module@ == spec_mode_label(mode),
{
    let module = match mode {
        CleanupMode::Retention => "retention",
        CleanupMode::Unsaved => "unsaved",
    };
    match outcome {
        Ok(n) => CleanupMetrics { module, status: "succeeded", deleted: if *n > 0 { Some(*n) } else { None } },
        Err(_) => CleanupMetrics { module, status: "failed", deleted: None },
    }
}

/// Report a retention prune: its outcome (how many items it deleted, or the
/// storage error) is handed back with the metrics to record.
pub fn prune_old_feed_items(outcome: Result<u64, String>) -> (r: (Result<u64, String>, CleanupMetrics))
    ensures
        r.0 == outcome,
        r.1 == cleanup_metrics_spec(CleanupMode::Retention, outcome),
{
    let metrics = cleanup_metrics(CleanupMode::Retention, &outcome);
    (outcome, metrics)
}

/// Report deleting the unsaved items: its outcome is handed back with the
/// metrics to record.
pub fn delete_unsaved_feed_items(outcome: Result<u64, String>) -> (r: (Result<u64, String>, CleanupMetrics))
    ensures
        r.0 == outcome,
        r.1 == cleanup_metrics_spec(CleanupMode::Unsaved, outcome),
{
    let metrics = cleanup_metrics(CleanupMode::Unsaved, &outcome);
    (outcome, metrics)
}

/// The metrics of a cleanup run with `outcome`: counted under its module and
/// `succeeded` or `failed`; the deleted items added only when there were some.
pub open spec fn cleanup_metrics_spec(mode: CleanupMode, outcome: Result<u64, String>) -> CleanupMetrics {
    CleanupMetrics {
        module: match mode {
            CleanupMode::Retention => "retention",
            CleanupMode::Unsaved => "unsaved",
        },
        status: match outcome {
            Ok(_) => "succeeded",
            Err(_) => "failed",
        },
        deleted: match outcome {
            Ok(n) => if n > 0 { Some(n) } else { None },
            Err(_) => None,
        },
    }
}

} // verus!
