//! The manual KPI extraction job, as a state machine over the outcomes of its
//! outside steps (loading the job and its document, deriving the reporting
//! period, marking the job running, the tier-4 OCR extraction). A run either
//! completes with its honest committed-fact count, or fails: a transient
//! provider failure with queue retry budget left is handed back to the queue
//! for a backoff retry and leaves the domain job re-runnable; any other failure
//! marks the domain job failed with its error code.

use vstd::prelude::*;
use crate::ai_analysis::DiagnosticSeverity;
use crate::queue::{row_of, JobQueue, JobStatus, JobView};
use crate::text::{concat3, owned, signed_decimal, spec_signed_decimal, str_eq};

verus! {

/// How a KPI extraction run failed at the queue's level.
#[derive(Debug)]
pub enum KpiExtractionJobError {
    /// A transient provider failure with retry budget left: the queue retries
    /// with backoff, and the domain job stays re-runnable.
    TransientRetryScheduled(String),
    /// Any other runner failure (the domain row lookup, persisting the result).
    Internal(String),
}

impl KpiExtractionJobError {
    /// The error's message.
    pub fn message(&self) -> (r: String)
        ensures
            r@ == match self {
                KpiExtractionJobError::TransientRetryScheduled(m) => m@,
                KpiExtractionJobError::Internal(m) => m@,
            },
    {
        match self {
            KpiExtractionJobError::TransientRetryScheduled(m) => m.clone(),
            KpiExtractionJobError::Internal(m) => m.clone(),
        }
    }
}

/// The provider error codes worth a queue retry: transient availability
/// failures, never client, configuration or content errors.
pub open spec fn spec_is_transient_error_code(code: Seq<char>) -> bool {
    code == "provider_limit"@ || code == "provider_unavailable"@ || code == "network_error"@
}

/// Whether a provider error code is worth a queue retry.
pub fn is_transient_error_code(code: &str) -> (r: bool)
    ensures
        r == spec_is_transient_error_code(code@),
{
    str_eq(code, "provider_limit") || str_eq(code, "provider_unavailable") || str_eq(code, "network_error")
}

/// The message of a document that has not been fetched.
pub const NOT_FETCHED_MESSAGE: &'static str = "the report document has not been fetched yet";
/// The message of a document whose reporting period cannot be derived.
pub const NO_PERIOD_MESSAGE: &'static str = "could not determine the reporting period for this document \u{2014} tier-4 OCR extraction needs a period derivable from the title/URL (or an ESEF instance)";
/// The message of a structured filing handed to the OCR tier.
pub const NOT_PDF_MESSAGE: &'static str = "tier-4 OCR extraction only handles PDF reports; this document is a structured/ESEF filing (handled by the deterministic pipeline)";
/// The message when no vision provider is configured.
pub const NO_VISION_PROVIDER_MESSAGE: &'static str = "no vision-extraction provider is configured. Add a document-native provider (Mistral) under Settings \u{2192} AI \u{2192} Vision extraction.";
/// The message of a document without a stored file.
pub const NO_STORED_FILE_MESSAGE: &'static str = "the report document has no stored file";
/// The message of a failed OCR profile bootstrap.
pub const BOOTSTRAP_FAILED_MESSAGE: &'static str = "the OCR profile bootstrap did not return a usable layout";

/// The error a tier-4 "could not run" reason fails the job with; `None` for
/// a reason that succeeds (facts emitted, proposals, empty).
pub open spec fn spec_tier4_reason_error(reason: Seq<char>) -> Option<(Seq<char>, Seq<char>)> {
    if reason == "not_pdf"@ {
        Some(("non_pdf_document"@, NOT_PDF_MESSAGE@))
    } else if reason == "no_vision_provider"@ {
        Some(("provider_error"@, NO_VISION_PROVIDER_MESSAGE@))
    } else if reason == "no_stored_file"@ {
        Some(("provider_error"@, NO_STORED_FILE_MESSAGE@))
    } else if reason == "bootstrap_failed"@ {
        Some(("parse_error"@, BOOTSTRAP_FAILED_MESSAGE@))
    } else {
        None
    }
}

/// The error a tier-4 reason fails the job with, if any.
pub fn tier4_reason_error(reason: &str) -> (r: Option<(&'static str, &'static str)>)
    ensures
        match r {
            Some((c, m)) => spec_tier4_reason_error(reason@) == Some((c@, m@)),
            None => spec_tier4_reason_error(reason@) is None,
        },
{
    if str_eq(reason, "not_pdf") {
        Some(("non_pdf_document", NOT_PDF_MESSAGE))
    } else if str_eq(reason, "no_vision_provider") {
        Some(("provider_error", NO_VISION_PROVIDER_MESSAGE))
    } else if str_eq(reason, "no_stored_file") {
        Some(("provider_error", NO_STORED_FILE_MESSAGE))
    } else if str_eq(reason, "bootstrap_failed") {
        Some(("parse_error", BOOTSTRAP_FAILED_MESSAGE))
    } else {
        None
    }
}

/// The step a run is at.
#[derive(Debug, Clone, Copy, PartialEq, Eq, Structural)]
pub enum KpiStage {
    LoadJob,
    LoadDocument,
    DerivePeriod,
    MarkRunning,
    Extract,
    Done,
}

/// The reporting period derived for the document.
#[derive(Debug, Clone, PartialEq, Eq)]
pub struct KpiPeriod {
    pub fiscal_year: i64,
    pub period_type: String,
    pub period_end: String,
}

/// A period as plain values.
pub open spec fn period_view(p: KpiPeriod) -> (i64, Seq<char>, Seq<char>) {
    (p.fiscal_year, p.period_type@, p.period_end@)
}

/// A run in progress: the step it is at and, once derived, its period.
#[derive(Debug)]
pub struct KpiRun {
    pub stage: KpiStage,
    pub period: Option<KpiPeriod>,
}

/// [`KpiRun`] as plain values.
pub struct KpiRunView {
    pub stage: KpiStage,
    pub period: Option<(i64, Seq<char>, Seq<char>)>,
}

impl View for KpiRun {
    type V = KpiRunView;

    open spec fn view(&self) -> KpiRunView {
        KpiRunView {
            stage: self.stage,
            period: match self.period {
                Some(p) => Some(period_view(p)),
                None => None,
            },
        }
    }
}

impl KpiRun {
    /// A run about to load its job.
    pub fn new() -> (r: KpiRun)
        ensures
            r@ == (KpiRunView { stage: KpiStage::LoadJob, period: None }),
    {
        KpiRun { stage: KpiStage::LoadJob, period: None }
    }
}

/// What tier-4 reported: its reason, how many facts it committed and how many
/// proposals it left for review.
pub struct Tier4Outcome {
    pub reason: String,
    pub produced_facts: u64,
    pub proposal_count: u64,
}

/// The outcome of a step's outside work.
pub enum KpiEvent {
    /// The domain job's status, or the lookup error.
    JobLoaded(Result<String, String>),
    /// The report document's fetch status, or the lookup error.
    DocumentLoaded(Result<String, String>),
    /// The reporting period derived for the document, if one could be.
    PeriodDerived(Option<KpiPeriod>),
    /// Marking the domain job running.
    MarkedRunning(Result<(), String>),
    /// Tier-4's outcome, or its error code and message.
    Extracted(Result<Tier4Outcome, (String, String)>),
}

/// What the caller does next.
#[derive(Debug, PartialEq, Eq)]
pub enum KpiAction {
    /// Do the outside work of this step and report its event.
    Next(KpiStage),
    /// The job had already succeeded: return it as it is.
    AlreadySucceeded,
    /// Store the completed job with this committed-fact count.
    Complete { committed_fact_count: i64 },
    /// Leave the domain job re-runnable and fail the queue attempt with
    /// [`KpiExtractionJobError::TransientRetryScheduled`] carrying `message`.
    RetryScheduled { message: String },
    /// Mark the domain job failed with `code` and `error`.
    MarkFailed { code: String, error: String },
    /// Fail with [`KpiExtractionJobError::Internal`] carrying the message.
    Internal(String),
}

/// [`KpiAction`] as plain values.
pub enum KpiActionView {
    Next(KpiStage),
    AlreadySucceeded,
    Complete { committed_fact_count: i64 },
    RetryScheduled { message: Seq<char> },
    MarkFailed { code: Seq<char>, error: Seq<char> },
    Internal(Seq<char>),
}

/// The action as plain values.
pub open spec fn kpi_action_view(a: KpiAction) -> KpiActionView {
    match a {
        KpiAction::Next(s) => KpiActionView::Next(s),
        KpiAction::AlreadySucceeded => KpiActionView::AlreadySucceeded,
        KpiAction::Complete { committed_fact_count } => KpiActionView::Complete { committed_fact_count },
        KpiAction::RetryScheduled { message } => KpiActionView::RetryScheduled { message: message@ },
        KpiAction::MarkFailed { code, error } => KpiActionView::MarkFailed { code: code@, error: error@ },
        KpiAction::Internal(m) => KpiActionView::Internal(m@),
    }
}

// ---------------------------------------------------------------------------
// Diagnostics.
// ---------------------------------------------------------------------------

/// The stage-specific details a diagnostic carries.
#[derive(Debug, PartialEq, Eq)]
pub enum KpiDiagnosticMeta {
    /// Nothing beyond the job's own identification.
    Plain,
    /// The period the extraction runs for.
    Period(KpiPeriod),
    /// What a successful extraction parsed.
    Parsed { reason: String, committed_fact_count: i64, proposal_count: u64 },
    /// A transient failure the queue will retry: the error and the attempt
    /// against the queue's budget.
    RetryScheduled { error_code: String, error: String, attempt: i64, max_attempts: i64 },
    /// The error the job was failed with.
    Failed { error_code: String, error: String },
}

/// One diagnostic the run records: its lifecycle stage, severity, message and
/// details.
#[derive(Debug, PartialEq, Eq)]
pub struct KpiDiagnostic {
    pub stage: &'static str,
    pub severity: DiagnosticSeverity,
    pub message: &'static str,
    pub meta: KpiDiagnosticMeta,
}

/// [`KpiDiagnosticMeta`] as plain values.
pub enum KpiMetaView {
    Plain,
    Period((i64, Seq<char>, Seq<char>)),
    Parsed { reason: Seq<char>, committed_fact_count: i64, proposal_count: u64 },
    RetryScheduled { error_code: Seq<char>, error: Seq<char>, attempt: i64, max_attempts: i64 },
    Failed { error_code: Seq<char>, error: Seq<char> },
}

/// A diagnostic as plain values.
pub struct KpiDiagView {
    pub stage: Seq<char>,
    pub severity: DiagnosticSeverity,
    pub message: Seq<char>,
    pub meta: KpiMetaView,
}

/// The details as plain values.
pub open spec fn kpi_meta_view(m: KpiDiagnosticMeta) -> KpiMetaView {
    match m {
        KpiDiagnosticMeta::Plain => KpiMetaView::Plain,
        KpiDiagnosticMeta::Period(p) => KpiMetaView::Period(period_view(p)),
        KpiDiagnosticMeta::Parsed { reason, committed_fact_count, proposal_count } =>
            KpiMetaView::Parsed { reason: reason@, committed_fact_count, proposal_count },
        KpiDiagnosticMeta::RetryScheduled { error_code, error, attempt, max_attempts } =>
            KpiMetaView::RetryScheduled { error_code: error_code@, error: error@, attempt, max_attempts },
        KpiDiagnosticMeta::Failed { error_code, error } => KpiMetaView::Failed { error_code: error_code@, error: error@ },
    }
}

/// The diagnostic as plain values.
pub open spec fn kpi_diag_view(d: KpiDiagnostic) -> KpiDiagView {
    KpiDiagView { stage: d.stage@, severity: d.severity, message: d.message@, meta: kpi_meta_view(d.meta) }
}

/// The diagnostics as plain values.
pub open spec fn kpi_diag_views(ds: Seq<KpiDiagnostic>) -> Seq<KpiDiagView> {
    ds.map_values(|d: KpiDiagnostic| kpi_diag_view(d))
}

/// The message of the `running` diagnostic.
pub const RUNNING_MESSAGE: &'static str = "KPI extraction started.";
/// The message of the `request_sent` diagnostic.
pub const REQUEST_SENT_MESSAGE: &'static str = "Tier-4 OCR extraction started.";
/// The message of the `parsed` diagnostic.
pub const PARSED_MESSAGE: &'static str = "Tier-4 OCR extraction parsed.";
/// The message of the `stored` diagnostic.
pub const STORED_MESSAGE: &'static str = "KPI extraction proposals stored.";
/// The message of the `retry_scheduled` diagnostic.
pub const RETRY_SCHEDULED_MESSAGE: &'static str = "KPI extraction hit a transient provider failure; the queue will retry with backoff.";
/// The message of the `failed` diagnostic.
pub const FAILED_MESSAGE: &'static str = "KPI extraction failed.";

/// The `running` diagnostic, recorded once the job is found not yet succeeded.
pub open spec fn running_diag() -> KpiDiagView {
    KpiDiagView { stage: "running"@, severity: DiagnosticSeverity::Info, message: RUNNING_MESSAGE@, meta: KpiMetaView::Plain }
}

/// The `request_sent` diagnostic, recorded once the job is marked running,
/// with the period the extraction runs for.
pub open spec fn request_sent_diag(period: Option<(i64, Seq<char>, Seq<char>)>) -> KpiDiagView {
    KpiDiagView {
        stage: "request_sent"@,
        severity: DiagnosticSeverity::Info,
        message: REQUEST_SENT_MESSAGE@,
        meta: match period {
            Some(p) => KpiMetaView::Period(p),
            None => KpiMetaView::Plain,
        },
    }
}

/// The `parsed` diagnostic of a successful extraction.
pub open spec fn parsed_diag(reason: Seq<char>, committed_fact_count: i64, proposal_count: u64) -> KpiDiagView {
    KpiDiagView {
        stage: "parsed"@,
        severity: DiagnosticSeverity::Info,
        message: PARSED_MESSAGE@,
        meta: KpiMetaView::Parsed { reason, committed_fact_count, proposal_count },
    }
}

/// The `retry_scheduled` warning of a transient failure the queue retries.
pub open spec fn retry_diag(code: Seq<char>, error: Seq<char>, attempt: i64, max_attempts: i64) -> KpiDiagView {
    KpiDiagView {
        stage: "retry_scheduled"@,
        severity: DiagnosticSeverity::Warning,
        message: RETRY_SCHEDULED_MESSAGE@,
        meta: KpiMetaView::RetryScheduled { error_code: code, error, attempt, max_attempts },
    }
}

/// The queue row running job `job_id`, if the run was dispatched by the queue.
pub open spec fn running_row(rows: Seq<JobView>, job_id: Seq<char>) -> Option<JobView> {
    match row_of(rows, job_id) {
        Some(r) => if r.status == JobStatus::Running { Some(r) } else { None },
        None => None,
    }
}

/// How an extraction error `(code, error)` ends the run: a transient code with
/// a running queue row whose attempts are below its budget schedules a retry
/// (`"{code}: {error}"`); otherwise the job is marked failed, a transient code
/// with a running row saying the retries were exhausted.
pub open spec fn spec_failure_action(rows: Seq<JobView>, job_id: Seq<char>, code: Seq<char>, error: Seq<char>) -> KpiActionView {
    let row = if spec_is_transient_error_code(code) { running_row(rows, job_id) } else { None };
    match row {
        Some(r) => if r.attempts < r.max_attempts {
            KpiActionView::RetryScheduled { message: code + ": "@ + error }
        } else {
            KpiActionView::MarkFailed {
                code,
                error: error + " (queue retries exhausted after "@ + spec_signed_decimal(r.attempts as int) + " attempts)"@,
            }
        },
        None => KpiActionView::MarkFailed { code, error },
    }
}

/// The diagnostics an extraction error records itself: the `retry_scheduled`
/// warning (code, error, attempt and budget of the running queue row) when
/// it schedules a retry, else none (a failed job's `failed` diagnostic follows
/// marking it, see [`spec_closing_diag`]).
pub open spec fn spec_failure_diags(rows: Seq<JobView>, job_id: Seq<char>, code: Seq<char>, error: Seq<char>) -> Seq<KpiDiagView> {
    let row = if spec_is_transient_error_code(code) { running_row(rows, job_id) } else { None };
    match row {
        Some(r) => if r.attempts < r.max_attempts {
            seq![retry_diag(code, error, r.attempts, r.max_attempts)]
        } else {
            Seq::empty()
        },
        None => Seq::empty(),
    }
}

/// `run` finished.
pub open spec fn run_done(run: KpiRunView) -> KpiRunView {
    KpiRunView { stage: KpiStage::Done, ..run }
}

/// `run` moved on to `stage`.
pub open spec fn run_at(run: KpiRunView, stage: KpiStage) -> KpiRunView {
    KpiRunView { stage, ..run }
}

/// A run ended by the extraction error `(code, error)`.
pub open spec fn spec_failed_step(run: KpiRunView, rows: Seq<JobView>, job_id: Seq<char>, code: Seq<char>, error: Seq<char>)
    -> (KpiRunView, KpiActionView, Seq<KpiDiagView>)
{
    (run_done(run), spec_failure_action(rows, job_id, code, error), spec_failure_diags(rows, job_id, code, error))
}

/// One step of a run given `event`, with the queue's rows `rows`: the run
/// after it, the action and the diagnostics the step records. An event that
/// does not fit the stage changes nothing.
pub open spec fn spec_kpi_step(run: KpiRunView, event: KpiEvent, rows: Seq<JobView>, job_id: Seq<char>)
    -> (KpiRunView, KpiActionView, Seq<KpiDiagView>)
{
    match (run.stage, event) {
        (KpiStage::LoadJob, KpiEvent::JobLoaded(r)) => match r {
            Err(e) => (run_done(run), KpiActionView::Internal(e@), Seq::empty()),
            Ok(status) => if status@ == "succeeded"@ {
                (run_done(run), KpiActionView::AlreadySucceeded, Seq::empty())
            } else {
                (run_at(run, KpiStage::LoadDocument), KpiActionView::Next(KpiStage::LoadDocument), seq![running_diag()])
            },
        },
        (KpiStage::LoadDocument, KpiEvent::DocumentLoaded(r)) => match r {
            Err(e) => spec_failed_step(run, rows, job_id, "provider_error"@, e@),
            Ok(fetch_status) => if fetch_status@ != "fetched"@ {
                spec_failed_step(run, rows, job_id, "provider_error"@, NOT_FETCHED_MESSAGE@)
            } else {
                (run_at(run, KpiStage::DerivePeriod), KpiActionView::Next(KpiStage::DerivePeriod), Seq::empty())
            },
        },
        (KpiStage::DerivePeriod, KpiEvent::PeriodDerived(found)) => match found {
            Some(p) => (
                KpiRunView { stage: KpiStage::MarkRunning, period: Some(period_view(p)) },
                KpiActionView::Next(KpiStage::MarkRunning),
                Seq::empty(),
            ),
            None => spec_failed_step(run, rows, job_id, "no_period"@, NO_PERIOD_MESSAGE@),
        },
        (KpiStage::MarkRunning, KpiEvent::MarkedRunning(r)) => match r {
            Err(e) => spec_failed_step(run, rows, job_id, "unknown"@, e@),
            Ok(()) => (run_at(run, KpiStage::Extract), KpiActionView::Next(KpiStage::Extract), seq![request_sent_diag(run.period)]),
        },
        (KpiStage::Extract, KpiEvent::Extracted(r)) => match r {
            Err((code, message)) => spec_failed_step(run, rows, job_id, code@, message@),
            Ok(outcome) => match spec_tier4_reason_error(outcome.reason@) {
                Some((code, message)) => spec_failed_step(run, rows, job_id, code, message),
                None => (
                    run_done(run),
                    KpiActionView::Complete { committed_fact_count: outcome.produced_facts as i64 },
                    seq![parsed_diag(outcome.reason@, outcome.produced_facts as i64, outcome.proposal_count)],
                ),
            },
        },
        _ => (run, KpiActionView::Next(run.stage), Seq::empty()),
    }
}

/// The diagnostic that follows carrying out a final action: `stored` once a
/// completed job is stored, `failed` (with its code and error) once a job is
/// marked failed; none for any other action.
pub open spec fn spec_closing_diag(a: KpiActionView) -> Option<KpiDiagView> {
    match a {
        KpiActionView::Complete { .. } => Some(KpiDiagView {
            stage: "stored"@,
            severity: DiagnosticSeverity::Info,
            message: STORED_MESSAGE@,
            meta: KpiMetaView::Plain,
        }),
        KpiActionView::MarkFailed { code, error } => Some(KpiDiagView {
            stage: "failed"@,
            severity: DiagnosticSeverity::Error,
            message: FAILED_MESSAGE@,
            meta: KpiMetaView::Failed { error_code: code, error },
        }),
        _ => None,
    }
}

/// The diagnostic to record once `action` was carried out (see
/// [`spec_closing_diag`]).
pub fn closing_diagnostic(action: &KpiAction) -> (r: Option<KpiDiagnostic>)
    ensures
        match r {
            Some(d) => spec_closing_diag(kpi_action_view(*action)) == Some(kpi_diag_view(d)),
            None => spec_closing_diag(kpi_action_view(*action)) is None,
        },
{
    match action {
        KpiAction::Complete { .. } => Some(KpiDiagnostic {
            stage: "stored",
            severity: DiagnosticSeverity::Info,
            message: STORED_MESSAGE,
            meta: KpiDiagnosticMeta::Plain,
        }),
        KpiAction::MarkFailed { code, error } => Some(KpiDiagnostic {
            stage: "failed",
            severity: DiagnosticSeverity::Error,
            message: FAILED_MESSAGE,
            meta: KpiDiagnosticMeta::Failed { error_code: code.clone(), error: error.clone() },
        }),
        _ => None,
    }
}

fn push_diag(out: &mut Vec<KpiDiagnostic>, d: KpiDiagnostic)
    ensures
        kpi_diag_views(final(out)@) == kpi_diag_views(old(out)@).push(kpi_diag_view(d)),
{
    let ghost v = kpi_diag_view(d);
    out.push(d);
    proof {
        assert(kpi_diag_views(out@) =~= kpi_diag_views(old(out)@).push(v));
    }
}

fn failure_action(jobs: &JobQueue, job_id: &str, code: &str, error: &str, out: &mut Vec<KpiDiagnostic>) -> (a: KpiAction)
    ensures
        kpi_action_view(a) == spec_failure_action(jobs@, job_id@, code@, error@),
        kpi_diag_views(final(out)@) == kpi_diag_views(old(out)@) + spec_failure_diags(jobs@, job_id@, code@, error@),
{
    let transient = is_transient_error_code(code);
    let row = if transient {
        match jobs.status(job_id) {
            Some(r) => if r.status == JobStatus::Running { Some(r) } else { None },
            None => None,
        }
    } else {
        None
    };
    match row {
        Some(r) => {
            if r.attempts < r.max_attempts {
                push_diag(out, KpiDiagnostic {
                    stage: "retry_scheduled",
                    severity: DiagnosticSeverity::Warning,
                    message: RETRY_SCHEDULED_MESSAGE,
                    meta: KpiDiagnosticMeta::RetryScheduled {
                        error_code: owned(code),
                        error: owned(error),
                        attempt: r.attempts,
                        max_attempts: r.max_attempts,
                    },
                });
                KpiAction::RetryScheduled { message: concat3(code, ": ", error) }
            } else {
                proof {
                    assert(kpi_diag_views(out@) + Seq::<KpiDiagView>::empty() =~= kpi_diag_views(out@));
                }
                let mut e = concat3(error, " (queue retries exhausted after ", signed_decimal(r.attempts).as_str());
                e.append(" attempts)");
                KpiAction::MarkFailed { code: owned(code), error: e }
            }
        },
        None => {
            proof {
                assert(kpi_diag_views(out@) + Seq::<KpiDiagView>::empty() =~= kpi_diag_views(out@));
            }
            KpiAction::MarkFailed { code: owned(code), error: owned(error) }
        },
    }
}

/// Advance `run` with the outcome of its current step (see
/// [`spec_kpi_step`]), reading the queue for the row running `job_id` and
/// appending the diagnostics the step records to `diagnostics`.
pub fn kpi_step(
    run: &mut KpiRun,
    event: KpiEvent,
    jobs: &JobQueue,
    job_id: &str,
    diagnostics: &mut Vec<KpiDiagnostic>,
) -> (action: KpiAction)
    ensures
        ({
            let (r, a, d) = spec_kpi_step(old(run)@, event, jobs@, job_id@);
            &&& final(run)@ == r
            &&& kpi_action_view(action) == a
            &&& kpi_diag_views(final(diagnostics)@) == kpi_diag_views(old(diagnostics)@) + d
        }),
{
    let ghost before = kpi_diag_views(diagnostics@);
    proof {
        assert(before + Seq::<KpiDiagView>::empty() =~= before);
    }
    match (run.stage, event) {
        (KpiStage::LoadJob, KpiEvent::JobLoaded(r)) => match r {
            Err(e) => {
                run.stage = KpiStage::Done;
                KpiAction::Internal(e)
            },
            Ok(status) => {
                if str_eq(status.as_str(), "succeeded") {
                    run.stage = KpiStage::Done;
                    KpiAction::AlreadySucceeded
                } else {
                    run.stage = KpiStage::LoadDocument;
                    push_diag(diagnostics, KpiDiagnostic {
                        stage: "running",
                        severity: DiagnosticSeverity::Info,
                        message: RUNNING_MESSAGE,
                        meta: KpiDiagnosticMeta::Plain,
                    });
                    proof {
                        assert(before.push(running_diag()) =~= before + seq![running_diag()]);
                    }
                    KpiAction::Next(KpiStage::LoadDocument)
                }
            },
        },
        (KpiStage::LoadDocument, KpiEvent::DocumentLoaded(r)) => match r {
            Err(e) => {
                run.stage = KpiStage::Done;
                failure_action(jobs, job_id, "provider_error", e.as_str(), diagnostics)
            },
            Ok(fetch_status) => {
                if !str_eq(fetch_status.as_str(), "fetched") {
                    run.stage = KpiStage::Done;
                    failure_action(jobs, job_id, "provider_error", NOT_FETCHED_MESSAGE, diagnostics)
                } else {
                    run.stage = KpiStage::DerivePeriod;
                    KpiAction::Next(KpiStage::DerivePeriod)
                }
            },
        },
        (KpiStage::DerivePeriod, KpiEvent::PeriodDerived(found)) => match found {
            Some(p) => {
                run.stage = KpiStage::MarkRunning;
                run.period = Some(p);
                KpiAction::Next(KpiStage::MarkRunning)
            },
            None => {
                run.stage = KpiStage::Done;
                failure_action(jobs, job_id, "no_period", NO_PERIOD_MESSAGE, diagnostics)
            },
        },
        (KpiStage::MarkRunning, KpiEvent::MarkedRunning(r)) => match r {
            Err(e) => {
                run.stage = KpiStage::Done;
                failure_action(jobs, job_id, "unknown", e.as_str(), diagnostics)
            },
            Ok(()) => {
                let meta = match &run.period {
                    Some(p) => KpiDiagnosticMeta::Period(KpiPeriod {
                        fiscal_year: p.fiscal_year,
                        period_type: p.period_type.clone(),
                        period_end: p.period_end.clone(),
                    }),
                    None => KpiDiagnosticMeta::Plain,
                };
                let ghost d = request_sent_diag(run@.period);
                run.stage = KpiStage::Extract;
                push_diag(diagnostics, KpiDiagnostic {
                    stage: "request_sent",
                    severity: DiagnosticSeverity::Info,
                    message: REQUEST_SENT_MESSAGE,
                    meta,
                });
                proof {
                    assert(before.push(d) =~= before + seq![d]);
                }
                KpiAction::Next(KpiStage::Extract)
            },
        },
        (KpiStage::Extract, KpiEvent::Extracted(r)) => {
            run.stage = KpiStage::Done;
            match r {
                Err((code, message)) => failure_action(jobs, job_id, code.as_str(), message.as_str(), diagnostics),
                Ok(outcome) => match tier4_reason_error(outcome.reason.as_str()) {
                    Some((code, message)) => failure_action(jobs, job_id, code, message, diagnostics),
                    None => {
                        let committed = outcome.produced_facts as i64;
                        let ghost d = parsed_diag(outcome.reason@, committed, outcome.proposal_count);
                        push_diag(diagnostics, KpiDiagnostic {
                            stage: "parsed",
                            severity: DiagnosticSeverity::Info,
                            message: PARSED_MESSAGE,
                            meta: KpiDiagnosticMeta::Parsed {
                                reason: outcome.reason,
                                committed_fact_count: committed,
                                proposal_count: outcome.proposal_count,
                            },
                        });
                        proof {
                            assert(before.push(d) =~= before + seq![d]);
                        }
                        KpiAction::Complete { committed_fact_count: committed }
                    },
                },
            }
        },
        (s, _) => KpiAction::Next(s),
    }
}

/// The run, the last action and the diagnostics recorded after applying
/// `events` in order from `run`, each only while the run is not done (`last`
/// when none applies).
pub open spec fn spec_kpi_drive(run: KpiRunView, events: Seq<KpiEvent>, rows: Seq<JobView>, job_id: Seq<char>, last: KpiActionView)
    -> (KpiRunView, KpiActionView, Seq<KpiDiagView>)
    decreases events.len(),
{
    if events.len() == 0 || run.stage == KpiStage::Done {
        (run, last, Seq::empty())
    } else {
        let (r2, a, d) = spec_kpi_step(run, events[0], rows, job_id);
        let (r3, a3, d3) = spec_kpi_drive(r2, events.drop_first(), rows, job_id, a);
        (r3, a3, d + d3)
    }
}

/// A KPI extraction run of `job_id` driven over the outcomes of its steps in
/// order (see [`spec_kpi_drive`]): the stage it ends at, its last action,
/// which says how the run ends once the stage is `Done`, and the diagnostics
/// it recorded.
pub fn run_kpi_extraction_job(jobs: &JobQueue, job_id: &str, events: Vec<KpiEvent>)
    -> (r: (KpiStage, KpiAction, Vec<KpiDiagnostic>))
    ensures
        ({
            let (run, a, d) = spec_kpi_drive(KpiRunView { stage: KpiStage::LoadJob, period: None }, events@, jobs@,
                job_id@, KpiActionView::Next(KpiStage::LoadJob));
            &&& r.0 == run.stage
            &&& kpi_action_view(r.1) == a
            &&& kpi_diag_views(r.2@) == d
        }),
{
    let mut run = KpiRun::new();
    let mut last = KpiAction::Next(KpiStage::LoadJob);
    let mut diagnostics: Vec<KpiDiagnostic> = Vec::new();
    let ghost start = KpiRunView { stage: KpiStage::LoadJob, period: None };
    let ghost all = events@;
    let mut rest = events;
    proof {
        assert(kpi_diag_views(diagnostics@) =~= Seq::<KpiDiagView>::empty());
    }
    while rest.len() > 0 && run.stage != KpiStage::Done
        invariant
            all == events@,
            ({
                let (r0, a0, d0) = spec_kpi_drive(run@, rest@, jobs@, job_id@, kpi_action_view(last));
                let (r1, a1, d1) = spec_kpi_drive(start, all, jobs@, job_id@, KpiActionView::Next(KpiStage::LoadJob));
                &&& r0 == r1
                &&& a0 == a1
                &&& kpi_diag_views(diagnostics@) + d0 == d1
            }),
        decreases rest.len(),
    {
        let ghost before = rest@;
        let ghost dv = kpi_diag_views(diagnostics@);
        let ghost r_before = run@;
        let event = rest.remove(0);
        proof {
            assert(event == before[0]);
            assert(rest@ =~= before.drop_first());
        }
        last = kpi_step(&mut run, event, jobs, job_id, &mut diagnostics);
        proof {
            let (r2, a, d) = spec_kpi_step(r_before, before[0], jobs@, job_id@);
            let (r3, a3, d3) = spec_kpi_drive(r2, before.drop_first(), jobs@, job_id@, a);
            assert(dv + (d + d3) =~= (dv + d) + d3);
        }
    }
    proof {
        let (r0, a0, d0) = spec_kpi_drive(run@, rest@, jobs@, job_id@, kpi_action_view(last));
        assert(d0 =~= Seq::<KpiDiagView>::empty());
        assert(kpi_diag_views(diagnostics@) + d0 =~= kpi_diag_views(diagnostics@));
    }
    (run.stage, last, diagnostics)
}

} // verus!
