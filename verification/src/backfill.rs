//! The on-track company history backfill, as a state machine: each step's
//! outside work (the market check, the Bankier target lookup, the paginated
//! listing fetch, ingestion, fetching attachments, chaining a history sweep)
//! is done by the caller, which hands its outcome back as an event; the
//! machine decides the next step and keeps the progress row. Every failure
//! ends the run with a typed, machine-readable reason (`"code: detail"`), and
//! only a genuine fault of the Bankier source marks that source.

use vstd::prelude::*;
use crate::json::{json_parse_error, json_str_field, json_string, spec_json_parse_error, spec_json_str_field, spec_json_string};
use crate::autopilot::MODE_OFF;
use crate::kinds::COMPANY_BACKFILL_KIND;
use crate::queue::{fresh_row, ids_unique, index_of, lemma_index_of, JobQueue, JobView};
use crate::text::{chars_of, concat2, concat3, owned, str_eq};

verus! {

/// The company's market has no history-capable source adapter.
pub const UNSUPPORTED_MARKET: &'static str = "unsupported_market";
/// No Bankier-company backfill target for the company.
pub const NOT_TRACKED: &'static str = "not_tracked";
/// The company's Bankier page could not be resolved.
pub const NO_BANKIER_PAGE: &'static str = "no_bankier_page";
/// The Bankier request itself failed.
pub const HTTP_ERROR: &'static str = "http_error";
/// A Bankier page was fetched but could not be parsed.
pub const PARSE_ERROR: &'static str = "parse_error";
/// An internal or storage error unrelated to the source.
pub const INTERNAL: &'static str = "internal";

/// The fallback backfill depth in years.
pub const BACKFILL_YEARS: i64 = 3;
/// Page cap of one backfill.
pub const MAX_BACKFILL_PAGES: usize = 80;
/// Retry budget of one automatic backfill job.
pub const COMPANY_BACKFILL_MAX_ATTEMPTS: i64 = 3;

/// The live progress row of one backfill.
#[derive(Debug, Clone, PartialEq, Eq)]
pub struct BackfillProgress {
    pub company_id: String,
    pub status: String,
    pub pages_fetched: u64,
    pub items_ingested: u64,
    pub documents_stored: u64,
    pub detail_errors: u64,
    pub truncated: bool,
    pub chained_sweep_id: Option<String>,
    pub error: Option<String>,
    pub started_at: String,
    pub updated_at: String,
}

/// The step a backfill is at.
#[derive(Debug, Clone, Copy, PartialEq, Eq, Structural)]
pub enum BackfillStage {
    CheckMarket,
    FindTarget,
    FetchListing,
    Ingest,
    FetchAttachments,
    ChainSweep,
    Done,
}

/// Whether the company's market has a history-capable source.
#[derive(Debug, Clone, PartialEq, Eq)]
pub enum MarketStatus {
    Eligible,
    Ineligible { exchange: String },
}

/// How fetching from the Bankier source failed.
#[derive(Debug, Clone, Copy, PartialEq, Eq, Structural)]
pub enum FetchErrorKind {
    /// The request failed (status, transport, timeout).
    Request,
    /// The company page carries no tag id.
    MissingTagId,
    /// The company page carries no slug.
    MissingSlug,
    /// A listing page did not parse.
    Json,
    /// A timestamp could not be formatted.
    TimestampFormat,
    /// A URL could not be built.
    Url,
}

/// What the listing fetch gathered.
#[derive(Debug, Clone, Copy, PartialEq, Eq, Structural)]
pub struct FetchStats {
    pub pages_fetched: u64,
    pub detail_errors: u64,
    pub truncated: bool,
}

/// The outcome of a step's outside work.
#[derive(Debug)]
pub enum BackfillEvent {
    MarketChecked(Result<MarketStatus, String>),
    /// Whether a Bankier target exists for the company.
    TargetLookedUp(Result<bool, String>),
    /// The listing's stats, or the fetch error's kind and message.
    ListingFetched(Result<FetchStats, (FetchErrorKind, String)>),
    /// How many items ingestion created.
    Ingested(Result<u64, String>),
    /// How many attachments were stored and how many failed.
    AttachmentsFetched(Result<(u64, u64), String>),
    /// The chained history sweep's id, when it could be chained.
    SweepChained(Option<String>),
}

/// What the caller does next.
#[derive(Debug, Clone, PartialEq, Eq)]
pub enum BackfillAction {
    /// Do the outside work of this step and report its event.
    Next(BackfillStage),
    /// The run failed; when `record_source_error`, mark the Bankier source
    /// with `message`.
    Failed { code: &'static str, message: String, record_source_error: bool },
    /// The run completed.
    Completed,
}

/// The reason code of a Bankier fetch error: a transport failure, a missing
/// company page and an unparseable listing stay distinct.
pub open spec fn spec_fetch_error_code(kind: FetchErrorKind) -> Seq<char> {
    match kind {
        FetchErrorKind::Request => HTTP_ERROR@,
        FetchErrorKind::MissingTagId | FetchErrorKind::MissingSlug => NO_BANKIER_PAGE@,
        FetchErrorKind::Json => PARSE_ERROR@,
        FetchErrorKind::TimestampFormat | FetchErrorKind::Url => INTERNAL@,
    }
}

/// The reason code of a Bankier fetch error.
pub fn classify_fetch_error(kind: FetchErrorKind) -> (r: &'static str)
    ensures
        r@ == spec_fetch_error_code(kind),
{
    match kind {
        FetchErrorKind::Request => HTTP_ERROR,
        FetchErrorKind::MissingTagId | FetchErrorKind::MissingSlug => NO_BANKIER_PAGE,
        FetchErrorKind::Json => PARSE_ERROR,
        FetchErrorKind::TimestampFormat | FetchErrorKind::Url => INTERNAL,
    }
}

/// A backfill in progress.
#[derive(Debug)]
pub struct BackfillRun {
    pub progress: BackfillProgress,
    pub stage: BackfillStage,
}

/// The fresh progress row of a backfill of `company_id` started at `now`.
pub fn start_backfill(company_id: &str, now: &str) -> (r: BackfillRun)
    ensures
        r.stage == BackfillStage::CheckMarket,
        r.progress.company_id@ == company_id@,
        r.progress.status@ == "running"@,
        r.progress.pages_fetched == 0 && r.progress.items_ingested == 0,
        r.progress.documents_stored == 0 && r.progress.detail_errors == 0,
        !r.progress.truncated,
        r.progress.chained_sweep_id is None && r.progress.error is None,
        r.progress.started_at@ == now@ && r.progress.updated_at@ == now@,
{
    BackfillRun {
        progress: BackfillProgress {
            company_id: owned(company_id),
            status: owned("running"),
            pages_fetched: 0,
            items_ingested: 0,
            documents_stored: 0,
            detail_errors: 0,
            truncated: false,
            chained_sweep_id: None,
            error: None,
            started_at: owned(now),
            updated_at: owned(now),
        },
        stage: BackfillStage::CheckMarket,
    }
}

/// `"code: detail"`.
pub open spec fn spec_failure_message(code: Seq<char>, detail: Seq<char>) -> Seq<char> {
    code + ": "@ + detail
}

/// [`BackfillProgress`] with its text as characters.
pub struct ProgressView {
    pub company_id: Seq<char>,
    pub status: Seq<char>,
    pub pages_fetched: u64,
    pub items_ingested: u64,
    pub documents_stored: u64,
    pub detail_errors: u64,
    pub truncated: bool,
    pub chained_sweep_id: Option<Seq<char>>,
    pub error: Option<Seq<char>>,
    pub started_at: Seq<char>,
    pub updated_at: Seq<char>,
}

impl View for BackfillProgress {
    type V = ProgressView;

    open spec fn view(&self) -> ProgressView {
        ProgressView {
            company_id: self.company_id@,
            status: self.status@,
            pages_fetched: self.pages_fetched,
            items_ingested: self.items_ingested,
            documents_stored: self.documents_stored,
            detail_errors: self.detail_errors,
            truncated: self.truncated,
            chained_sweep_id: crate::activity::opt_text(self.chained_sweep_id),
            error: crate::activity::opt_text(self.error),
            started_at: self.started_at@,
            updated_at: self.updated_at@,
        }
    }
}

/// [`BackfillAction`] as plain values.
pub enum ActionView {
    Next(BackfillStage),
    Failed { code: Seq<char>, message: Seq<char>, record_source_error: bool },
    Completed,
}

/// The action as plain values.
pub open spec fn action_view(a: BackfillAction) -> ActionView {
    match a {
        BackfillAction::Next(s) => ActionView::Next(s),
        BackfillAction::Failed { code, message, record_source_error } =>
            ActionView::Failed { code: code@, message: message@, record_source_error },
        BackfillAction::Completed => ActionView::Completed,
    }
}

/// The run failed with `code` and `detail` at `now`: every count kept.
pub open spec fn failed_view(p: ProgressView, code: Seq<char>, detail: Seq<char>, now: Seq<char>) -> (ProgressView, BackfillStage) {
    (ProgressView { status: "failed"@, error: Some(spec_failure_message(code, detail)), updated_at: now, ..p }, BackfillStage::Done)
}

/// The step of a backfill at `stage` with progress `p` given `event` at `now`:
/// the next progress, stage and action. An event that does not fit the stage
/// changes nothing.
///
/// - The market check: an ineligible market fails with `unsupported_market`
///   (`"{exchange} has no history-capable source adapter"`), an error with
///   `internal`; else the Bankier target is looked up.
/// - The target lookup: no target fails with `not_tracked`, an error with
///   `internal`; else the listing is fetched.
/// - The listing fetch: a fetch error fails with its [`spec_fetch_error_code`]
///   and marks the Bankier source; else its pages, detail errors and
///   truncation are recorded and the items ingested.
/// - Ingestion: an error fails with `internal`; else the created items are
///   recorded and the attachments fetched.
/// - The attachments: an error fails with `internal`; else the stored count
///   is recorded, the failures added to the detail errors, the run completes
///   and a history sweep is chained.
/// - The chained sweep: its id (if any) is recorded and the run is done.
pub open spec fn spec_step(p: ProgressView, stage: BackfillStage, event: BackfillEvent, now: Seq<char>)
    -> (ProgressView, BackfillStage, ActionView)
{
    match (stage, event) {
        (BackfillStage::CheckMarket, BackfillEvent::MarketChecked(outcome)) => match outcome {
            Ok(MarketStatus::Eligible) => (p, BackfillStage::FindTarget, ActionView::Next(BackfillStage::FindTarget)),
            Ok(MarketStatus::Ineligible { exchange }) => {
                let d = exchange@ + " has no history-capable source adapter"@;
                let f = failed_view(p, UNSUPPORTED_MARKET@, d, now);
                (f.0, f.1, ActionView::Failed { code: UNSUPPORTED_MARKET@, message: spec_failure_message(UNSUPPORTED_MARKET@, d), record_source_error: false })
            },
            Err(e) => {
                let f = failed_view(p, INTERNAL@, e@, now);
                (f.0, f.1, ActionView::Failed { code: INTERNAL@, message: spec_failure_message(INTERNAL@, e@), record_source_error: false })
            },
        },
        (BackfillStage::FindTarget, BackfillEvent::TargetLookedUp(outcome)) => match outcome {
            Ok(true) => (p, BackfillStage::FetchListing, ActionView::Next(BackfillStage::FetchListing)),
            Ok(false) => {
                let d = "company is not a tracked company"@;
                let f = failed_view(p, NOT_TRACKED@, d, now);
                (f.0, f.1, ActionView::Failed { code: NOT_TRACKED@, message: spec_failure_message(NOT_TRACKED@, d), record_source_error: false })
            },
            Err(e) => {
                let f = failed_view(p, INTERNAL@, e@, now);
                (f.0, f.1, ActionView::Failed { code: INTERNAL@, message: spec_failure_message(INTERNAL@, e@), record_source_error: false })
            },
        },
        (BackfillStage::FetchListing, BackfillEvent::ListingFetched(outcome)) => match outcome {
            Ok(stats) => (ProgressView {
                pages_fetched: stats.pages_fetched,
                detail_errors: stats.detail_errors,
                truncated: stats.truncated,
                updated_at: now,
                ..p
            }, BackfillStage::Ingest, ActionView::Next(BackfillStage::Ingest)),
            Err((kind, detail)) => {
                let code = spec_fetch_error_code(kind);
                let f = failed_view(p, code, detail@, now);
                (f.0, f.1, ActionView::Failed { code, message: spec_failure_message(code, detail@), record_source_error: true })
            },
        },
        (BackfillStage::Ingest, BackfillEvent::Ingested(outcome)) => match outcome {
            Ok(created) => (ProgressView { items_ingested: created, ..p }, BackfillStage::FetchAttachments,
                ActionView::Next(BackfillStage::FetchAttachments)),
            Err(e) => {
                let f = failed_view(p, INTERNAL@, e@, now);
                (f.0, f.1, ActionView::Failed { code: INTERNAL@, message: spec_failure_message(INTERNAL@, e@), record_source_error: false })
            },
        },
        (BackfillStage::FetchAttachments, BackfillEvent::AttachmentsFetched(outcome)) => match outcome {
            Ok((stored, failed)) => (ProgressView {
                documents_stored: stored,
                detail_errors: (p.detail_errors + failed) as u64,
                status: "completed"@,
                updated_at: now,
                ..p
            }, BackfillStage::ChainSweep, ActionView::Next(BackfillStage::ChainSweep)),
            Err(e) => {
                let f = failed_view(p, INTERNAL@, e@, now);
                (f.0, f.1, ActionView::Failed { code: INTERNAL@, message: spec_failure_message(INTERNAL@, e@), record_source_error: false })
            },
        },
        (BackfillStage::ChainSweep, BackfillEvent::SweepChained(sweep)) => (ProgressView {
            chained_sweep_id: match sweep {
                Some(id) => Some(id@),
                None => p.chained_sweep_id,
            },
            ..p
        }, BackfillStage::Done, ActionView::Completed),
        _ => (p, stage, ActionView::Next(stage)),
    }
}

/// The step's arithmetic stays in range: the attachment failures added to the
/// detail errors fit.
pub open spec fn step_in_range(p: ProgressView, stage: BackfillStage, event: BackfillEvent) -> bool {
    stage == BackfillStage::FetchAttachments ==> match event {
        BackfillEvent::AttachmentsFetched(Ok((_, failed))) => p.detail_errors + failed <= u64::MAX,
        _ => true,
    }
}

fn fail(run: &mut BackfillRun, code: &'static str, detail: &str, record: bool, now: &str) -> (action: BackfillAction)
    ensures
        (final(run).progress@, final(run).stage) == failed_view(old(run).progress@, code@, detail@, now@),
        action_view(action) == (ActionView::Failed { code: code@, message: spec_failure_message(code@, detail@), record_source_error: record }),
{
    let message = concat3(code, ": ", detail);
    run.progress.status = owned("failed");
    run.progress.error = Some(message.clone());
    run.progress.updated_at = owned(now);
    run.stage = BackfillStage::Done;
    BackfillAction::Failed { code, message, record_source_error: record }
}

/// Advance a backfill with the outcome of its current step, at time `now`
/// (see [`spec_step`]).
pub fn backfill_step(run: &mut BackfillRun, event: BackfillEvent, now: &str) -> (action: BackfillAction)
    requires
        step_in_range(old(run).progress@, old(run).stage, event),
    ensures
        ({
            let (p, st, a) = spec_step(old(run).progress@, old(run).stage, event, now@);
            &&& final(run).progress@ == p
            &&& final(run).stage == st
            &&& action_view(action) == a
        }),
{
    match (run.stage, event) {
        (BackfillStage::CheckMarket, BackfillEvent::MarketChecked(outcome)) => match outcome {
            Ok(MarketStatus::Eligible) => {
                run.stage = BackfillStage::FindTarget;
                BackfillAction::Next(BackfillStage::FindTarget)
            },
            Ok(MarketStatus::Ineligible { exchange }) => {
                let detail = concat2(exchange.as_str(), " has no history-capable source adapter");
                fail(run, UNSUPPORTED_MARKET, detail.as_str(), false, now)
            },
            Err(e) => fail(run, INTERNAL, e.as_str(), false, now),
        },
        (BackfillStage::FindTarget, BackfillEvent::TargetLookedUp(outcome)) => match outcome {
            Ok(true) => {
                run.stage = BackfillStage::FetchListing;
                BackfillAction::Next(BackfillStage::FetchListing)
            },
            Ok(false) => fail(run, NOT_TRACKED, "company is not a tracked company", false, now),
            Err(e) => fail(run, INTERNAL, e.as_str(), false, now),
        },
        (BackfillStage::FetchListing, BackfillEvent::ListingFetched(outcome)) => match outcome {
            Ok(stats) => {
                run.progress.pages_fetched = stats.pages_fetched;
                run.progress.detail_errors = stats.detail_errors;
                run.progress.truncated = stats.truncated;
                run.progress.updated_at = owned(now);
                run.stage = BackfillStage::Ingest;
                BackfillAction::Next(BackfillStage::Ingest)
            },
            Err((kind, detail)) => {
                let code = classify_fetch_error(kind);
                fail(run, code, detail.as_str(), true, now)
            },
        },
        (BackfillStage::Ingest, BackfillEvent::Ingested(outcome)) => match outcome {
            Ok(created) => {
                run.progress.items_ingested = created;
                run.stage = BackfillStage::FetchAttachments;
                BackfillAction::Next(BackfillStage::FetchAttachments)
            },
            Err(e) => fail(run, INTERNAL, e.as_str(), false, now),
        },
        (BackfillStage::FetchAttachments, BackfillEvent::AttachmentsFetched(outcome)) => match outcome {
            Ok((stored, failed)) => {
                run.progress.documents_stored = stored;
                run.progress.detail_errors = run.progress.detail_errors + failed;
                run.progress.status = owned("completed");
                run.progress.updated_at = owned(now);
                run.stage = BackfillStage::ChainSweep;
                BackfillAction::Next(BackfillStage::ChainSweep)
            },
            Err(e) => fail(run, INTERNAL, e.as_str(), false, now),
        },
        (BackfillStage::ChainSweep, BackfillEvent::SweepChained(sweep)) => {
            if let Some(id) = sweep {
                run.progress.chained_sweep_id = Some(id);
            }
            run.stage = BackfillStage::Done;
            BackfillAction::Completed
        },
        (stage, _) => BackfillAction::Next(stage),
    }
}

/// The machine-readable reason of a failed backfill: its error's text before
/// the first `:`, trimmed.
pub fn failure_code(progress: &BackfillProgress) -> (r: Option<String>)
    ensures
        progress.error is None ==> r is None,
        progress.error matches Some(e) ==> (r matches Some(c) && c@ == crate::text::spec_trim(crate::text::before_char(e@, ':'))),
{
    match &progress.error {
        None => None,
        Some(e) => {
            let head = crate::text::prefix_before(e.as_str(), ':');
            Some(crate::text::trim(head.as_str()))
        },
    }
}

/// The warning line a failed backfill leaves: the company, the status, the
/// typed code and the detail.
pub open spec fn spec_failure_log_line(company_id: Seq<char>, code: Seq<char>, detail: Seq<char>) -> Seq<char> {
    "module=backfill company="@ + company_id + " status=failed code="@ + code + " error="@ + detail
}

/// The warning line of a failed backfill.
pub fn failure_log_line(company_id: &str, code: &str, detail: &str) -> (r: String)
    ensures
        r@ == spec_failure_log_line(company_id@, code@, detail@),
{
    let mut s = concat3("module=backfill company=", company_id, " status=failed code=");
    s.append(code);
    s.append(" error=");
    s.append(detail);
    s
}

/// The progress and stage after applying `events` in order from `(p, stage)`,
/// each only while the run is not done.
pub open spec fn spec_drive(p: ProgressView, stage: BackfillStage, events: Seq<BackfillEvent>, now: Seq<char>)
    -> (ProgressView, BackfillStage)
    decreases events.len(),
{
    if events.len() == 0 || stage == BackfillStage::Done {
        (p, stage)
    } else {
        let (p2, s2, _) = spec_step(p, stage, events[0], now);
        spec_drive(p2, s2, events.drop_first(), now)
    }
}

/// The message the Bankier source is marked with over a drive: that of the
/// failing step when it asks for it (a listing fault), else none.
pub open spec fn spec_drive_source_error(p: ProgressView, stage: BackfillStage, events: Seq<BackfillEvent>, now: Seq<char>)
    -> Option<Seq<char>>
    decreases events.len(),
{
    if events.len() == 0 || stage == BackfillStage::Done {
        None
    } else {
        let (p2, s2, a) = spec_step(p, stage, events[0], now);
        match a {
            ActionView::Failed { message, record_source_error, .. } => if record_source_error { Some(message) } else { None },
            _ => spec_drive_source_error(p2, s2, events.drop_first(), now),
        }
    }
}

/// The fresh progress of a backfill of `company_id` started at `now`.
pub open spec fn fresh_progress(company_id: Seq<char>, now: Seq<char>) -> ProgressView {
    ProgressView {
        company_id,
        status: "running"@,
        pages_fetched: 0,
        items_ingested: 0,
        documents_stored: 0,
        detail_errors: 0,
        truncated: false,
        chained_sweep_id: None,
        error: None,
        started_at: now,
        updated_at: now,
    }
}

/// Every step of a drive stays in range: no count it adds up overflows.
pub open spec fn drive_in_range(p: ProgressView, stage: BackfillStage, events: Seq<BackfillEvent>, now: Seq<char>) -> bool
    decreases events.len(),
{
    if events.len() == 0 || stage == BackfillStage::Done {
        true
    } else {
        let (p2, s2, _) = spec_step(p, stage, events[0], now);
        step_in_range(p, stage, events[0]) && drive_in_range(p2, s2, events.drop_first(), now)
    }
}

proof fn lemma_drive_step(p: ProgressView, stage: BackfillStage, events: Seq<BackfillEvent>, now: Seq<char>)
    requires
        events.len() > 0,
        stage != BackfillStage::Done,
    ensures
        spec_drive(p, stage, events, now) == ({
            let (p2, s2, _) = spec_step(p, stage, events[0], now);
            spec_drive(p2, s2, events.drop_first(), now)
        }),
{
}

/// A backfill of `company_id` started at `now`, driven to its end over the
/// outcomes of its steps in order (see [`spec_drive`]): its final progress,
/// and the message the Bankier source is to be marked with (see
/// [`spec_drive_source_error`]; never for an unsupported market or an
/// untracked company).
pub fn run_backfill(company_id: &str, now: &str, events: Vec<BackfillEvent>) -> (r: (BackfillProgress, Option<String>))
    requires
        drive_in_range(fresh_progress(company_id@, now@), BackfillStage::CheckMarket, events@, now@),
    ensures
        r.0@ == spec_drive(fresh_progress(company_id@, now@), BackfillStage::CheckMarket, events@, now@).0,
        crate::activity::opt_text(r.1) == spec_drive_source_error(fresh_progress(company_id@, now@), BackfillStage::CheckMarket, events@, now@),
{
    let mut run = start_backfill(company_id, now);
    let ghost all = events@;
    let mut rest = events;
    let mut source_error: Option<String> = None;
    proof {
        assert(run.progress@ == fresh_progress(company_id@, now@));
    }
    while rest.len() > 0 && run.stage != BackfillStage::Done
        invariant
            all == events@,
            drive_in_range(run.progress@, run.stage, rest@, now@),
            spec_drive(run.progress@, run.stage, rest@, now@)
                == spec_drive(fresh_progress(company_id@, now@), BackfillStage::CheckMarket, all, now@),
            source_error is None,
            spec_drive_source_error(run.progress@, run.stage, rest@, now@)
                == spec_drive_source_error(fresh_progress(company_id@, now@), BackfillStage::CheckMarket, all, now@),
        decreases rest.len(),
    {
        let ghost before = rest@;
        let ghost p0 = run.progress@;
        let ghost s0 = run.stage;
        let event = rest.remove(0);
        proof {
            assert(event == before[0]);
            assert(rest@ =~= before.drop_first());
            lemma_drive_step(run.progress@, run.stage, before, now@);
        }
        let action = backfill_step(&mut run, event, now);
        match action {
            BackfillAction::Failed { message, record_source_error, .. } => {
                proof {
                    assert(run.stage == BackfillStage::Done);
                    assert(spec_drive(run.progress@, run.stage, rest@, now@) == (run.progress@, run.stage));
                    assert(spec_drive_source_error(p0, s0, before, now@)
                        == (if record_source_error { Some(message@) } else { None::<Seq<char>> }));
                    assert(spec_drive(p0, s0, before, now@) == (run.progress@, run.stage));
                    assert(spec_drive(p0, s0, before, now@) == spec_drive(fresh_progress(company_id@, now@), BackfillStage::CheckMarket, all, now@));
                }
                if record_source_error {
                    source_error = Some(message);
                }
                return (run.progress, source_error);
            },
            _ => {},
        }
    }
    (run.progress, source_error)
}

/// The Bankier source is marked only for a fault while walking its listing:
/// the message recorded is the failure message of a listing fetch error among
/// the step outcomes, so an unsupported market or an untracked company never
/// marks it.
pub proof fn lemma_source_error_only_for_listing_faults(
    p: ProgressView,
    stage: BackfillStage,
    events: Seq<BackfillEvent>,
    now: Seq<char>,
)
    ensures
        spec_drive_source_error(p, stage, events, now) is Some ==> exists|k: int| 0 <= k < events.len()
            && ((#[trigger] events[k]) matches BackfillEvent::ListingFetched(Err((kind, detail)))
            && spec_drive_source_error(p, stage, events, now)->0 == spec_failure_message(spec_fetch_error_code(kind), detail@)),
    decreases events.len(),
{
    if events.len() > 0 && stage != BackfillStage::Done {
        let (p2, s2, a) = spec_step(p, stage, events[0], now);
        match a {
            ActionView::Failed { .. } => {},
            _ => {
                lemma_source_error_only_for_listing_faults(p2, s2, events.drop_first(), now);
                if spec_drive_source_error(p2, s2, events.drop_first(), now) is Some {
                    let rest = events.drop_first();
                    let k = choose|k: int| 0 <= k < rest.len()
                        && ((#[trigger] rest[k]) matches BackfillEvent::ListingFetched(Err((kind, detail)))
                        && spec_drive_source_error(p2, s2, rest, now)->0 == spec_failure_message(spec_fetch_error_code(kind), detail@));
                    assert(events[k + 1] == rest[k]);
                }
            },
        }
    }
}


// ---------------------------------------------------------------------------
// The automatic catch-up and the queue entry point.
// ---------------------------------------------------------------------------

/// The stable queue id of a company's automatic backfill.
pub open spec fn spec_backfill_job_id(company: Seq<char>) -> Seq<char> {
    COMPANY_BACKFILL_KIND@ + ":"@ + company
}

/// The payload of a company's automatic backfill: `{"companyId":company}`.
pub open spec fn spec_backfill_payload(company: Seq<char>) -> Seq<char> {
    "{\"companyId\":"@ + spec_json_string(company) + "}"@
}

/// The queue and the number of backfills enqueued after the catch-up over
/// `pending` (companies lacking report history, each with its automation
/// mode), in order: a company in mode `off` is skipped; any other is enqueued
/// under its stable id unless that id is already on the queue.
pub open spec fn spec_catch_up(rows: Seq<JobView>, pending: Seq<(Seq<char>, Seq<char>)>) -> (Seq<JobView>, nat)
    decreases pending.len(),
{
    if pending.len() == 0 {
        (rows, 0)
    } else {
        let (r0, n0) = spec_catch_up(rows, pending.drop_last());
        let (company, mode) = pending.last();
        let id = spec_backfill_job_id(company);
        if mode == MODE_OFF@ || index_of(r0, id) != -1 {
            (r0, n0)
        } else {
            (r0.push(fresh_row(id, COMPANY_BACKFILL_KIND@, spec_backfill_payload(company), COMPANY_BACKFILL_MAX_ATTEMPTS)), n0 + 1)
        }
    }
}

/// `pending` with its text as characters.
pub open spec fn pending_view(pending: Seq<(String, String)>) -> Seq<(Seq<char>, Seq<char>)> {
    pending.map_values(|p: (String, String)| (p.0@, p.1@))
}

/// Enqueue an automatic report-history backfill for every company of `pending`
/// (those lacking a fetched periodic report, with their automation modes) that
/// is not in mode `off`, under a stable per-company id with insert-or-ignore
/// semantics. Returns how many were enqueued.
pub fn enqueue_company_backfill_catch_up(jobs: &mut JobQueue, pending: &Vec<(String, String)>) -> (enqueued: usize)
    requires
        old(jobs).wf(),
    ensures
        final(jobs).wf(),
        (final(jobs)@, enqueued as nat) == spec_catch_up(old(jobs)@, pending_view(pending@)),
{
    let ghost pv = pending_view(pending@);
    let mut enqueued: usize = 0;
    let mut i: usize = 0;
    proof {
        assert(pv.take(0) =~= Seq::<(Seq<char>, Seq<char>)>::empty());
    }
    while i < pending.len()
        invariant
            i <= pending@.len(),
            pv == pending_view(pending@),
            jobs.wf(),
            enqueued <= i,
            (jobs@, enqueued as nat) == spec_catch_up(old(jobs)@, pv.take(i as int)),
        decreases pending.len() - i,
    {
        let company = pending[i].0.as_str();
        let mode = pending[i].1.as_str();
        proof {
            assert(pv.take(i as int + 1).drop_last() =~= pv.take(i as int));
            assert(pv[i as int] == (company@, mode@));
        }
        if !str_eq(mode, MODE_OFF) {
            let job_id = concat3(COMPANY_BACKFILL_KIND, ":", company);
            let quoted = json_string(company);
            let payload = concat3("{\"companyId\":", quoted.as_str(), "}");
            if jobs.enqueue(job_id.as_str(), COMPANY_BACKFILL_KIND, payload.as_str(), COMPANY_BACKFILL_MAX_ATTEMPTS) {
                enqueued = enqueued + 1;
            }
        }
        i = i + 1;
    }
    proof {
        assert(pv.take(i as int) =~= pv);
    }
    enqueued
}

/// Whether every company of `pending` not in mode `off` has its backfill id on
/// the queue.
pub open spec fn all_enqueued(rows: Seq<JobView>, pending: Seq<(Seq<char>, Seq<char>)>) -> bool {
    forall|k: int| 0 <= k < pending.len() && (#[trigger] pending[k]).1 != MODE_OFF@
        ==> index_of(rows, spec_backfill_job_id(pending[k].0)) != -1
}

proof fn lemma_index_kept(rows: Seq<JobView>, row: JobView, id: Seq<char>)
    requires
        ids_unique(rows),
        ids_unique(rows.push(row)),
        index_of(rows, id) != -1,
    ensures
        index_of(rows.push(row), id) != -1,
{
    lemma_index_of(rows, id);
    lemma_index_of(rows.push(row), id);
    let k = index_of(rows, id);
    assert(rows.push(row)[k].id == id);
}

proof fn lemma_catch_up_grows(rows: Seq<JobView>, pending: Seq<(Seq<char>, Seq<char>)>)
    requires
        ids_unique(rows),
    ensures
        ids_unique(spec_catch_up(rows, pending).0),
        all_enqueued(spec_catch_up(rows, pending).0, pending),
        forall|id: Seq<char>| index_of(rows, id) != -1 ==> #[trigger] index_of(spec_catch_up(rows, pending).0, id) != -1,
    decreases pending.len(),
{
    if pending.len() > 0 {
        let init = pending.drop_last();
        lemma_catch_up_grows(rows, init);
        let (r0, n0) = spec_catch_up(rows, init);
        let (company, mode) = pending.last();
        let id = spec_backfill_job_id(company);
        if mode == MODE_OFF@ || index_of(r0, id) != -1 {
            assert forall|k: int| 0 <= k < pending.len() && (#[trigger] pending[k]).1 != MODE_OFF@
                implies index_of(r0, spec_backfill_job_id(pending[k].0)) != -1 by {
                if k < init.len() {
                    assert(init[k] == pending[k]);
                }
            }
        } else {
            let row = fresh_row(id, COMPANY_BACKFILL_KIND@, spec_backfill_payload(company), COMPANY_BACKFILL_MAX_ATTEMPTS);
            let r1 = r0.push(row);
            lemma_index_of(r0, id);
            assert(ids_unique(r1)) by {
                assert forall|i: int, j: int| 0 <= i < j < r1.len() implies r1[i].id != r1[j].id by {
                    if j == r0.len() {
                        assert(r0[i].id != id);
                    } else {
                        assert(r1[i] == r0[i] && r1[j] == r0[j]);
                    }
                }
            }
            assert forall|x: Seq<char>| index_of(r0, x) != -1 implies #[trigger] index_of(r1, x) != -1 by {
                lemma_index_kept(r0, row, x);
            }
            lemma_index_of(r1, id);
            assert(r1[r0.len() as int].id == id);
            assert forall|k: int| 0 <= k < pending.len() && (#[trigger] pending[k]).1 != MODE_OFF@
                implies index_of(r1, spec_backfill_job_id(pending[k].0)) != -1 by {
                if k < init.len() {
                    assert(init[k] == pending[k]);
                    lemma_index_kept(r0, row, spec_backfill_job_id(pending[k].0));
                }
            }
        }
    }
}

proof fn lemma_catch_up_noop(rows: Seq<JobView>, pending: Seq<(Seq<char>, Seq<char>)>)
    requires
        all_enqueued(rows, pending),
    ensures
        spec_catch_up(rows, pending) == (rows, 0nat),
    decreases pending.len(),
{
    if pending.len() > 0 {
        let init = pending.drop_last();
        assert(all_enqueued(rows, init)) by {
            assert forall|k: int| 0 <= k < init.len() && (#[trigger] init[k]).1 != MODE_OFF@
                implies index_of(rows, spec_backfill_job_id(init[k].0)) != -1 by {
                assert(init[k] == pending[k]);
            }
        }
        lemma_catch_up_noop(rows, init);
        let last = pending.last();
        assert(last == pending[pending.len() - 1]);
    }
}

/// The catch-up is idempotent: over the same pending companies, a second pass
/// after the first enqueues nothing and leaves the queue as it is (each
/// company not in mode `off` is attempted once).
pub proof fn lemma_catch_up_idempotent(rows: Seq<JobView>, pending: Seq<(Seq<char>, Seq<char>)>)
    requires
        ids_unique(rows),
    ensures
        ({
            let after = spec_catch_up(rows, pending).0;
            spec_catch_up(after, pending) == (after, 0nat)
        }),
{
    lemma_catch_up_grows(rows, pending);
    lemma_catch_up_noop(spec_catch_up(rows, pending).0, pending);
}

/// The company a `company_backfill` payload names: the JSON parser's message
/// when it is not JSON, `"company backfill missing companyId"` when it has no
/// string `companyId`.
pub open spec fn spec_payload_company(payload: Seq<char>) -> Result<Seq<char>, Seq<char>> {
    match spec_json_parse_error(payload) {
        Some(e) => Err(e),
        None => match spec_json_str_field(payload, "companyId"@) {
            Some(c) => Ok(c),
            None => Err("company backfill missing companyId"@),
        },
    }
}

/// The company a `company_backfill` payload names.
pub fn payload_company(payload: &str) -> (r: Result<String, String>)
    ensures
        match spec_payload_company(payload@) {
            Ok(c) => r matches Ok(x) && x@ == c,
            Err(e) => r matches Err(x) && x@ == e,
        },
{
    if let Some(e) = json_parse_error(payload) {
        return Err(e);
    }
    match json_str_field(payload, "companyId") {
        Some(c) => Ok(c),
        None => Err(owned("company backfill missing companyId")),
    }
}

/// How the activity ledger settles a backfill started directly (not through
/// the queue): a failed run settles with its recorded reason (or
/// `"backfill failed"`), anything else succeeds.
pub fn direct_backfill_settlement(progress: &BackfillProgress) -> (r: Result<(), String>)
    ensures
        progress.status@ == "failed"@ ==> (r matches Err(x) && x@ == match progress.error {
            Some(e) => e@,
            None => "backfill failed"@,
        }),
        progress.status@ != "failed"@ ==> r is Ok,
{
    if str_eq(progress.status.as_str(), "failed") {
        match &progress.error {
            Some(e) => Err(e.clone()),
            None => Err(owned("backfill failed")),
        }
    } else {
        Ok(())
    }
}

/// How the queue settles a finished backfill: a failed run is an error
/// carrying its recorded reason (or `"company backfill failed"`), anything
/// else succeeds.
pub open spec fn spec_job_outcome(p: ProgressView) -> Result<(), Seq<char>> {
    if p.status == "failed"@ {
        match p.error {
            Some(e) => Err(e),
            None => Err("company backfill failed"@),
        }
    } else {
        Ok(())
    }
}

/// How the queue settles a finished backfill.
pub fn backfill_job_outcome(progress: &BackfillProgress) -> (r: Result<(), String>)
    ensures
        match spec_job_outcome(progress@) {
            Ok(()) => r is Ok,
            Err(e) => r matches Err(x) && x@ == e,
        },
{
    if str_eq(progress.status.as_str(), "failed") {
        match &progress.error {
            Some(e) => Err(e.clone()),
            None => Err(owned("company backfill failed")),
        }
    } else {
        Ok(())
    }
}

/// The `company_backfill` job: resolve `companyId` from the payload, run the
/// backfill over the outcomes of its steps, and settle it. A malformed payload
/// fails without running; a failed backfill fails with its reason.
pub fn run_company_backfill_job(payload: &str, now: &str, events: Vec<BackfillEvent>) -> (r: Result<(), String>)
    requires
        spec_payload_company(payload@) matches Ok(c)
            ==> drive_in_range(fresh_progress(c, now@), BackfillStage::CheckMarket, events@, now@),
    ensures
        match spec_payload_company(payload@) {
            Err(e) => r matches Err(x) && x@ == e,
            Ok(c) => match spec_job_outcome(spec_drive(fresh_progress(c, now@), BackfillStage::CheckMarket, events@, now@).0) {
                Ok(()) => r is Ok,
                Err(e) => r matches Err(x) && x@ == e,
            },
        },
{
    let company = match payload_company(payload) {
        Ok(c) => c,
        Err(e) => return Err(e),
    };
    let (progress, _) = run_backfill(company.as_str(), now, events);
    backfill_job_outcome(&progress)
}


// ---------------------------------------------------------------------------
// Distinguishable failures.
// ---------------------------------------------------------------------------

/// The six machine-readable reason codes.
pub open spec fn is_reason_code(code: Seq<char>) -> bool {
    code == UNSUPPORTED_MARKET@ || code == NOT_TRACKED@ || code == NO_BANKIER_PAGE@ || code == HTTP_ERROR@
        || code == PARSE_ERROR@ || code == INTERNAL@
}

proof fn lemma_before_char_concat(a: Seq<char>, b: Seq<char>, c: char)
    requires
        forall|i: int| 0 <= i < a.len() ==> a[i] != c,
        b.len() > 0 && b[0] == c,
    ensures
        crate::text::before_char(a + b, c) == a,
    decreases a.len(),
{
    if a.len() == 0 {
        assert(a + b =~= b);
    } else {
        let t = a.drop_first();
        assert forall|i: int| 0 <= i < t.len() implies t[i] != c by {
            assert(t[i] == a[i + 1]);
        }
        lemma_before_char_concat(t, b, c);
        assert((a + b).drop_first() =~= t + b);
        assert(seq![a[0]] + t =~= a);
    }
}

proof fn lemma_reason_codes_have_no_colon(code: Seq<char>)
    requires
        is_reason_code(code),
    ensures
        forall|i: int| 0 <= i < code.len() ==> code[i] != ':',
{
    reveal_strlit("unsupported_market");
    reveal_strlit("not_tracked");
    reveal_strlit("no_bankier_page");
    reveal_strlit("http_error");
    reveal_strlit("parse_error");
    reveal_strlit("internal");
}

/// Distinguishable failures: every step that fails a backfill fails it with
/// one of the six reason codes, marks the run failed, and records the error
/// `"code: detail"` whose text before the first `:` is exactly that code (so
/// the causes never collapse into one message).
pub proof fn lemma_failed_step_names_its_code(p: ProgressView, stage: BackfillStage, event: BackfillEvent, now: Seq<char>)
    ensures
        ({
            let (p2, s2, a) = spec_step(p, stage, event, now);
            a matches ActionView::Failed { code, message, .. } ==> {
                &&& is_reason_code(code)
                &&& s2 == BackfillStage::Done
                &&& p2.status == "failed"@
                &&& p2.error == Some(message)
                &&& crate::text::before_char(message, ':') == code
            }
        }),
{
    let (p2, s2, a) = spec_step(p, stage, event, now);
    if let ActionView::Failed { code, message, .. } = a {
        assert(is_reason_code(code));
        lemma_reason_codes_have_no_colon(code);
        let detail = message.skip(code.len() as int + 2);
        reveal_strlit(": ");
        assert(message =~= code + (": "@ + detail)) by {
            assert(message == spec_failure_message(code, message.skip(code.len() as int + 2)));
        }
        lemma_before_char_concat(code, ": "@ + detail, ':');
    }
}

/// Where a drive stands: running before its attachments are stored,
/// completed from then on, or failed with a message that names its reason
/// code; only a failed run carries an error.
pub open spec fn drive_state_ok(p: ProgressView, stage: BackfillStage) -> bool {
    &&& (stage == BackfillStage::CheckMarket || stage == BackfillStage::FindTarget || stage == BackfillStage::FetchListing
        || stage == BackfillStage::Ingest || stage == BackfillStage::FetchAttachments) ==> p.status == "running"@
    &&& stage == BackfillStage::ChainSweep ==> p.status == "completed"@
    &&& stage == BackfillStage::Done ==> (p.status == "completed"@ || p.status == "failed"@)
    &&& p.status == "failed"@ ==> stage == BackfillStage::Done && p.error is Some
        && is_reason_code(crate::text::before_char(p.error->0, ':'))
    &&& p.status != "failed"@ ==> p.error is None
}

proof fn lemma_status_words()
    ensures
        "running"@ != "failed"@,
        "completed"@ != "failed"@,
        "running"@ != "completed"@,
{
    reveal_strlit("running");
    reveal_strlit("failed");
    reveal_strlit("completed");
    assert("running"@[0] != "failed"@[0]);
    assert("completed"@[0] != "failed"@[0]);
    assert("running"@[0] != "completed"@[0]);
}

proof fn lemma_drive_keeps_state(p: ProgressView, stage: BackfillStage, events: Seq<BackfillEvent>, now: Seq<char>)
    requires
        drive_state_ok(p, stage),
    ensures
        drive_state_ok(spec_drive(p, stage, events, now).0, spec_drive(p, stage, events, now).1),
    decreases events.len(),
{
    if events.len() > 0 && stage != BackfillStage::Done {
        lemma_status_words();
        lemma_failed_step_names_its_code(p, stage, events[0], now);
        let (p2, s2, a) = spec_step(p, stage, events[0], now);
        assert(drive_state_ok(p2, s2));
        lemma_drive_keeps_state(p2, s2, events.drop_first(), now);
    }
}

/// A backfill ends completed or failed, and a failed backfill, and only a
/// failed one, carries an error, `"{code}: {detail}"` with `code` one of the
/// six machine-readable reason codes; until it ends it is running (or, once
/// its attachments are stored, completed).
pub proof fn lemma_backfill_ends_completed_or_failed_with_a_code(
    company_id: Seq<char>,
    now: Seq<char>,
    events: Seq<BackfillEvent>,
)
    ensures
        ({
            let (p, stage) = spec_drive(fresh_progress(company_id, now), BackfillStage::CheckMarket, events, now);
            &&& stage == BackfillStage::Done ==> (p.status == "completed"@ || p.status == "failed"@)
            &&& p.status == "failed"@ ==> stage == BackfillStage::Done && p.error is Some
                && is_reason_code(crate::text::before_char(p.error->0, ':'))
            &&& p.status != "failed"@ ==> p.error is None
        }),
{
    lemma_status_words();
    lemma_drive_keeps_state(fresh_progress(company_id, now), BackfillStage::CheckMarket, events, now);
}

} // verus!
