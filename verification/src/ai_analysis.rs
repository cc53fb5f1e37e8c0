//! The AI analysis job of one feed item, as a state machine over the outcomes
//! of its outside steps (loading the job, resolving the provider, loading the
//! feed item, marking the job running, the provider's analysis). Each step
//! also names the diagnostic lifecycle stages it records, so a successful run
//! leaves the full `running .. stored` trail and a failed one ends in `failed`.

use vstd::prelude::*;
use crate::text::{concat2, owned, str_eq};

verus! {

/// The credential-free deterministic analysis provider.
pub const TEST_SAMPLE_ANALYSIS_PROVIDER_ID: &'static str = "test_sample";
/// The Gemini analysis provider.
pub const GEMINI_PROVIDER_ID: &'static str = "provider_gemini";

/// How bad a recorded diagnostic is.
#[derive(Debug, Clone, Copy, PartialEq, Eq, Structural)]
pub enum DiagnosticSeverity {
    Info,
    Warning,
    Error,
}

/// One diagnostic the run records: its lifecycle stage and severity.
#[derive(Debug, Clone, Copy, PartialEq, Eq)]
pub struct AnalysisDiagnostic {
    pub stage: &'static str,
    pub severity: DiagnosticSeverity,
}

/// A diagnostic as plain values.
pub open spec fn diag_view(d: AnalysisDiagnostic) -> (Seq<char>, DiagnosticSeverity) {
    (d.stage@, d.severity)
}

/// How a job's provider is resolved.
#[derive(Debug, Clone, Copy, PartialEq, Eq, Structural)]
pub enum ProviderPlan {
    /// The deterministic test-sample provider: nothing to read.
    TestSample,
    /// Gemini: read the settings and the API key, then build the live client.
    Gemini,
    /// No such provider.
    Unknown,
}

/// The plan for provider `provider_id`.
pub open spec fn spec_provider_plan(provider_id: Seq<char>) -> ProviderPlan {
    if provider_id == TEST_SAMPLE_ANALYSIS_PROVIDER_ID@ {
        ProviderPlan::TestSample
    } else if provider_id == GEMINI_PROVIDER_ID@ {
        ProviderPlan::Gemini
    } else {
        ProviderPlan::Unknown
    }
}

/// The plan for a job's provider.
pub fn provider_plan(provider_id: &str) -> (r: ProviderPlan)
    ensures
        r == spec_provider_plan(provider_id@),
{
    if str_eq(provider_id, TEST_SAMPLE_ANALYSIS_PROVIDER_ID) {
        ProviderPlan::TestSample
    } else if str_eq(provider_id, GEMINI_PROVIDER_ID) {
        ProviderPlan::Gemini
    } else {
        ProviderPlan::Unknown
    }
}

/// The error of an unknown provider.
pub open spec fn spec_unknown_provider_error(provider_id: Seq<char>) -> Seq<char> {
    "Unknown AI analysis provider: "@ + provider_id
}

/// The step a run is at.
#[derive(Debug, Clone, Copy, PartialEq, Eq, Structural)]
pub enum AnalysisStage {
    LoadJob,
    ResolveProvider,
    LoadFeedItem,
    MarkRunning,
    Analyze,
    Done,
}

/// The outcome of a step's outside work.
pub enum AnalysisEvent {
    /// The job's status and provider id, or the lookup error.
    JobLoaded(Result<(String, String), String>),
    /// Resolving the Gemini provider: reading the settings, whether an API
    /// key is configured, and building the live client.
    GeminiResolved { settings: Result<(), String>, key_configured: bool, built: Result<(), String> },
    /// Loading the feed item.
    FeedItemLoaded(Result<(), String>),
    /// Marking the job running.
    MarkedRunning(Result<(), String>),
    /// The provider's analysis, or its error code and message.
    Analyzed(Result<(), (String, String)>),
}

/// What the caller does next.
#[derive(Debug, PartialEq, Eq)]
pub enum AnalysisAction {
    /// Do the outside work of this step and report its event.
    Next(AnalysisStage),
    /// The job had already succeeded: return it as it is.
    AlreadySucceeded,
    /// Store the analysis result: the job succeeded.
    Complete,
    /// Mark the job failed with `code` and `error` (the run still returns the
    /// failed job).
    MarkFailed { code: String, error: String },
    /// Return the error.
    Abort(String),
}

/// [`AnalysisAction`] as plain values.
pub enum AnalysisActionView {
    Next(AnalysisStage),
    AlreadySucceeded,
    Complete,
    MarkFailed { code: Seq<char>, error: Seq<char> },
    Abort(Seq<char>),
}

/// The action as plain values.
pub open spec fn analysis_action_view(a: AnalysisAction) -> AnalysisActionView {
    match a {
        AnalysisAction::Next(s) => AnalysisActionView::Next(s),
        AnalysisAction::AlreadySucceeded => AnalysisActionView::AlreadySucceeded,
        AnalysisAction::Complete => AnalysisActionView::Complete,
        AnalysisAction::MarkFailed { code, error } => AnalysisActionView::MarkFailed { code: code@, error: error@ },
        AnalysisAction::Abort(e) => AnalysisActionView::Abort(e@),
    }
}

/// An info diagnostic at `stage`.
pub open spec fn info(stage: Seq<char>) -> (Seq<char>, DiagnosticSeverity) {
    (stage, DiagnosticSeverity::Info)
}

/// The `failed` diagnostic.
pub open spec fn failed_diag() -> (Seq<char>, DiagnosticSeverity) {
    ("failed"@, DiagnosticSeverity::Error)
}

/// One step at `stage` given `event`: the next stage, the action and the
/// diagnostics it records. An event that does not fit the stage changes
/// nothing and records nothing.
///
/// - Loading the job: a lookup error aborts; a succeeded job is returned as
///   it is; else `running` is recorded and the provider resolved: the test
///   sample at once (`credential_checked`, `provider_resolved`), Gemini by its
///   own step, an unknown provider fails the job with `provider_error`.
/// - Gemini: a settings error fails the job; else `credential_checked` (a
///   warning without an API key) and `provider_resolved` are recorded, and a
///   client that cannot be built fails the job.
/// - The feed item and marking running: an error aborts; else
///   `context_loaded`, then `request_sent`.
/// - The analysis: an error fails the job with its code; else
///   `response_received`, `parsed` and `stored`, and the job completes.
pub open spec fn spec_analysis_step(stage: AnalysisStage, event: AnalysisEvent)
    -> (AnalysisStage, AnalysisActionView, Seq<(Seq<char>, DiagnosticSeverity)>)
{
    match (stage, event) {
        (AnalysisStage::LoadJob, AnalysisEvent::JobLoaded(r)) => match r {
            Err(e) => (AnalysisStage::Done, AnalysisActionView::Abort(e@), Seq::empty()),
            Ok((status, provider_id)) => if status@ == "succeeded"@ {
                (AnalysisStage::Done, AnalysisActionView::AlreadySucceeded, Seq::empty())
            } else {
                match spec_provider_plan(provider_id@) {
                    ProviderPlan::TestSample => (AnalysisStage::LoadFeedItem, AnalysisActionView::Next(AnalysisStage::LoadFeedItem),
                        seq![info("running"@), info("credential_checked"@), info("provider_resolved"@)]),
                    ProviderPlan::Gemini => (AnalysisStage::ResolveProvider, AnalysisActionView::Next(AnalysisStage::ResolveProvider),
                        seq![info("running"@)]),
                    ProviderPlan::Unknown => (AnalysisStage::Done, AnalysisActionView::MarkFailed {
                        code: "provider_error"@, error: spec_unknown_provider_error(provider_id@) },
                        seq![info("running"@), failed_diag()]),
                }
            },
        },
        (AnalysisStage::ResolveProvider, AnalysisEvent::GeminiResolved { settings, key_configured, built }) => match settings {
            Err(e) => (AnalysisStage::Done, AnalysisActionView::MarkFailed { code: "provider_error"@, error: e@ }, seq![failed_diag()]),
            Ok(()) => {
                let checked = ("credential_checked"@, if key_configured { DiagnosticSeverity::Info } else { DiagnosticSeverity::Warning });
                match built {
                    Err(e) => (AnalysisStage::Done, AnalysisActionView::MarkFailed { code: "provider_error"@, error: e@ },
                        seq![checked, info("provider_resolved"@), failed_diag()]),
                    Ok(()) => (AnalysisStage::LoadFeedItem, AnalysisActionView::Next(AnalysisStage::LoadFeedItem),
                        seq![checked, info("provider_resolved"@)]),
                }
            },
        },
        (AnalysisStage::LoadFeedItem, AnalysisEvent::FeedItemLoaded(r)) => match r {
            Err(e) => (AnalysisStage::Done, AnalysisActionView::Abort(e@), Seq::empty()),
            Ok(()) => (AnalysisStage::MarkRunning, AnalysisActionView::Next(AnalysisStage::MarkRunning), seq![info("context_loaded"@)]),
        },
        (AnalysisStage::MarkRunning, AnalysisEvent::MarkedRunning(r)) => match r {
            Err(e) => (AnalysisStage::Done, AnalysisActionView::Abort(e@), Seq::empty()),
            Ok(()) => (AnalysisStage::Analyze, AnalysisActionView::Next(AnalysisStage::Analyze), seq![info("request_sent"@)]),
        },
        (AnalysisStage::Analyze, AnalysisEvent::Analyzed(r)) => match r {
            Err((code, message)) => (AnalysisStage::Done, AnalysisActionView::MarkFailed { code: code@, error: message@ },
                seq![failed_diag()]),
            Ok(()) => (AnalysisStage::Done, AnalysisActionView::Complete,
                seq![info("response_received"@), info("parsed"@), info("stored"@)]),
        },
        _ => (stage, AnalysisActionView::Next(stage), Seq::empty()),
    }
}

/// The diagnostics as plain values.
pub open spec fn diag_views(ds: Seq<AnalysisDiagnostic>) -> Seq<(Seq<char>, DiagnosticSeverity)> {
    ds.map_values(|d: AnalysisDiagnostic| diag_view(d))
}

fn diag(stage: &'static str, severity: DiagnosticSeverity) -> (d: AnalysisDiagnostic)
    ensures
        diag_view(d) == (stage@, severity),
{
    AnalysisDiagnostic { stage, severity }
}

fn record(out: &mut Vec<AnalysisDiagnostic>, stage: &'static str, severity: DiagnosticSeverity)
    ensures
        diag_views(final(out)@) == diag_views(old(out)@).push((stage@, severity)),
{
    let d = diag(stage, severity);
    out.push(d);
    proof {
        assert(diag_views(out@) =~= diag_views(old(out)@).push((stage@, severity)));
    }
}

/// Advance a run at `stage` with the outcome of its current step, appending
/// the diagnostics it records to `diagnostics` (see [`spec_analysis_step`]).
pub fn analysis_step(stage: &mut AnalysisStage, event: AnalysisEvent, diagnostics: &mut Vec<AnalysisDiagnostic>) -> (action: AnalysisAction)
    ensures
        ({
            let (s, a, d) = spec_analysis_step(*old(stage), event);
            &&& *final(stage) == s
            &&& analysis_action_view(action) == a
            &&& diag_views(final(diagnostics)@) == diag_views(old(diagnostics)@) + d
        }),
{
    let ghost before = diag_views(diagnostics@);
    match (*stage, event) {
        (AnalysisStage::LoadJob, AnalysisEvent::JobLoaded(r)) => match r {
            Err(e) => {
                *stage = AnalysisStage::Done;
                proof { assert(before + Seq::empty() =~= before); }
                AnalysisAction::Abort(e)
            },
            Ok((status, provider_id)) => {
                if str_eq(status.as_str(), "succeeded") {
                    *stage = AnalysisStage::Done;
                    proof { assert(before + Seq::empty() =~= before); }
                    return AnalysisAction::AlreadySucceeded;
                }
                record(diagnostics, "running", DiagnosticSeverity::Info);
                match provider_plan(provider_id.as_str()) {
                    ProviderPlan::TestSample => {
                        record(diagnostics, "credential_checked", DiagnosticSeverity::Info);
                        record(diagnostics, "provider_resolved", DiagnosticSeverity::Info);
                        *stage = AnalysisStage::LoadFeedItem;
                        proof {
                            assert(diag_views(diagnostics@) =~= before + seq![info("running"@), info("credential_checked"@), info("provider_resolved"@)]);
                        }
                        AnalysisAction::Next(AnalysisStage::LoadFeedItem)
                    },
                    ProviderPlan::Gemini => {
                        *stage = AnalysisStage::ResolveProvider;
                        proof { assert(diag_views(diagnostics@) =~= before + seq![info("running"@)]); }
                        AnalysisAction::Next(AnalysisStage::ResolveProvider)
                    },
                    ProviderPlan::Unknown => {
                        record(diagnostics, "failed", DiagnosticSeverity::Error);
                        *stage = AnalysisStage::Done;
                        proof { assert(diag_views(diagnostics@) =~= before + seq![info("running"@), failed_diag()]); }
                        AnalysisAction::MarkFailed {
                            code: owned("provider_error"),
                            error: concat2("Unknown AI analysis provider: ", provider_id.as_str()),
                        }
                    },
                }
            },
        },
        (AnalysisStage::ResolveProvider, AnalysisEvent::GeminiResolved { settings, key_configured, built }) => match settings {
            Err(e) => {
                record(diagnostics, "failed", DiagnosticSeverity::Error);
                *stage = AnalysisStage::Done;
                proof { assert(diag_views(diagnostics@) =~= before + seq![failed_diag()]); }
                AnalysisAction::MarkFailed { code: owned("provider_error"), error: e }
            },
            Ok(()) => {
                let severity = if key_configured { DiagnosticSeverity::Info } else { DiagnosticSeverity::Warning };
                record(diagnostics, "credential_checked", severity);
                record(diagnostics, "provider_resolved", DiagnosticSeverity::Info);
                match built {
                    Err(e) => {
                        record(diagnostics, "failed", DiagnosticSeverity::Error);
                        *stage = AnalysisStage::Done;
                        proof {
                            assert(diag_views(diagnostics@) =~= before + seq![("credential_checked"@, severity), info("provider_resolved"@), failed_diag()]);
                        }
                        AnalysisAction::MarkFailed { code: owned("provider_error"), error: e }
                    },
                    Ok(()) => {
                        *stage = AnalysisStage::LoadFeedItem;
                        proof {
                            assert(diag_views(diagnostics@) =~= before + seq![("credential_checked"@, severity), info("provider_resolved"@)]);
                        }
                        AnalysisAction::Next(AnalysisStage::LoadFeedItem)
                    },
                }
            },
        },
        (AnalysisStage::LoadFeedItem, AnalysisEvent::FeedItemLoaded(r)) => match r {
            Err(e) => {
                *stage = AnalysisStage::Done;
                proof { assert(before + Seq::empty() =~= before); }
                AnalysisAction::Abort(e)
            },
            Ok(()) => {
                record(diagnostics, "context_loaded", DiagnosticSeverity::Info);
                *stage = AnalysisStage::MarkRunning;
                proof { assert(diag_views(diagnostics@) =~= before + seq![info("context_loaded"@)]); }
                AnalysisAction::Next(AnalysisStage::MarkRunning)
            },
        },
        (AnalysisStage::MarkRunning, AnalysisEvent::MarkedRunning(r)) => match r {
            Err(e) => {
                *stage = AnalysisStage::Done;
                proof { assert(before + Seq::empty() =~= before); }
                AnalysisAction::Abort(e)
            },
            Ok(()) => {
                record(diagnostics, "request_sent", DiagnosticSeverity::Info);
                *stage = AnalysisStage::Analyze;
                proof { assert(diag_views(diagnostics@) =~= before + seq![info("request_sent"@)]); }
                AnalysisAction::Next(AnalysisStage::Analyze)
            },
        },
        (AnalysisStage::Analyze, AnalysisEvent::Analyzed(r)) => {
            *stage = AnalysisStage::Done;
            match r {
                Err((code, message)) => {
                    record(diagnostics, "failed", DiagnosticSeverity::Error);
                    proof { assert(diag_views(diagnostics@) =~= before + seq![failed_diag()]); }
                    AnalysisAction::MarkFailed { code, error: message }
                },
                Ok(()) => {
                    record(diagnostics, "response_received", DiagnosticSeverity::Info);
                    record(diagnostics, "parsed", DiagnosticSeverity::Info);
                    record(diagnostics, "stored", DiagnosticSeverity::Info);
                    proof {
                        assert(diag_views(diagnostics@) =~= before + seq![info("response_received"@), info("parsed"@), info("stored"@)]);
                    }
                    AnalysisAction::Complete
                },
            }
        },
        (s, _) => {
            proof { assert(before + Seq::empty() =~= before); }
            AnalysisAction::Next(s)
        },
    }
}

/// The stage, last action and recorded diagnostics after applying `events` in
/// order from `stage`, each only while the run is not done.
pub open spec fn spec_analysis_drive(stage: AnalysisStage, events: Seq<AnalysisEvent>, last: AnalysisActionView,
    recorded: Seq<(Seq<char>, DiagnosticSeverity)>) -> (AnalysisStage, AnalysisActionView, Seq<(Seq<char>, DiagnosticSeverity)>)
    decreases events.len(),
{
    if events.len() == 0 || stage == AnalysisStage::Done {
        (stage, last, recorded)
    } else {
        let (s2, a, d) = spec_analysis_step(stage, events[0]);
        spec_analysis_drive(s2, events.drop_first(), a, recorded + d)
    }
}

/// An AI analysis run driven over the outcomes of its steps in order (see
/// [`spec_analysis_drive`]): the stage it ends at, its last action and the
/// diagnostics it recorded.
pub fn run_ai_analysis_job(events: Vec<AnalysisEvent>) -> (r: (AnalysisStage, AnalysisAction, Vec<AnalysisDiagnostic>))
    ensures
        (r.0, analysis_action_view(r.1), diag_views(r.2@)) == spec_analysis_drive(AnalysisStage::LoadJob, events@,
            AnalysisActionView::Next(AnalysisStage::LoadJob), Seq::empty()),
{
    let mut stage = AnalysisStage::LoadJob;
    let mut last = AnalysisAction::Next(AnalysisStage::LoadJob);
    let mut diagnostics: Vec<AnalysisDiagnostic> = Vec::new();
    let ghost all = events@;
    let mut rest = events;
    proof {
        assert(diag_views(diagnostics@) =~= Seq::<(Seq<char>, DiagnosticSeverity)>::empty());
    }
    while rest.len() > 0 && stage != AnalysisStage::Done
        invariant
            spec_analysis_drive(stage, rest@, analysis_action_view(last), diag_views(diagnostics@))
                == spec_analysis_drive(AnalysisStage::LoadJob, all, AnalysisActionView::Next(AnalysisStage::LoadJob), Seq::empty()),
        decreases rest.len(),
    {
        let ghost before = rest@;
        let event = rest.remove(0);
        proof {
            assert(event == before[0]);
            assert(rest@ =~= before.drop_first());
        }
        last = analysis_step(&mut stage, event, &mut diagnostics);
    }
    (stage, last, diagnostics)
}

/// The lifecycle a successful run records, in order.
pub open spec fn success_lifecycle() -> Seq<(Seq<char>, DiagnosticSeverity)> {
    seq![info("running"@), info("credential_checked"@), info("provider_resolved"@), info("context_loaded"@),
        info("request_sent"@), info("response_received"@), info("parsed"@), info("stored"@)]
}

/// A test-sample analysis that loads, runs and completes records the whole
/// diagnostic lifecycle (`running` through `stored`), in order, and completes.
pub proof fn lemma_success_records_the_lifecycle(status: String, provider_id: String)
    requires
        status@ != "succeeded"@,
        provider_id@ == TEST_SAMPLE_ANALYSIS_PROVIDER_ID@,
    ensures
        ({
            let events = seq![
                AnalysisEvent::JobLoaded(Ok((status, provider_id))),
                AnalysisEvent::FeedItemLoaded(Ok(())),
                AnalysisEvent::MarkedRunning(Ok(())),
                AnalysisEvent::Analyzed(Ok(())),
            ];
            spec_analysis_drive(AnalysisStage::LoadJob, events, AnalysisActionView::Next(AnalysisStage::LoadJob), Seq::empty())
                == (AnalysisStage::Done, AnalysisActionView::Complete, success_lifecycle())
        }),
{
    let events = seq![
        AnalysisEvent::JobLoaded(Ok((status, provider_id))),
        AnalysisEvent::FeedItemLoaded(Ok(())),
        AnalysisEvent::MarkedRunning(Ok(())),
        AnalysisEvent::Analyzed(Ok(())),
    ];
    let e1 = events.drop_first();
    let e2 = e1.drop_first();
    let e3 = e2.drop_first();
    let e4 = e3.drop_first();
    assert(events[0] == AnalysisEvent::JobLoaded(Ok((status, provider_id))));
    assert(e1[0] == AnalysisEvent::FeedItemLoaded(Ok(())));
    assert(e2[0] == AnalysisEvent::MarkedRunning(Ok(())));
    assert(e3[0] == AnalysisEvent::Analyzed(Ok(())));
    assert(e4 =~= Seq::<AnalysisEvent>::empty());
    let d0 = Seq::<(Seq<char>, DiagnosticSeverity)>::empty();
    let d1 = seq![info("running"@), info("credential_checked"@), info("provider_resolved"@)];
    let r1 = d0 + d1;
    let r2 = r1 + seq![info("context_loaded"@)];
    let r3 = r2 + seq![info("request_sent"@)];
    let r4 = r3 + seq![info("response_received"@), info("parsed"@), info("stored"@)];
    assert(spec_analysis_step(AnalysisStage::LoadJob, events[0]) == (AnalysisStage::LoadFeedItem,
        AnalysisActionView::Next(AnalysisStage::LoadFeedItem), d1));
    assert(r4 =~= success_lifecycle());
    assert(spec_analysis_drive(AnalysisStage::Done, e4, AnalysisActionView::Complete, r4)
        == (AnalysisStage::Done, AnalysisActionView::Complete, r4));
    assert(spec_analysis_drive(AnalysisStage::Analyze, e3, AnalysisActionView::Next(AnalysisStage::Analyze), r3)
        == (AnalysisStage::Done, AnalysisActionView::Complete, r4));
    assert(spec_analysis_drive(AnalysisStage::MarkRunning, e2, AnalysisActionView::Next(AnalysisStage::MarkRunning), r2)
        == (AnalysisStage::Done, AnalysisActionView::Complete, r4));
    assert(spec_analysis_drive(AnalysisStage::LoadFeedItem, e1, AnalysisActionView::Next(AnalysisStage::LoadFeedItem), r1)
        == (AnalysisStage::Done, AnalysisActionView::Complete, r4));
}

} // verus!
