//! Task identity for the Activity center: one [`ActivityIdentity`] per
//! background task, resolved from a queue job's `kind` / `payload` / `id` (or
//! built directly for awaited work). A registered kind with a malformed payload
//! resolves to an explicit `Corrupted` item; an unregistered kind resolves to
//! `None`.

use vstd::prelude::*;
use crate::json::{json_str_field, json_text_object, spec_json_str_field};
use crate::kinds::{
    AGGREGATOR_FUNDAMENTALS_PULL_KIND, AUTOPILOT_STAGE_KIND, BIZNESRADAR_FUNDAMENTALS_DISPLAY_NAME,
    COMPANY_BACKFILL_KIND, FX_DAILY_PULL_KIND, HISTORY_SWEEP_KIND, KPI_INGEST_COMMIT_KIND,
    KPI_INGEST_VALIDATE_KIND, MANAGEMENT_EXTRACTION_KIND, MORNING_BRIEFING_KIND, NBP_FX_DISPLAY_NAME,
    OWNERSHIP_EXTRACTION_KIND, PIPELINE_REEXTRACTION_KIND, QUOTE_BACKFILL_KIND,
    REGISTRY_REFRESH_KIND, SOURCE_COMPANY_REFRESH_KIND, SOURCE_REFRESH_KIND,
};
use crate::table::{find_text, find_text_or_key, lookup_or_key, text_lookup, TextEntry};
use crate::text::{concat2, owned, str_eq};

verus! {

/// One family of background work; `Corrupted` is the explicit malformed-payload item.
#[derive(Debug, Clone, Copy, PartialEq, Eq, Structural)]
pub enum ActivityFamily {
    SourceRefresh,
    CompanyRefresh,
    RegistryRefresh,
    FxPull,
    FundamentalsPull,
    Briefing,
    HistoryFetch,
    ReportSweep,
    Reextraction,
    ReportReading,
    OwnershipReading,
    ManagementReading,
    PriceHistory,
    KpiIngest,
    Transcript,
    Corrupted,
}

/// The company tool an Activity item lands on.
#[derive(Debug, Clone, PartialEq, Eq)]
pub enum ActivityTool {
    Feed,
    Pokrycie,
    Dokumenty { document_id: String },
}

/// The typed navigation target an Activity item lands on.
#[derive(Debug, Clone, PartialEq, Eq)]
pub enum ActivityTarget {
    Company { company_id: String, tool: Option<ActivityTool> },
    Sources,
    Today,
    Transcripts,
}

/// The resolved identity of one background task.
#[derive(Debug, Clone, PartialEq, Eq)]
pub struct ActivityIdentity {
    pub activity_key: String,
    pub family: ActivityFamily,
    pub company_id: Option<String>,
    pub subject: String,
    pub target: ActivityTarget,
}

/// [`ActivityTool`] with its text as characters.
pub enum ToolView {
    Feed,
    Pokrycie,
    Dokumenty(Seq<char>),
}

/// [`ActivityTarget`] with its text as characters.
pub enum TargetView {
    Company(Seq<char>, Option<ToolView>),
    Sources,
    Today,
    Transcripts,
}

/// [`ActivityIdentity`] with its text as characters.
pub struct IdentityView {
    pub activity_key: Seq<char>,
    pub family: ActivityFamily,
    pub company_id: Option<Seq<char>>,
    pub subject: Seq<char>,
    pub target: TargetView,
}

/// An optional string as optional characters.
pub open spec fn opt_text(o: Option<String>) -> Option<Seq<char>> {
    match o {
        Some(s) => Some(s@),
        None => None,
    }
}

impl View for ActivityTool {
    type V = ToolView;

    open spec fn view(&self) -> ToolView {
        match self {
            ActivityTool::Feed => ToolView::Feed,
            ActivityTool::Pokrycie => ToolView::Pokrycie,
            ActivityTool::Dokumenty { document_id } => ToolView::Dokumenty(document_id@),
        }
    }
}

impl View for ActivityTarget {
    type V = TargetView;

    open spec fn view(&self) -> TargetView {
        match self {
            ActivityTarget::Company { company_id, tool } => TargetView::Company(
                company_id@,
                match tool {
                    Some(t) => Some(t@),
                    None => None,
                },
            ),
            ActivityTarget::Sources => TargetView::Sources,
            ActivityTarget::Today => TargetView::Today,
            ActivityTarget::Transcripts => TargetView::Transcripts,
        }
    }
}

impl View for ActivityIdentity {
    type V = IdentityView;

    open spec fn view(&self) -> IdentityView {
        IdentityView {
            activity_key: self.activity_key@,
            family: self.family,
            company_id: opt_text(self.company_id),
            subject: self.subject@,
            target: self.target@,
        }
    }
}

/// The automatic report-reading run a stage job belongs to.
#[derive(Debug, Clone, PartialEq, Eq)]
pub struct RunScope {
    pub run_id: String,
    pub company_id: String,
    pub report_document_id: String,
    pub sweep_id: Option<String>,
}

/// The KPI ingest run a KPI job belongs to.
#[derive(Debug, Clone, PartialEq, Eq)]
pub struct KpiRunScope {
    pub run_id: String,
    pub company_id: String,
    pub report_document_id: String,
}

/// What identity resolution reads about stored rows, as plain values.
#[derive(Debug, Clone, PartialEq, Eq)]
pub struct ActivityLookups {
    /// Source adapter id -> display name (the adapter registry).
    pub adapter_names: Vec<TextEntry>,
    /// Company id -> ticker, for companies that still exist.
    pub tickers: Vec<TextEntry>,
    /// Report document id -> title, for documents that exist and carry a title.
    pub document_titles: Vec<TextEntry>,
    /// History sweep id -> the company it scopes.
    pub sweep_companies: Vec<TextEntry>,
    /// Re-extraction batch id -> the company it scopes.
    pub batch_companies: Vec<TextEntry>,
    /// Autopilot runs, by run id.
    pub autopilot_runs: Vec<RunScope>,
    /// KPI ingest runs, by run id.
    pub kpi_runs: Vec<KpiRunScope>,
}

/// The first autopilot run named `run_id`.
pub open spec fn run_scope_lookup(runs: Seq<RunScope>, run_id: Seq<char>) -> Option<RunScope>
    decreases runs.len(),
{
    if runs.len() == 0 {
        None
    } else if runs[0].run_id@ == run_id {
        Some(runs[0])
    } else {
        run_scope_lookup(runs.drop_first(), run_id)
    }
}

/// The first KPI ingest run named `run_id`.
pub open spec fn kpi_scope_lookup(runs: Seq<KpiRunScope>, run_id: Seq<char>) -> Option<KpiRunScope>
    decreases runs.len(),
{
    if runs.len() == 0 {
        None
    } else if runs[0].run_id@ == run_id {
        Some(runs[0])
    } else {
        kpi_scope_lookup(runs.drop_first(), run_id)
    }
}

proof fn lemma_run_scope_skip(runs: Seq<RunScope>, run_id: Seq<char>, i: int)
    requires
        0 <= i <= runs.len(),
        forall|k: int| 0 <= k < i ==> #[trigger] runs[k].run_id@ != run_id,
    ensures
        run_scope_lookup(runs, run_id) == run_scope_lookup(runs.skip(i), run_id),
    decreases i,
{
    if i > 0 {
        let rest = runs.drop_first();
        assert forall|k: int| 0 <= k < i - 1 implies #[trigger] rest[k].run_id@ != run_id by {
            assert(rest[k] == runs[k + 1]);
        }
        lemma_run_scope_skip(rest, run_id, i - 1);
        assert(rest.skip(i - 1) =~= runs.skip(i));
    } else {
        assert(runs.skip(0) =~= runs);
    }
}

proof fn lemma_kpi_scope_skip(runs: Seq<KpiRunScope>, run_id: Seq<char>, i: int)
    requires
        0 <= i <= runs.len(),
        forall|k: int| 0 <= k < i ==> #[trigger] runs[k].run_id@ != run_id,
    ensures
        kpi_scope_lookup(runs, run_id) == kpi_scope_lookup(runs.skip(i), run_id),
    decreases i,
{
    if i > 0 {
        let rest = runs.drop_first();
        assert forall|k: int| 0 <= k < i - 1 implies #[trigger] rest[k].run_id@ != run_id by {
            assert(rest[k] == runs[k + 1]);
        }
        lemma_kpi_scope_skip(rest, run_id, i - 1);
        assert(rest.skip(i - 1) =~= runs.skip(i));
    } else {
        assert(runs.skip(0) =~= runs);
    }
}

fn find_run_scope<'a>(runs: &'a Vec<RunScope>, run_id: &str) -> (r: Option<&'a RunScope>)
    ensures
        r is Some <==> run_scope_lookup(runs@, run_id@) is Some,
        r is Some ==> *r->0 == run_scope_lookup(runs@, run_id@)->0,
{
    let mut i: usize = 0;
    while i < runs.len()
        invariant
            i <= runs@.len(),
            forall|k: int| 0 <= k < i ==> #[trigger] runs@[k].run_id@ != run_id@,
        decreases runs.len() - i,
    {
        if str_eq(runs[i].run_id.as_str(), run_id) {
            proof {
                lemma_run_scope_skip(runs@, run_id@, i as int);
                assert(runs@.skip(i as int)[0] == runs@[i as int]);
            }
            return Some(&runs[i]);
        }
        i = i + 1;
    }
    proof {
        lemma_run_scope_skip(runs@, run_id@, i as int);
    }
    None
}

fn find_kpi_scope<'a>(runs: &'a Vec<KpiRunScope>, run_id: &str) -> (r: Option<&'a KpiRunScope>)
    ensures
        r is Some <==> kpi_scope_lookup(runs@, run_id@) is Some,
        r is Some ==> *r->0 == kpi_scope_lookup(runs@, run_id@)->0,
{
    let mut i: usize = 0;
    while i < runs.len()
        invariant
            i <= runs@.len(),
            forall|k: int| 0 <= k < i ==> #[trigger] runs@[k].run_id@ != run_id@,
        decreases runs.len() - i,
    {
        if str_eq(runs[i].run_id.as_str(), run_id) {
            proof {
                lemma_kpi_scope_skip(runs@, run_id@, i as int);
                assert(runs@.skip(i as int)[0] == runs@[i as int]);
            }
            return Some(&runs[i]);
        }
        i = i + 1;
    }
    proof {
        lemma_kpi_scope_skip(runs@, run_id@, i as int);
    }
    None
}

// ---------------------------------------------------------------------------
// The identity table, stated over characters.
// ---------------------------------------------------------------------------

/// The explicit malformed-payload item for `job_id`.
pub open spec fn corrupted_view(job_id: Seq<char>) -> IdentityView {
    IdentityView {
        activity_key: "corrupted:"@ + job_id,
        family: ActivityFamily::Corrupted,
        company_id: None,
        subject: job_id,
        target: TargetView::Today,
    }
}

/// A source adapter's display name, or its raw id when unregistered.
pub open spec fn adapter_name(l: ActivityLookups, adapter_id: Seq<char>) -> Seq<char> {
    lookup_or_key(l.adapter_names@, adapter_id)
}

/// A company's ticker, or the id itself when the company is gone.
pub open spec fn ticker(l: ActivityLookups, company_id: Seq<char>) -> Seq<char> {
    lookup_or_key(l.tickers@, company_id)
}

/// A document's title, or the id itself when it is gone or untitled.
pub open spec fn title(l: ActivityLookups, document_id: Seq<char>) -> Seq<char> {
    lookup_or_key(l.document_titles@, document_id)
}

pub open spec fn source_refresh_view(l: ActivityLookups, adapter_id: Seq<char>) -> IdentityView {
    IdentityView {
        activity_key: "source-refresh:"@ + adapter_id,
        family: ActivityFamily::SourceRefresh,
        company_id: None,
        subject: adapter_name(l, adapter_id),
        target: TargetView::Sources,
    }
}

pub open spec fn registry_refresh_view() -> IdentityView {
    IdentityView {
        activity_key: "registry-refresh"@,
        family: ActivityFamily::RegistryRefresh,
        company_id: None,
        subject: Seq::empty(),
        target: TargetView::Sources,
    }
}

pub open spec fn fundamentals_pull_view() -> IdentityView {
    IdentityView {
        activity_key: "fundamentals-pull"@,
        family: ActivityFamily::FundamentalsPull,
        company_id: None,
        subject: BIZNESRADAR_FUNDAMENTALS_DISPLAY_NAME@,
        target: TargetView::Sources,
    }
}

pub open spec fn fx_pull_view() -> IdentityView {
    IdentityView {
        activity_key: "fx-pull"@,
        family: ActivityFamily::FxPull,
        company_id: None,
        subject: NBP_FX_DISPLAY_NAME@,
        target: TargetView::Sources,
    }
}

pub open spec fn briefing_view() -> IdentityView {
    IdentityView {
        activity_key: "briefing"@,
        family: ActivityFamily::Briefing,
        company_id: None,
        subject: Seq::empty(),
        target: TargetView::Today,
    }
}

/// A company-scoped identity: `key_prefix + id_part` as the key.
pub open spec fn company_view(
    key_prefix: Seq<char>,
    id_part: Seq<char>,
    family: ActivityFamily,
    subject: Seq<char>,
    company_id: Seq<char>,
    tool: Option<ToolView>,
) -> IdentityView {
    IdentityView {
        activity_key: key_prefix + id_part,
        family,
        company_id: Some(company_id),
        subject,
        target: TargetView::Company(company_id, tool),
    }
}

/// A sweep- or batch-scoped identity, company-scoped when the row names a company.
pub open spec fn scoped_view(
    key_prefix: Seq<char>,
    row_id: Seq<char>,
    family: ActivityFamily,
    l: ActivityLookups,
    company: Option<Seq<char>>,
) -> IdentityView {
    match company {
        Some(c) => company_view(key_prefix, row_id, family, ticker(l, c), c, Some(ToolView::Pokrycie)),
        None => IdentityView {
            activity_key: key_prefix + row_id,
            family,
            company_id: None,
            subject: row_id,
            target: TargetView::Sources,
        },
    }
}

/// The first position of `':'` in `s` at or after `i`, or `-1`.
pub open spec fn colon_from(s: Seq<char>, i: int) -> int
    decreases s.len() - i,
{
    if i < 0 || i >= s.len() {
        -1
    } else if s[i] == ':' {
        i
    } else {
        colon_from(s, i + 1)
    }
}

/// `rev` followed by one or more ASCII digits.
pub open spec fn is_rev_token(t: Seq<char>) -> bool {
    &&& t.len() > 3
    &&& t[0] == 'r' && t[1] == 'e' && t[2] == 'v'
    &&& forall|i: int| 3 <= i < t.len() ==> '0' <= #[trigger] t[i] <= '9'
}

/// The run id a KPI ingest job id names. Validate jobs are
/// `kpi_ingest_validate:{run}:rev{N}`, commit jobs
/// `kpi_ingest_commit:{run}:rev{N}:{manifest hash}`; any other shape names no run.
pub open spec fn spec_kpi_run_id(job_id: Seq<char>) -> Option<Seq<char>> {
    let validate = "kpi_ingest_validate:"@;
    let commit = "kpi_ingest_commit:"@;
    if crate::text::is_prefix(validate, job_id) {
        let rest = job_id.skip(validate.len() as int);
        let k = colon_from(rest, 0);
        if k <= 0 {
            None
        } else if is_rev_token(rest.skip(k + 1)) {
            Some(rest.take(k))
        } else {
            None
        }
    } else if crate::text::is_prefix(commit, job_id) {
        let rest = job_id.skip(commit.len() as int);
        let k = colon_from(rest, 0);
        if k <= 0 {
            None
        } else {
            let tail = rest.skip(k + 1);
            let m = colon_from(tail, 0);
            if m > 0 && is_rev_token(tail.take(m)) && tail.len() > m + 1 {
                Some(rest.take(k))
            } else {
                None
            }
        }
    } else {
        None
    }
}

/// The identity of a queue job, stated as a table over its kind. `None` only
/// for an unregistered kind.
pub open spec fn spec_identity_for_job(
    kind: Seq<char>,
    job_id: Seq<char>,
    payload: Seq<char>,
    l: ActivityLookups,
) -> Option<IdentityView> {
    let field = |key: Seq<char>| spec_json_str_field(payload, key);
    if kind == SOURCE_REFRESH_KIND@ {
        Some(match field("adapterId"@) {
            Some(a) => source_refresh_view(l, a),
            None => corrupted_view(job_id),
        })
    } else if kind == SOURCE_COMPANY_REFRESH_KIND@ {
        Some(match field("companyId"@) {
            Some(c) => company_view("company-refresh:"@, c, ActivityFamily::CompanyRefresh,
                ticker(l, c), c, Some(ToolView::Feed)),
            None => corrupted_view(job_id),
        })
    } else if kind == REGISTRY_REFRESH_KIND@ {
        Some(registry_refresh_view())
    } else if kind == FX_DAILY_PULL_KIND@ {
        Some(fx_pull_view())
    } else if kind == AGGREGATOR_FUNDAMENTALS_PULL_KIND@ {
        Some(fundamentals_pull_view())
    } else if kind == MORNING_BRIEFING_KIND@ {
        Some(briefing_view())
    } else if kind == COMPANY_BACKFILL_KIND@ {
        Some(match field("companyId"@) {
            Some(c) => company_view("history-fetch:"@, c, ActivityFamily::HistoryFetch,
                ticker(l, c), c, Some(ToolView::Pokrycie)),
            None => corrupted_view(job_id),
        })
    } else if kind == QUOTE_BACKFILL_KIND@ {
        Some(match field("companyId"@) {
            Some(c) => company_view("price-history:"@, c, ActivityFamily::PriceHistory,
                ticker(l, c), c, None),
            None => corrupted_view(job_id),
        })
    } else if kind == HISTORY_SWEEP_KIND@ {
        Some(match field("sweep_id"@) {
            Some(s) => scoped_view("report-sweep:"@, s, ActivityFamily::ReportSweep, l,
                text_lookup(l.sweep_companies@, s)),
            None => corrupted_view(job_id),
        })
    } else if kind == PIPELINE_REEXTRACTION_KIND@ {
        Some(match field("batch_id"@) {
            Some(b) => scoped_view("reextraction:"@, b, ActivityFamily::Reextraction, l,
                text_lookup(l.batch_companies@, b)),
            None => corrupted_view(job_id),
        })
    } else if kind == OWNERSHIP_EXTRACTION_KIND@ || kind == MANAGEMENT_EXTRACTION_KIND@ {
        let ownership = kind == OWNERSHIP_EXTRACTION_KIND@;
        Some(match (field("companyId"@), field("reportDocumentId"@)) {
            (Some(c), Some(d)) => company_view(
                if ownership { "ownership-reading:"@ } else { "management-reading:"@ },
                d,
                if ownership { ActivityFamily::OwnershipReading } else { ActivityFamily::ManagementReading },
                title(l, d), c, Some(ToolView::Dokumenty(d))),
            _ => corrupted_view(job_id),
        })
    } else if kind == AUTOPILOT_STAGE_KIND@ {
        Some(match field("run_id"@) {
            Some(r) => match run_scope_lookup(l.autopilot_runs@, r) {
                Some(scope) => match scope.sweep_id {
                    Some(s) => company_view("report-sweep:"@, s@, ActivityFamily::ReportSweep,
                        ticker(l, scope.company_id@), scope.company_id@, Some(ToolView::Pokrycie)),
                    None => company_view("report-reading:"@, r, ActivityFamily::ReportReading,
                        title(l, scope.report_document_id@), scope.company_id@,
                        Some(ToolView::Dokumenty(scope.report_document_id@))),
                },
                None => corrupted_view(job_id),
            },
            None => corrupted_view(job_id),
        })
    } else if kind == KPI_INGEST_VALIDATE_KIND@ || kind == KPI_INGEST_COMMIT_KIND@ {
        Some(match spec_kpi_run_id(job_id) {
            Some(r) => match kpi_scope_lookup(l.kpi_runs@, r) {
                Some(scope) => company_view("kpi-ingest:"@, r, ActivityFamily::KpiIngest,
                    title(l, scope.report_document_id@), scope.company_id@,
                    Some(ToolView::Dokumenty(scope.report_document_id@))),
                None => corrupted_view(job_id),
            },
            None => corrupted_view(job_id),
        })
    } else {
        None
    }
}

/// The identities of the direct source refresh, the registry refresh and the
/// fundamentals pull need no stored row: for any job id and any lookups, a
/// source refresh whose payload names adapter `adapter_id` is that adapter's
/// refresh, named from the adapter registry alone (two lookups that agree on
/// the registry give the same identity), and the registry refresh and the
/// fundamentals pull have their fixed identities whatever the payload.
pub proof fn lemma_direct_identities_need_no_stored_rows(
    job_id: Seq<char>,
    payload: Seq<char>,
    adapter_id: Seq<char>,
    l: ActivityLookups,
    other: ActivityLookups,
)
    requires
        spec_json_str_field(payload, "adapterId"@) == Some(adapter_id),
        other.adapter_names@ == l.adapter_names@,
    ensures
        spec_identity_for_job(SOURCE_REFRESH_KIND@, job_id, payload, l) == Some(source_refresh_view(l, adapter_id)),
        source_refresh_view(other, adapter_id) == source_refresh_view(l, adapter_id),
        spec_identity_for_job(REGISTRY_REFRESH_KIND@, job_id, payload, l) == Some(registry_refresh_view()),
        spec_identity_for_job(AGGREGATOR_FUNDAMENTALS_PULL_KIND@, job_id, payload, l) == Some(fundamentals_pull_view()),
{
    reveal_strlit("scheduled_source_refresh");
    reveal_strlit("source_company_refresh");
    reveal_strlit("scheduled_registry_refresh");
    reveal_strlit("fx_daily_pull");
    reveal_strlit("aggregator_fundamentals_pull");
    assert(SOURCE_REFRESH_KIND@.len() == 24);
    assert(SOURCE_COMPANY_REFRESH_KIND@.len() == 22);
    assert(REGISTRY_REFRESH_KIND@.len() == 26);
    assert(FX_DAILY_PULL_KIND@.len() == 13);
    assert(AGGREGATOR_FUNDAMENTALS_PULL_KIND@.len() == 28);
    assert(REGISTRY_REFRESH_KIND@ != SOURCE_REFRESH_KIND@);
    assert(REGISTRY_REFRESH_KIND@ != SOURCE_COMPANY_REFRESH_KIND@);
    assert(AGGREGATOR_FUNDAMENTALS_PULL_KIND@ != SOURCE_REFRESH_KIND@);
    assert(AGGREGATOR_FUNDAMENTALS_PULL_KIND@ != SOURCE_COMPANY_REFRESH_KIND@);
    assert(AGGREGATOR_FUNDAMENTALS_PULL_KIND@ != REGISTRY_REFRESH_KIND@);
    assert(AGGREGATOR_FUNDAMENTALS_PULL_KIND@ != FX_DAILY_PULL_KIND@);
}

} // verus!

verus! {

/// The optional tool as its view.
pub open spec fn opt_tool(t: Option<ActivityTool>) -> Option<ToolView> {
    match t {
        Some(t) => Some(t@),
        None => None,
    }
}

impl ActivityIdentity {
    /// The explicit malformed-payload item: subject is the job id, target Today.
    pub fn corrupted(job_id: &str) -> (r: ActivityIdentity)
        ensures
            r@ == corrupted_view(job_id@),
    {
        ActivityIdentity {
            activity_key: concat2("corrupted:", job_id),
            family: ActivityFamily::Corrupted,
            company_id: None,
            subject: owned(job_id),
            target: ActivityTarget::Today,
        }
    }
}

/// A source adapter's display name via the adapter registry, falling back to
/// the raw id for an unregistered adapter.
fn adapter_display_name(lookups: &ActivityLookups, adapter_id: &str) -> (r: String)
    ensures
        r@ == adapter_name(*lookups, adapter_id@),
{
    find_text_or_key(&lookups.adapter_names, adapter_id)
}

/// A company's ticker, or the id itself if the company is gone.
fn company_ticker(lookups: &ActivityLookups, company_id: &str) -> (r: String)
    ensures
        r@ == ticker(*lookups, company_id@),
{
    find_text_or_key(&lookups.tickers, company_id)
}

/// A report document's title, or the id itself if gone or untitled.
fn document_title(lookups: &ActivityLookups, document_id: &str) -> (r: String)
    ensures
        r@ == title(*lookups, document_id@),
{
    find_text_or_key(&lookups.document_titles, document_id)
}

/// Identity of a scheduled source refresh for `adapter_id`; needs no stored row.
pub fn source_refresh_identity(lookups: &ActivityLookups, adapter_id: &str) -> (r: ActivityIdentity)
    ensures
        r@ == source_refresh_view(*lookups, adapter_id@),
{
    ActivityIdentity {
        activity_key: concat2("source-refresh:", adapter_id),
        family: ActivityFamily::SourceRefresh,
        company_id: None,
        subject: adapter_display_name(lookups, adapter_id),
        target: ActivityTarget::Sources,
    }
}

/// Identity of the company-registry refresh: an empty subject (the family label
/// carries the prose), landing on Sources.
pub fn registry_refresh_identity() -> (r: ActivityIdentity)
    ensures
        r@ == registry_refresh_view(),
{
    ActivityIdentity {
        activity_key: owned("registry-refresh"),
        family: ActivityFamily::RegistryRefresh,
        company_id: None,
        subject: String::new(),
        target: ActivityTarget::Sources,
    }
}

/// Identity of the aggregator fundamentals pull, subject the BiznesRadar
/// fundamentals adapter's display name.
pub fn aggregator_fundamentals_pull_identity() -> (r: ActivityIdentity)
    ensures
        r@ == fundamentals_pull_view(),
{
    ActivityIdentity {
        activity_key: owned("fundamentals-pull"),
        family: ActivityFamily::FundamentalsPull,
        company_id: None,
        subject: owned(BIZNESRADAR_FUNDAMENTALS_DISPLAY_NAME),
        target: ActivityTarget::Sources,
    }
}

/// Fallback identity of a company backfill when the company's ticker cannot be
/// read: the raw company id substitutes as the subject.
pub fn company_backfill_identity_fallback(company_id: &str) -> (r: ActivityIdentity)
    ensures
        r@ == company_view("history-fetch:"@, company_id@, ActivityFamily::HistoryFetch,
            company_id@, company_id@, Some(ToolView::Pokrycie)),
{
    company_identity("history-fetch:", company_id, ActivityFamily::HistoryFetch,
        owned(company_id), company_id, Some(ActivityTool::Pokrycie))
}

fn company_identity(
    key_prefix: &str,
    id_part: &str,
    family: ActivityFamily,
    subject: String,
    company_id: &str,
    tool: Option<ActivityTool>,
) -> (r: ActivityIdentity)
    ensures
        r@ == company_view(key_prefix@, id_part@, family, subject@, company_id@, opt_tool(tool)),
{
    ActivityIdentity {
        activity_key: concat2(key_prefix, id_part),
        family,
        company_id: Some(owned(company_id)),
        subject,
        target: ActivityTarget::Company { company_id: owned(company_id), tool },
    }
}

fn scoped_identity(
    key_prefix: &str,
    row_id: &str,
    family: ActivityFamily,
    lookups: &ActivityLookups,
    company: Option<String>,
) -> (r: ActivityIdentity)
    ensures
        r@ == scoped_view(key_prefix@, row_id@, family, *lookups, opt_text(company)),
{
    match company {
        Some(c) => company_identity(key_prefix, row_id, family, company_ticker(lookups, c.as_str()),
            c.as_str(), Some(ActivityTool::Pokrycie)),
        None => ActivityIdentity {
            activity_key: concat2(key_prefix, row_id),
            family,
            company_id: None,
            subject: owned(row_id),
            target: ActivityTarget::Sources,
        },
    }
}

} // verus!

verus! {

proof fn lemma_colon_from_skip(s: Seq<char>, i: int, j: int)
    requires
        0 <= i <= j <= s.len(),
        forall|k: int| i <= k < j ==> s[k] != ':',
    ensures
        colon_from(s, i) == colon_from(s, j),
    decreases j - i,
{
    if i < j {
        lemma_colon_from_skip(s, i + 1, j);
    }
}

/// The first `':'` at or after `start`, as [`colon_from`] states it (`None` for -1).
fn colon_index(v: &Vec<char>, start: usize) -> (r: Option<usize>)
    requires
        start <= v@.len(),
    ensures
        r is Some ==> r->0 as int == colon_from(v@, start as int) && start <= r->0 < v@.len(),
        r is None ==> colon_from(v@, start as int) == -1,
{
    let mut i = start;
    while i < v.len()
        invariant
            start <= i <= v@.len(),
            forall|k: int| start <= k < i ==> v@[k] != ':',
        decreases v.len() - i,
    {
        if v[i] == ':' {
            proof {
                lemma_colon_from_skip(v@, start as int, i as int);
            }
            return Some(i);
        }
        i = i + 1;
    }
    proof {
        lemma_colon_from_skip(v@, start as int, i as int);
    }
    None
}

/// Whether `v[from..to]` is `rev` followed by one or more ASCII digits.
fn rev_token(v: &Vec<char>, from: usize, to: usize) -> (r: bool)
    requires
        from <= to <= v@.len(),
    ensures
        r == is_rev_token(v@.subrange(from as int, to as int)),
{
    let t = crate::text::sub_chars(v, from, to);
    if t.len() <= 3 || t[0] != 'r' || t[1] != 'e' || t[2] != 'v' {
        return false;
    }
    let mut i: usize = 3;
    while i < t.len()
        invariant
            3 <= i <= t@.len(),
            t@ == v@.subrange(from as int, to as int),
            t@[0] == 'r' && t@[1] == 'e' && t@[2] == 'v',
            forall|k: int| 3 <= k < i ==> '0' <= #[trigger] t@[k] <= '9',
        decreases t.len() - i,
    {
        if t[i] < '0' || t[i] > '9' {
            proof {
                let c = t@[i as int];
                assert(!('0' <= c <= '9'));
                assert(!is_rev_token(t@));
            }
            return false;
        }
        i = i + 1;
    }
    true
}

/// The run id a KPI ingest job id names (the job id is authoritative; a
/// payload's own `runId` is never used).
pub fn kpi_run_id_from_job_id(job_id: &str) -> (r: Option<String>)
    ensures
        opt_text(r) == spec_kpi_run_id(job_id@),
{
    let validate = "kpi_ingest_validate:";
    let commit = "kpi_ingest_commit:";
    let j = crate::text::chars_of(job_id);
    if crate::text::starts_with(job_id, validate) {
        let plen = crate::text::chars_of(validate).len();
        let rest = crate::text::sub_chars(&j, plen, j.len());
        proof {
            assert(rest@ =~= job_id@.skip(validate@.len() as int));
        }
        match colon_index(&rest, 0) {
            Some(k) if k > 0 => {
                if rev_token(&rest, k + 1, rest.len()) {
                    proof {
                        assert(rest@.subrange(k + 1, rest@.len() as int) =~= rest@.skip(k + 1));
                        assert(rest@.subrange(0, k as int) =~= rest@.take(k as int));
                    }
                    Some(crate::text::string_from_chars(&crate::text::sub_chars(&rest, 0, k)))
                } else {
                    proof {
                        assert(rest@.subrange(k + 1, rest@.len() as int) =~= rest@.skip(k + 1));
                    }
                    None
                }
            },
            _ => None,
        }
    } else if crate::text::starts_with(job_id, commit) {
        let plen = crate::text::chars_of(commit).len();
        let rest = crate::text::sub_chars(&j, plen, j.len());
        proof {
            assert(rest@ =~= job_id@.skip(commit@.len() as int));
        }
        match colon_index(&rest, 0) {
            Some(k) if k > 0 => {
                let tail = crate::text::sub_chars(&rest, k + 1, rest.len());
                proof {
                    assert(tail@ =~= rest@.skip(k + 1));
                }
                match colon_index(&tail, 0) {
                    Some(m) if m > 0 => {
                        let ok = rev_token(&tail, 0, m) && tail.len() > m + 1;
                        proof {
                            assert(tail@.subrange(0, m as int) =~= tail@.take(m as int));
                            assert(rest@.subrange(0, k as int) =~= rest@.take(k as int));
                        }
                        if ok {
                            Some(crate::text::string_from_chars(&crate::text::sub_chars(&rest, 0, k)))
                        } else {
                            None
                        }
                    },
                    _ => None,
                }
            },
            _ => None,
        }
    } else {
        None
    }
}

} // verus!

verus! {

/// A company-keyed kind: `companyId` names the company, the key is
/// `prefix + company`, the subject its ticker.
fn company_field_identity(
    job_id: &str,
    payload: &str,
    lookups: &ActivityLookups,
    prefix: &str,
    family: ActivityFamily,
    tool: Option<ActivityTool>,
) -> (r: ActivityIdentity)
    ensures
        r@ == match spec_json_str_field(payload@, "companyId"@) {
            Some(c) => company_view(prefix@, c, family, ticker(*lookups, c), c, opt_tool(tool)),
            None => corrupted_view(job_id@),
        },
{
    match json_str_field(payload, "companyId") {
        Some(c) => company_identity(prefix, c.as_str(), family, company_ticker(lookups, c.as_str()),
            c.as_str(), tool),
        None => ActivityIdentity::corrupted(job_id),
    }
}

/// A sweep/batch kind: `field` names the row, `rows` maps it to its company.
fn scoped_field_identity(
    job_id: &str,
    payload: &str,
    lookups: &ActivityLookups,
    field: &str,
    rows: &Vec<TextEntry>,
    prefix: &str,
    family: ActivityFamily,
) -> (r: ActivityIdentity)
    ensures
        r@ == match spec_json_str_field(payload@, field@) {
            Some(s) => scoped_view(prefix@, s, family, *lookups, text_lookup(rows@, s)),
            None => corrupted_view(job_id@),
        },
{
    match json_str_field(payload, field) {
        Some(s) => {
            let company = find_text(rows, s.as_str());
            let r = scoped_identity(prefix, s.as_str(), family, lookups, company);
            r
        },
        None => ActivityIdentity::corrupted(job_id),
    }
}

fn document_reading_identity(
    job_id: &str,
    payload: &str,
    lookups: &ActivityLookups,
    ownership: bool,
) -> (r: ActivityIdentity)
    ensures
        r@ == match (spec_json_str_field(payload@, "companyId"@), spec_json_str_field(payload@, "reportDocumentId"@)) {
            (Some(c), Some(d)) => company_view(
                if ownership { "ownership-reading:"@ } else { "management-reading:"@ },
                d,
                if ownership { ActivityFamily::OwnershipReading } else { ActivityFamily::ManagementReading },
                title(*lookups, d), c, Some(ToolView::Dokumenty(d))),
            _ => corrupted_view(job_id@),
        },
{
    let company = json_str_field(payload, "companyId");
    let document = json_str_field(payload, "reportDocumentId");
    match (company, document) {
        (Some(c), Some(d)) => {
            let prefix = if ownership { "ownership-reading:" } else { "management-reading:" };
            let family = if ownership { ActivityFamily::OwnershipReading } else { ActivityFamily::ManagementReading };
            let subject = document_title(lookups, d.as_str());
            let tool = ActivityTool::Dokumenty { document_id: owned(d.as_str()) };
            company_identity(prefix, d.as_str(), family, subject, c.as_str(), Some(tool))
        },
        _ => ActivityIdentity::corrupted(job_id),
    }
}

fn autopilot_identity(job_id: &str, payload: &str, lookups: &ActivityLookups) -> (r: ActivityIdentity)
    ensures
        r@ == match spec_json_str_field(payload@, "run_id"@) {
            Some(r) => match run_scope_lookup(lookups.autopilot_runs@, r) {
                Some(scope) => match scope.sweep_id {
                    Some(s) => company_view("report-sweep:"@, s@, ActivityFamily::ReportSweep,
                        ticker(*lookups, scope.company_id@), scope.company_id@, Some(ToolView::Pokrycie)),
                    None => company_view("report-reading:"@, r, ActivityFamily::ReportReading,
                        title(*lookups, scope.report_document_id@), scope.company_id@,
                        Some(ToolView::Dokumenty(scope.report_document_id@))),
                },
                None => corrupted_view(job_id@),
            },
            None => corrupted_view(job_id@),
        },
{
    let Some(run_id) = json_str_field(payload, "run_id") else {
        return ActivityIdentity::corrupted(job_id);
    };
    let Some(scope) = find_run_scope(&lookups.autopilot_runs, run_id.as_str()) else {
        return ActivityIdentity::corrupted(job_id);
    };
    match &scope.sweep_id {
        Some(s) => company_identity("report-sweep:", s.as_str(), ActivityFamily::ReportSweep,
            company_ticker(lookups, scope.company_id.as_str()), scope.company_id.as_str(),
            Some(ActivityTool::Pokrycie)),
        None => {
            let tool = ActivityTool::Dokumenty { document_id: owned(scope.report_document_id.as_str()) };
            company_identity("report-reading:", run_id.as_str(), ActivityFamily::ReportReading,
                document_title(lookups, scope.report_document_id.as_str()), scope.company_id.as_str(),
                Some(tool))
        },
    }
}

fn kpi_identity(job_id: &str, lookups: &ActivityLookups) -> (r: ActivityIdentity)
    ensures
        r@ == match spec_kpi_run_id(job_id@) {
            Some(r) => match kpi_scope_lookup(lookups.kpi_runs@, r) {
                Some(scope) => company_view("kpi-ingest:"@, r, ActivityFamily::KpiIngest,
                    title(*lookups, scope.report_document_id@), scope.company_id@,
                    Some(ToolView::Dokumenty(scope.report_document_id@))),
                None => corrupted_view(job_id@),
            },
            None => corrupted_view(job_id@),
        },
{
    let Some(run_id) = kpi_run_id_from_job_id(job_id) else {
        return ActivityIdentity::corrupted(job_id);
    };
    let Some(scope) = find_kpi_scope(&lookups.kpi_runs, run_id.as_str()) else {
        return ActivityIdentity::corrupted(job_id);
    };
    let tool = ActivityTool::Dokumenty { document_id: owned(scope.report_document_id.as_str()) };
    company_identity("kpi-ingest:", run_id.as_str(), ActivityFamily::KpiIngest,
        document_title(lookups, scope.report_document_id.as_str()), scope.company_id.as_str(), Some(tool))
}

/// The payload of a source refresh of `adapter_id`, `{"adapterId":...}`:
/// reading `adapterId` back from it gives `adapter_id`.
pub fn source_refresh_payload(adapter_id: &str) -> (r: String)
    ensures
        spec_json_str_field(r@, "adapterId"@) == Some(adapter_id@),
{
    json_text_object("adapterId", adapter_id)
}

/// The identity of a directly started source refresh, resolved exactly as the
/// queue resolves its job: [`identity_for_job`] on the payload built for
/// `adapter_id`, under any job id and any lookups, is the adapter's refresh
/// identity, the one [`source_refresh_identity`] builds without a stored row.
pub fn direct_source_refresh_identity(job_id: &str, adapter_id: &str, lookups: &ActivityLookups) -> (r: ActivityIdentity)
    ensures
        r@ == source_refresh_view(*lookups, adapter_id@),
{
    let payload = source_refresh_payload(adapter_id);
    proof {
        lemma_direct_identities_need_no_stored_rows(job_id@, payload@, adapter_id@, *lookups, *lookups);
    }
    match identity_for_job(SOURCE_REFRESH_KIND, job_id, payload.as_str(), lookups) {
        Some(identity) => identity,
        None => source_refresh_identity(lookups, adapter_id),
    }
}

/// Resolve one background task's identity from a queue job's `kind`, `payload`
/// and own `id`, reading stored rows through `lookups`. `None` only for an
/// unregistered kind; a registered kind with a malformed payload (or a job id /
/// run that names nothing) resolves to the explicit `Corrupted` item.
pub fn identity_for_job(kind: &str, job_id: &str, payload: &str, lookups: &ActivityLookups) -> (r: Option<ActivityIdentity>)
    ensures
        match r {
            Some(identity) => spec_identity_for_job(kind@, job_id@, payload@, *lookups) == Some(identity@),
            None => spec_identity_for_job(kind@, job_id@, payload@, *lookups) is None,
        },
{
    if str_eq(kind, SOURCE_REFRESH_KIND) {
        Some(match json_str_field(payload, "adapterId") {
            Some(a) => source_refresh_identity(lookups, a.as_str()),
            None => ActivityIdentity::corrupted(job_id),
        })
    } else if str_eq(kind, SOURCE_COMPANY_REFRESH_KIND) {
        Some(company_field_identity(job_id, payload, lookups, "company-refresh:",
            ActivityFamily::CompanyRefresh, Some(ActivityTool::Feed)))
    } else if str_eq(kind, REGISTRY_REFRESH_KIND) {
        Some(registry_refresh_identity())
    } else if str_eq(kind, FX_DAILY_PULL_KIND) {
        Some(ActivityIdentity {
            activity_key: owned("fx-pull"),
            family: ActivityFamily::FxPull,
            company_id: None,
            subject: owned(NBP_FX_DISPLAY_NAME),
            target: ActivityTarget::Sources,
        })
    } else if str_eq(kind, AGGREGATOR_FUNDAMENTALS_PULL_KIND) {
        Some(aggregator_fundamentals_pull_identity())
    } else if str_eq(kind, MORNING_BRIEFING_KIND) {
        Some(ActivityIdentity {
            activity_key: owned("briefing"),
            family: ActivityFamily::Briefing,
            company_id: None,
            subject: String::new(),
            target: ActivityTarget::Today,
        })
    } else if str_eq(kind, COMPANY_BACKFILL_KIND) {
        Some(company_field_identity(job_id, payload, lookups, "history-fetch:",
            ActivityFamily::HistoryFetch, Some(ActivityTool::Pokrycie)))
    } else if str_eq(kind, QUOTE_BACKFILL_KIND) {
        Some(company_field_identity(job_id, payload, lookups, "price-history:",
            ActivityFamily::PriceHistory, None))
    } else if str_eq(kind, HISTORY_SWEEP_KIND) {
        Some(scoped_field_identity(job_id, payload, lookups, "sweep_id", &lookups.sweep_companies,
            "report-sweep:", ActivityFamily::ReportSweep))
    } else if str_eq(kind, PIPELINE_REEXTRACTION_KIND) {
        Some(scoped_field_identity(job_id, payload, lookups, "batch_id", &lookups.batch_companies,
            "reextraction:", ActivityFamily::Reextraction))
    } else if str_eq(kind, OWNERSHIP_EXTRACTION_KIND) || str_eq(kind, MANAGEMENT_EXTRACTION_KIND) {
        let ownership = str_eq(kind, OWNERSHIP_EXTRACTION_KIND);
        Some(document_reading_identity(job_id, payload, lookups, ownership))
    } else if str_eq(kind, AUTOPILOT_STAGE_KIND) {
        Some(autopilot_identity(job_id, payload, lookups))
    } else if str_eq(kind, KPI_INGEST_VALIDATE_KIND) || str_eq(kind, KPI_INGEST_COMMIT_KIND) {
        Some(kpi_identity(job_id, lookups))
    } else {
        None
    }
}

/// A video transcript job, as identity resolution reads it.
#[derive(Debug, Clone, PartialEq, Eq)]
pub struct TranscriptJobRef {
    pub id: String,
    pub company_id: Option<String>,
    pub source_url: String,
    pub source_label: Option<String>,
}

/// Whether `s` has a character other than whitespace.
pub open spec fn has_content(s: Seq<char>) -> bool {
    exists|i: int| 0 <= i < s.len() && !crate::text::spec_is_whitespace(#[trigger] s[i])
}

/// The identity of a video transcript job: subject the source label, falling
/// back to the source URL when the label is missing or blank.
pub fn identity_for_transcript(job: &TranscriptJobRef) -> (r: ActivityIdentity)
    ensures
        r@ == (IdentityView {
            activity_key: "transcript:"@ + job.id@,
            family: ActivityFamily::Transcript,
            company_id: opt_text(job.company_id),
            subject: match job.source_label {
                Some(label) if has_content(label@) => label@,
                _ => job.source_url@,
            },
            target: TargetView::Transcripts,
        }),
{
    let subject = match &job.source_label {
        Some(label) if crate::text::has_non_whitespace(label.as_str()) => label.clone(),
        _ => job.source_url.clone(),
    };
    let company_id = match &job.company_id {
        Some(c) => Some(c.clone()),
        None => None,
    };
    ActivityIdentity {
        activity_key: concat2("transcript:", job.id.as_str()),
        family: ActivityFamily::Transcript,
        company_id,
        subject,
        target: ActivityTarget::Transcripts,
    }
}

} // verus!
