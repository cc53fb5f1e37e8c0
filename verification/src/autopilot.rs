//! The autonomous report pipeline: one `autopilot_stage` queue job per stage
//! (`fetch -> extract -> diff -> cross_reference -> notify`), each naming its
//! run and enqueuing the next on success; plus the detection ranking that picks
//! the newest periodic report per statement type.

use vstd::prelude::*;
use vstd::string::StringSliceAdditionalSpecFns;
use crate::bytes::{compare_bytes, lex_lt};
use crate::queue::{JobQueue, JobView};
use crate::runs::{run_ids_unique, run_of, AutopilotRuns, RunView};
use crate::stages::{
    enqueue_extraction_run, lemma_begin_keeps_runs, lemma_run_present_after_begin, spec_enqueue_extraction,
    spec_extraction_run_id,
};
use crate::text::{before_query, chars_of, concat2, is_prefix, is_suffix, occurrence_from, owned, spec_lowercase, str_eq};

verus! {

pub const STAGE_FETCH: &'static str = "fetch";
pub const STAGE_EXTRACT: &'static str = "extract";
pub const STAGE_DIFF: &'static str = "diff";
pub const STAGE_CROSS_REFERENCE: &'static str = "cross_reference";
pub const STAGE_NOTIFY: &'static str = "notify";

/// `autopilot_run.trigger` for a run started by the history sweep.
pub const TRIGGER_HISTORY_SWEEP: &'static str = "history_sweep";

/// The automation mode in which a company is left alone.
pub const MODE_OFF: &'static str = "off";

/// Queue attempts per stage: only a transient stage failure consumes retries.
pub const STAGE_MAX_ATTEMPTS: i64 = 3;

/// The queue job id of `stage` of `run_id`: `autopilot:{run}:{stage}`.
pub open spec fn spec_stage_job_id(run_id: Seq<char>, stage: Seq<char>) -> Seq<char> {
    "autopilot:"@ + run_id + ":"@ + stage
}

/// The queue job id of `stage` of `run_id`.
pub fn stage_job_id(run_id: &str, stage: &str) -> (r: String)
    ensures
        r@ == spec_stage_job_id(run_id@, stage@),
{
    let mut s = concat2("autopilot:", run_id);
    s.append(":");
    s.append(stage);
    s
}

/// The stage after `stage` in pipeline order; `None` after `notify` or for an
/// unknown stage.
pub open spec fn spec_next_stage(stage: Seq<char>) -> Option<Seq<char>> {
    if stage == STAGE_FETCH@ {
        Some(STAGE_EXTRACT@)
    } else if stage == STAGE_EXTRACT@ {
        Some(STAGE_DIFF@)
    } else if stage == STAGE_DIFF@ {
        Some(STAGE_CROSS_REFERENCE@)
    } else if stage == STAGE_CROSS_REFERENCE@ {
        Some(STAGE_NOTIFY@)
    } else {
        None
    }
}

/// The stage after `stage`.
pub fn next_stage(stage: &str) -> (r: Option<&'static str>)
    ensures
        match r {
            Some(s) => spec_next_stage(stage@) == Some(s@),
            None => spec_next_stage(stage@) is None,
        },
{
    if str_eq(stage, STAGE_FETCH) {
        Some(STAGE_EXTRACT)
    } else if str_eq(stage, STAGE_EXTRACT) {
        Some(STAGE_DIFF)
    } else if str_eq(stage, STAGE_DIFF) {
        Some(STAGE_CROSS_REFERENCE)
    } else if str_eq(stage, STAGE_CROSS_REFERENCE) {
        Some(STAGE_NOTIFY)
    } else {
        None
    }
}

/// Whether a transient failure is on the stage job's last allowed attempt.
pub fn last_attempt_exhausted(attempts: i64, max_attempts: i64) -> (r: bool)
    ensures
        r == (attempts >= max_attempts),
{
    attempts >= max_attempts
}

/// Why a run could not produce KPI facts, as a typed code.
#[derive(Debug, Clone, Copy, PartialEq, Eq, Structural)]
pub enum KpiUnavailableReason {
    QuotaExhausted,
    ProviderNotConfigured,
    ProviderError,
    NoDeterministicTier,
    WitnessFallback,
    PdfDocument,
}

/// The stable code of a reason.
pub open spec fn reason_code(r: KpiUnavailableReason) -> Seq<char> {
    match r {
        KpiUnavailableReason::QuotaExhausted => "quota_exhausted"@,
        KpiUnavailableReason::ProviderNotConfigured => "provider_not_configured"@,
        KpiUnavailableReason::ProviderError => "provider_error"@,
        KpiUnavailableReason::NoDeterministicTier => "no_deterministic_tier"@,
        KpiUnavailableReason::WitnessFallback => "witness_fallback"@,
        KpiUnavailableReason::PdfDocument => "pdf_document"@,
    }
}

/// The typed code a stored delta `reason` maps to (the AI-era vocabulary kept).
pub open spec fn spec_from_delta_reason(reason: Seq<char>) -> KpiUnavailableReason {
    if reason == "quota_exhausted"@ {
        KpiUnavailableReason::QuotaExhausted
    } else if reason == "provider_not_configured"@ || reason == "no_vision_provider"@ {
        KpiUnavailableReason::ProviderNotConfigured
    } else if reason == "witness_fallback"@ {
        KpiUnavailableReason::WitnessFallback
    } else if reason == "pdf_document"@ {
        KpiUnavailableReason::PdfDocument
    } else if is_prefix("provider_error"@, reason) {
        KpiUnavailableReason::ProviderError
    } else {
        KpiUnavailableReason::NoDeterministicTier
    }
}

impl KpiUnavailableReason {
    /// The stable code of this reason.
    pub fn as_str(self) -> (r: &'static str)
        ensures
            r@ == reason_code(self),
    {
        match self {
            Self::QuotaExhausted => "quota_exhausted",
            Self::ProviderNotConfigured => "provider_not_configured",
            Self::ProviderError => "provider_error",
            Self::NoDeterministicTier => "no_deterministic_tier",
            Self::WitnessFallback => "witness_fallback",
            Self::PdfDocument => "pdf_document",
        }
    }

    /// Map a `reason` stored in a run's delta onto a typed code.
    pub fn from_delta_reason(reason: &str) -> (r: KpiUnavailableReason)
        ensures
            r == spec_from_delta_reason(reason@),
    {
        if str_eq(reason, "quota_exhausted") {
            Self::QuotaExhausted
        } else if str_eq(reason, "provider_not_configured") || str_eq(reason, "no_vision_provider") {
            Self::ProviderNotConfigured
        } else if str_eq(reason, "witness_fallback") {
            Self::WitnessFallback
        } else if str_eq(reason, "pdf_document") {
            Self::PdfDocument
        } else if crate::text::starts_with(reason, "provider_error") {
            Self::ProviderError
        } else {
            Self::NoDeterministicTier
        }
    }
}

// ---------------------------------------------------------------------------
// Disclosure dates and the newest periodic report per statement type.
// ---------------------------------------------------------------------------

/// An ASCII digit.
pub open spec fn is_digit(c: char) -> bool {
    '0' <= c <= '9'
}

/// The disclosure month `YYYY-MM` an ESPI/EBI attachment URL carries in its
/// first `/emitent/YYYY-MM/` segment (month 01..12), if any.
pub open spec fn spec_disclosure_month(url: Seq<char>) -> Option<Seq<char>> {
    let marker = "/emitent/"@;
    let p = occurrence_from(url, marker, 0);
    if p < 0 {
        None
    } else {
        let rest = url.skip(p + marker.len());
        if rest.len() < 8 || !is_digit(rest[0]) || !is_digit(rest[1]) || !is_digit(rest[2])
            || !is_digit(rest[3]) || rest[4] != '-' || !is_digit(rest[5]) || !is_digit(rest[6])
            || rest[7] != '/' {
            None
        } else {
            let month = (rest[5] as int - '0' as int) * 10 + (rest[6] as int - '0' as int);
            if 1 <= month <= 12 { Some(rest.take(7)) } else { None }
        }
    }
}

fn digit_at(v: &Vec<char>, i: usize) -> (r: bool)
    requires
        i < v@.len(),
    ensures
        r == is_digit(v@[i as int]),
{
    v[i] >= '0' && v[i] <= '9'
}

/// The disclosure month of an attachment URL (`/emitent/YYYY-MM/`).
pub fn disclosure_month_from_url(url: &str) -> (r: Option<String>)
    ensures
        crate::activity::opt_text(r) == spec_disclosure_month(url@),
{
    let marker = "/emitent/";
    let u = chars_of(url);
    let m = chars_of(marker);
    match crate::text::find_chars(&u, &m) {
        None => None,
        Some(p) => {
            let ml = m.len();
            let ul = u.len();
            assert(p + ml <= ul);
            let start = p + ml;
            let rest = crate::text::sub_chars(&u, start, u.len());
            proof {
                assert(rest@ =~= url@.skip(p + marker@.len()));
            }
            if rest.len() < 8 || !digit_at(&rest, 0) || !digit_at(&rest, 1) || !digit_at(&rest, 2)
                || !digit_at(&rest, 3) || rest[4] != '-' || !digit_at(&rest, 5) || !digit_at(&rest, 6)
                || rest[7] != '/' {
                return None;
            }
            let tens = (rest[5] as u32) - ('0' as u32);
            let ones = (rest[6] as u32) - ('0' as u32);
            let month = tens * 10 + ones;
            if 1 <= month && month <= 12 {
                proof {
                    assert(rest@.subrange(0, 7) =~= rest@.take(7));
                }
                Some(crate::text::string_from_chars(&crate::text::sub_chars(&rest, 0, 7)))
            } else {
                None
            }
        },
    }
}

/// A stored report document, as detection and the sweeps read it.
#[derive(Debug, Clone, PartialEq, Eq)]
pub struct ReportDoc {
    pub id: String,
    pub url: String,
    pub title: Option<String>,
    pub fetch_status: String,
    pub fetched_at: Option<String>,
    pub created_at: String,
    /// The sniffed container of the stored bytes (`pdf`, `xml`, `html`, `zip`, ...).
    pub detected_container: Option<String>,
    /// The statement type the document classifies as (e.g. `ssf`), when it is a
    /// financial statement.
    pub statement: Option<String>,
    pub local_path: Option<String>,
    /// Whether the stored file's leading bytes, as read by the caller, declare
    /// inline XBRL (consulted for markup only; an unreadable file reads `false`).
    pub markup_is_inline_xbrl: bool,
}

/// The bytes of a string.
pub open spec fn bytes_of(s: String) -> Seq<u8> {
    vstd::utf8::encode_utf8(s@)
}

/// The first ten bytes of `s` when it has at least ten, else all of it.
pub open spec fn first_ten(s: Seq<u8>) -> Seq<u8> {
    if s.len() >= 10 { s.take(10) } else { s }
}

/// A timestamp can be cut after its tenth byte without splitting a character.
pub open spec fn cuttable(s: String) -> bool {
    bytes_of(s).len() >= 10 ==> vstd::utf8::is_char_boundary(bytes_of(s), 10)
}

/// The document's disclosure key can be computed: the key cuts a timestamp
/// after its first ten bytes, which must fall on a character boundary.
pub open spec fn key_computable(d: ReportDoc) -> bool {
    spec_disclosure_month(d.url@) is None ==> match d.fetched_at {
        Some(f) if bytes_of(f).len() >= 10 => cuttable(f),
        _ => cuttable(d.created_at),
    }
}

/// The sortable disclosure-date key (`YYYY-MM-DD`) of a document, as bytes: the
/// URL's disclosure month (day `01`), else the first ten bytes of `fetched_at`
/// (when it has ten), else of `created_at`.
pub open spec fn disclosure_key_bytes(d: ReportDoc) -> Seq<u8> {
    match spec_disclosure_month(d.url@) {
        Some(m) => vstd::utf8::encode_utf8(m + "-01"@),
        None => match d.fetched_at {
            Some(f) if bytes_of(f).len() >= 10 => bytes_of(f).take(10),
            _ => first_ten(bytes_of(d.created_at)),
        },
    }
}

fn cut_ten(s: &String) -> (r: String)
    requires
        bytes_of(*s).len() >= 10,
        cuttable(*s),
    ensures
        bytes_of(r) == bytes_of(*s).take(10),
{
    let st = s.as_str();
    assert(st.spec_bytes() == bytes_of(*s));
    let (head, _) = st.split_at(10);
    let r = head.to_owned();
    proof {
        assert(bytes_of(r) == vstd::utf8::encode_utf8(head@));
    }
    r
}

/// The disclosure-date key of a document.
pub fn report_disclosure_key(document: &ReportDoc) -> (r: String)
    requires
        key_computable(*document),
    ensures
        bytes_of(r) == disclosure_key_bytes(*document),
{
    if let Some(month) = disclosure_month_from_url(document.url.as_str()) {
        return concat2(month.as_str(), "-01");
    }
    if let Some(fetched) = &document.fetched_at {
        let n = fetched.as_str().as_bytes().len();
        assert(n == bytes_of(*fetched).len());
        if n >= 10 {
            return cut_ten(fetched);
        }
    }
    let n = document.created_at.as_str().as_bytes().len();
    assert(n == bytes_of(document.created_at).len());
    assert(cuttable(document.created_at));
    if n >= 10 {
        return cut_ten(&document.created_at);
    }
    document.created_at.clone()
}


// ---------------------------------------------------------------------------
// Containers and the structured tie-break.
// ---------------------------------------------------------------------------

/// The container a stored document's bytes are in.
#[derive(Debug, Clone, Copy, PartialEq, Eq, Structural)]
pub enum Container {
    Pdf,
    Xml,
    Html,
    Zip,
    Other,
}

/// The container a sniffed container code names (`Other` for an unknown code).
pub open spec fn container_from_code(code: Seq<char>) -> Container {
    if code == "pdf"@ {
        Container::Pdf
    } else if code == "xml"@ {
        Container::Xml
    } else if code == "html"@ || code == "xhtml"@ {
        Container::Html
    } else if code == "zip"@ {
        Container::Zip
    } else {
        Container::Other
    }
}

/// The container a document name (a URL) suggests by its extension, read
/// case-insensitively and before any query or fragment.
pub open spec fn container_from_name(name: Seq<char>) -> Container {
    let path = spec_lowercase(before_query(name));
    if is_suffix(".xhtml"@, path) || is_suffix(".html"@, path) || is_suffix(".htm"@, path) {
        Container::Html
    } else if is_suffix(".xml"@, path) {
        Container::Xml
    } else if is_suffix(".zip"@, path) {
        Container::Zip
    } else if is_suffix(".pdf"@, path) {
        Container::Pdf
    } else {
        Container::Other
    }
}

/// The container of a document: the sniffed container when one is stored and
/// known, else what its URL's name suggests (a never-fetched row has no bytes).
pub open spec fn spec_resolved_container(d: ReportDoc) -> Container {
    match d.detected_container {
        Some(code) if container_from_code(code@) != Container::Other => container_from_code(code@),
        _ => container_from_name(d.url@),
    }
}

/// A structured statement: an XML or (X)HTML markup instance, or a report package.
pub open spec fn spec_is_structured(d: ReportDoc) -> bool {
    let c = spec_resolved_container(d);
    c == Container::Xml || c == Container::Html || c == Container::Zip
}

fn container_of_code(code: &str) -> (r: Container)
    ensures
        r == container_from_code(code@),
{
    if str_eq(code, "pdf") {
        Container::Pdf
    } else if str_eq(code, "xml") {
        Container::Xml
    } else if str_eq(code, "html") || str_eq(code, "xhtml") {
        Container::Html
    } else if str_eq(code, "zip") {
        Container::Zip
    } else {
        Container::Other
    }
}

fn container_of_name(name: &str) -> (r: Container)
    ensures
        r == container_from_name(name@),
{
    let bare = crate::text::strip_query(name);
    let path = crate::text::lowercase(bare.as_str());
    let p = path.as_str();
    if crate::text::ends_with(p, ".xhtml") || crate::text::ends_with(p, ".html") || crate::text::ends_with(p, ".htm") {
        Container::Html
    } else if crate::text::ends_with(p, ".xml") {
        Container::Xml
    } else if crate::text::ends_with(p, ".zip") {
        Container::Zip
    } else if crate::text::ends_with(p, ".pdf") {
        Container::Pdf
    } else {
        Container::Other
    }
}

/// The resolved container of a document.
pub fn resolved_container(document: &ReportDoc) -> (r: Container)
    ensures
        r == spec_resolved_container(*document),
{
    if let Some(code) = &document.detected_container {
        let c = container_of_code(code.as_str());
        if c != Container::Other {
            return c;
        }
    }
    container_of_name(document.url.as_str())
}

/// Whether a report document is a structured statement rather than a PDF.
pub fn is_structured_document(document: &ReportDoc) -> (r: bool)
    ensures
        r == spec_is_structured(*document),
{
    let c = resolved_container(document);
    c == Container::Xml || c == Container::Html || c == Container::Zip
}

/// `candidate` replaces `current` as the newest of its statement type: a
/// strictly later disclosure key wins; on an equal key a structured candidate
/// wins over an unstructured current.
pub open spec fn spec_prefers(current: ReportDoc, candidate: ReportDoc) -> bool {
    let a = disclosure_key_bytes(current);
    let b = disclosure_key_bytes(candidate);
    lex_lt(a, b) || (a == b && spec_is_structured(candidate) && !spec_is_structured(current))
}

/// Whether `candidate` should replace `current` as the newest document.
pub fn prefers_candidate(current: &ReportDoc, candidate: &ReportDoc) -> (r: bool)
    requires
        key_computable(*current),
        key_computable(*candidate),
    ensures
        r == spec_prefers(*current, *candidate),
{
    let a = report_disclosure_key(current);
    let b = report_disclosure_key(candidate);
    let ab = a.as_str().as_bytes();
    let bb = b.as_str().as_bytes();
    assert(ab@ == bytes_of(a));
    assert(bb@ == bytes_of(b));
    let ord = compare_bytes(ab, bb);
    if ord < 0 {
        true
    } else if ord > 0 {
        false
    } else {
        is_structured_document(candidate) && !is_structured_document(current)
    }
}

// ---------------------------------------------------------------------------
// The newest periodic report per statement type.
// ---------------------------------------------------------------------------

/// A periodic report: still carries a file and classifies as a statement.
pub open spec fn is_periodic(d: ReportDoc) -> bool {
    d.fetch_status@ != "metadata_only"@ && d.statement is Some
}

/// The first slot holding statement type `st`, or -1.
pub open spec fn slot_index(slots: Seq<ReportDoc>, st: Seq<char>) -> int
    decreases slots.len(),
{
    if slots.len() == 0 {
        -1
    } else {
        let r = slot_index(slots.drop_last(), st);
        if r >= 0 {
            r
        } else if crate::activity::opt_text(slots.last().statement) == Some(st) {
            slots.len() - 1
        } else {
            -1
        }
    }
}

/// The newest periodic report of each statement type among `docs`, one slot
/// per type in the order the types first appear: each periodic document takes
/// its type's slot when the slot is empty or [`spec_prefers`] it over the
/// slot's holder.
pub open spec fn spec_newest_per_type(docs: Seq<ReportDoc>) -> Seq<ReportDoc>
    decreases docs.len(),
{
    if docs.len() == 0 {
        Seq::empty()
    } else {
        let prev = spec_newest_per_type(docs.drop_last());
        let d = docs.last();
        if !is_periodic(d) {
            prev
        } else {
            let i = slot_index(prev, d.statement->0@);
            if i < 0 {
                prev.push(d)
            } else if spec_prefers(prev[i], d) {
                prev.update(i, d)
            } else {
                prev
            }
        }
    }
}

proof fn lemma_slot_index_range(slots: Seq<ReportDoc>, st: Seq<char>)
    ensures
        -1 <= slot_index(slots, st) < slots.len(),
        slot_index(slots, st) >= 0 ==> crate::activity::opt_text(slots[slot_index(slots, st)].statement) == Some(st),
    decreases slots.len(),
{
    if slots.len() > 0 {
        lemma_slot_index_range(slots.drop_last(), st);
    }
}

proof fn lemma_slot_index_prefix(slots: Seq<ReportDoc>, st: Seq<char>, j: int)
    requires
        0 <= j <= slots.len(),
        slot_index(slots.take(j), st) >= 0,
    ensures
        slot_index(slots, st) == slot_index(slots.take(j), st),
    decreases slots.len(),
{
    if j == slots.len() {
        assert(slots.take(j) =~= slots);
    } else {
        assert(slots.drop_last().take(j) =~= slots.take(j));
        lemma_slot_index_prefix(slots.drop_last(), st, j);
    }
}

fn find_slot(slots: &Vec<ReportDoc>, st: &str) -> (r: Option<usize>)
    ensures
        match r {
            Some(i) => i as int == slot_index(slots@, st@) && i < slots@.len(),
            None => slot_index(slots@, st@) < 0,
        },
{
    let mut i: usize = 0;
    while i < slots.len()
        invariant
            i <= slots@.len(),
            slot_index(slots@.take(i as int), st@) < 0,
        decreases slots.len() - i,
    {
        let hit = match &slots[i].statement {
            Some(s) => str_eq(s.as_str(), st),
            None => false,
        };
        proof {
            assert(slots@.take(i + 1).drop_last() =~= slots@.take(i as int));
            assert(slots@.take(i + 1).last() == slots@[i as int]);
        }
        if hit {
            proof {
                lemma_slot_index_prefix(slots@, st@, i + 1);
            }
            return Some(i);
        }
        i = i + 1;
    }
    proof {
        assert(slots@.take(i as int) =~= slots@);
    }
    None
}

/// Keep the newest periodic report per statement type (see [`spec_newest_per_type`]).
pub fn newest_periodic_reports_per_type(documents: Vec<ReportDoc>) -> (r: Vec<ReportDoc>)
    requires
        forall|k: int| 0 <= k < documents@.len() ==> key_computable(#[trigger] documents@[k]),
    ensures
        r@ == spec_newest_per_type(documents@),
{
    let ghost all = documents@;
    let n = documents.len();
    assert(all.len() == n);
    let mut rest = documents;
    let mut slots: Vec<ReportDoc> = Vec::new();
    let mut k: usize = 0;
    while rest.len() > 0
        invariant
            k + rest@.len() == all.len(),
            all.len() <= usize::MAX,
            rest@ == all.skip(k as int),
            slots@ == spec_newest_per_type(all.take(k as int)),
            forall|j: int| 0 <= j < slots@.len() ==> key_computable(#[trigger] slots@[j]),
            forall|j: int| 0 <= j < all.len() ==> key_computable(#[trigger] all[j]),
        decreases rest.len(),
    {
        let document = rest.remove(0);
        let ghost before = slots@;
        proof {
            assert(document == all[k as int]);
            assert(all.take(k + 1).drop_last() =~= all.take(k as int));
            assert(all.take(k + 1).last() == all[k as int]);
            assert(rest@ =~= all.skip(k + 1));
        }
        let periodic = !str_eq(document.fetch_status.as_str(), "metadata_only") && document.statement.is_some();
        if periodic {
            let st = match &document.statement {
                Some(s) => owned(s.as_str()),
                None => String::new(),
            };
            match find_slot(&slots, st.as_str()) {
                None => {
                    slots.push(document);
                },
                Some(i) => {
                    if prefers_candidate(&slots[i], &document) {
                        slots.set(i, document);
                    }
                },
            }
        }
        k = k + 1;
    }
    proof {
        assert(all.take(k as int) =~= all);
    }
    slots
}


// ---------------------------------------------------------------------------
// Extractability and the detection sweep.
// ---------------------------------------------------------------------------

/// Whether some extraction tier could read a stored document: it must carry a
/// file; a PDF or a report package is extractable by construction; markup
/// only when it is inline XBRL; bytes in no known container never.
pub open spec fn spec_document_is_extractable(d: ReportDoc) -> bool {
    d.local_path is Some && match spec_resolved_container(d) {
        Container::Pdf | Container::Zip => true,
        Container::Xml | Container::Html => d.markup_is_inline_xbrl,
        Container::Other => false,
    }
}

/// Whether some extraction tier could read a stored document.
pub fn document_is_extractable(document: &ReportDoc) -> (r: bool)
    ensures
        r == spec_document_is_extractable(*document),
{
    if document.local_path.is_none() {
        return false;
    }
    match resolved_container(document) {
        Container::Pdf | Container::Zip => true,
        Container::Xml | Container::Html => document.markup_is_inline_xbrl,
        Container::Other => false,
    }
}

/// A company opted into automation, as the detection sweep reads it: its mode
/// and its report documents, each `None` where reading it failed.
pub struct DetectionCompany {
    pub company_id: String,
    pub mode: Option<String>,
    pub documents: Option<Vec<ReportDoc>>,
}

/// The runs and the queue after starting a `detection` run for each of `docs`
/// in order.
pub open spec fn spec_detect_documents(
    runs: Seq<RunView>,
    jobs: Seq<JobView>,
    company_id: Seq<char>,
    mode: Seq<char>,
    docs: Seq<ReportDoc>,
    current_version: u32,
) -> (Seq<RunView>, Seq<JobView>)
    decreases docs.len(),
{
    if docs.len() == 0 {
        (runs, jobs)
    } else {
        let (r0, j0) = spec_detect_documents(runs, jobs, company_id, mode, docs.drop_last(), current_version);
        let d = docs.last();
        let (r1, j1, _) = spec_enqueue_extraction(r0, j0, company_id, d.id@, "detection"@, mode, None,
            spec_document_is_extractable(d), current_version, Ok(()));
        (r1, j1)
    }
}

/// The runs and the queue after the detection sweep over `companies` in order:
/// a company whose mode or documents could not be read, or in mode `off`, is
/// skipped; for any other, a run is started for the newest periodic report of
/// each statement type ([`spec_newest_per_type`]).
pub open spec fn spec_detection_sweep(
    runs: Seq<RunView>,
    jobs: Seq<JobView>,
    companies: Seq<DetectionCompany>,
    current_version: u32,
) -> (Seq<RunView>, Seq<JobView>)
    decreases companies.len(),
{
    if companies.len() == 0 {
        (runs, jobs)
    } else {
        let (r0, j0) = spec_detection_sweep(runs, jobs, companies.drop_last(), current_version);
        let c = companies.last();
        match (c.mode, c.documents) {
            (Some(mode), Some(docs)) => if mode@ == MODE_OFF@ {
                (r0, j0)
            } else {
                spec_detect_documents(r0, j0, c.company_id@, mode@, spec_newest_per_type(docs@), current_version)
            },
            _ => (r0, j0),
        }
    }
}

/// Every document of the company can have its disclosure key computed.
pub open spec fn detection_input_ok(c: DetectionCompany) -> bool {
    match c.documents {
        Some(docs) => forall|k: int| 0 <= k < docs@.len() ==> key_computable(#[trigger] docs@[k]),
        None => true,
    }
}

fn detect_documents(
    runs: &mut AutopilotRuns,
    jobs: &mut JobQueue,
    company_id: &str,
    mode: &str,
    docs: &Vec<ReportDoc>,
    current_version: u32,
)
    requires
        old(runs).wf(),
        old(jobs).wf(),
    ensures
        final(runs).wf(),
        final(jobs).wf(),
        (final(runs)@, final(jobs)@) == spec_detect_documents(old(runs)@, old(jobs)@, company_id@, mode@, docs@, current_version),
{
    let mut i: usize = 0;
    proof {
        assert(docs@.take(0) =~= Seq::<ReportDoc>::empty());
    }
    while i < docs.len()
        invariant
            i <= docs@.len(),
            runs.wf(),
            jobs.wf(),
            (runs@, jobs@) == spec_detect_documents(old(runs)@, old(jobs)@, company_id@, mode@, docs@.take(i as int), current_version),
        decreases docs.len() - i,
    {
        proof {
            assert(docs@.take(i + 1).drop_last() =~= docs@.take(i as int));
            assert(docs@.take(i + 1).last() == docs@[i as int]);
        }
        let d = &docs[i];
        let extractable = document_is_extractable(d);
        let _ = enqueue_extraction_run(runs, jobs, company_id, d.id.as_str(), "detection", mode, None, extractable, current_version, Ok(()));
        i = i + 1;
    }
    proof {
        assert(docs@.take(i as int) =~= docs@);
    }
}

/// The detection sweep: for every company opted into automation whose mode
/// and documents could be read and whose mode is not `off`, start (or re-arm,
/// idempotently) a `detection` run for the newest periodic report of each
/// statement type (see [`spec_detection_sweep`]; the store accepts each queue
/// write).
pub fn run_detection_sweep(
    runs: &mut AutopilotRuns,
    jobs: &mut JobQueue,
    companies: Vec<DetectionCompany>,
    current_version: u32,
)
    requires
        old(runs).wf(),
        old(jobs).wf(),
        forall|k: int| 0 <= k < companies@.len() ==> detection_input_ok(#[trigger] companies@[k]),
    ensures
        final(runs).wf(),
        final(jobs).wf(),
        (final(runs)@, final(jobs)@) == spec_detection_sweep(old(runs)@, old(jobs)@, companies@, current_version),
{
    let ghost all = companies@;
    let mut rest = companies;
    let ghost mut done: int = 0;
    proof {
        assert(all.take(0) =~= Seq::<DetectionCompany>::empty());
        assert(rest@ =~= all.skip(0));
    }
    while rest.len() > 0
        invariant
            0 <= done <= all.len(),
            rest@ == all.skip(done),
            forall|k: int| 0 <= k < all.len() ==> detection_input_ok(#[trigger] all[k]),
            runs.wf(),
            jobs.wf(),
            (runs@, jobs@) == spec_detection_sweep(old(runs)@, old(jobs)@, all.take(done), current_version),
        decreases rest.len(),
    {
        let company = rest.remove(0);
        proof {
            assert(company == all[done]);
            assert(all.take(done + 1).drop_last() =~= all.take(done));
            assert(all.take(done + 1).last() == all[done]);
            assert(rest@ =~= all.skip(done + 1));
            assert(detection_input_ok(all[done]));
            done = done + 1;
        }
        let DetectionCompany { company_id, mode, documents } = company;
        match (mode, documents) {
            (Some(mode), Some(docs)) => {
                if !str_eq(mode.as_str(), MODE_OFF) {
                    let newest = newest_periodic_reports_per_type(docs);
                    detect_documents(runs, jobs, company_id.as_str(), mode.as_str(), &newest, current_version);
                }
            },
            _ => {},
        }
    }
    proof {
        assert(all.take(done) =~= all);
    }
}


// ---------------------------------------------------------------------------
// A second detection sweep starts nothing new.
// ---------------------------------------------------------------------------

/// Every document of `docs` has its run for `company_id`.
pub open spec fn documents_have_runs(runs: Seq<RunView>, company_id: Seq<char>, docs: Seq<ReportDoc>) -> bool {
    forall|k: int| 0 <= k < docs.len() ==> run_of(runs, spec_extraction_run_id(company_id, (#[trigger] docs[k]).id@)) is Some
}

/// Every document detection starts a run for among `companies` has its run.
pub open spec fn detection_targets_have_runs(runs: Seq<RunView>, companies: Seq<DetectionCompany>) -> bool {
    forall|k: int| 0 <= k < companies.len() ==> match ((#[trigger] companies[k]).mode, companies[k].documents) {
        (Some(mode), Some(docs)) => mode@ != MODE_OFF@ ==> documents_have_runs(runs, companies[k].company_id@, spec_newest_per_type(docs@)),
        _ => true,
    }
}

proof fn lemma_detect_documents_runs(
    runs: Seq<RunView>,
    jobs: Seq<JobView>,
    company_id: Seq<char>,
    mode: Seq<char>,
    docs: Seq<ReportDoc>,
    current_version: u32,
)
    requires
        run_ids_unique(runs),
    ensures
        ({
            let (rs, _) = spec_detect_documents(runs, jobs, company_id, mode, docs, current_version);
            &&& run_ids_unique(rs)
            &&& documents_have_runs(rs, company_id, docs)
            &&& forall|x: Seq<char>| run_of(runs, x) is Some ==> #[trigger] run_of(rs, x) is Some
            &&& rs.len() >= runs.len()
            &&& documents_have_runs(runs, company_id, docs) ==> rs.len() == runs.len()
        }),
    decreases docs.len(),
{
    if docs.len() > 0 {
        let init = docs.drop_last();
        lemma_detect_documents_runs(runs, jobs, company_id, mode, init, current_version);
        let (r0, j0) = spec_detect_documents(runs, jobs, company_id, mode, init, current_version);
        let d = docs.last();
        let ex = spec_document_is_extractable(d);
        lemma_run_present_after_begin(r0, company_id, d.id@, "detection"@, mode, None, ex, current_version);
        let (r1, _, _) = spec_enqueue_extraction(r0, j0, company_id, d.id@, "detection"@, mode, None, ex, current_version, Ok(()));
        assert forall|x: Seq<char>| run_of(r0, x) is Some implies #[trigger] run_of(r1, x) is Some by {
            lemma_begin_keeps_runs(r0, company_id, d.id@, "detection"@, mode, None, ex, current_version, x);
        }
        assert forall|k: int| 0 <= k < docs.len() implies run_of(r1, spec_extraction_run_id(company_id, (#[trigger] docs[k]).id@)) is Some by {
            if k < init.len() {
                assert(docs[k] == init[k]);
            }
        }
        if documents_have_runs(runs, company_id, docs) {
            assert(documents_have_runs(runs, company_id, init)) by {
                assert forall|k: int| 0 <= k < init.len() implies run_of(runs, spec_extraction_run_id(company_id, (#[trigger] init[k]).id@)) is Some by {
                    assert(init[k] == docs[k]);
                }
            }
            assert(run_of(runs, spec_extraction_run_id(company_id, docs[docs.len() - 1].id@)) is Some);
            let did = spec_extraction_run_id(company_id, d.id@);
            assert(run_of(r0, did) is Some);
            lemma_begin_keeps_runs(r0, company_id, d.id@, "detection"@, mode, None, ex, current_version, did);
        } else {
            if run_of(r0, spec_extraction_run_id(company_id, d.id@)) is Some {
                lemma_begin_keeps_runs(r0, company_id, d.id@, "detection"@, mode, None, ex, current_version,
                    spec_extraction_run_id(company_id, d.id@));
            }
        }
    }
}

proof fn lemma_detection_sweep_runs(runs: Seq<RunView>, jobs: Seq<JobView>, companies: Seq<DetectionCompany>, current_version: u32)
    requires
        run_ids_unique(runs),
    ensures
        ({
            let (rs, _) = spec_detection_sweep(runs, jobs, companies, current_version);
            &&& run_ids_unique(rs)
            &&& detection_targets_have_runs(rs, companies)
            &&& forall|x: Seq<char>| run_of(runs, x) is Some ==> #[trigger] run_of(rs, x) is Some
            &&& rs.len() >= runs.len()
            &&& detection_targets_have_runs(runs, companies) ==> rs.len() == runs.len()
        }),
    decreases companies.len(),
{
    if companies.len() > 0 {
        let init = companies.drop_last();
        lemma_detection_sweep_runs(runs, jobs, init, current_version);
        let (r0, j0) = spec_detection_sweep(runs, jobs, init, current_version);
        let c = companies.last();
        assert(c == companies[companies.len() - 1]);
        let (r1, _) = spec_detection_sweep(runs, jobs, companies, current_version);
        match (c.mode, c.documents) {
            (Some(mode), Some(docs)) => {
                if mode@ != MODE_OFF@ {
                    let newest = spec_newest_per_type(docs@);
                    lemma_detect_documents_runs(r0, j0, c.company_id@, mode@, newest, current_version);
                    assert(detection_targets_have_runs(r1, companies)) by {
                        assert forall|k: int| 0 <= k < companies.len() implies match ((#[trigger] companies[k]).mode, companies[k].documents) {
                            (Some(m), Some(ds)) => m@ != MODE_OFF@ ==> documents_have_runs(r1, companies[k].company_id@, spec_newest_per_type(ds@)),
                            _ => true,
                        } by {
                            if k < init.len() {
                                assert(companies[k] == init[k]);
                                match (init[k].mode, init[k].documents) {
                                    (Some(m), Some(ds)) => if m@ != MODE_OFF@ {
                                        let nd = spec_newest_per_type(ds@);
                                        assert forall|j: int| 0 <= j < nd.len() implies
                                            run_of(r1, spec_extraction_run_id(init[k].company_id@, (#[trigger] nd[j]).id@)) is Some by {
                                            assert(run_of(r0, spec_extraction_run_id(init[k].company_id@, nd[j].id@)) is Some);
                                        }
                                    },
                                    _ => {},
                                }
                            }
                        }
                    }
                    if detection_targets_have_runs(runs, companies) {
                        assert(detection_targets_have_runs(runs, init)) by {
                            assert forall|k: int| 0 <= k < init.len() implies match ((#[trigger] init[k]).mode, init[k].documents) {
                                (Some(m), Some(ds)) => m@ != MODE_OFF@ ==> documents_have_runs(runs, init[k].company_id@, spec_newest_per_type(ds@)),
                                _ => true,
                            } by {
                                assert(init[k] == companies[k]);
                            }
                        }
                        assert(documents_have_runs(r0, c.company_id@, newest)) by {
                            assert forall|j: int| 0 <= j < newest.len() implies
                                run_of(r0, spec_extraction_run_id(c.company_id@, (#[trigger] newest[j]).id@)) is Some by {
                                assert(run_of(runs, spec_extraction_run_id(c.company_id@, newest[j].id@)) is Some);
                            }
                        }
                    }
                } else {
                    assert(detection_targets_have_runs(r1, companies)) by {
                        assert forall|k: int| 0 <= k < companies.len() implies match ((#[trigger] companies[k]).mode, companies[k].documents) {
                            (Some(m), Some(ds)) => m@ != MODE_OFF@ ==> documents_have_runs(r1, companies[k].company_id@, spec_newest_per_type(ds@)),
                            _ => true,
                        } by {
                            if k < init.len() {
                                assert(companies[k] == init[k]);
                            }
                        }
                    }
                    if detection_targets_have_runs(runs, companies) {
                        assert(detection_targets_have_runs(runs, init)) by {
                            assert forall|k: int| 0 <= k < init.len() implies match ((#[trigger] init[k]).mode, init[k].documents) {
                                (Some(m), Some(ds)) => m@ != MODE_OFF@ ==> documents_have_runs(runs, init[k].company_id@, spec_newest_per_type(ds@)),
                                _ => true,
                            } by {
                                assert(init[k] == companies[k]);
                            }
                        }
                    }
                }
            },
            _ => {
                assert(detection_targets_have_runs(r1, companies)) by {
                    assert forall|k: int| 0 <= k < companies.len() implies match ((#[trigger] companies[k]).mode, companies[k].documents) {
                        (Some(m), Some(ds)) => m@ != MODE_OFF@ ==> documents_have_runs(r1, companies[k].company_id@, spec_newest_per_type(ds@)),
                        _ => true,
                    } by {
                        if k < init.len() {
                            assert(companies[k] == init[k]);
                        }
                    }
                }
                if detection_targets_have_runs(runs, companies) {
                    assert(detection_targets_have_runs(runs, init)) by {
                        assert forall|k: int| 0 <= k < init.len() implies match ((#[trigger] init[k]).mode, init[k].documents) {
                            (Some(m), Some(ds)) => m@ != MODE_OFF@ ==> documents_have_runs(runs, init[k].company_id@, spec_newest_per_type(ds@)),
                            _ => true,
                        } by {
                            assert(init[k] == companies[k]);
                        }
                    }
                }
            },
        }
    }
}

/// The detection sweep is idempotent: over the same companies, a second sweep
/// starts no new run (every newest report already has its one run).
pub proof fn lemma_detection_sweep_idempotent(runs: Seq<RunView>, jobs: Seq<JobView>, companies: Seq<DetectionCompany>, current_version: u32)
    requires
        run_ids_unique(runs),
    ensures
        ({
            let (r1, j1) = spec_detection_sweep(runs, jobs, companies, current_version);
            spec_detection_sweep(r1, j1, companies, current_version).0.len() == r1.len()
        }),
{
    lemma_detection_sweep_runs(runs, jobs, companies, current_version);
    let (r1, j1) = spec_detection_sweep(runs, jobs, companies, current_version);
    lemma_detection_sweep_runs(r1, j1, companies, current_version);
}

} // verus!
