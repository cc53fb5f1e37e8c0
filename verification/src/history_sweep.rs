//! The history sweep: which periods of a company still need extracting, and
//! driving each through the shared extraction-run path with a counted outcome.
//!
//! A period is a candidate when the coverage read model shows a fetched
//! canonical periodic report for it and no accepted facts. The document the
//! sweep attacks is the canonical unless that one is not extractable, in which
//! case the period's best extractable sibling (ssf before jsf, then the newest)
//! stands in; with none, the canonical is still attacked so the gap is
//! recorded. A company in mode `off` completes the sweep with an explicit
//! `automation_off` reason and nothing enqueued.

use vstd::prelude::*;
use crate::autopilot::{
    bytes_of, document_is_extractable, spec_document_is_extractable, ReportDoc, MODE_OFF, TRIGGER_HISTORY_SWEEP,
};
use crate::bytes::{compare_bytes, lex_lt};
use crate::json::{json_parse_error, json_str_field, json_string, spec_json_parse_error, spec_json_str_field, spec_json_string};
use crate::kinds::HISTORY_SWEEP_KIND;
use crate::queue::{fresh_row, index_of, JobQueue, JobView};
use crate::runs::{run_ids_unique, run_of, AutopilotRuns, RunView};
use crate::stages::{
    enqueue_extraction_run, lemma_begin_keeps_runs, lemma_run_present_after_begin, spec_enqueue_extraction,
    spec_extraction_run_id, EnqueueExtractionOutcome,
};
use crate::reconcile::{domain_views, DomainRow, DomainView};
use crate::text::{concat2, concat3, owned, str_eq};

verus! {

/// A sweep is idempotent, so one attempt is enough.
pub const HISTORY_SWEEP_MAX_ATTEMPTS: i64 = 1;

/// The periodic statement kind of a document.
#[derive(Debug, Clone, Copy, PartialEq, Eq, Structural)]
pub enum PeriodicKind {
    /// A standalone financial statement (`periodic_ssf`).
    Ssf,
    /// A consolidated financial statement (`periodic_jsf`).
    Jsf,
}

/// A stored report document as the sweep groups it: its doc kind and the
/// period the coverage read model derives for it, when it has one.
pub struct SweepDocument {
    pub document: ReportDoc,
    pub doc_kind: Option<String>,
    pub period: Option<(i64, String)>,
}

/// A fetched periodic document with its period.
pub struct PeriodDocument {
    pub fiscal_year: i64,
    pub period_type: String,
    pub kind: PeriodicKind,
    pub document: ReportDoc,
}

/// The periodic kind a doc kind names, if any.
pub open spec fn spec_periodic_kind(doc_kind: Option<String>) -> Option<PeriodicKind> {
    match doc_kind {
        Some(k) => if k@ == "periodic_ssf"@ {
            Some(PeriodicKind::Ssf)
        } else if k@ == "periodic_jsf"@ {
            Some(PeriodicKind::Jsf)
        } else {
            None
        },
        None => None,
    }
}

/// The fetched ssf and jsf documents of `docs` with a period, in order.
pub open spec fn spec_periodic_documents(docs: Seq<SweepDocument>) -> Seq<PeriodDocument>
    decreases docs.len(),
{
    if docs.len() == 0 {
        Seq::empty()
    } else {
        let prev = spec_periodic_documents(docs.drop_last());
        let d = docs.last();
        match (spec_periodic_kind(d.doc_kind), d.period) {
            (Some(kind), Some((fiscal_year, period_type))) => if d.document.fetch_status@ == "fetched"@ {
                prev.push(PeriodDocument { fiscal_year, period_type, kind, document: d.document })
            } else {
                prev
            },
            _ => prev,
        }
    }
}

fn periodic_kind(doc_kind: &Option<String>) -> (r: Option<PeriodicKind>)
    ensures
        r == spec_periodic_kind(*doc_kind),
{
    match doc_kind {
        Some(k) => if str_eq(k.as_str(), "periodic_ssf") {
            Some(PeriodicKind::Ssf)
        } else if str_eq(k.as_str(), "periodic_jsf") {
            Some(PeriodicKind::Jsf)
        } else {
            None
        },
        None => None,
    }
}

/// Every fetched periodic (ssf or jsf) document with a derived period, in
/// order, carrying its kind for the sweep tie-break.
pub fn fetched_periodic_documents(documents: Vec<SweepDocument>) -> (r: Vec<PeriodDocument>)
    ensures
        r@ == spec_periodic_documents(documents@),
{
    let ghost all = documents@;
    let mut rest = documents;
    let mut out: Vec<PeriodDocument> = Vec::new();
    let ghost mut done: int = 0;
    proof {
        assert(all.take(0) =~= Seq::<SweepDocument>::empty());
        assert(rest@ =~= all.skip(0));
    }
    while rest.len() > 0
        invariant
            0 <= done <= all.len(),
            rest@ == all.skip(done),
            out@ == spec_periodic_documents(all.take(done)),
        decreases rest.len(),
    {
        let d = rest.remove(0);
        proof {
            assert(d == all[done]);
            assert(all.take(done + 1).drop_last() =~= all.take(done));
            assert(all.take(done + 1).last() == all[done]);
            assert(rest@ =~= all.skip(done + 1));
            done = done + 1;
        }
        let kind = periodic_kind(&d.doc_kind);
        let fetched = str_eq(d.document.fetch_status.as_str(), "fetched");
        let SweepDocument { document, doc_kind, period } = d;
        match (kind, period) {
            (Some(kind), Some((fiscal_year, period_type))) => {
                if fetched {
                    out.push(PeriodDocument { fiscal_year, period_type, kind, document });
                }
            },
            _ => {},
        }
    }
    proof {
        assert(all.take(done) =~= all);
    }
    out
}

/// A document belongs to the period `(year, period_type)`.
pub open spec fn in_period(d: PeriodDocument, year: i64, period_type: Seq<char>) -> bool {
    d.fiscal_year == year && d.period_type@ == period_type
}

/// The position of the first document of the period whose id is `id`, or -1.
pub open spec fn first_in_period(docs: Seq<PeriodDocument>, year: i64, period_type: Seq<char>, id: Seq<char>) -> int
    decreases docs.len(),
{
    if docs.len() == 0 {
        -1
    } else {
        let r = first_in_period(docs.drop_last(), year, period_type, id);
        if r >= 0 {
            r
        } else if in_period(docs.last(), year, period_type) && docs.last().document.id@ == id {
            docs.len() - 1
        } else {
            -1
        }
    }
}

/// The sibling rank of a kind: ssf before jsf.
pub open spec fn kind_rank(k: PeriodicKind) -> int {
    match k {
        PeriodicKind::Ssf => 0,
        PeriodicKind::Jsf => 1,
    }
}

/// `a` ranks strictly before `b` as a sweep sibling: ssf before jsf, then the
/// later `created_at` (compared as bytes) first.
pub open spec fn ranks_before(a: PeriodDocument, b: PeriodDocument) -> bool {
    kind_rank(a.kind) < kind_rank(b.kind)
        || (kind_rank(a.kind) == kind_rank(b.kind) && lex_lt(bytes_of(b.document.created_at), bytes_of(a.document.created_at)))
}

/// A sibling that may stand in for the canonical `canonical_id` of the period:
/// another extractable document of the period.
pub open spec fn is_stand_in(d: PeriodDocument, year: i64, period_type: Seq<char>, canonical_id: Seq<char>) -> bool {
    in_period(d, year, period_type) && d.document.id@ != canonical_id && spec_document_is_extractable(d.document)
}

/// The best stand-in among `docs`: the first that no later one ranks
/// strictly before.
pub open spec fn best_stand_in(docs: Seq<PeriodDocument>, year: i64, period_type: Seq<char>, canonical_id: Seq<char>) -> Option<PeriodDocument>
    decreases docs.len(),
{
    if docs.len() == 0 {
        None
    } else {
        let b = best_stand_in(docs.drop_last(), year, period_type, canonical_id);
        let x = docs.last();
        if is_stand_in(x, year, period_type, canonical_id) && (b is None || ranks_before(x, b->0)) {
            Some(x)
        } else {
            b
        }
    }
}

/// The document the sweep attacks for a period whose coverage canonical is
/// `canonical_id`, with whether it is extractable (`None` when the canonical
/// is not among the period's grouped documents): the canonical when it is
/// extractable or not among them; else the best stand-in; with none, the
/// canonical.
pub open spec fn spec_select_sweep_document(docs: Seq<PeriodDocument>, year: i64, period_type: Seq<char>, canonical_id: Seq<char>)
    -> (Seq<char>, Option<bool>)
{
    let i = first_in_period(docs, year, period_type, canonical_id);
    if i < 0 {
        (canonical_id, None)
    } else if spec_document_is_extractable(docs[i].document) {
        (canonical_id, Some(true))
    } else {
        match best_stand_in(docs, year, period_type, canonical_id) {
            Some(d) => (d.document.id@, Some(true)),
            None => (canonical_id, Some(false)),
        }
    }
}

proof fn lemma_first_in_period(docs: Seq<PeriodDocument>, year: i64, period_type: Seq<char>, id: Seq<char>)
    ensures
        -1 <= first_in_period(docs, year, period_type, id) < docs.len(),
        first_in_period(docs, year, period_type, id) >= 0 ==> {
            let i = first_in_period(docs, year, period_type, id);
            in_period(docs[i], year, period_type) && docs[i].document.id@ == id
        },
    decreases docs.len(),
{
    if docs.len() > 0 {
        lemma_first_in_period(docs.drop_last(), year, period_type, id);
    }
}

proof fn lemma_best_stand_in(docs: Seq<PeriodDocument>, year: i64, period_type: Seq<char>, canonical_id: Seq<char>)
    ensures
        best_stand_in(docs, year, period_type, canonical_id) matches Some(d) ==> exists|k: int| 0 <= k < docs.len()
            && #[trigger] docs[k] == d && is_stand_in(d, year, period_type, canonical_id),
        best_stand_in(docs, year, period_type, canonical_id) is None ==> forall|k: int| 0 <= k < docs.len()
            ==> !is_stand_in(#[trigger] docs[k], year, period_type, canonical_id),
    decreases docs.len(),
{
    if docs.len() > 0 {
        let init = docs.drop_last();
        lemma_best_stand_in(init, year, period_type, canonical_id);
        if let Some(d) = best_stand_in(init, year, period_type, canonical_id) {
            let k = choose|k: int| 0 <= k < init.len() && #[trigger] init[k] == d && is_stand_in(d, year, period_type, canonical_id);
            assert(docs[k] == init[k]);
        }
        assert forall|k: int| 0 <= k < init.len() implies #[trigger] docs[k] == init[k] by {}
        assert(docs[docs.len() - 1] == docs.last());
    }
}

/// Which document the sweep attacks for the period `(year, period_type)`
/// whose coverage canonical is `canonical_id`, in terms of the documents
/// themselves:
/// - when no document of that period has the canonical's id, the canonical is
///   kept with unknown extractability;
/// - any other document chosen is a document of that very period (same fiscal
///   year and period type), extractable, and not the canonical;
/// - the canonical is kept unextractable only when no other document of the
///   period is extractable, and an extractable canonical is always kept.
pub proof fn lemma_sweep_document_choice(docs: Seq<PeriodDocument>, year: i64, period_type: Seq<char>, canonical_id: Seq<char>)
    ensures
        ({
            let (id, extractable) = spec_select_sweep_document(docs, year, period_type, canonical_id);
            &&& extractable is None <==> forall|k: int| 0 <= k < docs.len() ==> !((#[trigger] docs[k]).fiscal_year == year
                && docs[k].period_type@ == period_type && docs[k].document.id@ == canonical_id)
            &&& extractable is None ==> id == canonical_id
            &&& id != canonical_id ==> extractable == Some(true) && exists|k: int| 0 <= k < docs.len()
                && (#[trigger] docs[k]).document.id@ == id && docs[k].fiscal_year == year
                && docs[k].period_type@ == period_type && spec_document_is_extractable(docs[k].document)
            &&& extractable == Some(false) ==> id == canonical_id && forall|k: int| 0 <= k < docs.len()
                && (#[trigger] docs[k]).fiscal_year == year && docs[k].period_type@ == period_type
                && docs[k].document.id@ != canonical_id ==> !spec_document_is_extractable(docs[k].document)
            &&& (extractable is Some && forall|k: int| 0 <= k < docs.len() && (#[trigger] docs[k]).fiscal_year == year
                && docs[k].period_type@ == period_type && docs[k].document.id@ == canonical_id
                ==> spec_document_is_extractable(docs[k].document))
                ==> id == canonical_id && extractable == Some(true)
        }),
{
    lemma_first_in_period(docs, year, period_type, canonical_id);
    lemma_first_in_period_none(docs, year, period_type, canonical_id);
    lemma_best_stand_in(docs, year, period_type, canonical_id);
    let i = first_in_period(docs, year, period_type, canonical_id);
    if i >= 0 {
        assert(docs[i].fiscal_year == year && docs[i].period_type@ == period_type && docs[i].document.id@ == canonical_id);
    }
}

proof fn lemma_first_in_period_none(docs: Seq<PeriodDocument>, year: i64, period_type: Seq<char>, id: Seq<char>)
    ensures
        first_in_period(docs, year, period_type, id) == -1 ==> forall|k: int| 0 <= k < docs.len()
            ==> !(in_period(#[trigger] docs[k], year, period_type) && docs[k].document.id@ == id),
    decreases docs.len(),
{
    if docs.len() > 0 {
        let init = docs.drop_last();
        lemma_first_in_period_none(init, year, period_type, id);
        lemma_first_in_period(init, year, period_type, id);
        assert forall|k: int| 0 <= k < init.len() implies #[trigger] docs[k] == init[k] by {}
        assert(docs[docs.len() - 1] == docs.last());
    }
}

fn ranks_before_exec(a: &PeriodDocument, b: &PeriodDocument) -> (r: bool)
    ensures
        r == ranks_before(*a, *b),
{
    let ka: u8 = match a.kind {
        PeriodicKind::Ssf => 0,
        PeriodicKind::Jsf => 1,
    };
    let kb: u8 = match b.kind {
        PeriodicKind::Ssf => 0,
        PeriodicKind::Jsf => 1,
    };
    if ka != kb {
        return ka < kb;
    }
    let ab = a.document.created_at.as_str().as_bytes();
    let bb = b.document.created_at.as_str().as_bytes();
    assert(ab@ == bytes_of(a.document.created_at));
    assert(bb@ == bytes_of(b.document.created_at));
    compare_bytes(bb, ab) < 0
}

fn in_period_exec(d: &PeriodDocument, year: i64, period_type: &str) -> (r: bool)
    ensures
        r == in_period(*d, year, period_type@),
{
    d.fiscal_year == year && str_eq(d.period_type.as_str(), period_type)
}

/// The document the sweep attacks for one period (see
/// [`spec_select_sweep_document`]).
pub fn select_sweep_document(docs: &Vec<PeriodDocument>, year: i64, period_type: &str, canonical_id: &str) -> (r: (String, Option<bool>))
    ensures
        (r.0@, r.1) == spec_select_sweep_document(docs@, year, period_type@, canonical_id@),
{
    let mut found: Option<usize> = None;
    let mut best: Option<usize> = None;
    let mut i: usize = 0;
    proof {
        assert(docs@.take(0) =~= Seq::<PeriodDocument>::empty());
    }
    while i < docs.len()
        invariant
            i <= docs@.len(),
            match found {
                Some(f) => f < i && f as int == first_in_period(docs@.take(i as int), year, period_type@, canonical_id@),
                None => first_in_period(docs@.take(i as int), year, period_type@, canonical_id@) == -1,
            },
            match best {
                Some(b) => b < i && best_stand_in(docs@.take(i as int), year, period_type@, canonical_id@) == Some(docs@[b as int]),
                None => best_stand_in(docs@.take(i as int), year, period_type@, canonical_id@) is None,
            },
        decreases docs.len() - i,
    {
        proof {
            assert(docs@.take(i + 1).drop_last() =~= docs@.take(i as int));
            assert(docs@.take(i + 1).last() == docs@[i as int]);
        }
        let d = &docs[i];
        let here = in_period_exec(d, year, period_type);
        let same_id = str_eq(d.document.id.as_str(), canonical_id);
        if found.is_none() && here && same_id {
            found = Some(i);
        }
        if here && !same_id && document_is_extractable(&d.document) {
            match best {
                None => {
                    best = Some(i);
                },
                Some(b) => {
                    if ranks_before_exec(d, &docs[b]) {
                        best = Some(i);
                    }
                },
            }
        }
        i = i + 1;
    }
    proof {
        assert(docs@.take(i as int) =~= docs@);
        lemma_first_in_period(docs@, year, period_type@, canonical_id@);
    }
    match found {
        None => (owned(canonical_id), None),
        Some(f) => {
            if document_is_extractable(&docs[f].document) {
                (owned(canonical_id), Some(true))
            } else {
                match best {
                    Some(b) => (docs[b].document.id.clone(), Some(true)),
                    None => (owned(canonical_id), Some(false)),
                }
            }
        },
    }
}


// ---------------------------------------------------------------------------
// The candidates.
// ---------------------------------------------------------------------------

/// The canonical periodic report the coverage read model shows for a period.
pub struct CoverageReport {
    pub document_id: String,
    /// Whether its file was fetched (a metadata-only report has none).
    pub fetched: bool,
}

/// One period row of the coverage read model, newest period first.
pub struct CoveragePeriod {
    pub fiscal_year: i64,
    pub period_type: String,
    pub report: Option<CoverageReport>,
    /// How many accepted facts the period has.
    pub facts_total: i64,
}

/// One period that needs extracting: the document the sweep attacks and its
/// period, with whether that document is extractable (consulted to re-arm a
/// finished run).
pub struct HistorySweepCandidate {
    pub document_id: String,
    pub fiscal_year: i64,
    pub period_type: String,
    pub document_extractable: bool,
}

/// [`HistorySweepCandidate`] with its text as characters.
pub struct CandidateView {
    pub document_id: Seq<char>,
    pub fiscal_year: i64,
    pub period_type: Seq<char>,
    pub document_extractable: bool,
}

impl View for HistorySweepCandidate {
    type V = CandidateView;

    open spec fn view(&self) -> CandidateView {
        CandidateView {
            document_id: self.document_id@,
            fiscal_year: self.fiscal_year,
            period_type: self.period_type@,
            document_extractable: self.document_extractable,
        }
    }
}

/// Some grouped document with id `id` is extractable.
pub open spec fn some_extractable_with_id(docs: Seq<PeriodDocument>, id: Seq<char>) -> bool {
    exists|k: int| 0 <= k < docs.len() && (#[trigger] docs[k]).document.id@ == id && spec_document_is_extractable(docs[k].document)
}

/// The candidate of a period row with canonical report `report`.
pub open spec fn candidate_of(row: CoveragePeriod, report: CoverageReport, docs: Seq<PeriodDocument>) -> CandidateView {
    let (id, extractable) = spec_select_sweep_document(docs, row.fiscal_year, row.period_type@, report.document_id@);
    CandidateView {
        document_id: id,
        fiscal_year: row.fiscal_year,
        period_type: row.period_type@,
        document_extractable: match extractable {
            Some(b) => b,
            None => some_extractable_with_id(docs, report.document_id@),
        },
    }
}

/// The periods worth sweeping, in coverage order: each row with a fetched
/// canonical report and no accepted facts.
pub open spec fn spec_candidates(rows: Seq<CoveragePeriod>, docs: Seq<PeriodDocument>) -> Seq<CandidateView>
    decreases rows.len(),
{
    if rows.len() == 0 {
        Seq::empty()
    } else {
        let prev = spec_candidates(rows.drop_last(), docs);
        let row = rows.last();
        match row.report {
            Some(report) => if report.fetched && row.facts_total == 0 {
                prev.push(candidate_of(row, report, docs))
            } else {
                prev
            },
            None => prev,
        }
    }
}

fn extractable_with_id(docs: &Vec<PeriodDocument>, id: &str) -> (r: bool)
    ensures
        r == some_extractable_with_id(docs@, id@),
{
    let mut i: usize = 0;
    while i < docs.len()
        invariant
            i <= docs@.len(),
            forall|k: int| 0 <= k < i ==> !((#[trigger] docs@[k]).document.id@ == id@ && spec_document_is_extractable(docs@[k].document)),
        decreases docs.len() - i,
    {
        if str_eq(docs[i].document.id.as_str(), id) && document_is_extractable(&docs[i].document) {
            return true;
        }
        i = i + 1;
    }
    false
}

/// The periods worth sweeping (see [`spec_candidates`]), each with the
/// document [`select_sweep_document`] picks.
pub fn history_sweep_candidates(coverage: &Vec<CoveragePeriod>, docs: &Vec<PeriodDocument>) -> (r: Vec<HistorySweepCandidate>)
    ensures
        r@.map_values(|c: HistorySweepCandidate| c@) == spec_candidates(coverage@, docs@),
{
    let mut out: Vec<HistorySweepCandidate> = Vec::new();
    let mut i: usize = 0;
    proof {
        assert(coverage@.take(0) =~= Seq::<CoveragePeriod>::empty());
        assert(out@.map_values(|c: HistorySweepCandidate| c@) =~= Seq::<CandidateView>::empty());
    }
    while i < coverage.len()
        invariant
            i <= coverage@.len(),
            out@.map_values(|c: HistorySweepCandidate| c@) == spec_candidates(coverage@.take(i as int), docs@),
        decreases coverage.len() - i,
    {
        proof {
            assert(coverage@.take(i + 1).drop_last() =~= coverage@.take(i as int));
            assert(coverage@.take(i + 1).last() == coverage@[i as int]);
        }
        let row = &coverage[i];
        match &row.report {
            Some(report) => {
                if report.fetched && row.facts_total == 0 {
                    let (id, extractable) = select_sweep_document(docs, row.fiscal_year, row.period_type.as_str(),
                        report.document_id.as_str());
                    let ex = match extractable {
                        Some(b) => b,
                        None => extractable_with_id(docs, report.document_id.as_str()),
                    };
                    let c = HistorySweepCandidate {
                        document_id: id,
                        fiscal_year: row.fiscal_year,
                        period_type: owned(row.period_type.as_str()),
                        document_extractable: ex,
                    };
                    let ghost before = out@;
                    out.push(c);
                    proof {
                        assert(out@.map_values(|c: HistorySweepCandidate| c@)
                            =~= before.map_values(|c: HistorySweepCandidate| c@).push(c@));
                    }
                }
            },
            None => {},
        }
        i = i + 1;
    }
    proof {
        assert(coverage@.take(i as int) =~= coverage@);
    }
    out
}

// ---------------------------------------------------------------------------
// Running one sweep.
// ---------------------------------------------------------------------------

/// The counted outcome a sweep records.
pub struct HistorySweepOutcome {
    pub candidates_total: i64,
    pub runs_enqueued: i64,
    pub skipped_existing: i64,
    pub runs_failed: i64,
    pub enqueued_run_ids: Vec<String>,
    pub skipped_reason: Option<String>,
}

/// How a sweep ends.
pub enum HistorySweepResult {
    /// The sweep completes with its counted outcome.
    Completed(HistorySweepOutcome),
    /// Listing the candidates failed: the sweep fails with the error.
    Failed(String),
}

/// The runs, the queue and the tallies after driving `cands` in order.
pub struct SweepTally {
    pub runs: Seq<RunView>,
    pub jobs: Seq<JobView>,
    pub enqueued: nat,
    pub skipped_existing: nat,
    pub failed: nat,
    pub run_ids: Seq<Seq<char>>,
}

/// Drive each candidate through [`spec_enqueue_extraction`] with the history
/// sweep trigger, charging sweep `sweep_id`: a created or re-armed run counts
/// as enqueued (its run id recorded), a finished one as skipped, a failed arm
/// as failed.
pub open spec fn spec_sweep(
    runs: Seq<RunView>,
    jobs: Seq<JobView>,
    company_id: Seq<char>,
    mode: Seq<char>,
    sweep_id: Seq<char>,
    cands: Seq<CandidateView>,
    current_version: u32,
) -> SweepTally
    decreases cands.len(),
{
    if cands.len() == 0 {
        SweepTally { runs, jobs, enqueued: 0, skipped_existing: 0, failed: 0, run_ids: Seq::empty() }
    } else {
        let t = spec_sweep(runs, jobs, company_id, mode, sweep_id, cands.drop_last(), current_version);
        let c = cands.last();
        let (r1, j1, outcome) = spec_enqueue_extraction(t.runs, t.jobs, company_id, c.document_id,
            TRIGGER_HISTORY_SWEEP@, mode, Some(sweep_id), c.document_extractable, current_version, Ok(()));
        match outcome {
            EnqueueExtractionOutcome::Created | EnqueueExtractionOutcome::Rearmed => SweepTally {
                runs: r1, jobs: j1, enqueued: t.enqueued + 1,
                run_ids: t.run_ids.push(spec_extraction_run_id(company_id, c.document_id)), ..t
            },
            EnqueueExtractionOutcome::DedupedTerminal => SweepTally {
                runs: r1, jobs: j1, skipped_existing: t.skipped_existing + 1, ..t
            },
            EnqueueExtractionOutcome::Failed => SweepTally { runs: r1, jobs: j1, failed: t.failed + 1, ..t },
        }
    }
}

proof fn lemma_sweep_counts(
    runs: Seq<RunView>,
    jobs: Seq<JobView>,
    company_id: Seq<char>,
    mode: Seq<char>,
    sweep_id: Seq<char>,
    cands: Seq<CandidateView>,
    current_version: u32,
)
    ensures
        ({
            let t = spec_sweep(runs, jobs, company_id, mode, sweep_id, cands, current_version);
            &&& t.enqueued + t.skipped_existing + t.failed == cands.len()
            &&& t.run_ids.len() == t.enqueued
        }),
    decreases cands.len(),
{
    if cands.len() > 0 {
        lemma_sweep_counts(runs, jobs, company_id, mode, sweep_id, cands.drop_last(), current_version);
    }
}

/// Run one history sweep of `company_id` in mode `mode` over its listed
/// candidates: mode `off` completes with reason `automation_off` and nothing
/// enqueued; a failed listing fails the sweep with its error; else every
/// candidate is driven through the shared extraction-run path (see
/// [`spec_sweep`], the store accepting each queue write) and the sweep
/// completes with the counts, which always add up to the number of candidates.
pub fn run_history_sweep(
    runs: &mut AutopilotRuns,
    jobs: &mut JobQueue,
    sweep_id: &str,
    company_id: &str,
    mode: &str,
    candidates: Result<Vec<HistorySweepCandidate>, String>,
    current_version: u32,
) -> (r: HistorySweepResult)
    requires
        old(runs).wf(),
        old(jobs).wf(),
        candidates matches Ok(c) ==> c@.len() <= i64::MAX,
    ensures
        final(runs).wf(),
        final(jobs).wf(),
        mode@ == MODE_OFF@ ==> final(runs)@ == old(runs)@ && final(jobs)@ == old(jobs)@ && (r matches HistorySweepResult::Completed(o)
            && o.candidates_total == 0 && o.runs_enqueued == 0 && o.skipped_existing == 0 && o.runs_failed == 0
            && o.enqueued_run_ids@.len() == 0 && (o.skipped_reason matches Some(reason) && reason@ == "automation_off"@)),
        mode@ != MODE_OFF@ ==> match candidates {
            Err(e) => final(runs)@ == old(runs)@ && final(jobs)@ == old(jobs)@ && (r matches HistorySweepResult::Failed(x) && x@ == e@),
            Ok(cands) => {
                let t = spec_sweep(old(runs)@, old(jobs)@, company_id@, mode@, sweep_id@,
                    cands@.map_values(|c: HistorySweepCandidate| c@), current_version);
                &&& final(runs)@ == t.runs
                &&& final(jobs)@ == t.jobs
                &&& r matches HistorySweepResult::Completed(o)
                &&& o.candidates_total == cands@.len()
                &&& o.runs_enqueued == t.enqueued
                &&& o.skipped_existing == t.skipped_existing
                &&& o.runs_failed == t.failed
                &&& o.runs_enqueued + o.skipped_existing + o.runs_failed == o.candidates_total
                &&& o.enqueued_run_ids@.map_values(|s: String| s@) == t.run_ids
                &&& o.skipped_reason is None
            },
        },
{
    if str_eq(mode, MODE_OFF) {
        let outcome = HistorySweepOutcome {
            candidates_total: 0,
            runs_enqueued: 0,
            skipped_existing: 0,
            runs_failed: 0,
            enqueued_run_ids: Vec::new(),
            skipped_reason: Some(owned("automation_off")),
        };
        return HistorySweepResult::Completed(outcome);
    }
    let cands = match candidates {
        Ok(c) => c,
        Err(e) => return HistorySweepResult::Failed(e),
    };
    let ghost cv = cands@.map_values(|c: HistorySweepCandidate| c@);
    let n = cands.len();
    let mut enqueued: i64 = 0;
    let mut skipped: i64 = 0;
    let mut failed: i64 = 0;
    let mut ids: Vec<String> = Vec::new();
    let mut i: usize = 0;
    proof {
        assert(cv.take(0) =~= Seq::<CandidateView>::empty());
        assert(ids@.map_values(|s: String| s@) =~= Seq::<Seq<char>>::empty());
    }
    while i < n
        invariant
            n == cands@.len(),
            n <= i64::MAX,
            i <= n,
            cv == cands@.map_values(|c: HistorySweepCandidate| c@),
            runs.wf(),
            jobs.wf(),
            ({
                let t = spec_sweep(old(runs)@, old(jobs)@, company_id@, mode@, sweep_id@, cv.take(i as int), current_version);
                &&& runs@ == t.runs
                &&& jobs@ == t.jobs
                &&& enqueued == t.enqueued
                &&& skipped == t.skipped_existing
                &&& failed == t.failed
                &&& ids@.map_values(|s: String| s@) == t.run_ids
            }),
        decreases n - i,
    {
        proof {
            assert(cv.take(i + 1).drop_last() =~= cv.take(i as int));
            assert(cv.take(i + 1).last() == cv[i as int]);
            lemma_sweep_counts(old(runs)@, old(jobs)@, company_id@, mode@, sweep_id@, cv.take(i as int), current_version);
        }
        let c = &cands[i];
        let outcome = enqueue_extraction_run(runs, jobs, company_id, c.document_id.as_str(), TRIGGER_HISTORY_SWEEP,
            mode, Some(sweep_id), c.document_extractable, current_version, Ok(()));
        match outcome {
            EnqueueExtractionOutcome::Created | EnqueueExtractionOutcome::Rearmed => {
                enqueued = enqueued + 1;
                let mut run_id = concat3("autopilot_run:", company_id, ":");
                run_id.append(c.document_id.as_str());
                let ghost before = ids@;
                ids.push(run_id);
                proof {
                    assert(ids@.map_values(|s: String| s@) =~= before.map_values(|s: String| s@).push(run_id@));
                }
            },
            EnqueueExtractionOutcome::DedupedTerminal => {
                skipped = skipped + 1;
            },
            EnqueueExtractionOutcome::Failed => {
                failed = failed + 1;
            },
        }
        i = i + 1;
    }
    proof {
        assert(cv.take(i as int) =~= cv);
        lemma_sweep_counts(old(runs)@, old(jobs)@, company_id@, mode@, sweep_id@, cv, current_version);
    }
    HistorySweepResult::Completed(HistorySweepOutcome {
        candidates_total: n as i64,
        runs_enqueued: enqueued,
        skipped_existing: skipped,
        runs_failed: failed,
        enqueued_run_ids: ids,
        skipped_reason: None,
    })
}

// ---------------------------------------------------------------------------
// A second sweep over the same periods creates no run.
// ---------------------------------------------------------------------------

/// Every candidate of `cands` has its run for `company_id`.
pub open spec fn candidates_have_runs(runs: Seq<RunView>, company_id: Seq<char>, cands: Seq<CandidateView>) -> bool {
    forall|k: int| 0 <= k < cands.len() ==> run_of(runs, spec_extraction_run_id(company_id, (#[trigger] cands[k]).document_id)) is Some
}

proof fn lemma_sweep_runs(
    runs: Seq<RunView>,
    jobs: Seq<JobView>,
    company_id: Seq<char>,
    mode: Seq<char>,
    sweep_id: Seq<char>,
    cands: Seq<CandidateView>,
    current_version: u32,
)
    requires
        run_ids_unique(runs),
    ensures
        ({
            let t = spec_sweep(runs, jobs, company_id, mode, sweep_id, cands, current_version);
            &&& run_ids_unique(t.runs)
            &&& candidates_have_runs(t.runs, company_id, cands)
            &&& forall|x: Seq<char>| run_of(runs, x) is Some ==> #[trigger] run_of(t.runs, x) is Some
            &&& t.runs.len() >= runs.len()
            &&& candidates_have_runs(runs, company_id, cands) ==> t.runs.len() == runs.len()
        }),
    decreases cands.len(),
{
    if cands.len() > 0 {
        let init = cands.drop_last();
        lemma_sweep_runs(runs, jobs, company_id, mode, sweep_id, init, current_version);
        let t = spec_sweep(runs, jobs, company_id, mode, sweep_id, init, current_version);
        let c = cands.last();
        let trigger = TRIGGER_HISTORY_SWEEP@;
        let sweep = Some(sweep_id);
        lemma_run_present_after_begin(t.runs, company_id, c.document_id, trigger, mode, sweep, c.document_extractable,
            current_version);
        let (r1, _, _) = spec_enqueue_extraction(t.runs, t.jobs, company_id, c.document_id, trigger, mode, sweep,
            c.document_extractable, current_version, Ok(()));
        assert forall|x: Seq<char>| run_of(t.runs, x) is Some implies #[trigger] run_of(r1, x) is Some by {
            lemma_begin_keeps_runs(t.runs, company_id, c.document_id, trigger, mode, sweep, c.document_extractable,
                current_version, x);
        }
        assert forall|k: int| 0 <= k < cands.len() implies
            run_of(r1, spec_extraction_run_id(company_id, (#[trigger] cands[k]).document_id)) is Some by {
            if k < init.len() {
                assert(cands[k] == init[k]);
            }
        }
        let did = spec_extraction_run_id(company_id, c.document_id);
        if candidates_have_runs(runs, company_id, cands) {
            assert(candidates_have_runs(runs, company_id, init)) by {
                assert forall|k: int| 0 <= k < init.len() implies
                    run_of(runs, spec_extraction_run_id(company_id, (#[trigger] init[k]).document_id)) is Some by {
                    assert(init[k] == cands[k]);
                }
            }
            assert(run_of(runs, spec_extraction_run_id(company_id, cands[cands.len() - 1].document_id)) is Some);
            assert(run_of(t.runs, did) is Some);
            lemma_begin_keeps_runs(t.runs, company_id, c.document_id, trigger, mode, sweep, c.document_extractable,
                current_version, did);
        } else if run_of(t.runs, did) is Some {
            lemma_begin_keeps_runs(t.runs, company_id, c.document_id, trigger, mode, sweep, c.document_extractable,
                current_version, did);
        }
    }
}

/// A history sweep creates each period's run once: sweeping the same
/// candidates again, under any sweep id, creates no run.
pub proof fn lemma_second_sweep_creates_no_run(
    runs: Seq<RunView>,
    jobs: Seq<JobView>,
    company_id: Seq<char>,
    mode: Seq<char>,
    first_sweep: Seq<char>,
    second_sweep: Seq<char>,
    cands: Seq<CandidateView>,
    current_version: u32,
)
    requires
        run_ids_unique(runs),
    ensures
        ({
            let t1 = spec_sweep(runs, jobs, company_id, mode, first_sweep, cands, current_version);
            let t2 = spec_sweep(t1.runs, t1.jobs, company_id, mode, second_sweep, cands, current_version);
            &&& t2.runs.len() == t1.runs.len()
            &&& t1.runs.len() <= runs.len() + cands.len()
        }),
{
    lemma_sweep_runs(runs, jobs, company_id, mode, first_sweep, cands, current_version);
    let t1 = spec_sweep(runs, jobs, company_id, mode, first_sweep, cands, current_version);
    lemma_sweep_runs(t1.runs, t1.jobs, company_id, mode, second_sweep, cands, current_version);
    lemma_sweep_growth(runs, jobs, company_id, mode, first_sweep, cands, current_version);
}

proof fn lemma_sweep_growth(
    runs: Seq<RunView>,
    jobs: Seq<JobView>,
    company_id: Seq<char>,
    mode: Seq<char>,
    sweep_id: Seq<char>,
    cands: Seq<CandidateView>,
    current_version: u32,
)
    requires
        run_ids_unique(runs),
    ensures
        spec_sweep(runs, jobs, company_id, mode, sweep_id, cands, current_version).runs.len() <= runs.len() + cands.len(),
    decreases cands.len(),
{
    if cands.len() > 0 {
        let init = cands.drop_last();
        lemma_sweep_growth(runs, jobs, company_id, mode, sweep_id, init, current_version);
        lemma_sweep_runs(runs, jobs, company_id, mode, sweep_id, init, current_version);
        let t = spec_sweep(runs, jobs, company_id, mode, sweep_id, init, current_version);
        let c = cands.last();
        lemma_run_present_after_begin(t.runs, company_id, c.document_id, TRIGGER_HISTORY_SWEEP@, mode, Some(sweep_id),
            c.document_extractable, current_version);
    }
}

// ---------------------------------------------------------------------------
// The job and its payload.
// ---------------------------------------------------------------------------

/// The payload of a `history_sweep` job: which sweep row to drive.
pub struct HistorySweepPayload {
    pub sweep_id: String,
}

/// The payload text of the job driving sweep `sweep_id`: `{"sweep_id":...}`.
pub open spec fn spec_sweep_payload(sweep_id: Seq<char>) -> Seq<char> {
    "{\"sweep_id\":"@ + spec_json_string(sweep_id) + "}"@
}

/// The sweep a payload names: the parser's message when it is not JSON,
/// `"history sweep payload missing sweep_id"` when it has no string
/// `sweep_id`.
pub open spec fn spec_parse_sweep_payload(payload: Seq<char>) -> Result<Seq<char>, Seq<char>> {
    match spec_json_parse_error(payload) {
        Some(e) => Err(e),
        None => match spec_json_str_field(payload, "sweep_id"@) {
            Some(id) => Ok(id),
            None => Err("history sweep payload missing sweep_id"@),
        },
    }
}

impl HistorySweepPayload {
    /// The payload as JSON text.
    pub fn to_json(&self) -> (r: String)
        ensures
            r@ == spec_sweep_payload(self.sweep_id@),
    {
        let quoted = json_string(self.sweep_id.as_str());
        concat3("{\"sweep_id\":", quoted.as_str(), "}")
    }

    /// Read a payload (see [`spec_parse_sweep_payload`]).
    pub fn from_json(payload: &str) -> (r: Result<HistorySweepPayload, String>)
        ensures
            match spec_parse_sweep_payload(payload@) {
                Ok(id) => r matches Ok(p) && p.sweep_id@ == id,
                Err(e) => r matches Err(x) && x@ == e,
            },
    {
        if let Some(e) = json_parse_error(payload) {
            return Err(e);
        }
        match json_str_field(payload, "sweep_id") {
            Some(id) => Ok(HistorySweepPayload { sweep_id: id }),
            None => Err(owned("history sweep payload missing sweep_id")),
        }
    }
}

/// Why a sweep could not be created: a job under its id already exists.
pub open spec fn spec_sweep_exists_error(sweep_id: Seq<char>) -> Seq<char> {
    "history sweep job already exists: "@ + sweep_id
}

/// Create the queued row of sweep `sweep_id` together with the job that
/// drives it (keyed by the sweep id, with one attempt): both are written or
/// neither is, so a queued sweep never stands without its job. When a job
/// with that id already exists nothing is written and the error names the
/// sweep.
pub fn enqueue_history_sweep(sweeps: &mut Vec<DomainRow>, jobs: &mut JobQueue, sweep_id: &str) -> (r: Result<(), String>)
    requires
        old(jobs).wf(),
    ensures
        final(jobs).wf(),
        r is Ok <==> index_of(old(jobs)@, sweep_id@) == -1,
        r is Ok ==> final(jobs)@ == old(jobs)@.push(fresh_row(sweep_id@, HISTORY_SWEEP_KIND@,
            spec_sweep_payload(sweep_id@), HISTORY_SWEEP_MAX_ATTEMPTS))
            && domain_views(final(sweeps)@) == domain_views(old(sweeps)@).push(
                DomainView { id: sweep_id@, status: "queued"@, error: None }),
        r matches Err(e) ==> final(jobs)@ == old(jobs)@ && final(sweeps)@ == old(sweeps)@
            && e@ == spec_sweep_exists_error(sweep_id@),
{
    let payload = HistorySweepPayload { sweep_id: owned(sweep_id) }.to_json();
    if !jobs.enqueue(sweep_id, HISTORY_SWEEP_KIND, payload.as_str(), HISTORY_SWEEP_MAX_ATTEMPTS) {
        return Err(concat2("history sweep job already exists: ", sweep_id));
    }
    let ghost before = old(sweeps)@;
    sweeps.push(DomainRow { id: owned(sweep_id), status: owned("queued"), error: None });
    proof {
        assert(domain_views(sweeps@) =~= domain_views(before).push(
            DomainView { id: sweep_id@, status: "queued"@, error: None }));
    }
    Ok(())
}

} // verus!
