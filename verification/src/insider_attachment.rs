//! The insider attachment tier: which registered attachments of a filing are
//! notification candidates, when one must be fetched, how the per-document
//! attempts of a filing decide its outcome, which outcomes are terminal (the
//! filing is then never attempted again), and how a sweep is counted.

use vstd::prelude::*;
use crate::text::{has_non_whitespace, spec_is_whitespace, str_eq};

verus! {

/// The heading of the untitled text before a document's first section.
pub const PREAMBLE_HEADING: &'static str = "<preamble>";

/// A report document registered for a filing, as the tier reads it.
pub struct AttachmentDocument {
    pub id: String,
    pub source_type: String,
    pub url: String,
    /// Whether the document is a digital-signature file (as the Bankier
    /// adapter classifies its URL).
    pub is_signature: bool,
    pub local_path: Option<String>,
}

/// A notification candidate: a registered ESPI/EBI attachment that is not a
/// signature file.
pub open spec fn spec_is_notification_candidate(d: AttachmentDocument) -> bool {
    d.source_type@ == "espi_attachment"@ && !d.is_signature
}

/// Whether a document is a notification candidate.
pub fn is_notification_candidate(d: &AttachmentDocument) -> (r: bool)
    ensures
        r == spec_is_notification_candidate(*d),
{
    str_eq(d.source_type.as_str(), "espi_attachment") && !d.is_signature
}

/// A document must be fetched when it has no stored file (or a blank path).
pub open spec fn spec_needs_fetch(local_path: Option<String>) -> bool {
    match local_path {
        None => true,
        Some(p) => !(exists|i: int| 0 <= i < p@.len() && !spec_is_whitespace(#[trigger] p@[i])),
    }
}

/// Whether a document must be fetched before it can be read.
pub fn needs_fetch(local_path: &Option<String>) -> (r: bool)
    ensures
        r == spec_needs_fetch(*local_path),
{
    match local_path {
        None => true,
        Some(p) => !has_non_whitespace(p.as_str()),
    }
}

/// What reading one candidate document gave.
#[derive(Debug, Clone, Copy, PartialEq, Eq, Structural)]
pub enum DocumentAttempt {
    /// Fetching or reading its file failed (a transient fault).
    FetchFailed,
    /// Its text was extracted; `units` transactions parsed from the form.
    Extracted { units: u64 },
    /// Scanned, image-only or unreadable: no text layer.
    NoTextLayer,
}

/// How a filing's attempt ends before any merge.
#[derive(Debug, Clone, Copy, PartialEq, Eq, Structural)]
pub enum FilingVerdict {
    /// Transactions were parsed: merge them.
    Merge,
    /// No notification candidate among the filing's documents.
    NoAttachment,
    /// Nothing readable: parked for the vision path.
    NoTextLayer,
    /// Text was read but no recognizable form was found.
    NotFound,
    /// Only transient fetch failures: retry on the next sweep.
    FetchRetry,
}

/// Some attempt failed to fetch.
pub open spec fn any_fetch_failed(a: Seq<DocumentAttempt>) -> bool {
    exists|i: int| 0 <= i < a.len() && a[i] == DocumentAttempt::FetchFailed
}

/// Some attempt extracted text.
pub open spec fn any_extracted(a: Seq<DocumentAttempt>) -> bool {
    exists|i: int| 0 <= i < a.len() && (#[trigger] a[i]) is Extracted
}

/// Some attempt found no text layer.
pub open spec fn any_no_text(a: Seq<DocumentAttempt>) -> bool {
    exists|i: int| 0 <= i < a.len() && a[i] == DocumentAttempt::NoTextLayer
}

/// Some attempt parsed at least one transaction.
pub open spec fn any_units(a: Seq<DocumentAttempt>) -> bool {
    exists|i: int| 0 <= i < a.len() && ((#[trigger] a[i]) matches DocumentAttempt::Extracted { units } && units > 0)
}

/// The verdict of a filing with `candidates` notification candidates whose
/// reads gave `attempts`: no candidate, no attachment; parsed transactions
/// are merged; only fetch failures retry; only unreadable documents park; text
/// without a form is not found; anything else retries.
pub open spec fn spec_filing_verdict(candidates: nat, attempts: Seq<DocumentAttempt>) -> FilingVerdict {
    if candidates == 0 {
        FilingVerdict::NoAttachment
    } else if any_units(attempts) {
        FilingVerdict::Merge
    } else if any_fetch_failed(attempts) && !any_extracted(attempts) && !any_no_text(attempts) {
        FilingVerdict::FetchRetry
    } else if any_no_text(attempts) && !any_extracted(attempts) {
        FilingVerdict::NoTextLayer
    } else if any_extracted(attempts) {
        FilingVerdict::NotFound
    } else {
        FilingVerdict::FetchRetry
    }
}

/// The verdict of a filing (see [`spec_filing_verdict`]).
pub fn filing_verdict(candidates: usize, attempts: &Vec<DocumentAttempt>) -> (r: FilingVerdict)
    ensures
        r == spec_filing_verdict(candidates as nat, attempts@),
{
    if candidates == 0 {
        return FilingVerdict::NoAttachment;
    }
    let mut fetch_failed = false;
    let mut extracted = false;
    let mut no_text = false;
    let mut units = false;
    let mut i: usize = 0;
    while i < attempts.len()
        invariant
            i <= attempts@.len(),
            fetch_failed == exists|k: int| 0 <= k < i && attempts@[k] == DocumentAttempt::FetchFailed,
            extracted == exists|k: int| 0 <= k < i && (#[trigger] attempts@[k]) is Extracted,
            no_text == exists|k: int| 0 <= k < i && attempts@[k] == DocumentAttempt::NoTextLayer,
            units == exists|k: int| 0 <= k < i && ((#[trigger] attempts@[k]) matches DocumentAttempt::Extracted { units } && units > 0),
        decreases attempts.len() - i,
    {
        match attempts[i] {
            DocumentAttempt::FetchFailed => {
                fetch_failed = true;
            },
            DocumentAttempt::Extracted { units: n } => {
                extracted = true;
                if n > 0 {
                    units = true;
                }
            },
            DocumentAttempt::NoTextLayer => {
                no_text = true;
            },
        }
        proof {
            assert(attempts@[i as int] == attempts[i as int]);
        }
        i = i + 1;
    }
    if units {
        FilingVerdict::Merge
    } else if fetch_failed && !extracted && !no_text {
        FilingVerdict::FetchRetry
    } else if no_text && !extracted {
        FilingVerdict::NoTextLayer
    } else if extracted {
        FilingVerdict::NotFound
    } else {
        FilingVerdict::FetchRetry
    }
}

// ---------------------------------------------------------------------------
// Flattening extracted text for the form parser.
// ---------------------------------------------------------------------------

/// One extracted section: its heading and body.
pub struct Section {
    pub heading: String,
    pub body: String,
}

/// The text of one section: its heading on a line (unless it is the
/// preamble), then its body on a line.
pub open spec fn section_text(s: Section) -> Seq<char> {
    (if s.heading@ == PREAMBLE_HEADING@ { Seq::empty() } else { s.heading@ + "\n"@ }) + s.body@ + "\n"@
}

/// The flattened text of `sections`, in document order.
pub open spec fn spec_flatten(sections: Seq<Section>) -> Seq<char>
    decreases sections.len(),
{
    if sections.len() == 0 {
        Seq::empty()
    } else {
        spec_flatten(sections.drop_last()) + section_text(sections.last())
    }
}

/// Flatten extracted sections into one text for the form parser.
pub fn flatten_sections(sections: &Vec<Section>) -> (r: String)
    ensures
        r@ == spec_flatten(sections@),
{
    let mut out = String::new();
    let mut i: usize = 0;
    proof {
        reveal_strlit("\n");
        assert(sections@.take(0) =~= Seq::<Section>::empty());
        assert(out@ =~= spec_flatten(sections@.take(0)));
    }
    while i < sections.len()
        invariant
            i <= sections@.len(),
            out@ == spec_flatten(sections@.take(i as int)),
        decreases sections.len() - i,
    {
        proof {
            assert(sections@.take(i + 1).drop_last() =~= sections@.take(i as int));
            assert(sections@.take(i + 1).last() == sections@[i as int]);
        }
        let s = &sections[i];
        let ghost before = out@;
        if !str_eq(s.heading.as_str(), PREAMBLE_HEADING) {
            out.append(s.heading.as_str());
            out.append("\n");
        }
        out.append(s.body.as_str());
        out.append("\n");
        proof {
            assert(out@ =~= before + section_text(sections@[i as int]));
        }
        i = i + 1;
    }
    proof {
        assert(sections@.take(i as int) =~= sections@);
    }
    out
}

// ---------------------------------------------------------------------------
// Filing outcomes and the sweep summary.
// ---------------------------------------------------------------------------

/// What merging a filing's parsed transactions did.
#[derive(Debug, Clone, Copy, PartialEq, Eq, Structural)]
pub struct MergeDiagnostics {
    /// Empty figures filled.
    pub filled: u64,
    /// Unmatched transactions appended.
    pub appended: u64,
    /// Disagreeing figures recorded (never overwritten).
    pub conflicts: u64,
}

/// How one filing ended.
#[derive(Debug, Clone, Copy, PartialEq, Eq, Structural)]
pub enum FilingResult {
    Parsed(MergeDiagnostics),
    NoAttachment,
    NoTextLayer,
    NotFound,
    FetchRetry,
}

/// The marker a terminal outcome is recorded under; `None` for a transient
/// fetch failure, which is retried on the next sweep.
pub open spec fn spec_terminal_marker(r: FilingResult) -> Option<Seq<char>> {
    match r {
        FilingResult::Parsed(_) => Some("parsed"@),
        FilingResult::NoAttachment => Some("no_attachment"@),
        FilingResult::NoTextLayer => Some("no_text_layer"@),
        FilingResult::NotFound => Some("not_found"@),
        FilingResult::FetchRetry => None,
    }
}

/// The marker a filing's outcome is recorded under, if it is terminal.
pub fn terminal_marker(r: FilingResult) -> (m: Option<&'static str>)
    ensures
        match m {
            Some(s) => spec_terminal_marker(r) == Some(s@),
            None => spec_terminal_marker(r) is None,
        },
{
    match r {
        FilingResult::Parsed(_) => Some("parsed"),
        FilingResult::NoAttachment => Some("no_attachment"),
        FilingResult::NoTextLayer => Some("no_text_layer"),
        FilingResult::NotFound => Some("not_found"),
        FilingResult::FetchRetry => None,
    }
}

/// The aggregate of one sweep.
#[derive(Debug, Clone, Copy, PartialEq, Eq, Structural)]
pub struct InsiderAttachmentSummary {
    pub filings_attempted: u64,
    pub parsed: u64,
    pub no_attachment: u64,
    pub no_text_layer: u64,
    pub not_found: u64,
    /// Filings left open by a transient fetch failure (retried next sweep).
    pub fetch_retry: u64,
    pub filled: u64,
    pub appended: u64,
    pub conflicts: u64,
}

/// The summary of nothing.
pub open spec fn empty_summary() -> InsiderAttachmentSummary {
    InsiderAttachmentSummary {
        filings_attempted: 0, parsed: 0, no_attachment: 0, no_text_layer: 0, not_found: 0,
        fetch_retry: 0, filled: 0, appended: 0, conflicts: 0,
    }
}

/// `s` with one more filing counted.
pub open spec fn count_filing(s: InsiderAttachmentSummary, r: FilingResult) -> InsiderAttachmentSummary {
    let s1 = InsiderAttachmentSummary { filings_attempted: (s.filings_attempted + 1) as u64, ..s };
    match r {
        FilingResult::Parsed(d) => InsiderAttachmentSummary {
            parsed: (s1.parsed + 1) as u64,
            filled: (s1.filled + d.filled) as u64,
            appended: (s1.appended + d.appended) as u64,
            conflicts: (s1.conflicts + d.conflicts) as u64,
            ..s1
        },
        FilingResult::NoAttachment => InsiderAttachmentSummary { no_attachment: (s1.no_attachment + 1) as u64, ..s1 },
        FilingResult::NoTextLayer => InsiderAttachmentSummary { no_text_layer: (s1.no_text_layer + 1) as u64, ..s1 },
        FilingResult::NotFound => InsiderAttachmentSummary { not_found: (s1.not_found + 1) as u64, ..s1 },
        FilingResult::FetchRetry => InsiderAttachmentSummary { fetch_retry: (s1.fetch_retry + 1) as u64, ..s1 },
    }
}

/// The bound on each figure of a parsed filing among `n` filings.
pub open spec fn per_filing_bound(n: nat) -> nat {
    (u64::MAX as nat) / (4 * (n + 1))
}

/// Every figure of a parsed filing is at most a quarter of the range, and
/// there are fewer filings than that, so the sums fit.
pub open spec fn results_small(results: Seq<Result<FilingResult, String>>) -> bool {
    &&& results.len() <= u64::MAX / 4
    &&& forall|k: int| 0 <= k < results.len() ==> match #[trigger] results[k] {
        Ok(FilingResult::Parsed(d)) => d.filled <= per_filing_bound(results.len())
            && d.appended <= per_filing_bound(results.len())
            && d.conflicts <= per_filing_bound(results.len()),
        _ => true,
    }
}

/// The summary of a sweep over `results` in order, or the first error.
pub open spec fn spec_sweep_summary(results: Seq<Result<FilingResult, String>>) -> Result<InsiderAttachmentSummary, Seq<char>>
    decreases results.len(),
{
    if results.len() == 0 {
        Ok(empty_summary())
    } else {
        match spec_sweep_summary(results.drop_last()) {
            Err(e) => Err(e),
            Ok(s) => match results.last() {
                Err(e) => Err(e@),
                Ok(r) => Ok(count_filing(s, r)),
            },
        }
    }
}

proof fn lemma_summary_bounds(results: Seq<Result<FilingResult, String>>, n: nat)
    requires
        results.len() <= n,
        n <= u64::MAX / 4,
        forall|k: int| 0 <= k < results.len() ==> match #[trigger] results[k] {
            Ok(FilingResult::Parsed(d)) => d.filled <= per_filing_bound(n as nat)
                && d.appended <= per_filing_bound(n as nat)
                && d.conflicts <= per_filing_bound(n as nat),
            _ => true,
        },
    ensures
        spec_sweep_summary(results) matches Ok(s) ==> {
            &&& s.filings_attempted <= results.len()
            &&& s.parsed <= results.len() && s.no_attachment <= results.len() && s.no_text_layer <= results.len()
            &&& s.not_found <= results.len() && s.fetch_retry <= results.len()
            &&& s.filled <= results.len() * (per_filing_bound(n as nat))
            &&& s.appended <= results.len() * (per_filing_bound(n as nat))
            &&& s.conflicts <= results.len() * (per_filing_bound(n as nat))
        },
    decreases results.len(),
{
    if results.len() > 0 {
        let init = results.drop_last();
        assert forall|k: int| 0 <= k < init.len() implies match #[trigger] init[k] {
            Ok(FilingResult::Parsed(d)) => d.filled <= per_filing_bound(n as nat)
                && d.appended <= per_filing_bound(n as nat)
                && d.conflicts <= per_filing_bound(n as nat),
            _ => true,
        } by {
            assert(init[k] == results[k]);
        }
        lemma_summary_bounds(init, n);
        let last = results.last();
        assert(last == results[results.len() - 1]);
        let b = per_filing_bound(n as nat);
        assert(init.len() * b + b == results.len() * b) by (nonlinear_arith)
            requires init.len() + 1 == results.len();
    }
}

proof fn lemma_sweep_error_sticks(results: Seq<Result<FilingResult, String>>, k: int)
    requires
        0 <= k <= results.len(),
        spec_sweep_summary(results.take(k)) is Err,
    ensures
        spec_sweep_summary(results) == spec_sweep_summary(results.take(k)),
    decreases results.len() - k,
{
    if k < results.len() {
        assert(results.drop_last().take(k) =~= results.take(k));
        lemma_sweep_error_sticks(results.drop_last(), k);
    } else {
        assert(results.take(k) =~= results);
    }
}

/// A sweep completes exactly when no filing hit a storage error, and then
/// every filing it attempted is counted in exactly one outcome.
pub proof fn lemma_every_filing_lands_in_one_outcome(results: Seq<Result<FilingResult, String>>)
    requires
        results.len() < u64::MAX,
    ensures
        spec_sweep_summary(results) is Ok <==> forall|k: int| 0 <= k < results.len() ==> (#[trigger] results[k]) is Ok,
        spec_sweep_summary(results) matches Ok(s) ==> {
            &&& s.filings_attempted == results.len()
            &&& s.parsed + s.no_attachment + s.no_text_layer + s.not_found + s.fetch_retry == s.filings_attempted
        },
    decreases results.len(),
{
    if results.len() > 0 {
        let init = results.drop_last();
        lemma_every_filing_lands_in_one_outcome(init);
        assert(results.last() == results[results.len() - 1]);
        assert forall|k: int| 0 <= k < init.len() implies init[k] == results[k] by {}
        if spec_sweep_summary(init) is Err {
            let k = choose|k: int| 0 <= k < init.len() && !(#[trigger] init[k] is Ok);
            assert(results[k] == init[k]);
        }
    }
}

fn count_one(s: InsiderAttachmentSummary, r: FilingResult) -> (t: InsiderAttachmentSummary)
    requires
        s.filings_attempted < u64::MAX,
        r matches FilingResult::Parsed(d) ==> s.parsed < u64::MAX && s.filled + d.filled <= u64::MAX
            && s.appended + d.appended <= u64::MAX && s.conflicts + d.conflicts <= u64::MAX,
        r == FilingResult::NoAttachment ==> s.no_attachment < u64::MAX,
        r == FilingResult::NoTextLayer ==> s.no_text_layer < u64::MAX,
        r == FilingResult::NotFound ==> s.not_found < u64::MAX,
        r == FilingResult::FetchRetry ==> s.fetch_retry < u64::MAX,
    ensures
        t == count_filing(s, r),
{
    let mut t = s;
    t.filings_attempted = t.filings_attempted + 1;
    match r {
        FilingResult::Parsed(d) => {
            t.parsed = t.parsed + 1;
            t.filled = t.filled + d.filled;
            t.appended = t.appended + d.appended;
            t.conflicts = t.conflicts + d.conflicts;
        },
        FilingResult::NoAttachment => {
            t.no_attachment = t.no_attachment + 1;
        },
        FilingResult::NoTextLayer => {
            t.no_text_layer = t.no_text_layer + 1;
        },
        FilingResult::NotFound => {
            t.not_found = t.not_found + 1;
        },
        FilingResult::FetchRetry => {
            t.fetch_retry = t.fetch_retry + 1;
        },
    }
    t
}

/// Count a sweep over the filings still needing the attachment tier, each
/// result in order (a storage failure of any filing aborts the sweep with its
/// error; see [`spec_sweep_summary`]).
pub fn fetch_and_parse_insider_attachments(results: Vec<Result<FilingResult, String>>) -> (r: Result<InsiderAttachmentSummary, String>)
    requires
        results_small(results@),
    ensures
        match spec_sweep_summary(results@) {
            Ok(s) => r == Ok::<InsiderAttachmentSummary, String>(s),
            Err(e) => r matches Err(x) && x@ == e,
        },
{
    let ghost all = results@;
    let ghost n = all.len();
    let mut s = InsiderAttachmentSummary {
        filings_attempted: 0, parsed: 0, no_attachment: 0, no_text_layer: 0, not_found: 0,
        fetch_retry: 0, filled: 0, appended: 0, conflicts: 0,
    };
    let mut rest = results;
    let ghost mut done: int = 0;
    proof {
        assert(all.take(0) =~= Seq::<Result<FilingResult, String>>::empty());
        assert(rest@ =~= all.skip(0));
    }
    while rest.len() > 0
        invariant
            0 <= done <= all.len(),
            n == all.len(),
            all == results@,
            results_small(all),
            rest@ == all.skip(done),
            spec_sweep_summary(all.take(done)) == Ok::<InsiderAttachmentSummary, Seq<char>>(s),
        decreases rest.len(),
    {
        let r = rest.remove(0);
        proof {
            assert(r == all[done]);
            let pre = all.take(done + 1);
            assert(pre.drop_last() =~= all.take(done));
            assert(pre.last() == all[done]);
            assert(rest@ =~= all.skip(done + 1));
            assert forall|k: int| 0 <= k < pre.len() implies match #[trigger] pre[k] {
                Ok(FilingResult::Parsed(d)) => d.filled <= per_filing_bound(n as nat)
                    && d.appended <= per_filing_bound(n as nat)
                    && d.conflicts <= per_filing_bound(n as nat),
                _ => true,
            } by {
                assert(pre[k] == all[k]);
            }
            lemma_summary_bounds(all.take(done), n as nat);
            let b = per_filing_bound(n as nat);
            assert(b * (4 * (n + 1)) <= u64::MAX) by (nonlinear_arith)
                requires b == (u64::MAX as nat) / (4 * (n + 1)), n >= 0;
            assert(done * b + b <= u64::MAX) by (nonlinear_arith)
                requires 0 <= done < n, b >= 0, b * (4 * (n + 1)) <= u64::MAX;
            assert(done < u64::MAX);
            done = done + 1;
        }
        match r {
            Err(e) => {
                proof {
                    let pre = all.take(done);
                    assert(pre.drop_last() =~= all.take(done - 1));
                    assert(pre.last() == all[done - 1]);
                    assert(spec_sweep_summary(pre) == Err::<InsiderAttachmentSummary, Seq<char>>(e@));
                    lemma_sweep_error_sticks(all, done);
                }
                return Err(e);
            },
            Ok(f) => {
                s = count_one(s, f);
            },
        }
    }
    proof {
        assert(all.take(done) =~= all);
    }
    Ok(s)
}

/// The backfill of one company: clear its attempt markers (the error of a
/// failed clear aborts it), then sweep its filings again.
pub fn backfill_company_insider_attachments(
    cleared: Result<(), String>,
    results: Vec<Result<FilingResult, String>>,
) -> (r: Result<InsiderAttachmentSummary, String>)
    requires
        results_small(results@),
    ensures
        cleared matches Err(e) ==> (r matches Err(x) && x@ == e@),
        cleared is Ok ==> match spec_sweep_summary(results@) {
            Ok(s) => r == Ok::<InsiderAttachmentSummary, String>(s),
            Err(e) => r matches Err(x) && x@ == e,
        },
{
    match cleared {
        Err(e) => Err(e),
        Ok(()) => fetch_and_parse_insider_attachments(results),
    }
}

} // verus!
