//! The claim extraction job, as a state machine over the outcomes of its
//! outside steps (loading the job, resolving the provider, loading the source,
//! marking the job running, the provider's completion and parsing it). It only
//! ever proposes: each parsed claim becomes a pending proposal attributed to
//! its source (the transcript, or the report document); materialising a claim
//! is the user's confirmation.

use vstd::prelude::*;
use crate::text::{before_char, owned, prefix_before, spec_trim, str_eq, trim};

verus! {

/// The provider cannot read documents.
pub const NO_DOCUMENT_SUPPORT: &'static str = "the selected AI provider cannot read documents";
/// The transcript has no segment text.
pub const NO_SEGMENTS: &'static str = "the transcript has no segments to extract from";
/// The report document is not fetched.
pub const NOT_FETCHED: &'static str = "the report document has not been fetched yet";
/// The report document has no stored file.
pub const NO_STORED_FILE: &'static str = "the report document has no stored file";

/// How the source of a job is named in the prompt.
pub open spec fn spec_source_kind(source_type: Seq<char>) -> Seq<char> {
    if source_type == "transcript"@ { "transcript"@ } else { "report document"@ }
}

/// How the source of a job is named in the prompt.
pub fn source_kind(source_type: &str) -> (r: &'static str)
    ensures
        r@ == spec_source_kind(source_type@),
{
    if str_eq(source_type, "transcript") { "transcript" } else { "report document" }
}

/// The evidence type a proposal is attributed to.
pub open spec fn spec_evidence_type(source_type: Seq<char>) -> Seq<char> {
    if source_type == "transcript"@ { "transcript"@ } else { "report_document"@ }
}

/// The evidence type a proposal is attributed to.
pub fn evidence_type(source_type: &str) -> (r: &'static str)
    ensures
        r@ == spec_evidence_type(source_type@),
{
    if str_eq(source_type, "transcript") { "transcript" } else { "report_document" }
}

/// The text of a transcript: its segments' trimmed texts, blank ones left
/// out, one per line.
pub open spec fn spec_transcript_text(segments: Seq<Seq<char>>) -> Seq<char>
    decreases segments.len(),
{
    if segments.len() == 0 {
        Seq::empty()
    } else {
        let prev = spec_transcript_text(segments.drop_last());
        let t = spec_trim(segments.last());
        if t.len() == 0 {
            prev
        } else if prev.len() == 0 {
            t
        } else {
            prev + "\n"@ + t
        }
    }
}

/// The text of a transcript's segments.
pub fn transcript_text(segments: &Vec<String>) -> (r: String)
    ensures
        r@ == spec_transcript_text(segments@.map_values(|s: String| s@)),
{
    let ghost sv = segments@.map_values(|s: String| s@);
    let mut out = String::new();
    let mut i: usize = 0;
    proof {
        reveal_strlit("\n");
        assert(sv.take(0) =~= Seq::<Seq<char>>::empty());
    }
    while i < segments.len()
        invariant
            i <= segments@.len(),
            sv == segments@.map_values(|s: String| s@),
            out@ == spec_transcript_text(sv.take(i as int)),
        decreases segments.len() - i,
    {
        proof {
            assert(sv.take(i + 1).drop_last() =~= sv.take(i as int));
            assert(sv.take(i + 1).last() == sv[i as int]);
        }
        let t = trim(segments[i].as_str());
        let tl = crate::text::chars_of(t.as_str()).len();
        let ol = crate::text::chars_of(out.as_str()).len();
        if tl > 0 {
            if ol > 0 {
                out.append("\n");
            }
            out.append(t.as_str());
        }
        i = i + 1;
    }
    proof {
        assert(sv.take(i as int) =~= sv);
    }
    out
}

/// The MIME type a stored report document is sent as: its content type before
/// any `;` parameters, trimmed, unless blank or `application/octet-stream`;
/// else `application/pdf`.
pub open spec fn spec_document_mime(content_type: Option<Seq<char>>) -> Seq<char> {
    match content_type {
        Some(ct) => {
            let m = spec_trim(before_char(ct, ';'));
            if m.len() == 0 || m == "application/octet-stream"@ { "application/pdf"@ } else { m }
        },
        None => "application/pdf"@,
    }
}

/// The MIME type a stored report document is sent as.
pub fn document_mime(content_type: Option<&str>) -> (r: String)
    ensures
        r@ == spec_document_mime(match content_type { Some(c) => Some(c@), None => None }),
{
    match content_type {
        Some(ct) => {
            let head = prefix_before(ct, ';');
            let m = trim(head.as_str());
            if crate::text::chars_of(m.as_str()).len() == 0 || str_eq(m.as_str(), "application/octet-stream") {
                owned("application/pdf")
            } else {
                m
            }
        },
        None => owned("application/pdf"),
    }
}

/// The position of the first company with id `company_id`, or -1.
pub open spec fn first_company(companies: Seq<(String, String)>, company_id: Seq<char>) -> int
    decreases companies.len(),
{
    if companies.len() == 0 {
        -1
    } else {
        let r = first_company(companies.drop_last(), company_id);
        if r >= 0 { r } else if companies.last().0@ == company_id { companies.len() - 1 } else { -1 }
    }
}

/// The display name of company `company_id` (the first with that id), else the id.
pub open spec fn spec_company_display(companies: Seq<(String, String)>, company_id: Seq<char>) -> Seq<char> {
    let i = first_company(companies, company_id);
    if i < 0 { company_id } else { companies[i].1@ }
}

proof fn lemma_first_company(companies: Seq<(String, String)>, company_id: Seq<char>, i: int)
    requires
        0 <= i <= companies.len(),
        forall|k: int| 0 <= k < i ==> companies[k].0@ != company_id,
    ensures
        first_company(companies.take(i), company_id) == -1,
        i < companies.len() && companies[i].0@ == company_id ==> first_company(companies.take(i + 1), company_id) == i,
    decreases i,
{
    if i > 0 {
        lemma_first_company(companies, company_id, i - 1);
        assert(companies.take(i).drop_last() =~= companies.take(i - 1));
    }
    if i == 0 {
        assert(companies.take(0) =~= Seq::<(String, String)>::empty());
    }
    if i < companies.len() {
        assert(companies.take(i + 1).drop_last() =~= companies.take(i));
        assert(companies.take(i + 1).last() == companies[i]);
    }
}

proof fn lemma_first_company_extends(companies: Seq<(String, String)>, company_id: Seq<char>, i: int)
    requires
        0 <= i < companies.len(),
        first_company(companies.take(i + 1), company_id) == i,
    ensures
        first_company(companies, company_id) == i,
    decreases companies.len() - i,
{
    if i + 1 < companies.len() {
        assert(companies.drop_last().take(i + 1) =~= companies.take(i + 1));
        lemma_first_company_extends(companies.drop_last(), company_id, i);
    } else {
        assert(companies.take(i + 1) =~= companies);
    }
}

proof fn lemma_first_company_none(companies: Seq<(String, String)>, company_id: Seq<char>)
    requires
        forall|k: int| 0 <= k < companies.len() ==> companies[k].0@ != company_id,
    ensures
        first_company(companies, company_id) == -1,
    decreases companies.len(),
{
    if companies.len() > 0 {
        lemma_first_company_none(companies.drop_last(), company_id);
    }
}

/// The name the prompt gives the company.
pub fn company_name(companies: &Vec<(String, String)>, company_id: &str) -> (r: String)
    ensures
        r@ == spec_company_display(companies@, company_id@),
{
    let mut i: usize = 0;
    while i < companies.len()
        invariant
            i <= companies@.len(),
            forall|k: int| 0 <= k < i ==> companies@[k].0@ != company_id@,
        decreases companies.len() - i,
    {
        if str_eq(companies[i].0.as_str(), company_id) {
            proof {
                lemma_first_company(companies@, company_id@, i as int);
                lemma_first_company_extends(companies@, company_id@, i as int);
            }
            return companies[i].1.clone();
        }
        i = i + 1;
    }
    proof {
        lemma_first_company_none(companies@, company_id@);
    }
    owned(company_id)
}

/// A claim parsed from the provider's answer.
pub struct ParsedClaim {
    pub statement: String,
    pub due_fiscal_year: Option<i64>,
    pub due_period_type: Option<String>,
    pub target_metric_key: Option<String>,
    pub target_comparator: Option<String>,
    pub target_value_numeric: Option<String>,
    pub target_unit: Option<String>,
    pub source_snippet: Option<String>,
}

/// A pending claim proposal, attributed to its source.
pub struct ClaimProposal {
    pub claim: ParsedClaim,
    pub source_evidence_type: String,
    pub source_evidence_id: String,
}

/// Attribute each parsed claim, in order, to the job's source: the transcript
/// for a transcript job, else the report document.
pub fn proposals_for(claims: Vec<ParsedClaim>, source_type: &str, source_id: &str) -> (r: Vec<ClaimProposal>)
    ensures
        r@.map_values(|p: ClaimProposal| proposal_view(p)) == attributed(claims@, source_type@, source_id@),
{
    let ghost all = claims@;
    let mut rest = claims;
    let mut out: Vec<ClaimProposal> = Vec::new();
    let ghost mut done: int = 0;
    proof {
        assert(rest@ =~= all.skip(0));
    }
    while rest.len() > 0
        invariant
            0 <= done <= all.len(),
            rest@ == all.skip(done),
            out@.len() == done,
            forall|k: int| 0 <= k < done ==> (#[trigger] out@[k]).claim == all[k]
                && out@[k].source_evidence_type@ == spec_evidence_type(source_type@)
                && out@[k].source_evidence_id@ == source_id@,
        decreases rest.len(),
    {
        let c = rest.remove(0);
        proof {
            assert(c == all[done]);
            assert(rest@ =~= all.skip(done + 1));
        }
        out.push(ClaimProposal {
            claim: c,
            source_evidence_type: owned(evidence_type(source_type)),
            source_evidence_id: owned(source_id),
        });
        proof {
            done = done + 1;
        }
    }
    proof {
        assert(out@.map_values(|p: ClaimProposal| proposal_view(p)) =~= attributed(all, source_type@, source_id@));
    }
    out
}

// ---------------------------------------------------------------------------
// The job.
// ---------------------------------------------------------------------------

/// The step a run is at.
#[derive(Debug, Clone, Copy, PartialEq, Eq, Structural)]
pub enum ClaimStage {
    LoadJob,
    ResolveProvider,
    LoadSource,
    MarkRunning,
    Complete,
    Parse,
    Done,
}

/// The job as loaded.
pub struct ClaimJob {
    pub status: String,
    pub source_type: String,
    pub source_id: String,
}

/// How the report document of a job was found.
pub struct SourceDocument {
    pub fetch_status: String,
    pub has_stored_file: bool,
    /// Reading the stored file: its error when it failed.
    pub read: Result<(), String>,
}

/// The outcome of a step's outside work.
pub enum ClaimEvent {
    /// The job, or the lookup error.
    JobLoaded(Result<ClaimJob, String>),
    /// The provider: whether it reads documents, or the resolution error.
    ProviderResolved(Result<bool, String>),
    /// A transcript's segment texts, or the lookup error.
    TranscriptLoaded(Result<Vec<String>, String>),
    /// A report document, or the lookup error.
    DocumentLoaded(Result<SourceDocument, String>),
    /// Marking the job running.
    MarkedRunning(Result<(), String>),
    /// The provider's answer, or its error code and message.
    Completed(Result<String, (String, String)>),
    /// The parsed claims, or the parser's error code and message.
    Parsed(Result<Vec<ParsedClaim>, (String, String)>),
}

/// What the caller does next.
pub enum ClaimAction {
    /// Do the outside work of this step and report its event.
    Next(ClaimStage),
    /// The job had already succeeded: return it as it is.
    AlreadySucceeded,
    /// Store these pending proposals: the job succeeded.
    Propose(Vec<ClaimProposal>),
    /// Mark the job failed with `code` and `error`.
    MarkFailed { code: String, error: String },
    /// Return the error.
    Abort(String),
}

/// The run's memory between steps: the job's source.
pub struct ClaimRun {
    pub stage: ClaimStage,
    pub source_type: String,
    pub source_id: String,
}

/// [`ClaimAction`] as plain values.
pub enum ClaimActionView {
    Next(ClaimStage),
    AlreadySucceeded,
    Propose(Seq<(ParsedClaim, Seq<char>, Seq<char>)>),
    MarkFailed { code: Seq<char>, error: Seq<char> },
    Abort(Seq<char>),
}

/// A proposal as plain values.
pub open spec fn proposal_view(p: ClaimProposal) -> (ParsedClaim, Seq<char>, Seq<char>) {
    (p.claim, p.source_evidence_type@, p.source_evidence_id@)
}

/// The action as plain values.
pub open spec fn claim_action_view(a: ClaimAction) -> ClaimActionView {
    match a {
        ClaimAction::Next(s) => ClaimActionView::Next(s),
        ClaimAction::AlreadySucceeded => ClaimActionView::AlreadySucceeded,
        ClaimAction::Propose(ps) => ClaimActionView::Propose(ps@.map_values(|p: ClaimProposal| proposal_view(p))),
        ClaimAction::MarkFailed { code, error } => ClaimActionView::MarkFailed { code: code@, error: error@ },
        ClaimAction::Abort(e) => ClaimActionView::Abort(e@),
    }
}

/// The run's memory as plain values: its stage, source type and source id.
pub open spec fn run_view(r: ClaimRun) -> (ClaimStage, Seq<char>, Seq<char>) {
    (r.stage, r.source_type@, r.source_id@)
}

/// A failure with `code` and `error`, keeping the source.
pub open spec fn failing(st: Seq<char>, sid: Seq<char>, code: Seq<char>, error: Seq<char>)
    -> ((ClaimStage, Seq<char>, Seq<char>), ClaimActionView)
{
    ((ClaimStage::Done, st, sid), ClaimActionView::MarkFailed { code, error })
}

/// The claims attributed to source `(st, sid)`.
pub open spec fn attributed(claims: Seq<ParsedClaim>, st: Seq<char>, sid: Seq<char>) -> Seq<(ParsedClaim, Seq<char>, Seq<char>)> {
    claims.map_values(|c: ParsedClaim| (c, spec_evidence_type(st), sid))
}

/// One step of a run at `(stage, source type, source id)` given `event`: the
/// next memory and the action. An event that does not fit the stage changes
/// nothing.
/// - the job: a lookup error aborts; a succeeded job is returned as it is;
///   else its source is remembered;
/// - the provider: an error, or a provider that cannot read documents, fails
///   with `provider_unavailable`;
/// - the source: a transcript lookup error or one without segment text, a
///   document lookup error, a document not fetched, without a stored file, or
///   whose file cannot be read, fails with `source_not_found`;
/// - marking running fails with `extraction_failed`; the provider's and the
///   parser's errors fail with their own codes;
/// - the parsed claims are proposed in order, attributed to the source.
pub open spec fn spec_claim_step(run: (ClaimStage, Seq<char>, Seq<char>), event: ClaimEvent)
    -> ((ClaimStage, Seq<char>, Seq<char>), ClaimActionView)
{
    let (s, st, sid) = run;
    match (s, event) {
        (ClaimStage::LoadJob, ClaimEvent::JobLoaded(r)) => match r {
            Err(e) => ((ClaimStage::Done, st, sid), ClaimActionView::Abort(e@)),
            Ok(job) => if job.status@ == "succeeded"@ {
                ((ClaimStage::Done, st, sid), ClaimActionView::AlreadySucceeded)
            } else {
                ((ClaimStage::ResolveProvider, job.source_type@, job.source_id@), ClaimActionView::Next(ClaimStage::ResolveProvider))
            },
        },
        (ClaimStage::ResolveProvider, ClaimEvent::ProviderResolved(r)) => match r {
            Err(e) => failing(st, sid, "provider_unavailable"@, e@),
            Ok(reads_documents) => if reads_documents {
                ((ClaimStage::LoadSource, st, sid), ClaimActionView::Next(ClaimStage::LoadSource))
            } else {
                failing(st, sid, "provider_unavailable"@, NO_DOCUMENT_SUPPORT@)
            },
        },
        (ClaimStage::LoadSource, ClaimEvent::TranscriptLoaded(r)) => if st == "transcript"@ {
            match r {
                Err(e) => failing(st, sid, "source_not_found"@, e@),
                Ok(segments) => if spec_transcript_text(segments@.map_values(|x: String| x@)).len() == 0 {
                    failing(st, sid, "source_not_found"@, NO_SEGMENTS@)
                } else {
                    ((ClaimStage::MarkRunning, st, sid), ClaimActionView::Next(ClaimStage::MarkRunning))
                },
            }
        } else {
            (run, ClaimActionView::Next(s))
        },
        (ClaimStage::LoadSource, ClaimEvent::DocumentLoaded(r)) => if st != "transcript"@ {
            match r {
                Err(e) => failing(st, sid, "source_not_found"@, e@),
                Ok(d) => if d.fetch_status@ != "fetched"@ {
                    failing(st, sid, "source_not_found"@, NOT_FETCHED@)
                } else if !d.has_stored_file {
                    failing(st, sid, "source_not_found"@, NO_STORED_FILE@)
                } else {
                    match d.read {
                        Err(e) => failing(st, sid, "source_not_found"@, "failed to read report document file: "@ + e@),
                        Ok(()) => ((ClaimStage::MarkRunning, st, sid), ClaimActionView::Next(ClaimStage::MarkRunning)),
                    }
                },
            }
        } else {
            (run, ClaimActionView::Next(s))
        },
        (ClaimStage::MarkRunning, ClaimEvent::MarkedRunning(r)) => match r {
            Err(e) => failing(st, sid, "extraction_failed"@, e@),
            Ok(()) => ((ClaimStage::Complete, st, sid), ClaimActionView::Next(ClaimStage::Complete)),
        },
        (ClaimStage::Complete, ClaimEvent::Completed(r)) => match r {
            Err((code, message)) => failing(st, sid, code@, message@),
            Ok(_) => ((ClaimStage::Parse, st, sid), ClaimActionView::Next(ClaimStage::Parse)),
        },
        (ClaimStage::Parse, ClaimEvent::Parsed(r)) => match r {
            Err((code, message)) => failing(st, sid, code@, message@),
            Ok(claims) => ((ClaimStage::Done, st, sid), ClaimActionView::Propose(attributed(claims@, st, sid))),
        },
        _ => (run, ClaimActionView::Next(s)),
    }
}

/// Advance a run with the outcome of its current step (see [`spec_claim_step`]).
pub fn claim_step(run: &mut ClaimRun, event: ClaimEvent) -> (action: ClaimAction)
    ensures
        (run_view(*final(run)), claim_action_view(action)) == spec_claim_step(run_view(*old(run)), event),
{
    let s = run.stage;
    match (s, event) {
        (ClaimStage::LoadJob, ClaimEvent::JobLoaded(r)) => match r {
            Err(e) => {
                run.stage = ClaimStage::Done;
                ClaimAction::Abort(e)
            },
            Ok(job) => {
                if str_eq(job.status.as_str(), "succeeded") {
                    run.stage = ClaimStage::Done;
                    ClaimAction::AlreadySucceeded
                } else {
                    run.source_type = job.source_type;
                    run.source_id = job.source_id;
                    run.stage = ClaimStage::ResolveProvider;
                    ClaimAction::Next(ClaimStage::ResolveProvider)
                }
            },
        },
        (ClaimStage::ResolveProvider, ClaimEvent::ProviderResolved(r)) => {
            match r {
                Err(e) => fail(run, "provider_unavailable", e),
                Ok(reads_documents) => {
                    if reads_documents {
                        run.stage = ClaimStage::LoadSource;
                        ClaimAction::Next(ClaimStage::LoadSource)
                    } else {
                        fail(run, "provider_unavailable", owned(NO_DOCUMENT_SUPPORT))
                    }
                },
            }
        },
        (ClaimStage::LoadSource, ClaimEvent::TranscriptLoaded(r)) => {
            if !str_eq(run.source_type.as_str(), "transcript") {
                return ClaimAction::Next(s);
            }
            match r {
                Err(e) => fail(run, "source_not_found", e),
                Ok(segments) => {
                    let text = transcript_text(&segments);
                    if crate::text::chars_of(text.as_str()).len() == 0 {
                        fail(run, "source_not_found", owned(NO_SEGMENTS))
                    } else {
                        run.stage = ClaimStage::MarkRunning;
                        ClaimAction::Next(ClaimStage::MarkRunning)
                    }
                },
            }
        },
        (ClaimStage::LoadSource, ClaimEvent::DocumentLoaded(r)) => {
            if str_eq(run.source_type.as_str(), "transcript") {
                return ClaimAction::Next(s);
            }
            match r {
                Err(e) => fail(run, "source_not_found", e),
                Ok(d) => {
                    if !str_eq(d.fetch_status.as_str(), "fetched") {
                        fail(run, "source_not_found", owned(NOT_FETCHED))
                    } else if !d.has_stored_file {
                        fail(run, "source_not_found", owned(NO_STORED_FILE))
                    } else {
                        match d.read {
                            Err(e) => fail(run, "source_not_found", crate::text::concat2("failed to read report document file: ", e.as_str())),
                            Ok(()) => {
                                run.stage = ClaimStage::MarkRunning;
                                ClaimAction::Next(ClaimStage::MarkRunning)
                            },
                        }
                    }
                },
            }
        },
        (ClaimStage::MarkRunning, ClaimEvent::MarkedRunning(r)) => match r {
            Err(e) => fail(run, "extraction_failed", e),
            Ok(()) => {
                run.stage = ClaimStage::Complete;
                ClaimAction::Next(ClaimStage::Complete)
            },
        },
        (ClaimStage::Complete, ClaimEvent::Completed(r)) => match r {
            Err((code, message)) => fail(run, code.as_str(), message),
            Ok(_) => {
                run.stage = ClaimStage::Parse;
                ClaimAction::Next(ClaimStage::Parse)
            },
        },
        (ClaimStage::Parse, ClaimEvent::Parsed(r)) => match r {
            Err((code, message)) => fail(run, code.as_str(), message),
            Ok(claims) => {
                let proposals = proposals_for(claims, run.source_type.as_str(), run.source_id.as_str());
                run.stage = ClaimStage::Done;
                ClaimAction::Propose(proposals)
            },
        },
        (s, _) => ClaimAction::Next(s),
    }
}

fn fail(run: &mut ClaimRun, code: &str, error: String) -> (action: ClaimAction)
    ensures
        final(run).stage == ClaimStage::Done,
        final(run).source_type == old(run).source_type,
        final(run).source_id == old(run).source_id,
        claim_action_view(action) == (ClaimActionView::MarkFailed { code: code@, error: error@ }),
{
    run.stage = ClaimStage::Done;
    ClaimAction::MarkFailed { code: owned(code), error }
}

/// A fresh run.
pub fn start_claim_extraction() -> (r: ClaimRun)
    ensures
        run_view(r) == (ClaimStage::LoadJob, Seq::<char>::empty(), Seq::<char>::empty()),
{
    ClaimRun { stage: ClaimStage::LoadJob, source_type: String::new(), source_id: String::new() }
}

/// The memory and last action after applying `events` in order, each only
/// while the run is not done.
pub open spec fn spec_claim_drive(run: (ClaimStage, Seq<char>, Seq<char>), events: Seq<ClaimEvent>, last: ClaimActionView)
    -> ((ClaimStage, Seq<char>, Seq<char>), ClaimActionView)
    decreases events.len(),
{
    if events.len() == 0 || run.0 == ClaimStage::Done {
        (run, last)
    } else {
        let (r2, a) = spec_claim_step(run, events[0]);
        spec_claim_drive(r2, events.drop_first(), a)
    }
}

/// A claim extraction run driven over the outcomes of its steps in order (see
/// [`spec_claim_drive`]): the stage it ends at and its last action.
pub fn run_claim_extraction_job(events: Vec<ClaimEvent>) -> (r: (ClaimStage, ClaimAction))
    ensures
        ({
            let (m, a) = spec_claim_drive((ClaimStage::LoadJob, Seq::empty(), Seq::empty()), events@,
                ClaimActionView::Next(ClaimStage::LoadJob));
            r.0 == m.0 && claim_action_view(r.1) == a
        }),
{
    let mut run = start_claim_extraction();
    let mut last = ClaimAction::Next(ClaimStage::LoadJob);
    let ghost all = events@;
    let mut rest = events;
    proof {
        assert(run_view(run) == (ClaimStage::LoadJob, Seq::<char>::empty(), Seq::<char>::empty()));
    }
    while rest.len() > 0 && run.stage != ClaimStage::Done
        invariant
            spec_claim_drive(run_view(run), rest@, claim_action_view(last))
                == spec_claim_drive((ClaimStage::LoadJob, Seq::empty(), Seq::empty()), all, ClaimActionView::Next(ClaimStage::LoadJob)),
        decreases rest.len(),
    {
        let ghost before = rest@;
        let event = rest.remove(0);
        proof {
            assert(event == before[0]);
            assert(rest@ =~= before.drop_first());
        }
        last = claim_step(&mut run, event);
    }
    (run.stage, last)
}

} // verus!
