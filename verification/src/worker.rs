//! What the worker does with a claimed job once its handler has run: settle it
//! on the queue, and when it failed for good, make the failure visible where
//! its kind's failure surface says. A kind whose surface is the Today stream
//! raises one `job_failed` attention event per job, scoped to the company its
//! payload names; a kind with a richer surface of its own raises none.

use vstd::prelude::*;
use crate::json::{json_str_field, spec_json_str_field};
use crate::lanes::{failure_surface, spec_failure_surface, FailureSurface};
use crate::queue::{index_of, row_of, JobQueue, JobRow, JobStatus, JobView};
use crate::text::{concat2, owned, str_eq};

verus! {

/// The attention trigger of a job that failed for good.
pub const TRIGGER_JOB_FAILED: &'static str = "job_failed";

/// The evidence type of an event whose evidence is a queue job.
pub const EVIDENCE_JOB: &'static str = "job";

/// How loud an attention event is.
#[derive(Debug, Clone, Copy, PartialEq, Eq, Structural)]
pub enum AttentionSeverity {
    Info,
    Notable,
    Urgent,
}

/// One system attention event.
#[derive(Debug)]
pub struct AttentionEvent {
    pub trigger_type: String,
    pub evidence_type: String,
    pub evidence_ref: String,
    pub company_id: Option<String>,
    pub rule_id: Option<String>,
    pub severity: AttentionSeverity,
}

/// [`AttentionEvent`] with its text as characters.
pub struct EventView {
    pub trigger_type: Seq<char>,
    pub evidence_type: Seq<char>,
    pub evidence_ref: Seq<char>,
    pub company_id: Option<Seq<char>>,
    pub rule_id: Option<Seq<char>>,
    pub severity: AttentionSeverity,
}

impl View for AttentionEvent {
    type V = EventView;

    open spec fn view(&self) -> EventView {
        EventView {
            trigger_type: self.trigger_type@,
            evidence_type: self.evidence_type@,
            evidence_ref: self.evidence_ref@,
            company_id: crate::activity::opt_text(self.company_id),
            rule_id: crate::activity::opt_text(self.rule_id),
            severity: self.severity,
        }
    }
}

/// The events as plain values.
pub open spec fn event_views(events: Seq<AttentionEvent>) -> Seq<EventView> {
    events.map_values(|e: AttentionEvent| e@)
}

/// The event a job `job_id` that failed for good raises: notable, owned by no
/// rule, scoped to the company its payload names (none for a workspace-wide job).
pub open spec fn job_failed_event(job_id: Seq<char>, payload: Seq<char>) -> EventView {
    EventView {
        trigger_type: TRIGGER_JOB_FAILED@,
        evidence_type: EVIDENCE_JOB@,
        evidence_ref: job_id,
        company_id: spec_json_str_field(payload, "companyId"@),
        rule_id: None,
        severity: AttentionSeverity::Notable,
    }
}

/// Some event already has job `job_id` as its evidence.
pub open spec fn has_job_event(events: Seq<EventView>, job_id: Seq<char>) -> bool {
    exists|k: int| 0 <= k < events.len() && is_job_event(#[trigger] events[k], job_id)
}

/// `e` is the failure event of job `job_id`.
pub open spec fn is_job_event(e: EventView, job_id: Seq<char>) -> bool {
    e.trigger_type == TRIGGER_JOB_FAILED@ && e.evidence_type == EVIDENCE_JOB@ && e.evidence_ref == job_id
}

/// The queue and events after settling the claimed job `id` of `kind` with its
/// handler's `result`: success marks it succeeded; a failure records the error
/// and requeues it while attempts remain, else fails it for good — and then, for
/// a kind surfaced in the Today stream, raises the job's event unless one was
/// already raised for it.
pub open spec fn spec_settle(
    jobs: Seq<JobView>,
    events: Seq<EventView>,
    id: Seq<char>,
    kind: Seq<char>,
    payload: Seq<char>,
    result: Result<(), Seq<char>>,
) -> (Seq<JobView>, Seq<EventView>) {
    match row_of(jobs, id) {
        None => (jobs, events),
        Some(row) => match result {
            Ok(_) => (jobs.update(index_of(jobs, id), JobView { status: JobStatus::Succeeded, ..row }), events),
            Err(e) => {
                let retry = row.attempts < row.max_attempts;
                let jobs2 = jobs.update(index_of(jobs, id), JobView {
                    status: if retry { JobStatus::Pending } else { JobStatus::Failed },
                    last_error: Some(e),
                    ..row
                });
                if !retry && spec_failure_surface(kind) == Some(FailureSurface::TodayAttention)
                    && !has_job_event(events, id) {
                    (jobs2, events.push(job_failed_event(id, payload)))
                } else {
                    (jobs2, events)
                }
            },
        },
    }
}

/// The handler result as plain values.
pub open spec fn result_view(r: Result<(), String>) -> Result<(), Seq<char>> {
    match r {
        Ok(_) => Ok(()),
        Err(e) => Err(e@),
    }
}

fn has_event_for(events: &Vec<AttentionEvent>, job_id: &str) -> (r: bool)
    ensures
        r == has_job_event(event_views(events@), job_id@),
{
    let ghost v = event_views(events@);
    let mut i: usize = 0;
    while i < events.len()
        invariant
            i <= events@.len(),
            v == event_views(events@),
            forall|k: int| 0 <= k < i ==> !is_job_event(#[trigger] v[k], job_id@),
        decreases events.len() - i,
    {
        let e = &events[i];
        if str_eq(e.trigger_type.as_str(), TRIGGER_JOB_FAILED) && str_eq(e.evidence_type.as_str(), EVIDENCE_JOB)
            && str_eq(e.evidence_ref.as_str(), job_id) {
            proof {
                assert(v[i as int] == events@[i as int]@);
                assert(is_job_event(v[i as int], job_id@));
            }
            return true;
        }
        proof {
            assert(v[i as int] == events@[i as int]@);
        }
        i = i + 1;
    }
    false
}

/// Settle a claimed job with its handler's result (see [`spec_settle`]).
/// Returns whether the job was requeued for another attempt.
pub fn settle_job(
    jobs: &mut JobQueue,
    events: &mut Vec<AttentionEvent>,
    id: &str,
    kind: &str,
    payload: &str,
    result: Result<(), String>,
) -> (requeued: bool)
    requires
        old(jobs).wf(),
    ensures
        final(jobs).wf(),
        ({
            let (js, es) = spec_settle(old(jobs)@, event_views(old(events)@), id@, kind@, payload@, result_view(result));
            &&& final(jobs)@ == js
            &&& event_views(final(events)@) == es
        }),
        requeued == (result is Err && row_of(old(jobs)@, id@) is Some
            && row_of(old(jobs)@, id@)->0.attempts < row_of(old(jobs)@, id@)->0.max_attempts),
{
    match result {
        Ok(()) => {
            let found = jobs.mark_succeeded(id);
            false
        },
        Err(error) => {
            let known = jobs.status(id).is_some();
            let retry = jobs.mark_failed(id, error.as_str());
            if known && !retry && failure_surface(kind) == Some(FailureSurface::TodayAttention)
                && !has_event_for(events, id) {
                let event = AttentionEvent {
                    trigger_type: owned(TRIGGER_JOB_FAILED),
                    evidence_type: owned(EVIDENCE_JOB),
                    evidence_ref: owned(id),
                    company_id: json_str_field(payload, "companyId"),
                    rule_id: None,
                    severity: AttentionSeverity::Notable,
                };
                events.push(event);
                proof {
                    assert(event_views(events@) =~= event_views(old(events)@).push(job_failed_event(id@, payload@)));
                }
            }
            retry
        },
    }
}

/// The error a job of a kind with no registered handler fails with.
pub open spec fn spec_no_handler_error(kind: Seq<char>) -> Seq<char> {
    "no handler registered for job kind "@ + kind
}

/// A job's failure is surfaced at most once: settling a failure for a job
/// whose event was already raised raises no second one.
pub proof fn lemma_failed_job_event_raised_once(
    jobs: Seq<JobView>,
    events: Seq<EventView>,
    id: Seq<char>,
    kind: Seq<char>,
    payload: Seq<char>,
    result: Result<(), Seq<char>>,
)
    requires
        has_job_event(events, id),
    ensures
        spec_settle(jobs, events, id, kind, payload, result).1 == events,
{
}

/// A failure with attempts left raises nothing, and only a kind surfaced in
/// the Today stream ever raises an event.
pub proof fn lemma_only_terminal_today_failures_raise(
    jobs: Seq<JobView>,
    events: Seq<EventView>,
    id: Seq<char>,
    kind: Seq<char>,
    payload: Seq<char>,
    result: Result<(), Seq<char>>,
)
    requires
        spec_settle(jobs, events, id, kind, payload, result).1 != events,
    ensures
        result is Err,
        row_of(jobs, id) is Some,
        row_of(jobs, id)->0.attempts >= row_of(jobs, id)->0.max_attempts,
        spec_failure_surface(kind) == Some(FailureSurface::TodayAttention),
        spec_settle(jobs, events, id, kind, payload, result).1 == events.push(job_failed_event(id, payload)),
{
}


// ---------------------------------------------------------------------------
// The worker.
// ---------------------------------------------------------------------------

/// The durable-queue worker: the job kinds it has a handler for.
pub struct JobWorker {
    kinds: Vec<&'static str>,
}

impl View for JobWorker {
    type V = Seq<Seq<char>>;

    closed spec fn view(&self) -> Seq<Seq<char>> {
        self.kinds@.map_values(|k: &'static str| k@)
    }
}

impl JobWorker {
    /// A worker with no handlers.
    pub fn new() -> (w: JobWorker)
        ensures
            w@ == Seq::<Seq<char>>::empty(),
    {
        let w = JobWorker { kinds: Vec::new() };
        proof {
            assert(w@ =~= Seq::<Seq<char>>::empty());
        }
        w
    }

    /// Whether the worker has a handler for `kind`.
    pub fn handles(&self, kind: &str) -> (r: bool)
        ensures
            r == self@.contains(kind@),
    {
        let mut i: usize = 0;
        while i < self.kinds.len()
            invariant
                i <= self.kinds@.len(),
                forall|k: int| 0 <= k < i ==> self@[k] != kind@,
            decreases self.kinds.len() - i,
        {
            proof {
                assert(self@[i as int] == self.kinds@[i as int]@);
            }
            if str_eq(self.kinds[i], kind) {
                return true;
            }
            i = i + 1;
        }
        false
    }

    /// Register the handler of `kind` (registering a kind again keeps one).
    pub fn register(&mut self, kind: &'static str)
        ensures
            final(self)@ == if old(self)@.contains(kind@) { old(self)@ } else { old(self)@.push(kind@) },
    {
        if !self.handles(kind) {
            self.kinds.push(kind);
            proof {
                assert(self@ =~= old(self)@.push(kind@));
            }
        }
    }

    /// What dispatching a claimed job of `kind` amounts to before its handler
    /// runs: a kind without a handler fails with [`spec_no_handler_error`];
    /// any other is handed to its handler (`None`).
    pub fn dispatch(&self, kind: &str) -> (r: Option<String>)
        ensures
            self@.contains(kind@) ==> r is None,
            !self@.contains(kind@) ==> (r matches Some(e) && e@ == spec_no_handler_error(kind@)),
    {
        if self.handles(kind) {
            None
        } else {
            Some(concat2("no handler registered for job kind ", kind))
        }
    }

    /// Claim the next pending job and settle it: with `handler_result` (what
    /// its handler returned) when the worker has a handler for its kind, else
    /// failed with [`spec_no_handler_error`]. `false` when no job was pending.
    pub fn process_one(&self, jobs: &mut JobQueue, events: &mut Vec<AttentionEvent>, handler_result: Result<(), String>) -> (claimed: bool)
        requires
            old(jobs).wf(),
        ensures
            final(jobs).wf(),
            ({
                let i = crate::queue::first_pending_from(old(jobs)@, None, 0);
                if i < 0 {
                    !claimed && final(jobs)@ == old(jobs)@ && final(events)@ == old(events)@
                } else {
                    let row = crate::queue::claimed(old(jobs)@[i]);
                    let result = if self@.contains(row.kind) { result_view(handler_result) } else { Err(spec_no_handler_error(row.kind)) };
                    let (js, es) = spec_settle(old(jobs)@.update(i, row), event_views(old(events)@), row.id, row.kind, row.payload, result);
                    &&& claimed
                    &&& final(jobs)@ == js
                    &&& event_views(final(events)@) == es
                }
            }),
    {
        match jobs.claim_next() {
            None => false,
            Some(job) => {
                let result = match self.dispatch(job.kind.as_str()) {
                    Some(error) => Err(error),
                    None => handler_result,
                };
                let requeued = settle_job(jobs, events, job.id.as_str(), job.kind.as_str(), job.payload.as_str(), result);
                true
            },
        }
    }
}

/// The worker with every registered handler (see
/// [`crate::lanes::spec_registered_kinds`]), in registration order.
pub fn build_worker() -> (w: JobWorker)
    ensures
        w@ == crate::lanes::spec_registered_kinds(),
{
    let kinds = crate::lanes::registered_kinds();
    let ghost all = crate::lanes::spec_registered_kinds();
    let mut w = JobWorker::new();
    let mut i: usize = 0;
    proof {
        crate::lanes::lemma_kind_names_distinct();
        assert(all.take(0) =~= Seq::<Seq<char>>::empty());
    }
    while i < kinds.len()
        invariant
            i <= kinds@.len(),
            crate::lanes::kind_views(kinds@) == all,
            all == crate::lanes::spec_registered_kinds(),
            all.no_duplicates(),
            w@ == all.take(i as int),
        decreases kinds.len() - i,
    {
        proof {
            assert(kinds@[i as int]@ == all[i as int]);
            assert(!all.take(i as int).contains(all[i as int]));
            assert(all.take(i + 1) =~= all.take(i as int).push(all[i as int]));
        }
        w.register(kinds[i]);
        i = i + 1;
    }
    proof {
        assert(all.take(i as int) =~= all);
    }
    w
}

} // verus!
