//! The opt-in AI date-extraction fallback for calendar-event derivation: which
//! filings it asks about, how a model's answer is read (a real calendar date
//! or nothing), and how a run is counted. It never commits: every date it
//! reads becomes a `proposed` event the user must confirm.

use vstd::prelude::*;
use crate::json::{json_parse_error, json_str_field, spec_json_parse_error, spec_json_str_field};
use crate::text::{chars_of, concat3, has_non_whitespace, owned, spec_is_whitespace, str_eq};

verus! {

/// Upper bound on signals dated per run.
pub const DEFAULT_BATCH_LIMIT: i64 = 25;

/// The counted outcome of one run.
#[derive(Debug, Clone, Copy, PartialEq, Eq, Structural)]
pub struct AiEventDerivationSummary {
    /// Whether the opt-in fallback is enabled; when `false` nothing ran.
    pub enabled: bool,
    /// Signals examined this run.
    pub examined: usize,
    /// New `proposed` derived events created this run.
    pub derived: usize,
    /// Signals the model could not date, or that errored.
    pub skipped: usize,
}

/// What the model is asked to find for a signal category; `None` for a
/// category the fallback does not date.
pub open spec fn spec_event_kind(category: Seq<char>) -> Option<Seq<char>> {
    if category == "dividend"@ {
        Some("dividend payment date (or, if absent, the dividend record date)"@)
    } else if category == "general_meeting"@ {
        Some("general meeting date"@)
    } else {
        None
    }
}

/// What the model is asked to find for a signal category.
pub fn event_kind(category: &str) -> (r: Option<&'static str>)
    ensures
        match r {
            Some(k) => spec_event_kind(category@) == Some(k@),
            None => spec_event_kind(category@) is None,
        },
{
    if str_eq(category, "dividend") {
        Some("dividend payment date (or, if absent, the dividend record date)")
    } else if str_eq(category, "general_meeting") {
        Some("general meeting date")
    } else {
        None
    }
}

// ---------------------------------------------------------------------------
// Calendar dates.
// ---------------------------------------------------------------------------

/// An ASCII digit.
pub open spec fn is_ascii_digit(c: char) -> bool {
    '0' <= c <= '9'
}

/// The value of a digit character.
pub open spec fn digit_value(c: char) -> int {
    c as int - '0' as int
}

/// A leap year of the Gregorian calendar.
pub open spec fn is_leap_year(year: int) -> bool {
    (year % 4 == 0 && year % 100 != 0) || year % 400 == 0
}

/// The number of days of `month` (1..12) in `year`.
pub open spec fn days_in_month(year: int, month: int) -> int {
    if month == 2 {
        if is_leap_year(year) { 29 } else { 28 }
    } else if month == 4 || month == 6 || month == 9 || month == 11 {
        30
    } else {
        31
    }
}

/// `s` is a real calendar date written `YYYY-MM-DD`.
pub open spec fn spec_is_calendar_date(s: Seq<char>) -> bool {
    &&& s.len() == 10
    &&& is_ascii_digit(s[0]) && is_ascii_digit(s[1]) && is_ascii_digit(s[2]) && is_ascii_digit(s[3])
    &&& s[4] == '-' && is_ascii_digit(s[5]) && is_ascii_digit(s[6])
    &&& s[7] == '-' && is_ascii_digit(s[8]) && is_ascii_digit(s[9])
    &&& ({
        let year = digit_value(s[0]) * 1000 + digit_value(s[1]) * 100 + digit_value(s[2]) * 10 + digit_value(s[3]);
        let month = digit_value(s[5]) * 10 + digit_value(s[6]);
        let day = digit_value(s[8]) * 10 + digit_value(s[9]);
        1 <= month <= 12 && 1 <= day <= days_in_month(year, month)
    })
}

fn digit(v: &Vec<char>, i: usize) -> (r: Option<u32>)
    requires
        i < v@.len(),
    ensures
        r is Some <==> is_ascii_digit(v@[i as int]),
        r is Some ==> r->0 as int == digit_value(v@[i as int]) && r->0 < 10,
{
    let c = v[i];
    if c >= '0' && c <= '9' {
        Some((c as u32) - ('0' as u32))
    } else {
        None
    }
}

/// Whether `s` is a real calendar date written `YYYY-MM-DD`.
pub fn is_calendar_date(s: &str) -> (r: bool)
    ensures
        r == spec_is_calendar_date(s@),
{
    let v = chars_of(s);
    if v.len() != 10 || v[4] != '-' || v[7] != '-' {
        return false;
    }
    let (y0, y1, y2, y3, m0, m1, d0, d1) = match (digit(&v, 0), digit(&v, 1), digit(&v, 2), digit(&v, 3),
        digit(&v, 5), digit(&v, 6), digit(&v, 8), digit(&v, 9)) {
        (Some(a), Some(b), Some(c), Some(d), Some(e), Some(f), Some(g), Some(h)) => (a, b, c, d, e, f, g, h),
        _ => return false,
    };
    let year = y0 * 1000 + y1 * 100 + y2 * 10 + y3;
    let month = m0 * 10 + m1;
    let day = d0 * 10 + d1;
    if month < 1 || month > 12 || day < 1 {
        return false;
    }
    let leap = (year % 4 == 0 && year % 100 != 0) || year % 400 == 0;
    let days: u32 = if month == 2 {
        if leap { 29 } else { 28 }
    } else if month == 4 || month == 6 || month == 9 || month == 11 {
        30
    } else {
        31
    };
    day <= days
}

// ---------------------------------------------------------------------------
// Reading the model's answer.
// ---------------------------------------------------------------------------

/// The date a model's answer carries: an error when the answer is not JSON;
/// nothing when it has no string `date`, or the date is `"null"` or not a real
/// calendar date; else the date.
pub open spec fn spec_parse_event_date(text: Seq<char>, provider_id: Seq<char>) -> Result<Option<Seq<char>>, Seq<char>> {
    match spec_json_parse_error(text) {
        Some(e) => Err("the event-date answer of "@ + provider_id + " is not valid JSON: "@ + e),
        None => match spec_json_str_field(text, "date"@) {
            Some(d) => if spec_is_calendar_date(d) { Ok(Some(d)) } else { Ok(None) },
            None => Ok(None),
        },
    }
}

/// The date a model's answer carries (see [`spec_parse_event_date`]).
pub fn parse_espi_event_date_output(text: &str, provider_id: &str) -> (r: Result<Option<String>, String>)
    ensures
        match spec_parse_event_date(text@, provider_id@) {
            Err(e) => r matches Err(x) && x@ == e,
            Ok(None) => r matches Ok(None),
            Ok(Some(d)) => r matches Ok(Some(x)) && x@ == d,
        },
{
    if let Some(e) = json_parse_error(text) {
        let mut message = concat3("the event-date answer of ", provider_id, " is not valid JSON: ");
        message.append(e.as_str());
        return Err(message);
    }
    match json_str_field(text, "date") {
        Some(d) => {
            if is_calendar_date(d.as_str()) {
                Ok(Some(d))
            } else {
                Ok(None)
            }
        },
        None => Ok(None),
    }
}

// ---------------------------------------------------------------------------
// Counting a run.
// ---------------------------------------------------------------------------

/// The status of every event the fallback derives: a proposal the user must
/// confirm, never a committed event.
pub const PROPOSED_STATUS: &'static str = "proposed";

/// The calendar event the fallback proposes for a signal: the date it read,
/// under the `proposed` status.
#[derive(Debug, Clone, PartialEq, Eq)]
pub struct ProposedEvent {
    pub signal_id: String,
    pub date: String,
    pub status: &'static str,
}

/// The proposal for a signal of `category` whose model answer is `reply`
/// (`None` when the model was not asked): a `proposed` event at the date the
/// answer carries, when the category is datable and the answer reads as a
/// real date; else none.
pub open spec fn spec_proposal(
    signal_id: Seq<char>,
    category: Seq<char>,
    reply: Option<Result<String, String>>,
    provider_id: Seq<char>,
) -> Option<(Seq<char>, Seq<char>, Seq<char>)> {
    if spec_event_kind(category) is None {
        None
    } else {
        match reply {
            Some(Ok(text)) => match spec_parse_event_date(text@, provider_id) {
                Ok(Some(d)) => Some((signal_id, d, PROPOSED_STATUS@)),
                _ => None,
            },
            _ => None,
        }
    }
}

/// A proposal as plain values.
pub open spec fn proposal_view(p: Option<ProposedEvent>) -> Option<(Seq<char>, Seq<char>, Seq<char>)> {
    match p {
        Some(e) => Some((e.signal_id@, e.date@, e.status@)),
        None => None,
    }
}

/// The event to propose for one signal (see [`spec_proposal`]); it always
/// carries the `proposed` status.
pub fn event_date_proposal(
    signal_id: &str,
    category: &str,
    reply: &Option<Result<String, String>>,
    provider_id: &str,
) -> (r: Option<ProposedEvent>)
    ensures
        proposal_view(r) == spec_proposal(signal_id@, category@, *reply, provider_id@),
        r matches Some(e) ==> e.status@ == PROPOSED_STATUS@,
{
    if event_kind(category).is_none() {
        return None;
    }
    match reply {
        Some(Ok(text)) => match parse_espi_event_date_output(text.as_str(), provider_id) {
            Ok(Some(d)) => Some(ProposedEvent { signal_id: owned(signal_id), date: d, status: PROPOSED_STATUS }),
            _ => None,
        },
        _ => None,
    }
}

/// What happened to one candidate signal: its id and category, the model's
/// answer (`None` when the model was not asked) and whether writing the
/// proposed event created one (`None` when nothing was proposed).
pub struct EventCandidateRun {
    pub signal_id: String,
    pub category: String,
    pub reply: Option<Result<String, String>>,
    pub derived: Option<Result<bool, String>>,
}

/// A candidate yields a new proposed event: the fallback proposed one for it
/// (see [`spec_proposal`]) and writing that proposal created the event.
pub open spec fn spec_candidate_derived(c: EventCandidateRun, provider_id: Seq<char>) -> bool {
    &&& spec_proposal(c.signal_id@, c.category@, c.reply, provider_id) is Some
    &&& c.derived matches Some(Ok(true))
}

/// How many of `cands` yield a new proposed event.
pub open spec fn spec_derived_count(cands: Seq<EventCandidateRun>, provider_id: Seq<char>) -> nat
    decreases cands.len(),
{
    if cands.len() == 0 {
        0
    } else {
        spec_derived_count(cands.drop_last(), provider_id)
            + if spec_candidate_derived(cands.last(), provider_id) { 1nat } else { 0nat }
    }
}

/// The candidates one pass examines: the first [`DEFAULT_BATCH_LIMIT`] listed.
pub open spec fn spec_batch(cands: Seq<EventCandidateRun>) -> Seq<EventCandidateRun> {
    if cands.len() > DEFAULT_BATCH_LIMIT { cands.take(DEFAULT_BATCH_LIMIT as int) } else { cands }
}

/// The error when no general analysis provider is configured.
pub const NO_PROVIDER_ERROR: &'static str = "no general AI analysis provider is configured for the event-date fallback";

/// The provider id is configured: present and not blank.
pub open spec fn provider_configured(provider_id: Option<String>) -> bool {
    match provider_id {
        Some(p) => exists|i: int| 0 <= i < p@.len() && !spec_is_whitespace(#[trigger] p@[i]),
        None => false,
    }
}

/// The configured provider id: the provider id when it is present and not
/// blank, else none.
pub fn configured_provider(provider_id: &Option<String>) -> (r: Option<String>)
    ensures
        r is Some <==> provider_configured(*provider_id),
        r matches Some(p) ==> p@ == provider_id->0@,
{
    match provider_id {
        Some(p) => if has_non_whitespace(p.as_str()) { Some(p.clone()) } else { None },
        None => None,
    }
}

/// What the model is asked about a signal of `category`: its event kind, when
/// a provider is configured and its client was built and the category is one
/// the fallback dates; else the model is not asked.
pub open spec fn spec_question(configured: bool, built: bool, category: Seq<char>) -> Option<Seq<char>> {
    if configured && built { spec_event_kind(category) } else { None }
}

/// Decide whether (and about what) to ask the model for one signal (see
/// [`spec_question`]).
pub fn event_date_question(configured: bool, built: bool, category: &str) -> (r: Option<&'static str>)
    ensures
        match r {
            Some(k) => spec_question(configured, built, category@) == Some(k@),
            None => spec_question(configured, built, category@) is None,
        },
{
    if configured && built { event_kind(category) } else { None }
}

fn candidate_derived(c: &EventCandidateRun, provider_id: &str) -> (r: bool)
    ensures
        r == spec_candidate_derived(*c, provider_id@),
{
    let proposal = event_date_proposal(c.signal_id.as_str(), c.category.as_str(), &c.reply, provider_id);
    proposal.is_some() && match &c.derived {
        Some(Ok(created)) => *created,
        _ => false,
    }
}

/// Count one pass of the fallback: disabled, it ran nothing; enabled with no
/// candidates, a clean no-op; with candidates it needs a configured provider
/// (and a provider client that could be built), and then it examines at most
/// [`DEFAULT_BATCH_LIMIT`] of them, the first listed, each either derived
/// into a `proposed` event (see [`spec_candidate_derived`]) or skipped.
pub fn run_ai_event_derivation(
    enabled: bool,
    provider_id: Option<String>,
    provider_built: Result<(), String>,
    candidates: &Vec<EventCandidateRun>,
) -> (r: Result<AiEventDerivationSummary, String>)
    ensures
        !enabled ==> r == Ok::<AiEventDerivationSummary, String>(AiEventDerivationSummary { enabled: false, examined: 0, derived: 0, skipped: 0 }),
        enabled && candidates@.len() == 0 ==> r == Ok::<AiEventDerivationSummary, String>(AiEventDerivationSummary { enabled: true, examined: 0, derived: 0, skipped: 0 }),
        enabled && candidates@.len() > 0 && !provider_configured(provider_id) ==> (r matches Err(e) && e@ == NO_PROVIDER_ERROR@),
        enabled && candidates@.len() > 0 && provider_configured(provider_id) ==> match provider_built {
            Err(e) => r matches Err(x) && x@ == e@,
            Ok(()) => r matches Ok(s) && s.enabled && s.examined == spec_batch(candidates@).len()
                && s.derived == spec_derived_count(spec_batch(candidates@), provider_id->0@)
                && s.derived + s.skipped == s.examined,
        },
        r matches Ok(s) ==> s.examined <= DEFAULT_BATCH_LIMIT,
{
    if !enabled {
        return Ok(AiEventDerivationSummary { enabled: false, examined: 0, derived: 0, skipped: 0 });
    }
    if candidates.len() == 0 {
        return Ok(AiEventDerivationSummary { enabled: true, examined: 0, derived: 0, skipped: 0 });
    }
    let limit: usize = DEFAULT_BATCH_LIMIT as usize;
    let examined: usize = if candidates.len() > limit { limit } else { candidates.len() };
    let provider = match provider_id {
        Some(p) => {
            if !has_non_whitespace(p.as_str()) {
                return Err(owned(NO_PROVIDER_ERROR));
            }
            p
        },
        None => return Err(owned(NO_PROVIDER_ERROR)),
    };
    if let Err(e) = provider_built {
        return Err(e);
    }
    let ghost batch = spec_batch(candidates@);
    proof {
        assert(batch.len() == examined);
        assert forall|k: int| 0 <= k < examined implies batch[k] == candidates@[k] by {}
    }
    let mut derived: usize = 0;
    let mut i: usize = 0;
    proof {
        assert(batch.take(0) =~= Seq::<EventCandidateRun>::empty());
    }
    while i < examined
        invariant
            examined == batch.len(),
            examined <= candidates@.len(),
            batch == spec_batch(candidates@),
            forall|k: int| 0 <= k < examined ==> batch[k] == candidates@[k],
            i <= examined,
            derived <= i,
            derived == spec_derived_count(batch.take(i as int), provider@),
        decreases examined - i,
    {
        proof {
            assert(batch.take(i + 1).drop_last() =~= batch.take(i as int));
            assert(batch.take(i + 1).last() == candidates@[i as int]);
        }
        if candidate_derived(&candidates[i], provider.as_str()) {
            derived = derived + 1;
        }
        i = i + 1;
    }
    proof {
        assert(batch.take(i as int) =~= batch);
    }
    Ok(AiEventDerivationSummary { enabled: true, examined, derived, skipped: examined - derived })
}

} // verus!
