//! The NBP FX pull: planning the recurring daily pull and per-currency
//! backfills on the queue, reading the payload's extra currencies, choosing
//! where a pull starts, and settling its fetched windows.

use vstd::prelude::*;
use crate::bytes::{lemma_lex_transitive, lemma_lex_trichotomy, lex_lt};
use crate::json::{json_array_strs, json_string, spec_json_array_strs, spec_json_string};
use crate::kinds::FX_DAILY_PULL_KIND;
use crate::queue::{spec_reschedule, JobQueue, JobView};
use crate::text::{concat2, concat3, owned, spec_trim, spec_uppercase, str_eq, trim, uppercase};

verus! {

/// Queue attempts of an FX pull.
pub const FX_MAX_ATTEMPTS: i64 = 3;

/// The base currency: it never needs an FX row.
pub const PLN: &'static str = "PLN";

/// Plan the recurring daily FX pull under its singleton id (the kind itself):
/// a finished row is re-armed, a pending or running one left as it is.
pub fn enqueue_fx_daily_pull(jobs: &mut JobQueue) -> (armed: bool)
    requires
        old(jobs).wf(),
    ensures
        final(jobs).wf(),
        final(jobs)@ == spec_reschedule(old(jobs)@, FX_DAILY_PULL_KIND@, FX_DAILY_PULL_KIND@, "{}"@, FX_MAX_ATTEMPTS),
{
    jobs.reschedule(FX_DAILY_PULL_KIND, FX_DAILY_PULL_KIND, "{}", FX_MAX_ATTEMPTS)
}

/// The currency code a request names: trimmed and upper-cased.
pub open spec fn spec_currency_code(currency: Seq<char>) -> Seq<char> {
    spec_uppercase(spec_trim(currency))
}

/// The id of the backfill job for `code`.
pub open spec fn spec_backfill_job_id(code: Seq<char>) -> Seq<char> {
    FX_DAILY_PULL_KIND@ + ":backfill:"@ + code
}

/// The payload of the backfill job for `code`: `{"currencies":[code]}`.
pub open spec fn spec_backfill_payload(code: Seq<char>) -> Seq<char> {
    "{\"currencies\":["@ + spec_json_string(code) + "]}"@
}

/// Whether the backfill of `code` is planned: not for an empty code, not for
/// the base currency, and not for a currency already stored.
pub open spec fn needs_backfill(code: Seq<char>, stored: Seq<Seq<char>>) -> bool {
    code.len() > 0 && code != PLN@ && !stored.contains(code)
}

/// Ensure a currency's history is present: when `fx_rates` (whose distinct
/// currencies are `stored`) has no row for it, plan a backfill pull that
/// includes it, under a stable per-currency job id. Returns whether one was
/// planned.
pub fn ensure_fx_backfilled(jobs: &mut JobQueue, currency: &str, stored: &Vec<String>) -> (planned: bool)
    requires
        old(jobs).wf(),
    ensures
        final(jobs).wf(),
        ({
            let code = spec_currency_code(currency@);
            let st = stored@.map_values(|s: String| s@);
            &&& planned == needs_backfill(code, st)
            &&& planned ==> final(jobs)@ == spec_reschedule(old(jobs)@, spec_backfill_job_id(code),
                FX_DAILY_PULL_KIND@, spec_backfill_payload(code), FX_MAX_ATTEMPTS)
            &&& !planned ==> final(jobs)@ == old(jobs)@
        }),
{
    let trimmed = trim(currency);
    let code = uppercase(trimmed.as_str());
    let c = code.as_str();
    if crate::text::chars_of(c).len() == 0 || str_eq(c, PLN) {
        return false;
    }
    if crate::queue::contains_text(stored, c) {
        return false;
    }
    let job_id = concat3(FX_DAILY_PULL_KIND, ":backfill:", c);
    let quoted = json_string(c);
    let payload = concat3("{\"currencies\":[", quoted.as_str(), "]}");
    let armed = jobs.reschedule(job_id.as_str(), FX_DAILY_PULL_KIND, payload.as_str(), FX_MAX_ATTEMPTS);
    true
}

/// The string items of a payload's `currencies` array, in order; none when
/// the payload is not JSON or has no such array.
pub open spec fn spec_payload_currencies(payload: Seq<char>) -> Seq<Seq<char>> {
    match spec_json_array_strs(payload, "currencies"@) {
        Some(items) => strings_of(items),
        None => Seq::empty(),
    }
}

/// The present items of `items`, in order.
pub open spec fn strings_of(items: Seq<Option<Seq<char>>>) -> Seq<Seq<char>>
    decreases items.len(),
{
    if items.len() == 0 {
        Seq::empty()
    } else {
        let rest = strings_of(items.drop_last());
        match items.last() {
            Some(s) => rest.push(s),
            None => rest,
        }
    }
}

/// The extra currencies a pull payload names.
pub fn parse_payload_currencies(payload: &str) -> (r: Vec<String>)
    ensures
        r@.map_values(|s: String| s@) == spec_payload_currencies(payload@),
{
    let mut out: Vec<String> = Vec::new();
    match json_array_strs(payload, "currencies") {
        None => {
            proof {
                assert(out@.map_values(|s: String| s@) =~= Seq::<Seq<char>>::empty());
            }
            out
        },
        Some(items) => {
            let ghost expected = spec_json_array_strs(payload@, "currencies"@)->0;
            let mut i: usize = 0;
            proof {
                assert(expected.take(0) =~= Seq::<Option<Seq<char>>>::empty());
                assert(out@.map_values(|s: String| s@) =~= strings_of(expected.take(0)));
            }
            while i < items.len()
                invariant
                    i <= items@.len(),
                    items@.len() == expected.len(),
                    forall|k: int| 0 <= k < items@.len() ==> {
                        let e = #[trigger] expected[k];
                        &&& (items@[k] is Some <==> e is Some)
                        &&& (items@[k] is Some ==> items@[k]->0@ == e->0)
                    },
                    out@.map_values(|s: String| s@) == strings_of(expected.take(i as int)),
                decreases items.len() - i,
            {
                proof {
                    assert(expected.take(i + 1).drop_last() =~= expected.take(i as int));
                    assert(expected.take(i + 1).last() == expected[i as int]);
                }
                match &items[i] {
                    Some(s) => {
                        let ghost before = out@;
                        out.push(owned(s.as_str()));
                        proof {
                            assert(out@.map_values(|s: String| s@) =~= before.map_values(|s: String| s@).push(s@));
                        }
                    },
                    None => {},
                }
                i = i + 1;
            }
            proof {
                assert(expected.take(i as int) =~= expected);
            }
            out
        },
    }
}

/// The byte-wise smaller of two dates.
pub open spec fn min_date(a: Seq<char>, b: Seq<char>) -> Seq<char> {
    if lex_lt(vstd::utf8::encode_utf8(b), vstd::utf8::encode_utf8(a)) { b } else { a }
}

/// Where a pull must start: the earliest over the needed currencies of their
/// latest stored date (or `history_start` for a currency with none), and
/// never later than `today`.
pub open spec fn spec_earliest_start(latest: Seq<Option<Seq<char>>>, history_start: Seq<char>, today: Seq<char>) -> Seq<char>
    decreases latest.len(),
{
    if latest.len() == 0 {
        today
    } else {
        let rest = spec_earliest_start(latest.drop_last(), history_start, today);
        let own = match latest.last() {
            Some(d) => d,
            None => history_start,
        };
        min_date(rest, own)
    }
}

/// The date a currency's history needs from: its latest stored date, or the
/// start of history when it has none.
pub open spec fn own_start(latest: Option<Seq<char>>, history_start: Seq<char>) -> Seq<char> {
    match latest {
        Some(d) => d,
        None => history_start,
    }
}

/// Date `a` is not after date `b`, comparing their bytes.
pub open spec fn not_after(a: Seq<char>, b: Seq<char>) -> bool {
    !lex_lt(vstd::utf8::encode_utf8(b), vstd::utf8::encode_utf8(a))
}

/// A pull starts at the earliest date any needed currency needs: never after
/// today, never after any currency's own start, and equal to today or to one
/// of those starts.
pub proof fn lemma_pull_starts_at_the_earliest_needed_date(
    latest: Seq<Option<Seq<char>>>,
    history_start: Seq<char>,
    today: Seq<char>,
)
    ensures
        ({
            let s = spec_earliest_start(latest, history_start, today);
            &&& not_after(s, today)
            &&& forall|k: int| 0 <= k < latest.len() ==> not_after(s, #[trigger] own_start(latest[k], history_start))
            &&& (s == today || exists|k: int| 0 <= k < latest.len() && s == #[trigger] own_start(latest[k], history_start))
        }),
    decreases latest.len(),
{
    let enc = |x: Seq<char>| vstd::utf8::encode_utf8(x);
    if latest.len() == 0 {
        lemma_lex_trichotomy(enc(today), enc(today));
    } else {
        let init = latest.drop_last();
        lemma_pull_starts_at_the_earliest_needed_date(init, history_start, today);
        let rest = spec_earliest_start(init, history_start, today);
        let own = own_start(latest.last(), history_start);
        let s = spec_earliest_start(latest, history_start, today);
        assert(s == min_date(rest, own));
        let last = latest.len() - 1;
        assert(latest[last] == latest.last());
        if lex_lt(enc(own), enc(rest)) {
            assert(s == own);
            if lex_lt(enc(today), enc(own)) {
                lemma_lex_transitive(enc(today), enc(own), enc(rest));
            }
            assert forall|k: int| 0 <= k < latest.len() implies not_after(s, #[trigger] own_start(latest[k], history_start)) by {
                if k < last {
                    assert(latest[k] == init[k]);
                    let ok = own_start(init[k], history_start);
                    if lex_lt(enc(ok), enc(own)) {
                        lemma_lex_transitive(enc(ok), enc(own), enc(rest));
                    }
                } else {
                    lemma_lex_trichotomy(enc(own), enc(own));
                }
            }
            assert(s == own_start(latest[last], history_start));
        } else {
            assert(s == rest);
            assert forall|k: int| 0 <= k < latest.len() implies not_after(s, #[trigger] own_start(latest[k], history_start)) by {
                if k < last {
                    assert(latest[k] == init[k]);
                    assert(not_after(rest, own_start(init[k], history_start)));
                }
            }
            if rest != today {
                let k = choose|k: int| 0 <= k < init.len() && rest == #[trigger] own_start(init[k], history_start);
                assert(latest[k] == init[k]);
                assert(s == own_start(latest[k], history_start));
            }
        }
    }
}

/// Where a pull must start, given each needed currency's latest stored date.
pub fn earliest_needed_start(latest: &Vec<Option<String>>, history_start: &str, today: &str) -> (r: String)
    ensures
        r@ == spec_earliest_start(latest@.map_values(|o: Option<String>| crate::activity::opt_text(o)), history_start@, today@),
{
    let ghost l = latest@.map_values(|o: Option<String>| crate::activity::opt_text(o));
    let mut start = owned(today);
    let mut i: usize = 0;
    proof {
        assert(l.take(0).len() == 0);
    }
    while i < latest.len()
        invariant
            i <= latest@.len(),
            l == latest@.map_values(|o: Option<String>| crate::activity::opt_text(o)),
            start@ == spec_earliest_start(l.take(i as int), history_start@, today@),
        decreases latest.len() - i,
    {
        proof {
            assert(l.take(i + 1).drop_last() =~= l.take(i as int));
            assert(l.take(i + 1).last() == l[i as int]);
        }
        let own = match &latest[i] {
            Some(d) => owned(d.as_str()),
            None => owned(history_start),
        };
        let a = own.as_str().as_bytes();
        let b = start.as_str().as_bytes();
        if crate::bytes::compare_bytes(a, b) < 0 {
            start = own;
        }
        i = i + 1;
    }
    proof {
        assert(l.take(i as int) =~= l);
    }
    start
}

/// How fetching one date window went.
#[derive(Debug)]
pub enum FxWindowResult {
    /// The window's body.
    Body(String),
    /// No publication day in the window (HTTP 404): skipped, not a failure.
    NotFound,
    /// Any other failure, with its message.
    Failed(String),
}

/// The outcome of a pull over its windows: the bodies of the windows that had
/// one and how many were skipped, or the first failure, naming its window as
/// `{start}..{end}: {error}`.
pub open spec fn spec_settle_windows(
    windows: Seq<(Seq<char>, Seq<char>)>,
    results: Seq<FxWindowResult>,
) -> Result<(Seq<Seq<char>>, nat), Seq<char>>
    decreases results.len(),
{
    if results.len() == 0 {
        Ok((Seq::empty(), 0))
    } else {
        match spec_settle_windows(windows, results.drop_last()) {
            Err(e) => Err(e),
            Ok((bodies, skipped)) => {
                let k = results.len() - 1;
                match results.last() {
                    FxWindowResult::Body(b) => Ok((bodies.push(b@), skipped)),
                    FxWindowResult::NotFound => Ok((bodies, skipped + 1)),
                    FxWindowResult::Failed(m) => Err(windows[k].0 + ".."@ + windows[k].1 + ": "@ + m@),
                }
            },
        }
    }
}

/// Settle a pull's fetched windows, in order (see [`spec_settle_windows`]):
/// a failure stops the pull so the queue retries it.
pub fn run_fx_pull_with(windows: &Vec<(String, String)>, results: &Vec<FxWindowResult>) -> (r: Result<(Vec<String>, usize), String>)
    requires
        windows@.len() == results@.len(),
    ensures
        ({
            let w = windows@.map_values(|p: (String, String)| (p.0@, p.1@));
            match (r, spec_settle_windows(w, results@)) {
                (Ok((bodies, skipped)), Ok((eb, es))) => bodies@.map_values(|s: String| s@) == eb && skipped == es,
                (Err(e), Err(ee)) => e@ == ee,
                _ => false,
            }
        }),
{
    let ghost w = windows@.map_values(|p: (String, String)| (p.0@, p.1@));
    let mut bodies: Vec<String> = Vec::new();
    let mut skipped: usize = 0;
    let mut i: usize = 0;
    proof {
        assert(results@.take(0).len() == 0);
        assert(bodies@.map_values(|s: String| s@) =~= Seq::<Seq<char>>::empty());
    }
    while i < results.len()
        invariant
            i <= results@.len(),
            windows@.len() == results@.len(),
            w == windows@.map_values(|p: (String, String)| (p.0@, p.1@)),
            skipped <= i,
            spec_settle_windows(w, results@.take(i as int)) == Ok::<(Seq<Seq<char>>, nat), Seq<char>>(
                (bodies@.map_values(|s: String| s@), skipped as nat)),
        decreases results.len() - i,
    {
        proof {
            assert(results@.take(i + 1).drop_last() =~= results@.take(i as int));
            assert(results@.take(i + 1).last() == results@[i as int]);
            assert(w[i as int] == (windows@[i as int].0@, windows@[i as int].1@));
        }
        match &results[i] {
            FxWindowResult::Body(b) => {
                let ghost before = bodies@;
                bodies.push(owned(b.as_str()));
                proof {
                    assert(bodies@.map_values(|s: String| s@) =~= before.map_values(|s: String| s@).push(b@));
                }
            },
            FxWindowResult::NotFound => {
                skipped = skipped + 1;
            },
            FxWindowResult::Failed(m) => {
                let mut message = concat3(windows[i].0.as_str(), "..", windows[i].1.as_str());
                message.append(": ");
                message.append(m.as_str());
                proof {
                    assert(spec_settle_windows(w, results@.take(i + 1)) == Err::<(Seq<Seq<char>>, nat), Seq<char>>(message@));
                    lemma_settle_prefix_err(w, results@, i + 1);
                }
                return Err(message);
            },
        }
        i = i + 1;
    }
    proof {
        assert(results@.take(i as int) =~= results@);
    }
    Ok((bodies, skipped))
}

proof fn lemma_settle_prefix_err(windows: Seq<(Seq<char>, Seq<char>)>, results: Seq<FxWindowResult>, n: int)
    requires
        0 <= n <= results.len(),
        spec_settle_windows(windows, results.take(n)) is Err,
    ensures
        spec_settle_windows(windows, results) == spec_settle_windows(windows, results.take(n)),
    decreases results.len() - n,
{
    if n == results.len() {
        assert(results.take(n) =~= results);
    } else {
        assert(results.take(n + 1).drop_last() =~= results.take(n));
        lemma_settle_prefix_err(windows, results, n + 1);
    }
}

} // verus!
