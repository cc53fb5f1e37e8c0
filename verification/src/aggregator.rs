//! The BiznesRadar-primary fundamentals pull: for every tracked company its
//! three report pages are resolved and every non-zero cell is written under the
//! aggregator tier, which fills an empty slot and refreshes its own, but never
//! displaces a higher tier. Where a higher tier holds the slot, the aggregator's
//! figure witnesses it: a divergence is recorded as a disagreement, an agreement
//! as a corroboration. A metric contradicted at many companies in one run is a
//! mapping suspect. This module holds the pull's decisions and tallies; fetching
//! pages, parsing cells, comparing decimals and writing facts happen outside.

use vstd::prelude::*;
use crate::bytes::{compare_bytes, lemma_lex_transitive, lemma_lex_trichotomy, lex_lt};
use crate::kinds::{AGGREGATOR_FUNDAMENTALS_PULL_KIND, BIZNESRADAR_FUNDAMENTALS_ADAPTER_ID};
use crate::queue::{spec_reschedule, JobQueue};
use crate::json::{json_string, spec_json_string};
use crate::text::{concat3, owned, str_eq};

verus! {

/// The stable queue id of the daily pull: the queue holds at most one.
pub const DAILY_JOB_ID: &'static str = "aggregator_fundamentals_pull_daily";

/// Queue attempts of the daily pull.
pub const DAILY_MAX_ATTEMPTS: i64 = 2;

/// A metric contradicted at this many distinct companies in one run is a
/// mapping suspect.
pub const MAPPING_SUSPECT_MIN_COMPANIES: usize = 5;

/// Arm (or re-arm) the daily pull under its stable job id.
pub fn enqueue_daily_pull(jobs: &mut JobQueue) -> (armed: bool)
    requires
        old(jobs).wf(),
    ensures
        final(jobs).wf(),
        final(jobs)@ == spec_reschedule(old(jobs)@, DAILY_JOB_ID@, AGGREGATOR_FUNDAMENTALS_PULL_KIND@, "{}"@, DAILY_MAX_ATTEMPTS),
{
    jobs.reschedule(DAILY_JOB_ID, AGGREGATOR_FUNDAMENTALS_PULL_KIND, "{}", DAILY_MAX_ATTEMPTS)
}

// ---------------------------------------------------------------------------
// Tiers.
// ---------------------------------------------------------------------------

/// The automated source tiers, highest first (a manual entry is not a tier: it
/// outranks them all and is recognised by its extraction method).
#[derive(Debug, Clone, Copy, PartialEq, Eq, Structural)]
pub enum SourceTier {
    Esef,
    EspiCoverNote,
    Pdf,
    Agent,
    HtmlAggregator,
}

/// The tier a stored `source_tier` names, if any.
pub open spec fn spec_parse_tier(tier: Seq<char>) -> Option<SourceTier> {
    if tier == "esef"@ {
        Some(SourceTier::Esef)
    } else if tier == "espi_cover_note"@ {
        Some(SourceTier::EspiCoverNote)
    } else if tier == "pdf"@ {
        Some(SourceTier::Pdf)
    } else if tier == "agent"@ {
        Some(SourceTier::Agent)
    } else if tier == "html_aggregator"@ {
        Some(SourceTier::HtmlAggregator)
    } else {
        None
    }
}

/// The precedence of a tier (higher wins).
pub open spec fn tier_rank(t: SourceTier) -> int {
    match t {
        SourceTier::Esef => 5,
        SourceTier::EspiCoverNote => 4,
        SourceTier::Pdf => 3,
        SourceTier::Agent => 2,
        SourceTier::HtmlAggregator => 1,
    }
}

/// A stored tier outranks the aggregator's own.
pub open spec fn spec_outranks_aggregator(tier: Seq<char>) -> bool {
    match spec_parse_tier(tier) {
        Some(t) => tier_rank(t) > tier_rank(SourceTier::HtmlAggregator),
        None => false,
    }
}

/// Whether a stored `source_tier` outranks the aggregator's tier.
pub fn outranks_aggregator_tier(tier: &str) -> (r: bool)
    ensures
        r == spec_outranks_aggregator(tier@),
{
    str_eq(tier, "esef") || str_eq(tier, "espi_cover_note") || str_eq(tier, "pdf") || str_eq(tier, "agent")
}

// ---------------------------------------------------------------------------
// The summary and its effect verdict.
// ---------------------------------------------------------------------------

/// What one pull run did.
#[derive(Debug, Clone, Default, PartialEq, Eq)]
pub struct AggregatorPullSummary {
    pub companies: i64,
    pub pages_resolved: i64,
    pub pages_unavailable: i64,
    pub facts_written: i64,
    pub facts_updated: i64,
    pub facts_reobserved: i64,
    pub slots_skipped_higher_tier: i64,
    pub witness_disagreements: i64,
    pub witness_corroborations: i64,
    pub zero_cells_skipped: i64,
    pub pages_empty: i64,
    pub no_definition: i64,
    pub mapping_suspects: Vec<String>,
}

/// Why a pull that ran produced nothing.
pub const PAGES_UNAVAILABLE: &'static str = "pages_unavailable";
/// A manual or higher tier already owns every slot the pull could write.
pub const HIGHER_TIER_HOLDS_SLOT: &'static str = "higher_tier_holds_slot";
/// Every value read was already the aggregator's stored value.
pub const ALREADY_RECORDED: &'static str = "already_recorded";
/// Every cell read was empty or zero.
pub const ZERO_CELLS: &'static str = "zero_cells";
/// The cells read have no catalog KPI definition.
pub const NO_KPI_DEFINITION: &'static str = "no_kpi_definition";
/// A page resolved but parsed to no cells.
pub const PAGES_EMPTY: &'static str = "pages_empty";

/// Whether a run had an effect, and if not, why.
#[derive(Debug, Clone, Copy, PartialEq, Eq)]
pub enum EffectVerdict {
    /// Something durable was written.
    Produced,
    /// The run had inputs but wrote nothing, for a named reason.
    NothingProduced { reason: &'static str },
    /// Nothing was asked of the run.
    NoInputs,
    /// The run had inputs, wrote nothing, and can name no reason.
    Unexplained,
}

/// The first reason whose counter is non-zero, in this order: pages
/// unavailable, higher tier holds the slot, already recorded, zero cells, no
/// KPI definition, pages empty.
pub open spec fn spec_first_reason(s: AggregatorPullSummary) -> Option<Seq<char>> {
    if s.pages_unavailable > 0 {
        Some(PAGES_UNAVAILABLE@)
    } else if s.slots_skipped_higher_tier > 0 {
        Some(HIGHER_TIER_HOLDS_SLOT@)
    } else if s.facts_reobserved > 0 {
        Some(ALREADY_RECORDED@)
    } else if s.zero_cells_skipped > 0 {
        Some(ZERO_CELLS@)
    } else if s.no_definition > 0 {
        Some(NO_KPI_DEFINITION@)
    } else if s.pages_empty > 0 {
        Some(PAGES_EMPTY@)
    } else {
        None
    }
}

/// A written or updated fact, or a recorded witness finding, is an effect.
pub open spec fn spec_produced(s: AggregatorPullSummary) -> bool {
    s.facts_written > 0 || s.facts_updated > 0 || s.witness_disagreements > 0 || s.witness_corroborations > 0
}

impl AggregatorPullSummary {
    /// An empty summary.
    pub fn new() -> (r: AggregatorPullSummary)
        ensures
            r.companies == 0 && r.pages_resolved == 0 && r.pages_unavailable == 0 && r.facts_written == 0
                && r.facts_updated == 0 && r.facts_reobserved == 0 && r.slots_skipped_higher_tier == 0
                && r.witness_disagreements == 0 && r.witness_corroborations == 0 && r.zero_cells_skipped == 0
                && r.pages_empty == 0 && r.no_definition == 0 && r.mapping_suspects@.len() == 0,
    {
        AggregatorPullSummary {
            companies: 0,
            pages_resolved: 0,
            pages_unavailable: 0,
            facts_written: 0,
            facts_updated: 0,
            facts_reobserved: 0,
            slots_skipped_higher_tier: 0,
            witness_disagreements: 0,
            witness_corroborations: 0,
            zero_cells_skipped: 0,
            pages_empty: 0,
            no_definition: 0,
            mapping_suspects: Vec::new(),
        }
    }

    /// Whether this run had an effect, and if not, why: produced when it wrote
    /// something; no inputs when it iterated no company; else the first named
    /// reason, or unexplained when none applies.
    pub fn effect_verdict(&self) -> (r: EffectVerdict)
        ensures
            spec_produced(*self) ==> r == EffectVerdict::Produced,
            !spec_produced(*self) && self.companies <= 0 ==> r == EffectVerdict::NoInputs,
            !spec_produced(*self) && self.companies > 0 ==> match spec_first_reason(*self) {
                Some(reason) => (r matches EffectVerdict::NothingProduced { reason: x } && x@ == reason),
                None => r == EffectVerdict::Unexplained,
            },
    {
        let produced = self.facts_written > 0 || self.facts_updated > 0 || self.witness_disagreements > 0
            || self.witness_corroborations > 0;
        if produced {
            return EffectVerdict::Produced;
        }
        if self.companies <= 0 {
            return EffectVerdict::NoInputs;
        }
        if self.pages_unavailable > 0 {
            EffectVerdict::NothingProduced { reason: PAGES_UNAVAILABLE }
        } else if self.slots_skipped_higher_tier > 0 {
            EffectVerdict::NothingProduced { reason: HIGHER_TIER_HOLDS_SLOT }
        } else if self.facts_reobserved > 0 {
            EffectVerdict::NothingProduced { reason: ALREADY_RECORDED }
        } else if self.zero_cells_skipped > 0 {
            EffectVerdict::NothingProduced { reason: ZERO_CELLS }
        } else if self.no_definition > 0 {
            EffectVerdict::NothingProduced { reason: NO_KPI_DEFINITION }
        } else if self.pages_empty > 0 {
            EffectVerdict::NothingProduced { reason: PAGES_EMPTY }
        } else {
            EffectVerdict::Unexplained
        }
    }
}

// ---------------------------------------------------------------------------
// One committed write.
// ---------------------------------------------------------------------------

/// How the store committed one aggregator cell into its slot.
#[derive(Debug)]
#[allow(inconsistent_fields)]
pub enum AggregatorFactCommit {
    /// A new fact in an empty slot.
    Created,
    /// The aggregator's own prior value, overwritten.
    Updated,
    /// The slot already held this very value.
    Reobserved { existing_tier: Option<String>, existing_method: String },
    /// No catalog KPI definition for the metric.
    NoDefinition,
    /// A manual or higher tier holds the slot; `disagrees` is the witness
    /// cross-check of the aggregator's figure against the held one (`None` when
    /// the held value does not parse as a number).
    SkippedHigherTier { existing_tier: String, existing_method: String, disagrees: Option<bool> },
}

/// What a committed write asks to be recorded about the held slot: nothing, a
/// corroboration (which upgrades the slot's verdict unless the slot is the
/// user's own manual entry), or a disagreement.
#[derive(Debug, Clone, Copy, PartialEq, Eq, Structural)]
pub enum WitnessAction {
    Nothing,
    Corroborate { upgrade_verdict: bool },
    Disagree,
}

/// The witness action of a commit: an exact re-observation of a slot held by a
/// manual entry or a tier above the aggregator is corroborated; a skipped slot
/// held that way is corroborated when the figures agree within tolerance and
/// disagreed with when they diverge; anything else records nothing. A
/// corroboration upgrades the verdict exactly when the slot is not manual.
pub open spec fn spec_witness_action(c: AggregatorFactCommit) -> WitnessAction {
    match c {
        AggregatorFactCommit::Reobserved { existing_tier, existing_method } =>
            if existing_method@ == "manual"@ || (existing_tier matches Some(t) && spec_outranks_aggregator(t@)) {
                WitnessAction::Corroborate { upgrade_verdict: existing_method@ != "manual"@ }
            } else {
                WitnessAction::Nothing
            },
        AggregatorFactCommit::SkippedHigherTier { existing_tier, existing_method, disagrees } =>
            if spec_outranks_aggregator(existing_tier@) || existing_method@ == "manual"@ {
                match disagrees {
                    Some(true) => WitnessAction::Disagree,
                    Some(false) => WitnessAction::Corroborate { upgrade_verdict: existing_method@ != "manual"@ },
                    None => WitnessAction::Nothing,
                }
            } else {
                WitnessAction::Nothing
            },
        _ => WitnessAction::Nothing,
    }
}

/// The summary after one commit: its own counter, plus the witness counter of
/// its action.
pub open spec fn after_commit(s: AggregatorPullSummary, c: AggregatorFactCommit) -> AggregatorPullSummary {
    let a = spec_witness_action(c);
    let s1 = match c {
        AggregatorFactCommit::Created => AggregatorPullSummary { facts_written: (s.facts_written + 1) as i64, ..s },
        AggregatorFactCommit::Updated => AggregatorPullSummary { facts_updated: (s.facts_updated + 1) as i64, ..s },
        AggregatorFactCommit::Reobserved { .. } => AggregatorPullSummary { facts_reobserved: (s.facts_reobserved + 1) as i64, ..s },
        AggregatorFactCommit::NoDefinition => AggregatorPullSummary { no_definition: (s.no_definition + 1) as i64, ..s },
        AggregatorFactCommit::SkippedHigherTier { .. } =>
            AggregatorPullSummary { slots_skipped_higher_tier: (s.slots_skipped_higher_tier + 1) as i64, ..s },
    };
    match a {
        WitnessAction::Corroborate { .. } => AggregatorPullSummary { witness_corroborations: (s1.witness_corroborations + 1) as i64, ..s1 },
        WitnessAction::Disagree => AggregatorPullSummary { witness_disagreements: (s1.witness_disagreements + 1) as i64, ..s1 },
        WitnessAction::Nothing => s1,
    }
}

/// Every counter of `s` is at most `bound`.
pub open spec fn counters_at_most(s: AggregatorPullSummary, bound: int) -> bool {
    &&& 0 <= s.companies <= bound
    &&& 0 <= s.pages_resolved <= bound
    &&& 0 <= s.pages_unavailable <= bound
    &&& 0 <= s.facts_written <= bound
    &&& 0 <= s.facts_updated <= bound
    &&& 0 <= s.facts_reobserved <= bound
    &&& 0 <= s.slots_skipped_higher_tier <= bound
    &&& 0 <= s.witness_disagreements <= bound
    &&& 0 <= s.witness_corroborations <= bound
    &&& 0 <= s.zero_cells_skipped <= bound
    &&& 0 <= s.pages_empty <= bound
    &&& 0 <= s.no_definition <= bound
}

fn witness_action(commit: &AggregatorFactCommit) -> (r: WitnessAction)
    ensures
        r == spec_witness_action(*commit),
{
    match commit {
        AggregatorFactCommit::Reobserved { existing_tier, existing_method } => {
            let held = match existing_tier {
                Some(t) => outranks_aggregator_tier(t.as_str()),
                None => false,
            };
            let manual = str_eq(existing_method.as_str(), "manual");
            if manual || held {
                WitnessAction::Corroborate { upgrade_verdict: !manual }
            } else {
                WitnessAction::Nothing
            }
        },
        AggregatorFactCommit::SkippedHigherTier { existing_tier, existing_method, disagrees } => {
            let manual = str_eq(existing_method.as_str(), "manual");
            if outranks_aggregator_tier(existing_tier.as_str()) || manual {
                match disagrees {
                    Some(true) => WitnessAction::Disagree,
                    Some(false) => WitnessAction::Corroborate { upgrade_verdict: !manual },
                    None => WitnessAction::Nothing,
                }
            } else {
                WitnessAction::Nothing
            }
        },
        _ => WitnessAction::Nothing,
    }
}

/// Tally one committed write into the summary and say what to record about
/// the held slot (see [`after_commit`], [`spec_witness_action`]).
pub fn apply_commit(summary: &mut AggregatorPullSummary, commit: &AggregatorFactCommit) -> (r: WitnessAction)
    requires
        counters_at_most(*old(summary), i64::MAX - 1),
    ensures
        *final(summary) == after_commit(*old(summary), *commit),
        r == spec_witness_action(*commit),
{
    match commit {
        AggregatorFactCommit::Created => summary.facts_written = summary.facts_written + 1,
        AggregatorFactCommit::Updated => summary.facts_updated = summary.facts_updated + 1,
        AggregatorFactCommit::Reobserved { .. } => summary.facts_reobserved = summary.facts_reobserved + 1,
        AggregatorFactCommit::NoDefinition => summary.no_definition = summary.no_definition + 1,
        AggregatorFactCommit::SkippedHigherTier { .. } =>
            summary.slots_skipped_higher_tier = summary.slots_skipped_higher_tier + 1,
    }
    let action = witness_action(commit);
    match action {
        WitnessAction::Corroborate { .. } => summary.witness_corroborations = summary.witness_corroborations + 1,
        WitnessAction::Disagree => summary.witness_disagreements = summary.witness_disagreements + 1,
        WitnessAction::Nothing => {},
    }
    action
}

/// No self-witnessing: a slot the aggregator itself holds (its own tier, not a
/// manual entry) is never recorded as corroborated or contradicted, whatever
/// the commit.
pub proof fn lemma_no_self_witnessing(c: AggregatorFactCommit)
    requires
        match c {
            AggregatorFactCommit::Reobserved { existing_tier, existing_method } =>
                (existing_tier matches Some(t) ==> t@ == "html_aggregator"@) && existing_method@ != "manual"@,
            AggregatorFactCommit::SkippedHigherTier { existing_tier, existing_method, .. } =>
                existing_tier@ == "html_aggregator"@ && existing_method@ != "manual"@,
            _ => true,
        },
    ensures
        spec_witness_action(c) == WitnessAction::Nothing,
{
    lemma_aggregator_tier_is_lowest();
}

proof fn lemma_aggregator_tier_is_lowest()
    ensures
        !spec_outranks_aggregator("html_aggregator"@),
{
    reveal_strlit("html_aggregator");
    reveal_strlit("esef");
    reveal_strlit("espi_cover_note");
    reveal_strlit("pdf");
    reveal_strlit("agent");
    assert("html_aggregator"@.len() == 15);
    assert("esef"@.len() == 4);
    assert("espi_cover_note"@.len() == 15 && "espi_cover_note"@[0] != "html_aggregator"@[0]);
    assert("pdf"@.len() == 3);
    assert("agent"@.len() == 5);
}

/// A manual entry is the user's own: witnessing it never upgrades its verdict,
/// and a commit never writes over a slot that a higher tier or a manual entry
/// holds.
pub proof fn lemma_manual_and_higher_slots_are_never_written(s: AggregatorPullSummary, c: AggregatorFactCommit)
    requires
        0 <= s.slots_skipped_higher_tier < i64::MAX,
    ensures
        (match c {
            AggregatorFactCommit::Reobserved { existing_method, .. } => existing_method@ == "manual"@,
            AggregatorFactCommit::SkippedHigherTier { existing_method, .. } => existing_method@ == "manual"@,
            _ => false,
        }) ==> spec_witness_action(c) != (WitnessAction::Corroborate { upgrade_verdict: true }),
        c is SkippedHigherTier ==> after_commit(s, c).facts_written == s.facts_written
            && after_commit(s, c).facts_updated == s.facts_updated
            && after_commit(s, c).slots_skipped_higher_tier == s.slots_skipped_higher_tier + 1,
{
}

// ---------------------------------------------------------------------------
// Serializing pulls on the source.
// ---------------------------------------------------------------------------

/// The sources a pull currently holds: at most one run per source at a time.
#[derive(Debug)]
pub struct SourceLocks {
    held: Vec<String>,
}

impl SourceLocks {
    /// The held source ids.
    pub closed spec fn held_ids(&self) -> Seq<Seq<char>> {
        self.held@.map_values(|s: String| s@)
    }

    /// No source held.
    pub fn new() -> (r: SourceLocks)
        ensures
            r.held_ids().len() == 0,
    {
        let r = SourceLocks { held: Vec::new() };
        proof {
            assert(r.held_ids() =~= Seq::<Seq<char>>::empty());
        }
        r
    }

    /// Whether `id` is held.
    pub fn is_held(&self, id: &str) -> (r: bool)
        ensures
            r == self.held_ids().contains(id@),
    {
        crate::queue::contains_text(&self.held, id)
    }

    /// Take `id` unless it is already held. `true` when it was taken.
    pub fn try_acquire(&mut self, id: &str) -> (taken: bool)
        ensures
            taken == !old(self).held_ids().contains(id@),
            taken ==> final(self).held_ids() == old(self).held_ids().push(id@),
            !taken ==> final(self).held_ids() == old(self).held_ids(),
    {
        if crate::queue::contains_text(&self.held, id) {
            return false;
        }
        self.held.push(owned(id));
        proof {
            assert(self.held_ids() =~= old(self).held_ids().push(id@));
        }
        true
    }

    /// Release `id`: its first hold, if any, is dropped. `false` when it was
    /// not held.
    pub fn release(&mut self, id: &str) -> (released: bool)
        ensures
            released == old(self).held_ids().contains(id@),
            !released ==> final(self).held_ids() == old(self).held_ids(),
            released ==> exists|i: int| 0 <= i < old(self).held_ids().len()
                && old(self).held_ids()[i] == id@
                && final(self).held_ids() == old(self).held_ids().remove(i),
    {
        let ghost ids = self.held_ids();
        let mut i: usize = 0;
        while i < self.held.len()
            invariant
                i <= self.held@.len(),
                ids == self.held@.map_values(|s: String| s@),
                ids == old(self).held_ids(),
                forall|k: int| 0 <= k < i ==> ids[k] != id@,
            decreases self.held.len() - i,
        {
            if str_eq(self.held[i].as_str(), id) {
                self.held.remove(i);
                proof {
                    assert(self.held_ids() =~= ids.remove(i as int));
                    assert(ids[i as int] == id@);
                }
                return true;
            }
            i = i + 1;
        }
        false
    }
}

/// The busy error of an on-demand pull racing one in flight.
pub const PULL_ALREADY_RUNNING: &'static str = "aggregator_pull_already_running: a BiznesRadar fundamentals pull is already in flight (daily job or another on-demand run) — retry after it finishes";

/// Take the aggregator source for an on-demand pull: refused with the typed
/// busy error while another pull holds it.
pub fn acquire_for_pull(locks: &mut SourceLocks) -> (r: Result<(), String>)
    ensures
        old(locks).held_ids().contains(BIZNESRADAR_FUNDAMENTALS_ADAPTER_ID@) ==> (r matches Err(e)
            && e@ == PULL_ALREADY_RUNNING@) && final(locks).held_ids() == old(locks).held_ids(),
        !old(locks).held_ids().contains(BIZNESRADAR_FUNDAMENTALS_ADAPTER_ID@) ==> r is Ok
            && final(locks).held_ids() == old(locks).held_ids().push(BIZNESRADAR_FUNDAMENTALS_ADAPTER_ID@),
{
    if locks.try_acquire(BIZNESRADAR_FUNDAMENTALS_ADAPTER_ID) {
        Ok(())
    } else {
        Err(owned(PULL_ALREADY_RUNNING))
    }
}

/// What a pull over `companies` reports: the summary [`companies_step`]
/// accumulates, with the mapping suspects sorted and exactly the metrics
/// contradicted at [`MAPPING_SUSPECT_MIN_COMPANIES`] or more companies.
pub open spec fn pull_reports(companies: Seq<CompanyPull>, s: AggregatorPullSummary) -> bool {
    let (t, pairs) = companies_step(companies, companies.len());
    &&& s == (AggregatorPullSummary { mapping_suspects: s.mapping_suspects, ..t })
    &&& strictly_sorted(s.mapping_suspects@.map_values(|x: String| x@))
    &&& s.mapping_suspects@.map_values(|x: String| x@).to_set() == suspect_metrics(pairs)
}

/// Proof that the pull holding the aggregator's source is the caller's: only
/// [`start_serialized_pull`] makes one, and only when it took the source.
/// Fetching pages and writing facts belongs under a lease, between
/// [`start_serialized_pull`] and [`finish_serialized_pull`].
#[derive(Debug)]
pub struct PullLease {
    _held: (),
}

/// Take the aggregator's source before anything is fetched: while another
/// pull holds it the pull is refused with the typed busy error, the held
/// sources stay as they were and no lease is given, so nothing may be
/// fetched or written; otherwise the source is held and the lease given.
pub fn start_serialized_pull(locks: &mut SourceLocks) -> (r: Result<PullLease, String>)
    ensures
        r is Err <==> old(locks).held_ids().contains(BIZNESRADAR_FUNDAMENTALS_ADAPTER_ID@),
        r matches Err(e) ==> e@ == PULL_ALREADY_RUNNING@ && final(locks).held_ids() == old(locks).held_ids(),
        r is Ok ==> final(locks).held_ids() == old(locks).held_ids().push(BIZNESRADAR_FUNDAMENTALS_ADAPTER_ID@),
{
    match acquire_for_pull(locks) {
        Ok(()) => Ok(PullLease { _held: () }),
        Err(e) => Err(e),
    }
}

/// End a leased pull over the pages fetched under the lease: what
/// [`run_aggregator_fundamentals_pull`] returns over them, with the source
/// released afterwards (its hold dropped, every other hold kept).
pub fn finish_serialized_pull(
    locks: &mut SourceLocks,
    lease: PullLease,
    companies: &Vec<CompanyPull>,
) -> (r: (AggregatorPullSummary, Vec<Vec<Vec<WitnessAction>>>))
    requires
        old(locks).held_ids().contains(BIZNESRADAR_FUNDAMENTALS_ADAPTER_ID@),
        forall|c: int, p: int| 0 <= c < companies@.len() && 0 <= p < companies@[c].pages@.len()
            ==> page_consistent(#[trigger] companies@[c].pages@[p]),
        companies_work(companies@, companies@.len()) <= i64::MAX - 4,
    ensures
        pull_reports(companies@, r.0),
        exists|i: int| 0 <= i < old(locks).held_ids().len()
            && old(locks).held_ids()[i] == BIZNESRADAR_FUNDAMENTALS_ADAPTER_ID@
            && final(locks).held_ids() == old(locks).held_ids().remove(i),
{
    let result = run_aggregator_fundamentals_pull(companies);
    let released = locks.release(BIZNESRADAR_FUNDAMENTALS_ADAPTER_ID);
    result
}

/// Run the pull while holding the aggregator's source, so at most one pull
/// runs at a time whoever triggered it: the source is taken before `fetch`
/// is called. While another pull holds it the pull is refused with the typed
/// busy error, `fetch` is never called and the held sources stay as they
/// were; otherwise the pages `fetch` fetches (and the facts it writes) are
/// fetched under the source, the result is what
/// [`run_aggregator_fundamentals_pull`] returns over them, and the source is
/// released afterwards.
pub fn run_aggregator_fundamentals_pull_serialized<F: FnOnce() -> Vec<CompanyPull>>(
    locks: &mut SourceLocks,
    fetch: F,
) -> (r: Result<(AggregatorPullSummary, Vec<Vec<Vec<WitnessAction>>>), String>)
    requires
        call_requires(fetch, ()),
        forall|companies: Vec<CompanyPull>| call_ensures(fetch, (), companies) ==> {
            &&& forall|c: int, p: int| 0 <= c < companies@.len() && 0 <= p < companies@[c].pages@.len()
                ==> page_consistent(#[trigger] companies@[c].pages@[p])
            &&& companies_work(companies@, companies@.len()) <= i64::MAX - 4
        },
    ensures
        final(locks).held_ids() == old(locks).held_ids(),
        r is Err <==> old(locks).held_ids().contains(BIZNESRADAR_FUNDAMENTALS_ADAPTER_ID@),
        r matches Err(e) ==> e@ == PULL_ALREADY_RUNNING@,
        r matches Ok(v) ==> exists|companies: Vec<CompanyPull>| call_ensures(fetch, (), companies)
            && pull_reports(companies@, v.0),
{
    let ghost before = locks.held_ids();
    match start_serialized_pull(locks) {
        Err(e) => Err(e),
        Ok(lease) => {
            let companies = fetch();
            proof {
                let held = before.push(BIZNESRADAR_FUNDAMENTALS_ADAPTER_ID@);
                assert(held[before.len() as int] == BIZNESRADAR_FUNDAMENTALS_ADAPTER_ID@);
                assert(held.contains(BIZNESRADAR_FUNDAMENTALS_ADAPTER_ID@));
            }
            let result = finish_serialized_pull(locks, lease, &companies);
            proof {
                let held = before.push(BIZNESRADAR_FUNDAMENTALS_ADAPTER_ID@);
                let i = choose|i: int| 0 <= i < held.len() && held[i] == BIZNESRADAR_FUNDAMENTALS_ADAPTER_ID@
                    && locks.held_ids() == held.remove(i);
                if i < before.len() {
                    assert(before[i] == held[i]);
                    assert(before.contains(BIZNESRADAR_FUNDAMENTALS_ADAPTER_ID@));
                }
                assert(held.remove(i) =~= before);
            }
            Ok(result)
        },
    }
}

/// The queue handler of the pull: it serializes on the aggregator's source.
#[derive(Debug, Clone, Copy)]
pub struct AggregatorFundamentalsPullHandler;

impl AggregatorFundamentalsPullHandler {
    /// The kind it handles.
    pub fn kind(&self) -> (r: &'static str)
        ensures
            r@ == AGGREGATOR_FUNDAMENTALS_PULL_KIND@,
    {
        AGGREGATOR_FUNDAMENTALS_PULL_KIND
    }

    /// The key it serializes on: the aggregator's source id.
    pub fn serialization_key(&self, payload: &str) -> (r: Option<String>)
        ensures
            (r matches Some(k) && k@ == BIZNESRADAR_FUNDAMENTALS_ADAPTER_ID@),
    {
        Some(owned(BIZNESRADAR_FUNDAMENTALS_ADAPTER_ID))
    }
}


// ---------------------------------------------------------------------------
// Disagreements and mapping suspects.
// ---------------------------------------------------------------------------

/// The (metric, company) pairs whose held slot the aggregator contradicted in
/// this run, each recorded once.
#[derive(Debug)]
pub struct DisagreementLedger {
    pairs: Vec<(String, String)>,
}

/// The pairs as plain values.
pub open spec fn pair_views(v: Seq<(String, String)>) -> Seq<(Seq<char>, Seq<char>)> {
    v.map_values(|p: (String, String)| (p.0@, p.1@))
}

/// How many recorded pairs name `metric`.
pub open spec fn companies_for(pairs: Seq<(Seq<char>, Seq<char>)>, metric: Seq<char>) -> nat
    decreases pairs.len(),
{
    if pairs.len() == 0 {
        0
    } else {
        companies_for(pairs.drop_last(), metric) + if pairs.last().0 == metric { 1nat } else { 0nat }
    }
}

/// The metrics of `pairs` contradicted at [`MAPPING_SUSPECT_MIN_COMPANIES`] or
/// more distinct companies.
pub open spec fn suspect_metrics(pairs: Seq<(Seq<char>, Seq<char>)>) -> Set<Seq<char>> {
    Set::new(|m: Seq<char>| companies_for(pairs, m) >= MAPPING_SUSPECT_MIN_COMPANIES)
}

/// `s` is strictly increasing by the bytes of its items.
pub open spec fn strictly_sorted(s: Seq<Seq<char>>) -> bool {
    forall|i: int, j: int| 0 <= i < j < s.len() ==> lex_lt(
        vstd::utf8::encode_utf8(#[trigger] s[i]), vstd::utf8::encode_utf8(#[trigger] s[j]))
}

impl DisagreementLedger {
    /// The recorded pairs.
    pub closed spec fn view_pairs(&self) -> Seq<(Seq<char>, Seq<char>)> {
        pair_views(self.pairs@)
    }

    /// No pair recorded.
    pub fn new() -> (r: DisagreementLedger)
        ensures
            r.view_pairs().len() == 0,
    {
        let r = DisagreementLedger { pairs: Vec::new() };
        proof {
            assert(r.view_pairs() =~= Seq::<(Seq<char>, Seq<char>)>::empty());
        }
        r
    }

    /// Record that `company`'s held slot of `metric` was contradicted (once per pair).
    pub fn record(&mut self, metric: &str, company: &str)
        ensures
            old(self).view_pairs().contains((metric@, company@)) ==> final(self).view_pairs() == old(self).view_pairs(),
            !old(self).view_pairs().contains((metric@, company@)) ==> final(self).view_pairs()
                == old(self).view_pairs().push((metric@, company@)),
    {
        let ghost v = self.view_pairs();
        let mut i: usize = 0;
        while i < self.pairs.len()
            invariant
                i <= self.pairs@.len(),
                v == pair_views(self.pairs@),
                v == old(self).view_pairs(),
                forall|k: int| 0 <= k < i ==> v[k] != (metric@, company@),
            decreases self.pairs.len() - i,
        {
            if str_eq(self.pairs[i].0.as_str(), metric) && str_eq(self.pairs[i].1.as_str(), company) {
                proof {
                    assert(v[i as int] == (metric@, company@));
                }
                return;
            }
            i = i + 1;
        }
        proof {
            assert(!v.contains((metric@, company@)));
        }
        self.pairs.push((owned(metric), owned(company)));
        proof {
            assert(self.view_pairs() =~= v.push((metric@, company@)));
        }
    }

    fn count_for(&self, metric: &str) -> (r: usize)
        ensures
            r == companies_for(self.view_pairs(), metric@),
    {
        let ghost v = self.view_pairs();
        let mut c: usize = 0;
        let mut i: usize = 0;
        while i < self.pairs.len()
            invariant
                i <= self.pairs@.len(),
                v == pair_views(self.pairs@),
                c == companies_for(v.take(i as int), metric@),
                c <= i,
            decreases self.pairs.len() - i,
        {
            proof {
                assert(v.take(i + 1).drop_last() =~= v.take(i as int));
                assert(v.take(i + 1).last() == v[i as int]);
            }
            if str_eq(self.pairs[i].0.as_str(), metric) {
                c = c + 1;
            }
            i = i + 1;
        }
        proof {
            assert(v.take(i as int) =~= v);
        }
        c
    }

    /// The mapping suspects, sorted by bytes, each once.
    pub fn mapping_suspects(&self) -> (r: Vec<String>)
        ensures
            strictly_sorted(r@.map_values(|s: String| s@)),
            r@.map_values(|s: String| s@).to_set() == suspect_metrics(self.view_pairs()),
    {
        let ghost v = self.view_pairs();
        let mut out: Vec<String> = Vec::new();
        let mut i: usize = 0;
        proof {
            assert(out@.map_values(|s: String| s@).to_set() =~= Set::<Seq<char>>::empty());
        }
        while i < self.pairs.len()
            invariant
                i <= self.pairs@.len(),
                v == pair_views(self.pairs@),
                v == self.view_pairs(),
                strictly_sorted(out@.map_values(|s: String| s@)),
                out@.map_values(|s: String| s@).to_set() == suspect_metrics(v).intersect(
                    Set::new(|m: Seq<char>| exists|k: int| 0 <= k < i && #[trigger] v[k].0 == m)),
            decreases self.pairs.len() - i,
        {
            let metric = self.pairs[i].0.as_str();
            let ghost before = out@.map_values(|s: String| s@);
            let count = self.count_for(metric);
            if count >= MAPPING_SUSPECT_MIN_COMPANIES && !crate::queue::contains_text(&out, metric) {
                insert_sorted(&mut out, metric);
            }
            proof {
                let after = out@.map_values(|s: String| s@);
                assert(v[i as int].0 == metric@);
                assert forall|m: Seq<char>| after.to_set().contains(m) <==> (suspect_metrics(v).contains(m)
                    && (exists|k: int| 0 <= k < i + 1 && #[trigger] v[k].0 == m)) by {
                    if exists|k: int| 0 <= k < i + 1 && #[trigger] v[k].0 == m {
                        let k = choose|k: int| 0 <= k < i + 1 && #[trigger] v[k].0 == m;
                        if k < i {
                            assert(exists|k2: int| 0 <= k2 < i && #[trigger] v[k2].0 == m);
                        }
                    }
                    if before.to_set().contains(m) {
                        let k = choose|k: int| 0 <= k < i && #[trigger] v[k].0 == m;
                        assert(0 <= k < i + 1 && v[k].0 == m);
                    }
                }
                assert(after.to_set() =~= suspect_metrics(v).intersect(
                    Set::new(|m: Seq<char>| exists|k: int| 0 <= k < i + 1 && #[trigger] v[k].0 == m)));
            }
            i = i + 1;
        }
        proof {
            let all = Set::new(|m: Seq<char>| exists|k: int| 0 <= k < i && #[trigger] v[k].0 == m);
            assert forall|m: Seq<char>| suspect_metrics(v).contains(m) implies all.contains(m) by {
                lemma_counted_metric_occurs(v, m);
            }
            assert(suspect_metrics(v).intersect(all) =~= suspect_metrics(v));
        }
        out
    }
}

proof fn lemma_counted_metric_occurs(pairs: Seq<(Seq<char>, Seq<char>)>, m: Seq<char>)
    requires
        companies_for(pairs, m) > 0,
    ensures
        exists|k: int| 0 <= k < pairs.len() && #[trigger] pairs[k].0 == m,
    decreases pairs.len(),
{
    if pairs.last().0 == m {
        assert(pairs[pairs.len() - 1].0 == m);
    } else {
        lemma_counted_metric_occurs(pairs.drop_last(), m);
        let k = choose|k: int| 0 <= k < pairs.drop_last().len() && #[trigger] pairs.drop_last()[k].0 == m;
        assert(pairs[k].0 == m);
    }
}

/// Insert `x` (not yet present) into the strictly sorted `out`, keeping it so.
fn insert_sorted(out: &mut Vec<String>, x: &str)
    requires
        strictly_sorted(old(out)@.map_values(|s: String| s@)),
        !old(out)@.map_values(|s: String| s@).contains(x@),
    ensures
        strictly_sorted(final(out)@.map_values(|s: String| s@)),
        final(out)@.map_values(|s: String| s@).to_set() == old(out)@.map_values(|s: String| s@).to_set().insert(x@),
{
    let ghost v = out@.map_values(|s: String| s@);
    let xb = x.as_bytes();
    let mut i: usize = 0;
    let mut stop = false;
    while i < out.len() && !stop
        invariant
            i <= out@.len(),
            v == out@.map_values(|s: String| s@),
            xb@ == vstd::utf8::encode_utf8(x@),
            forall|k: int| 0 <= k < i ==> lex_lt(vstd::utf8::encode_utf8(#[trigger] v[k]), xb@),
            stop ==> i < out@.len() && !lex_lt(vstd::utf8::encode_utf8(v[i as int]), xb@),
        decreases out.len() - i, if stop { 0int } else { 1int },
    {
        let ob = out[i].as_str().as_bytes();
        proof {
            assert(ob@ == vstd::utf8::encode_utf8(v[i as int]));
        }
        if compare_bytes(ob, xb) >= 0 {
            stop = true;
        } else {
            i = i + 1;
        }
    }
    proof {
        if i < v.len() {
            let ei = vstd::utf8::encode_utf8(v[i as int]);
            lemma_lex_trichotomy(ei, xb@);
            if ei == xb@ {
                vstd::utf8::encode_utf8_decode_utf8(v[i as int]);
                vstd::utf8::encode_utf8_decode_utf8(x@);
                assert(v[i as int] == x@);
                assert(v.contains(x@));
            }
            assert(lex_lt(xb@, ei));
        }
    }
    out.insert(i, owned(x));
    proof {
        let w = out@.map_values(|s: String| s@);
        assert(w =~= v.insert(i as int, x@));
        assert forall|a: int, b: int| 0 <= a < b < w.len() implies lex_lt(
            vstd::utf8::encode_utf8(#[trigger] w[a]), vstd::utf8::encode_utf8(#[trigger] w[b])) by {
            let xe = vstd::utf8::encode_utf8(x@);
            if b < i {
                assert(w[a] == v[a] && w[b] == v[b]);
            } else if b == i {
                assert(w[a] == v[a]);
            } else if a == i {
                assert(w[b] == v[b - 1]);
                if b - 1 > i {
                    lemma_lex_transitive(xe, vstd::utf8::encode_utf8(v[i as int]), vstd::utf8::encode_utf8(v[b - 1]));
                }
            } else if a < i {
                assert(w[a] == v[a] && w[b] == v[b - 1]);
                lemma_lex_transitive(vstd::utf8::encode_utf8(v[a]), xe, vstd::utf8::encode_utf8(v[i as int]));
                if b - 1 > i {
                    lemma_lex_transitive(vstd::utf8::encode_utf8(v[a]), vstd::utf8::encode_utf8(v[i as int]), vstd::utf8::encode_utf8(v[b - 1]));
                }
            } else {
                assert(w[a] == v[a - 1] && w[b] == v[b - 1]);
            }
        }
        assert forall|m: Seq<char>| w.to_set().contains(m) <==> v.to_set().insert(x@).contains(m) by {
            if w.contains(m) {
                let k = choose|k: int| 0 <= k < w.len() && w[k] == m;
                if k < i { assert(v[k] == m); } else if k > i { assert(v[k - 1] == m); }
            }
            if v.contains(m) {
                let k = choose|k: int| 0 <= k < v.len() && v[k] == m;
                if k < i { assert(w[k] == m); } else { assert(w[k + 1] == m); }
            }
            if m == x@ {
                assert(w[i as int] == m);
            }
        }
        assert(w.to_set() =~= v.to_set().insert(x@));
    }
}


// ---------------------------------------------------------------------------
// One page, and the whole pull.
// ---------------------------------------------------------------------------

/// One cell a resolved page parsed to: its metric and whether its value is
/// empty, a dash or zero (never a filed value).
#[derive(Debug, Clone)]
pub struct AggregatorCell {
    pub metric_key: String,
    pub zero: bool,
}

/// The cells that carry a value, in order.
pub open spec fn nonzero_cells(cells: Seq<AggregatorCell>) -> Seq<AggregatorCell>
    decreases cells.len(),
{
    if cells.len() == 0 {
        Seq::empty()
    } else {
        let rest = nonzero_cells(cells.drop_last());
        if cells.last().zero { rest } else { rest.push(cells.last()) }
    }
}

/// The summary after the commits, in order.
pub open spec fn fold_commits(s: AggregatorPullSummary, commits: Seq<AggregatorFactCommit>) -> AggregatorPullSummary
    decreases commits.len(),
{
    if commits.len() == 0 {
        s
    } else {
        after_commit(fold_commits(s, commits.drop_last()), commits.last())
    }
}

/// The ledger after recording `new` pairs in order (each pair once).
pub open spec fn record_all(pairs: Seq<(Seq<char>, Seq<char>)>, new: Seq<(Seq<char>, Seq<char>)>) -> Seq<(Seq<char>, Seq<char>)>
    decreases new.len(),
{
    if new.len() == 0 {
        pairs
    } else {
        let p = record_all(pairs, new.drop_last());
        if p.contains(new.last()) { p } else { p.push(new.last()) }
    }
}

/// The (metric, company) pairs a page's commits contradicted, in order.
pub open spec fn page_disagreements(cells: Seq<AggregatorCell>, commits: Seq<AggregatorFactCommit>, company: Seq<char>) -> Seq<(Seq<char>, Seq<char>)>
    decreases commits.len(),
{
    if commits.len() == 0 {
        Seq::empty()
    } else {
        let k = commits.len() - 1;
        let rest = page_disagreements(cells, commits.drop_last(), company);
        if spec_witness_action(commits.last()) == WitnessAction::Disagree {
            rest.push((cells[k].metric_key@, company))
        } else {
            rest
        }
    }
}

/// How many cells are zero.
pub open spec fn zero_count(cells: Seq<AggregatorCell>) -> nat {
    (cells.len() - nonzero_cells(cells).len()) as nat
}

/// The summary after one resolved page: a page with no cells is counted
/// empty, every zero cell is skipped, and every committed value is tallied.
pub open spec fn page_summary(s: AggregatorPullSummary, cells: Seq<AggregatorCell>, commits: Seq<AggregatorFactCommit>) -> AggregatorPullSummary {
    fold_commits(AggregatorPullSummary {
        pages_empty: if cells.len() == 0 { (s.pages_empty + 1) as i64 } else { s.pages_empty },
        zero_cells_skipped: (s.zero_cells_skipped + zero_count(cells)) as i64,
        ..s
    }, commits)
}

proof fn lemma_nonzero_len(cells: Seq<AggregatorCell>)
    ensures
        nonzero_cells(cells).len() <= cells.len(),
    decreases cells.len(),
{
    if cells.len() > 0 {
        lemma_nonzero_len(cells.drop_last());
    }
}

proof fn lemma_after_commit_bound(s: AggregatorPullSummary, c: AggregatorFactCommit, b: int)
    requires
        counters_at_most(s, b),
        b < i64::MAX,
    ensures
        counters_at_most(after_commit(s, c), b + 1),
{
}

proof fn lemma_page_summary_bound(s: AggregatorPullSummary, cells: Seq<AggregatorCell>, commits: Seq<AggregatorFactCommit>, b: int)
    requires
        counters_at_most(s, b),
        commits.len() == nonzero_cells(cells).len(),
        b + 1 + 2 * cells.len() <= i64::MAX,
    ensures
        counters_at_most(page_summary(s, cells, commits), b + 1 + 2 * cells.len()),
{
    lemma_nonzero_len(cells);
    let mid = AggregatorPullSummary {
        pages_empty: if cells.len() == 0 { (s.pages_empty + 1) as i64 } else { s.pages_empty },
        zero_cells_skipped: (s.zero_cells_skipped + zero_count(cells)) as i64,
        ..s
    };
    assert(counters_at_most(mid, b + 1 + cells.len()));
    lemma_fold_bound(mid, commits, b + 1 + cells.len());
}

proof fn lemma_fold_bound(s: AggregatorPullSummary, commits: Seq<AggregatorFactCommit>, b: int)
    requires
        counters_at_most(s, b),
        b + commits.len() <= i64::MAX,
    ensures
        counters_at_most(fold_commits(s, commits), b + commits.len()),
    decreases commits.len(),
{
    if commits.len() > 0 {
        lemma_fold_bound(s, commits.drop_last(), b);
        lemma_after_commit_bound(fold_commits(s, commits.drop_last()), commits.last(), b + commits.len() - 1);
    }
}

/// Tally one resolved page: count it empty when it parsed to no cells, skip
/// its zero cells, and tally the store's commit of each other cell (`commits`
/// holds one per non-zero cell, in order), recording every contradicted held
/// slot in the ledger. Returns what to record about each held slot, one per
/// commit.
pub fn pull_one_page(
    summary: &mut AggregatorPullSummary,
    ledger: &mut DisagreementLedger,
    company_id: &str,
    cells: &Vec<AggregatorCell>,
    commits: &Vec<AggregatorFactCommit>,
) -> (actions: Vec<WitnessAction>)
    requires
        commits@.len() == nonzero_cells(cells@).len(),
        counters_at_most(*old(summary), i64::MAX - 2 - 2 * cells@.len()),
    ensures
        *final(summary) == page_summary(*old(summary), cells@, commits@),
        final(ledger).view_pairs() == record_all(old(ledger).view_pairs(),
            page_disagreements(nonzero_cells(cells@), commits@, company_id@)),
        actions@.len() == commits@.len(),
        forall|k: int| 0 <= k < commits@.len() ==> actions@[k] == spec_witness_action(#[trigger] commits@[k]),
{
    proof {
        lemma_nonzero_len(cells@);
    }
    let ghost start = *summary;
    if cells.len() == 0 {
        summary.pages_empty = summary.pages_empty + 1;
    }
    let mut pending: Vec<usize> = Vec::new();
    let mut i: usize = 0;
    let ghost base = summary.zero_cells_skipped;
    proof {
        assert(cells@.take(0) =~= Seq::<AggregatorCell>::empty());
    }
    while i < cells.len()
        invariant
            i <= cells@.len(),
            summary.zero_cells_skipped == base + (i - nonzero_cells(cells@.take(i as int)).len()),
            nonzero_cells(cells@.take(i as int)).len() <= i,
            base == old(summary).zero_cells_skipped,
            0 <= base <= i64::MAX - 2 - 2 * cells@.len(),
            *summary == (AggregatorPullSummary { zero_cells_skipped: summary.zero_cells_skipped, ..*summary }),
            summary.pages_empty == (if cells@.len() == 0 { (old(summary).pages_empty + 1) as i64 } else { old(summary).pages_empty }),
            *summary == (AggregatorPullSummary {
                pages_empty: summary.pages_empty,
                zero_cells_skipped: summary.zero_cells_skipped,
                ..*old(summary)
            }),
            pending@.len() == nonzero_cells(cells@.take(i as int)).len(),
            forall|k: int| 0 <= k < pending@.len() ==> #[trigger] pending@[k] < i
                && cells@[pending@[k] as int] == nonzero_cells(cells@.take(i as int))[k],
        decreases cells.len() - i,
    {
        proof {
            assert(cells@.take(i + 1).drop_last() =~= cells@.take(i as int));
            assert(cells@.take(i + 1).last() == cells@[i as int]);
        }
        if cells[i].zero {
            summary.zero_cells_skipped = summary.zero_cells_skipped + 1;
        } else {
            pending.push(i);
        }
        i = i + 1;
    }
    proof {
        assert(cells@.take(i as int) =~= cells@);
    }
    let ghost mid = *summary;
    let ghost nz = nonzero_cells(cells@);
    proof {
        assert(mid == (AggregatorPullSummary {
            pages_empty: if cells@.len() == 0 { (start.pages_empty + 1) as i64 } else { start.pages_empty },
            zero_cells_skipped: (start.zero_cells_skipped + zero_count(cells@)) as i64,
            ..start
        }));
        assert(counters_at_most(mid, i64::MAX - 1 - cells@.len()));
    }
    let mut actions: Vec<WitnessAction> = Vec::new();
    let mut j: usize = 0;
    proof {
        assert(commits@.take(0) =~= Seq::<AggregatorFactCommit>::empty());
    }
    while j < commits.len()
        invariant
            j <= commits@.len(),
            commits@.len() == nz.len(),
            nz == nonzero_cells(cells@),
            pending@.len() == nz.len(),
            forall|k: int| 0 <= k < pending@.len() ==> #[trigger] pending@[k] < cells@.len()
                && cells@[pending@[k] as int] == nz[k],
            *summary == fold_commits(mid, commits@.take(j as int)),
            counters_at_most(mid, i64::MAX - 1 - cells@.len()),
            nz.len() <= cells@.len(),
            ledger.view_pairs() == record_all(old(ledger).view_pairs(), page_disagreements(nz, commits@.take(j as int), company_id@)),
            actions@.len() == j,
            forall|k: int| 0 <= k < j ==> actions@[k] == spec_witness_action(#[trigger] commits@[k]),
        decreases commits.len() - j,
    {
        proof {
            assert(commits@.take(j + 1).drop_last() =~= commits@.take(j as int));
            assert(commits@.take(j + 1).last() == commits@[j as int]);
            lemma_fold_bound(mid, commits@.take(j as int), i64::MAX - 1 - cells@.len());
            assert(page_disagreements(nz, commits@.take(j + 1), company_id@)
                == (if spec_witness_action(commits@[j as int]) == WitnessAction::Disagree {
                    page_disagreements(nz, commits@.take(j as int), company_id@).push((nz[j as int].metric_key@, company_id@))
                } else {
                    page_disagreements(nz, commits@.take(j as int), company_id@)
                }));
        }
        let action = apply_commit(summary, &commits[j]);
        if action == WitnessAction::Disagree {
            let cell = &cells[pending[j]];
            ledger.record(cell.metric_key.as_str(), company_id);
            proof {
                let prev = page_disagreements(nz, commits@.take(j as int), company_id@);
                let x = (nz[j as int].metric_key@, company_id@);
                assert(prev.push(x).drop_last() =~= prev);
                assert(prev.push(x).last() == x);
            }
        }
        actions.push(action);
        j = j + 1;
    }
    proof {
        assert(commits@.take(j as int) =~= commits@);
    }
    actions
}

/// How resolving one report page went.
#[derive(Debug)]
pub enum PageResolution {
    /// No coverage, a failed fetch or no slug.
    Unavailable,
    /// The page's parsed cells and the store's commit of each non-zero one.
    Page { cells: Vec<AggregatorCell>, commits: Vec<AggregatorFactCommit> },
}

/// One tracked company's pull: its report pages.
#[derive(Debug)]
pub struct CompanyPull {
    pub company_id: String,
    pub pages: Vec<PageResolution>,
}

/// The summary and ledger after one page of `company`.
pub open spec fn page_step(s: AggregatorPullSummary, pairs: Seq<(Seq<char>, Seq<char>)>, company: Seq<char>, page: PageResolution)
    -> (AggregatorPullSummary, Seq<(Seq<char>, Seq<char>)>)
{
    match page {
        PageResolution::Unavailable => (AggregatorPullSummary { pages_unavailable: (s.pages_unavailable + 1) as i64, ..s }, pairs),
        PageResolution::Page { cells, commits } => {
            let s1 = AggregatorPullSummary { pages_resolved: (s.pages_resolved + 1) as i64, ..s };
            (page_summary(s1, cells@, commits@), record_all(pairs, page_disagreements(nonzero_cells(cells@), commits@, company)))
        },
    }
}

/// The summary and ledger after the first `n` pages of `company`.
pub open spec fn pages_step(s: AggregatorPullSummary, pairs: Seq<(Seq<char>, Seq<char>)>, company: Seq<char>, pages: Seq<PageResolution>, n: nat)
    -> (AggregatorPullSummary, Seq<(Seq<char>, Seq<char>)>)
    decreases n,
{
    if n == 0 || n > pages.len() {
        (s, pairs)
    } else {
        let p = pages_step(s, pairs, company, pages, (n - 1) as nat);
        page_step(p.0, p.1, company, pages[n - 1])
    }
}

/// The summary and ledger after the first `n` companies.
pub open spec fn companies_step(companies: Seq<CompanyPull>, n: nat) -> (AggregatorPullSummary, Seq<(Seq<char>, Seq<char>)>)
    decreases n,
{
    if n == 0 || n > companies.len() {
        (AggregatorPullSummary {
            companies: 0, pages_resolved: 0, pages_unavailable: 0, facts_written: 0, facts_updated: 0,
            facts_reobserved: 0, slots_skipped_higher_tier: 0, witness_disagreements: 0,
            witness_corroborations: 0, zero_cells_skipped: 0, pages_empty: 0, no_definition: 0,
            mapping_suspects: vstd::pervasive::arbitrary(),
        }, Seq::empty())
    } else {
        let p = companies_step(companies, (n - 1) as nat);
        let c = companies[n - 1];
        let s1 = AggregatorPullSummary { companies: (p.0.companies + 1) as i64, ..p.0 };
        pages_step(s1, p.1, c.company_id@, c.pages@, c.pages@.len())
    }
}

/// A page's input is consistent: one commit per non-zero cell.
pub open spec fn page_consistent(page: PageResolution) -> bool {
    match page {
        PageResolution::Unavailable => true,
        PageResolution::Page { cells, commits } => commits@.len() == nonzero_cells(cells@).len(),
    }
}

/// How much a page can add to any one counter.
pub open spec fn page_work(page: PageResolution) -> int {
    match page {
        PageResolution::Unavailable => 1int,
        PageResolution::Page { cells, .. } => 3 + 2 * (cells@.len() as int),
    }
}

/// How much the first `n` pages can add to any one counter.
pub open spec fn pages_work(pages: Seq<PageResolution>, n: nat) -> int
    decreases n,
{
    if n == 0 || n > pages.len() { 0 } else { pages_work(pages, (n - 1) as nat) + page_work(pages[n - 1]) }
}

/// How much the first `n` companies can add to any one counter.
pub open spec fn companies_work(companies: Seq<CompanyPull>, n: nat) -> int
    decreases n,
{
    if n == 0 || n > companies.len() {
        0
    } else {
        companies_work(companies, (n - 1) as nat) + 1 + pages_work(companies[n - 1].pages@, companies[n - 1].pages@.len())
    }
}

proof fn lemma_pages_work_nonneg(pages: Seq<PageResolution>, n: nat)
    ensures
        pages_work(pages, n) >= 0,
    decreases n,
{
    if n > 0 && n <= pages.len() {
        lemma_pages_work_nonneg(pages, (n - 1) as nat);
    }
}

proof fn lemma_companies_work_nonneg(companies: Seq<CompanyPull>, n: nat)
    ensures
        companies_work(companies, n) >= 0,
    decreases n,
{
    if n > 0 && n <= companies.len() {
        lemma_companies_work_nonneg(companies, (n - 1) as nat);
        lemma_pages_work_nonneg(companies[n - 1].pages@, companies[n - 1].pages@.len());
    }
}

proof fn lemma_companies_work_mono(companies: Seq<CompanyPull>, a: nat, b: nat)
    requires
        a <= b <= companies.len(),
    ensures
        0 <= companies_work(companies, a) <= companies_work(companies, b),
    decreases b,
{
    lemma_companies_work_nonneg(companies, a);
    if b > a {
        lemma_companies_work_mono(companies, a, (b - 1) as nat);
        lemma_pages_work_nonneg(companies[b - 1].pages@, companies[b - 1].pages@.len());
    }
}

proof fn lemma_pages_work_mono(pages: Seq<PageResolution>, a: nat, b: nat)
    requires
        a <= b <= pages.len(),
    ensures
        0 <= pages_work(pages, a) <= pages_work(pages, b),
    decreases b,
{
    lemma_pages_work_nonneg(pages, a);
    if b > a {
        lemma_pages_work_mono(pages, a, (b - 1) as nat);
    }
}

/// `a` and `b` agree on everything but the mapping suspects.
pub open spec fn same_counters(a: AggregatorPullSummary, b: AggregatorPullSummary) -> bool {
    a == (AggregatorPullSummary { mapping_suspects: a.mapping_suspects, ..b })
}

proof fn lemma_fold_same(a: AggregatorPullSummary, b: AggregatorPullSummary, commits: Seq<AggregatorFactCommit>)
    requires
        same_counters(a, b),
    ensures
        same_counters(fold_commits(a, commits), fold_commits(b, commits)),
        fold_commits(a, commits).mapping_suspects == a.mapping_suspects,
    decreases commits.len(),
{
    if commits.len() > 0 {
        lemma_fold_same(a, b, commits.drop_last());
    }
}

proof fn lemma_pages_same(
    a: AggregatorPullSummary,
    b: AggregatorPullSummary,
    pairs: Seq<(Seq<char>, Seq<char>)>,
    company: Seq<char>,
    pages: Seq<PageResolution>,
    n: nat,
)
    requires
        same_counters(a, b),
    ensures
        same_counters(pages_step(a, pairs, company, pages, n).0, pages_step(b, pairs, company, pages, n).0),
        pages_step(a, pairs, company, pages, n).0.mapping_suspects == a.mapping_suspects,
        pages_step(a, pairs, company, pages, n).1 == pages_step(b, pairs, company, pages, n).1,
    decreases n,
{
    if n > 0 && n <= pages.len() {
        lemma_pages_same(a, b, pairs, company, pages, (n - 1) as nat);
        let pa = pages_step(a, pairs, company, pages, (n - 1) as nat);
        let pb = pages_step(b, pairs, company, pages, (n - 1) as nat);
        match pages[n - 1] {
            PageResolution::Unavailable => {},
            PageResolution::Page { cells, commits } => {
                let sa = AggregatorPullSummary { pages_resolved: (pa.0.pages_resolved + 1) as i64, ..pa.0 };
                let sb = AggregatorPullSummary { pages_resolved: (pb.0.pages_resolved + 1) as i64, ..pb.0 };
                let ma = AggregatorPullSummary {
                    pages_empty: if cells@.len() == 0 { (sa.pages_empty + 1) as i64 } else { sa.pages_empty },
                    zero_cells_skipped: (sa.zero_cells_skipped + zero_count(cells@)) as i64,
                    ..sa
                };
                let mb = AggregatorPullSummary {
                    pages_empty: if cells@.len() == 0 { (sb.pages_empty + 1) as i64 } else { sb.pages_empty },
                    zero_cells_skipped: (sb.zero_cells_skipped + zero_count(cells@)) as i64,
                    ..sb
                };
                lemma_fold_same(ma, mb, commits@);
            },
        }
    }
}

/// Run the pull over every tracked company's resolved pages (see
/// [`companies_step`]); the mapping suspects are the metrics contradicted at
/// [`MAPPING_SUSPECT_MIN_COMPANIES`] or more companies, sorted. Returns the
/// summary and, per company and page, what to record about each held slot.
pub fn run_aggregator_fundamentals_pull(companies: &Vec<CompanyPull>) -> (r: (AggregatorPullSummary, Vec<Vec<Vec<WitnessAction>>>))
    requires
        forall|c: int, p: int| 0 <= c < companies@.len() && 0 <= p < companies@[c].pages@.len()
            ==> page_consistent(#[trigger] companies@[c].pages@[p]),
        companies_work(companies@, companies@.len()) <= i64::MAX - 4,
    ensures
        ({
            let (s, pairs) = companies_step(companies@, companies@.len());
            &&& r.0 == (AggregatorPullSummary { mapping_suspects: r.0.mapping_suspects, ..s })
            &&& strictly_sorted(r.0.mapping_suspects@.map_values(|x: String| x@))
            &&& r.0.mapping_suspects@.map_values(|x: String| x@).to_set() == suspect_metrics(pairs)
        }),
{
    let mut summary = AggregatorPullSummary::new();
    let mut ledger = DisagreementLedger::new();
    let mut all_actions: Vec<Vec<Vec<WitnessAction>>> = Vec::new();
    let mut c: usize = 0;
    proof {
        let z = companies_step(companies@, 0);
        assert(summary == (AggregatorPullSummary { mapping_suspects: summary.mapping_suspects, ..z.0 }));
        assert(ledger.view_pairs() =~= z.1);
    }
    while c < companies.len()
        invariant
            c <= companies@.len(),
            forall|c2: int, p: int| 0 <= c2 < companies@.len() && 0 <= p < companies@[c2].pages@.len()
                ==> page_consistent(#[trigger] companies@[c2].pages@[p]),
            companies_work(companies@, companies@.len()) <= i64::MAX - 4,
            summary == (AggregatorPullSummary { mapping_suspects: summary.mapping_suspects, ..companies_step(companies@, c as nat).0 }),
            ledger.view_pairs() == companies_step(companies@, c as nat).1,
            counters_at_most(summary, companies_work(companies@, c as nat)),
        decreases companies.len() - c,
    {
        proof {
            lemma_companies_work_mono(companies@, (c + 1) as nat, companies@.len());
            lemma_companies_work_mono(companies@, c as nat, (c + 1) as nat);
        }
        let company = &companies[c];
        summary.companies = summary.companies + 1;
        let ghost s1 = summary;
        let ghost prev = companies_step(companies@, c as nat);
        let ghost s1_spec = AggregatorPullSummary { companies: (prev.0.companies + 1) as i64, ..prev.0 };
        proof {
            assert(same_counters(s1, s1_spec));
        }
        let ghost w0 = companies_work(companies@, c as nat) + 1;
        let mut company_actions: Vec<Vec<WitnessAction>> = Vec::new();
        let mut p: usize = 0;
        while p < company.pages.len()
            invariant
                p <= company.pages@.len(),
                company == companies@[c as int],
                c < companies@.len(),
                forall|q: int| 0 <= q < company.pages@.len() ==> page_consistent(#[trigger] company.pages@[q]),
                w0 + pages_work(company.pages@, company.pages@.len()) <= i64::MAX - 4,
                summary == pages_step(s1, prev.1, company.company_id@, company.pages@, p as nat).0,
                ledger.view_pairs() == pages_step(s1, prev.1, company.company_id@, company.pages@, p as nat).1,
                prev == companies_step(companies@, c as nat),
                counters_at_most(summary, w0 + pages_work(company.pages@, p as nat)),
            decreases company.pages.len() - p,
        {
            proof {
                lemma_pages_work_mono(company.pages@, (p + 1) as nat, company.pages@.len());
                assert(page_consistent(company.pages@[p as int]));
            }
            match &company.pages[p] {
                PageResolution::Unavailable => {
                    summary.pages_unavailable = summary.pages_unavailable + 1;
                    company_actions.push(Vec::new());
                },
                PageResolution::Page { cells, commits } => {
                    let ghost before = summary;
                    summary.pages_resolved = summary.pages_resolved + 1;
                    proof {
                        lemma_page_summary_bound(summary, cells@, commits@, w0 + pages_work(company.pages@, p as nat) + 1);
                    }
                    let actions = pull_one_page(&mut summary, &mut ledger, company.company_id.as_str(), cells, commits);
                    company_actions.push(actions);
                },
            }
            p = p + 1;
        }
        all_actions.push(company_actions);
        proof {
            lemma_pages_same(s1, s1_spec, prev.1, company.company_id@, company.pages@, company.pages@.len());
            lemma_companies_work_mono(companies@, (c + 1) as nat, companies@.len());
        }
        c = c + 1;
    }
    summary.mapping_suspects = ledger.mapping_suspects();
    (summary, all_actions)
}

/// The outcome of one witness cross-check of a held figure against the
/// aggregator's: a failure carries the three decimals as the comparison
/// rendered them (aggregator figure, held figure, residual).
pub enum CrossCheckOutcome {
    Fail { expected: String, actual: String, residual: String },
    NotFailed,
}

/// One witness cross-check: the metric it compared and how it came out.
pub struct CrossCheck {
    pub metric_key: String,
    pub outcome: CrossCheckOutcome,
}

/// The JSON record of one failed cross-check, with the page, the source and the
/// tier of the held slot folded into its detail.
pub open spec fn spec_disagreement_item(
    metric_key: Seq<char>,
    expected: Seq<char>,
    actual: Seq<char>,
    residual: Seq<char>,
    page_url: Seq<char>,
    issuer_tier: Seq<char>,
) -> Seq<char> {
    "{\"detail\":{\"actual\":"@ + spec_json_string(actual) + ",\"expected\":"@ + spec_json_string(expected)
        + ",\"issuerTier\":"@ + spec_json_string(issuer_tier) + ",\"pageUrl\":"@ + spec_json_string(page_url)
        + ",\"residual\":"@ + spec_json_string(residual) + ",\"sourceAdapterId\":"@
        + spec_json_string(BIZNESRADAR_FUNDAMENTALS_ADAPTER_ID@) + "},\"metricKey\":"@ + spec_json_string(metric_key)
        + "}"@
}

/// The records of the failed checks among `checks`, in order, joined by commas.
pub open spec fn spec_disagreement_items(checks: Seq<CrossCheck>, page_url: Seq<char>, issuer_tier: Seq<char>) -> Seq<char>
    decreases checks.len(),
{
    if checks.len() == 0 {
        Seq::empty()
    } else {
        let before = spec_disagreement_items(checks.drop_last(), page_url, issuer_tier);
        let c = checks.last();
        match c.outcome {
            CrossCheckOutcome::Fail { expected, actual, residual } => {
                let item = spec_disagreement_item(c.metric_key@, expected@, actual@, residual@, page_url, issuer_tier);
                if before.len() == 0 { item } else { before + ","@ + item }
            },
            CrossCheckOutcome::NotFailed => before,
        }
    }
}

/// The detail of a witness disagreement: no failed identities or cross-checks
/// of the filing itself, and one witness disagreement per failed check, each
/// object's keys in sorted order.
pub open spec fn spec_disagreement_detail(checks: Seq<CrossCheck>, page_url: Seq<char>, issuer_tier: Seq<char>) -> Seq<char> {
    "{\"failedCrossChecks\":[],\"failedIdentities\":[],\"witnessDisagreements\":["@
        + spec_disagreement_items(checks, page_url, issuer_tier) + "]}"@
}

/// The detail recorded for a held slot that the aggregator contradicts.
pub fn witness_disagreement_detail(checks: &Vec<CrossCheck>, page_url: &str, issuer_tier: &str) -> (r: String)
    ensures
        r@ == spec_disagreement_detail(checks@, page_url@, issuer_tier@),
{
    let mut items = String::new();
    let mut any = false;
    let mut i: usize = 0;
    proof {
        assert(checks@.take(0) =~= Seq::<CrossCheck>::empty());
    }
    while i < checks.len()
        invariant
            i <= checks@.len(),
            any <==> items@.len() > 0,
            items@ == spec_disagreement_items(checks@.take(i as int), page_url@, issuer_tier@),
        decreases checks.len() - i,
    {
        proof {
            assert(checks@.take(i + 1).drop_last() =~= checks@.take(i as int));
            assert(checks@.take(i + 1).last() == checks@[i as int]);
        }
        let check = &checks[i];
        match &check.outcome {
            CrossCheckOutcome::Fail { expected, actual, residual } => {
                if any {
                    items.append(",");
                }
                let mut item = concat3("{\"detail\":{\"actual\":", json_string(actual.as_str()).as_str(), ",\"expected\":");
                proof {
                    reveal_strlit("{\"detail\":{\"actual\":");
                }
                item.append(json_string(expected.as_str()).as_str());
                item.append(",\"issuerTier\":");
                item.append(json_string(issuer_tier).as_str());
                item.append(",\"pageUrl\":");
                item.append(json_string(page_url).as_str());
                item.append(",\"residual\":");
                item.append(json_string(residual.as_str()).as_str());
                item.append(",\"sourceAdapterId\":");
                item.append(json_string(BIZNESRADAR_FUNDAMENTALS_ADAPTER_ID).as_str());
                item.append("},\"metricKey\":");
                item.append(json_string(check.metric_key.as_str()).as_str());
                item.append("}");
                items.append(item.as_str());
                any = true;
            },
            CrossCheckOutcome::NotFailed => {},
        }
        i = i + 1;
    }
    proof {
        assert(checks@.take(checks@.len() as int) =~= checks@);
    }
    let mut s = String::from_str("{\"failedCrossChecks\":[],\"failedIdentities\":[],\"witnessDisagreements\":[");
    s.append(items.as_str());
    s.append("]}");
    s
}

/// The document reference a disagreement is recorded under: the page with the
/// metric folded in, so two diverging metrics of one period keep their own record.
pub fn disagreement_outcome_ref(page_url: &str, metric_key: &str) -> (r: String)
    ensures
        r@ == page_url@ + "#"@ + metric_key@,
{
    concat3(page_url, "#", metric_key)
}

} // verus!
