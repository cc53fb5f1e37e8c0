//! The health-facts re-extraction backfill of one company: every stored
//! ESEF-route periodic document with a file is re-extracted by the
//! deterministic structured tier, so concepts added to the concept map since
//! the document was first extracted land as facts. It is additive (existing
//! slots re-observe or surface a divergence, never overwritten) and counted.

use vstd::prelude::*;

verus! {

/// The counted outcome of a backfill over one company.
#[derive(Debug, Clone, Copy, PartialEq, Eq, Structural)]
pub struct HealthFactsBackfillResult {
    /// ESEF-route periodic documents re-extracted.
    pub documents_processed: u64,
    /// Documents left alone because their period could not be derived.
    pub documents_skipped_no_period: u64,
    /// New facts written.
    pub facts_created: u64,
    /// Existing slots re-observed with the same value.
    pub facts_reobserved: u64,
    /// Re-observed slots whose new value disagrees (surfaced, never overwritten).
    pub divergences: u64,
}

/// What one structured extraction run produced.
#[derive(Debug, Clone, Copy, PartialEq, Eq, Structural)]
pub struct StructuredRun {
    pub created: u64,
    pub reobserved: u64,
    pub divergences: u64,
}

/// One stored document of the company, as the backfill reads it.
pub struct HealthDocument {
    /// A fetched periodic report.
    pub fetched_periodic: bool,
    /// It carries a stored file.
    pub has_stored_file: bool,
    /// Its format routes to the deterministic ESEF tier.
    pub esef_route: bool,
    /// Its reporting period could be derived.
    pub period_derived: bool,
    /// The structured extraction over it (consulted only when it runs).
    pub extraction: Result<StructuredRun, String>,
}

/// The document is in scope: fetched periodic, with a file, ESEF-routed.
pub open spec fn in_scope(d: HealthDocument) -> bool {
    d.fetched_periodic && d.has_stored_file && d.esef_route
}

/// The empty result.
pub open spec fn empty_result() -> HealthFactsBackfillResult {
    HealthFactsBackfillResult { documents_processed: 0, documents_skipped_no_period: 0, facts_created: 0, facts_reobserved: 0, divergences: 0 }
}

/// The result of the backfill over `docs` in order, or the first extraction error.
pub open spec fn spec_health_backfill(docs: Seq<HealthDocument>) -> Result<HealthFactsBackfillResult, Seq<char>>
    decreases docs.len(),
{
    if docs.len() == 0 {
        Ok(empty_result())
    } else {
        match spec_health_backfill(docs.drop_last()) {
            Err(e) => Err(e),
            Ok(r) => {
                let d = docs.last();
                if !in_scope(d) {
                    Ok(r)
                } else if !d.period_derived {
                    Ok(HealthFactsBackfillResult { documents_skipped_no_period: (r.documents_skipped_no_period + 1) as u64, ..r })
                } else {
                    match d.extraction {
                        Err(e) => Err(e@),
                        Ok(run) => Ok(HealthFactsBackfillResult {
                            documents_processed: (r.documents_processed + 1) as u64,
                            facts_created: (r.facts_created + run.created) as u64,
                            facts_reobserved: (r.facts_reobserved + run.reobserved) as u64,
                            divergences: (r.divergences + run.divergences) as u64,
                            ..r
                        }),
                    }
                }
            },
        }
    }
}

/// Each extraction's counts fit in 32 bits, and so does the number of
/// documents (so every sum fits).
pub open spec fn health_input_small(docs: Seq<HealthDocument>) -> bool {
    &&& docs.len() <= u32::MAX
    &&& forall|k: int| 0 <= k < docs.len() ==> match (#[trigger] docs[k]).extraction {
        Ok(run) => run.created <= u32::MAX && run.reobserved <= u32::MAX && run.divergences <= u32::MAX,
        Err(_) => true,
    }
}

/// How many documents of `docs` are in scope.
pub open spec fn in_scope_count(docs: Seq<HealthDocument>) -> nat
    decreases docs.len(),
{
    if docs.len() == 0 {
        0
    } else {
        in_scope_count(docs.drop_last()) + if in_scope(docs.last()) { 1nat } else { 0nat }
    }
}

/// A completed backfill accounts for every in-scope document exactly once:
/// it was either re-extracted or skipped for want of a period; documents out
/// of scope are never counted.
pub proof fn lemma_backfill_accounts_for_every_in_scope_document(docs: Seq<HealthDocument>)
    requires
        docs.len() <= u32::MAX,
    ensures
        spec_health_backfill(docs) matches Ok(r) ==>
            r.documents_processed + r.documents_skipped_no_period == in_scope_count(docs),
    decreases docs.len(),
{
    if docs.len() > 0 {
        lemma_backfill_accounts_for_every_in_scope_document(docs.drop_last());
        lemma_in_scope_count_bound(docs.drop_last());
    }
}

proof fn lemma_in_scope_count_bound(docs: Seq<HealthDocument>)
    ensures
        in_scope_count(docs) <= docs.len(),
    decreases docs.len(),
{
    if docs.len() > 0 {
        lemma_in_scope_count_bound(docs.drop_last());
    }
}

proof fn lemma_error_sticks(docs: Seq<HealthDocument>, k: int)
    requires
        0 <= k <= docs.len(),
        spec_health_backfill(docs.take(k)) is Err,
    ensures
        spec_health_backfill(docs) == spec_health_backfill(docs.take(k)),
    decreases docs.len() - k,
{
    if k < docs.len() {
        assert(docs.drop_last().take(k) =~= docs.take(k));
        lemma_error_sticks(docs.drop_last(), k);
    } else {
        assert(docs.take(k) =~= docs);
    }
}

/// Force-re-extract the deterministic structured facts of every in-scope
/// document of one company, in order (see [`spec_health_backfill`]): an
/// undatable document is counted and left alone, an extraction error aborts.
pub fn backfill_company_health_facts(docs: Vec<HealthDocument>) -> (r: Result<HealthFactsBackfillResult, String>)
    requires
        health_input_small(docs@),
    ensures
        match spec_health_backfill(docs@) {
            Ok(x) => r == Ok::<HealthFactsBackfillResult, String>(x),
            Err(e) => r matches Err(x) && x@ == e,
        },
{
    let ghost all = docs@;
    let mut rest = docs;
    let mut result = HealthFactsBackfillResult {
        documents_processed: 0, documents_skipped_no_period: 0, facts_created: 0, facts_reobserved: 0, divergences: 0,
    };
    let ghost mut done: int = 0;
    proof {
        assert(all.take(0) =~= Seq::<HealthDocument>::empty());
        assert(rest@ =~= all.skip(0));
    }
    while rest.len() > 0
        invariant
            0 <= done <= all.len(),
            all == docs@,
            health_input_small(all),
            rest@ == all.skip(done),
            spec_health_backfill(all.take(done)) == Ok::<HealthFactsBackfillResult, Seq<char>>(result),
            result.documents_processed <= done,
            result.documents_skipped_no_period <= done,
            result.facts_created <= done * u32::MAX,
            result.facts_reobserved <= done * u32::MAX,
            result.divergences <= done * u32::MAX,
        decreases rest.len(),
    {
        let d = rest.remove(0);
        proof {
            assert(d == all[done]);
            assert(all.take(done + 1).drop_last() =~= all.take(done));
            assert(all.take(done + 1).last() == all[done]);
            assert(rest@ =~= all.skip(done + 1));
            assert(done * u32::MAX + u32::MAX == (done + 1) * u32::MAX) by (nonlinear_arith);
            assert((done + 1) * u32::MAX <= (u32::MAX as int) * (u32::MAX as int)) by (nonlinear_arith)
                requires done + 1 <= u32::MAX;
            done = done + 1;
        }
        let scoped = d.fetched_periodic && d.has_stored_file && d.esef_route;
        if scoped {
            if !d.period_derived {
                result.documents_skipped_no_period = result.documents_skipped_no_period + 1;
            } else {
                match d.extraction {
                    Err(e) => {
                        proof {
                            let pre = all.take(done);
                            assert(pre.drop_last() =~= all.take(done - 1));
                            assert(pre.last() == all[done - 1]);
                            lemma_error_sticks(all, done);
                        }
                        return Err(e);
                    },
                    Ok(run) => {
                        result.documents_processed = result.documents_processed + 1;
                        result.facts_created = result.facts_created + run.created;
                        result.facts_reobserved = result.facts_reobserved + run.reobserved;
                        result.divergences = result.divergences + run.divergences;
                    },
                }
            }
        }
    }
    proof {
        assert(all.take(done) =~= all);
    }
    Ok(result)
}

} // verus!
