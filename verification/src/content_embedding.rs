//! The embed / re-embed job of the vector index: when it runs at all, which
//! content needs (re-)embedding (blank text never; text whose SHA-256 is
//! unchanged for the active model is skipped), when the index is rebuilt (the
//! active model changed: other models' vectors are pruned first), and how the
//! pending content is cut into batches of one model forward each.

use vstd::prelude::*;
use sha2::{Digest, Sha256};
use crate::text::{concat2, decimal, has_non_whitespace, owned, spec_decimal, spec_is_whitespace, str_eq};

verus! {

/// The similarity strategy under which the job embeds.
pub const EMBEDDING_STRATEGY: &'static str = "embedding";

/// Content embedded per model forward.
pub const EMBED_BATCH_SIZE: usize = 32;

/// Why a run did the work it did.
#[derive(Debug, Clone, Copy, PartialEq, Eq, Structural)]
pub enum EmbedJobStatus {
    /// Embedded or refreshed vectors for the active model.
    Embedded,
    /// The active strategy is not `embedding`; nothing to do.
    SkippedStrategyStatic,
    /// The strategy is `embedding` but no model is loaded.
    SkippedModelUnavailable,
}

/// The outcome of one run.
#[derive(Debug, PartialEq, Eq)]
pub struct EmbedJobOutcome {
    pub status: EmbedJobStatus,
    pub model_id: Option<String>,
    pub embedded: usize,
    pub skipped: usize,
    pub pruned: usize,
}

/// The outcome of a run that skipped for `status`.
pub open spec fn skipped_outcome(o: EmbedJobOutcome, status: EmbedJobStatus) -> bool {
    o.status == status && o.model_id is None && o.embedded == 0 && o.skipped == 0 && o.pruned == 0
}

/// How a run starts.
#[derive(Debug, PartialEq, Eq)]
pub enum EmbedStart {
    /// Nothing to do: the run ends with this outcome.
    Skip(EmbedJobOutcome),
    /// Embed with the loaded model `model_id`.
    Embed { model_id: String },
}

/// How a run starts under similarity strategy `strategy` with the loaded
/// model's id (`None` when no model could be loaded): another strategy skips;
/// no model skips; else it embeds with that model.
pub fn run_content_embedding_job(strategy: &str, loaded_model: Option<String>) -> (r: EmbedStart)
    ensures
        strategy@ != EMBEDDING_STRATEGY@ ==> (r matches EmbedStart::Skip(o) && skipped_outcome(o, EmbedJobStatus::SkippedStrategyStatic)),
        strategy@ == EMBEDDING_STRATEGY@ && loaded_model is None ==> (r matches EmbedStart::Skip(o)
            && skipped_outcome(o, EmbedJobStatus::SkippedModelUnavailable)),
        strategy@ == EMBEDDING_STRATEGY@ && loaded_model is Some ==> (r matches EmbedStart::Embed { model_id }
            && model_id@ == loaded_model->0@),
{
    if !str_eq(strategy, EMBEDDING_STRATEGY) {
        return EmbedStart::Skip(EmbedJobOutcome {
            status: EmbedJobStatus::SkippedStrategyStatic,
            model_id: None,
            embedded: 0,
            skipped: 0,
            pruned: 0,
        });
    }
    match loaded_model {
        None => EmbedStart::Skip(EmbedJobOutcome {
            status: EmbedJobStatus::SkippedModelUnavailable,
            model_id: None,
            embedded: 0,
            skipped: 0,
            pruned: 0,
        }),
        Some(model_id) => EmbedStart::Embed { model_id },
    }
}

/// The lowercase hexadecimal SHA-256 digest of a text's UTF-8 bytes.
pub uninterp spec fn spec_sha256_hex(text: Seq<char>) -> Seq<char>;

/// `sha2::Sha256::digest` of the text's bytes, written with `{:x}`: the
/// digest as a function of the text, 64 lowercase hexadecimal characters
/// (32 bytes, two digits each). Nothing else is claimed of it.
#[verifier::external_body]
pub(crate) fn content_hash(text: &str) -> (r: String)
    ensures
        r@ == spec_sha256_hex(text@),
        r@.len() == 64,
{
    format!("{:x}", Sha256::digest(text.as_bytes()))
}

/// One embeddable feed item.
pub struct EmbeddableContent {
    pub content_id: String,
    pub text: String,
}

/// Content waiting to be embedded, with its hash.
pub struct PendingEmbedding {
    pub content_id: String,
    pub text: String,
    pub hash: String,
}

/// What a run will do with the loaded model.
pub struct EmbedPlan {
    pub model_id: String,
    /// Whether the index holds another model's vectors, to prune first.
    pub prune: bool,
    pub pending: Vec<PendingEmbedding>,
    /// Content skipped because its hash is unchanged.
    pub skipped: usize,
}

/// Blank text (only whitespace) is never embedded.
pub open spec fn is_blank(text: Seq<char>) -> bool {
    !(exists|i: int| 0 <= i < text.len() && !spec_is_whitespace(#[trigger] text[i]))
}

/// The index already holds `id` with `hash` for the active model.
pub open spec fn unchanged(existing: Seq<(String, String)>, id: Seq<char>, hash: Seq<char>) -> bool {
    exists|k: int| 0 <= k < existing.len() && (#[trigger] existing[k]).0@ == id && existing[k].1@ == hash
}

/// The pending `(id, text, hash)` triples and the skipped count of `contents`:
/// blank text is dropped, unchanged content skipped, the rest pending in order.
pub open spec fn spec_select(existing: Seq<(String, String)>, contents: Seq<EmbeddableContent>)
    -> (Seq<(Seq<char>, Seq<char>, Seq<char>)>, nat)
    decreases contents.len(),
{
    if contents.len() == 0 {
        (Seq::empty(), 0)
    } else {
        let (pending, skipped) = spec_select(existing, contents.drop_last());
        let c = contents.last();
        let hash = spec_sha256_hex(c.text@);
        if is_blank(c.text@) {
            (pending, skipped)
        } else if unchanged(existing, c.content_id@, hash) {
            (pending, skipped + 1)
        } else {
            (pending.push((c.content_id@, c.text@, hash)), skipped)
        }
    }
}

/// A pending entry as plain values.
pub open spec fn pending_view(p: PendingEmbedding) -> (Seq<char>, Seq<char>, Seq<char>) {
    (p.content_id@, p.text@, p.hash@)
}

fn is_unchanged(existing: &Vec<(String, String)>, id: &str, hash: &str) -> (r: bool)
    ensures
        r == unchanged(existing@, id@, hash@),
{
    let mut i: usize = 0;
    while i < existing.len()
        invariant
            i <= existing@.len(),
            forall|k: int| 0 <= k < i ==> !((#[trigger] existing@[k]).0@ == id@ && existing@[k].1@ == hash@),
        decreases existing.len() - i,
    {
        if str_eq(existing[i].0.as_str(), id) && str_eq(existing[i].1.as_str(), hash) {
            return true;
        }
        i = i + 1;
    }
    false
}

/// Plan a run with the loaded model `model_id`: prune when the index's model
/// (`index_model`) is another one, and select the content to embed against
/// the hashes the index holds for the model (`existing`, by content id).
pub fn plan_embedding(
    model_id: &str,
    index_model: Option<&str>,
    existing: &Vec<(String, String)>,
    contents: Vec<EmbeddableContent>,
) -> (r: EmbedPlan)
    ensures
        r.model_id@ == model_id@,
        r.prune == !(index_model matches Some(m) && m@ == model_id@),
        (r.pending@.map_values(|p: PendingEmbedding| pending_view(p)), r.skipped as nat) == spec_select(existing@, contents@),
{
    let prune = match index_model {
        Some(m) => !str_eq(m, model_id),
        None => true,
    };
    let total = contents.len();
    let ghost all = contents@;
    let mut rest = contents;
    let mut pending: Vec<PendingEmbedding> = Vec::new();
    let mut skipped: usize = 0;
    let ghost mut done: int = 0;
    proof {
        assert(all.take(0) =~= Seq::<EmbeddableContent>::empty());
        assert(rest@ =~= all.skip(0));
        assert(pending@.map_values(|p: PendingEmbedding| pending_view(p)) =~= Seq::<(Seq<char>, Seq<char>, Seq<char>)>::empty());
    }
    while rest.len() > 0
        invariant
            0 <= done <= all.len(),
            all.len() <= usize::MAX,
            rest@ == all.skip(done),
            skipped <= done,
            (pending@.map_values(|p: PendingEmbedding| pending_view(p)), skipped as nat) == spec_select(existing@, all.take(done)),
        decreases rest.len(),
    {
        let c = rest.remove(0);
        proof {
            assert(c == all[done]);
            assert(all.take(done + 1).drop_last() =~= all.take(done));
            assert(all.take(done + 1).last() == all[done]);
            assert(rest@ =~= all.skip(done + 1));
            done = done + 1;
        }
        if has_non_whitespace(c.text.as_str()) {
            let hash = content_hash(c.text.as_str());
            if is_unchanged(existing, c.content_id.as_str(), hash.as_str()) {
                skipped = skipped + 1;
            } else {
                let ghost before = pending@;
                let EmbeddableContent { content_id, text } = c;
                pending.push(PendingEmbedding { content_id, text, hash });
                proof {
                    assert(pending@.map_values(|p: PendingEmbedding| pending_view(p))
                        =~= before.map_values(|p: PendingEmbedding| pending_view(p)).push(pending_view(pending@.last())));
                }
            }
        }
    }
    proof {
        assert(all.take(done) =~= all);
    }
    EmbedPlan { model_id: owned(model_id), prune, pending, skipped }
}

/// How many batches `n` pending items take.
pub open spec fn batch_count(n: int) -> int {
    (n + EMBED_BATCH_SIZE - 1) / (EMBED_BATCH_SIZE as int)
}

/// Re-embedding is a no-op for unchanged content: when the index already
/// holds every non-blank item's current hash for the model, nothing is
/// pending and every non-blank item is skipped.
pub proof fn lemma_unchanged_content_is_not_reembedded(existing: Seq<(String, String)>, contents: Seq<EmbeddableContent>)
    requires
        forall|k: int| 0 <= k < contents.len() && !is_blank((#[trigger] contents[k]).text@)
            ==> unchanged(existing, contents[k].content_id@, spec_sha256_hex(contents[k].text@)),
    ensures
        spec_select(existing, contents).0.len() == 0,
        spec_select(existing, contents).1 == contents.filter(|c: EmbeddableContent| !is_blank(c.text@)).len(),
    decreases contents.len(),
{
    if contents.len() > 0 {
        let init = contents.drop_last();
        assert forall|k: int| 0 <= k < init.len() && !is_blank((#[trigger] init[k]).text@)
            implies unchanged(existing, init[k].content_id@, spec_sha256_hex(init[k].text@)) by {
            assert(init[k] == contents[k]);
        }
        lemma_unchanged_content_is_not_reembedded(existing, init);
        assert(contents.last() == contents[contents.len() - 1]);
        assert(init.push(contents.last()) =~= contents);
        init.lemma_filter_push(contents.last(), |c: EmbeddableContent| !is_blank(c.text@));
    }
}

/// The batches of `n` pending items: consecutive `[start, end)` ranges of
/// [`EMBED_BATCH_SIZE`], the last one shorter.
pub open spec fn spec_batches(n: nat) -> Seq<(usize, usize)> {
    Seq::new(batch_count(n as int) as nat, |i: int| {
        let start = i * EMBED_BATCH_SIZE;
        let end = if start + EMBED_BATCH_SIZE <= n { start + EMBED_BATCH_SIZE } else { n as int };
        (start as usize, end as usize)
    })
}

proof fn lemma_batch_count(i: int, n: int)
    requires
        0 <= i,
        0 <= n,
    ensures
        i * 32 < n ==> i < (n + 31) / 32,
        (i - 1) * 32 < n && n <= i * 32 ==> (n + 31) / 32 == i,
{
    assert(i * 32 < n ==> i < (n + 31) / 32) by (nonlinear_arith)
        requires 0 <= i, 0 <= n;
    assert((i - 1) * 32 < n && n <= i * 32 ==> (n + 31) / 32 == i) by (nonlinear_arith)
        requires 0 <= i, 0 <= n;
}

/// The batch ranges of `n` pending items (see [`spec_batches`]).
pub fn batch_ranges(n: usize) -> (r: Vec<(usize, usize)>)
    ensures
        r@ == spec_batches(n as nat),
{
    let mut out: Vec<(usize, usize)> = Vec::new();
    let mut start: usize = 0;
    let mut i: usize = 0;
    proof {
        lemma_batch_count(0, n as int);
    }
    while start < n
        invariant
            start <= n,
            start < n ==> start == i * EMBED_BATCH_SIZE,
            start < n ==> i < batch_count(n as int),
            start >= n ==> i == batch_count(n as int),
            out@.len() == i,
            forall|k: int| 0 <= k < i ==> out@[k] == #[trigger] spec_batches(n as nat)[k],
        decreases n - start,
    {
        let end = if n - start >= EMBED_BATCH_SIZE { start + EMBED_BATCH_SIZE } else { n };
        out.push((start, end));
        proof {
            assert(out@[i as int] == spec_batches(n as nat)[i as int]);
            lemma_batch_count(i + 1, n as int);
        }
        start = end;
        i = i + 1;
    }
    proof {
        assert(out@ =~= spec_batches(n as nat));
    }
    out
}

/// The error when the model returned a different number of vectors than
/// inputs: `"embedder returned {returned} vectors for {expected} inputs"`.
pub open spec fn spec_vector_count_error(returned: nat, expected: nat) -> Seq<char> {
    "embedder returned "@ + spec_decimal(returned) + " vectors for "@ + spec_decimal(expected) + " inputs"@
}

/// Check that a batch of `expected` inputs came back with as many vectors.
pub fn check_vector_count(returned: usize, expected: usize) -> (r: Result<(), String>)
    ensures
        returned == expected ==> r is Ok,
        returned != expected ==> (r matches Err(e) && e@ == spec_vector_count_error(returned as nat, expected as nat)),
{
    if returned == expected {
        return Ok(());
    }
    let mut e = concat2("embedder returned ", decimal(returned as u128).as_str());
    e.append(" vectors for ");
    e.append(decimal(expected as u128).as_str());
    e.append(" inputs");
    Err(e)
}

impl EmbedPlan {
    /// The outcome of a run that carried this plan out: `embedded` vectors
    /// written and `pruned` other-model vectors dropped.
    pub fn outcome(&self, embedded: usize, pruned: usize) -> (o: EmbedJobOutcome)
        ensures
            o.status == EmbedJobStatus::Embedded,
            o.model_id matches Some(m) && m@ == self.model_id@,
            o.embedded == embedded && o.skipped == self.skipped && o.pruned == pruned,
    {
        EmbedJobOutcome {
            status: EmbedJobStatus::Embedded,
            model_id: Some(self.model_id.clone()),
            embedded,
            skipped: self.skipped,
            pruned,
        }
    }
}

} // verus!
