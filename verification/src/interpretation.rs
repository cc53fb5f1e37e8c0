//! The local interpretative layer's plain parts: the request and result shapes
//! shared by its capabilities, where on-device model weights live and whether
//! they are usable, the lexical similarity baseline's tokenizer and overlap
//! counts, and the classifier evaluation tally.

use vstd::prelude::*;
use crate::text::{chars_of, concat2, contains_seq, contains_str, lowercase, owned, push_char, spec_lowercase, spec_trim, str_eq, string_from_chars, trim};

verus! {

/// The default on-device encoder's model id.
pub const DEFAULT_EMBEDDING_MODEL_ID: &'static str = "intfloat/multilingual-e5-small";

/// Output dimensionality of the default encoder.
pub const DEFAULT_EMBEDDING_DIM: usize = 384;

/// The stable id of the lexical similarity implementation.
pub const LEXICAL_SIMILARITY_ID: &'static str = "similarity_lexical";

/// The error any interpretative capability returns.
#[derive(Debug, Clone, PartialEq, Eq)]
pub enum InterpretationError {
    /// The backing implementation is not available; callers fall back to the
    /// static baseline.
    Unavailable(String),
    /// The request was malformed or empty.
    InvalidRequest(String),
    /// The backing implementation failed while producing a result.
    Backend(String),
}

impl InterpretationError {
    /// The error's message.
    pub fn message(&self) -> (r: String)
        ensures
            r@ == match self {
                InterpretationError::Unavailable(m) => "interpretation backend unavailable: "@ + m@,
                InterpretationError::InvalidRequest(m) => "invalid interpretation request: "@ + m@,
                InterpretationError::Backend(m) => "interpretation backend error: "@ + m@,
            },
    {
        match self {
            InterpretationError::Unavailable(m) => concat2("interpretation backend unavailable: ", m.as_str()),
            InterpretationError::InvalidRequest(m) => concat2("invalid interpretation request: ", m.as_str()),
            InterpretationError::Backend(m) => concat2("interpretation backend error: ", m.as_str()),
        }
    }
}

/// A piece of text addressed by a stable id (a candidate for similarity).
#[derive(Debug, Clone)]
pub struct TextItem {
    pub id: String,
    pub text: String,
}

/// A request to classify one piece of text; an empty candidate list means the
/// implementation's whole taxonomy.
#[derive(Debug, Clone)]
pub struct ClassificationRequest {
    pub text: String,
    pub candidate_categories: Vec<String>,
}

/// The corpus scope of a search; no content types means all of them.
#[derive(Debug, Clone, Default)]
pub struct SearchScope {
    pub content_types: Vec<String>,
}

// ---------------------------------------------------------------------------
// Model weights on disk.
// ---------------------------------------------------------------------------

/// `model_id` with every `/` and `\` replaced by `__`.
pub open spec fn spec_model_dir_name(model_id: Seq<char>) -> Seq<char>
    decreases model_id.len(),
{
    if model_id.len() == 0 {
        Seq::empty()
    } else {
        let c = model_id.last();
        spec_model_dir_name(model_id.drop_last()) + if c == '/' || c == '\\' { "__"@ } else { seq![c] }
    }
}

/// Turn a model id into a filesystem-safe directory name (no path separators).
pub fn model_dir_name(model_id: &str) -> (r: String)
    ensures
        r@ == spec_model_dir_name(model_id@),
{
    let v = chars_of(model_id);
    let mut out = String::new();
    let mut i: usize = 0;
    proof {
        assert(v@.take(0) =~= Seq::<char>::empty());
    }
    while i < v.len()
        invariant
            i <= v@.len(),
            v@ == model_id@,
            out@ == spec_model_dir_name(v@.take(i as int)),
        decreases v.len() - i,
    {
        proof {
            assert(v@.take(i + 1).drop_last() =~= v@.take(i as int));
            assert(v@.take(i + 1).last() == v@[i as int]);
        }
        let c = v[i];
        if c == '/' || c == '\\' {
            out.append("__");
        } else {
            let ghost before = out@;
            push_char(&mut out, c);
            proof {
                assert(out@ =~= before + seq![c]);
            }
        }
        i = i + 1;
    }
    proof {
        assert(v@.take(i as int) =~= v@);
    }
    out
}

/// `dir` joined with the relative component `name`.
pub open spec fn spec_join(dir: Seq<char>, name: Seq<char>) -> Seq<char> {
    if dir.len() > 0 && dir.last() == '/' { dir + name } else { dir + "/"@ + name }
}

/// The directory holding the weights of `model_id` under the data dir.
pub open spec fn spec_model_dir(data_dir: Seq<char>, model_id: Seq<char>) -> Seq<char> {
    spec_join(spec_join(data_dir, "models"@), spec_model_dir_name(model_id))
}

fn join(dir: &str, name: &str) -> (r: String)
    ensures
        r@ == spec_join(dir@, name@),
{
    if crate::text::ends_with(dir, "/") && chars_of(dir).len() > 0 {
        proof {
            reveal_strlit("/");
            let n = dir@.len();
            assert(dir@.subrange(n - 1, n as int)[0] == dir@[n - 1]);
            assert(dir@.last() == '/');
        }
        concat2(dir, name)
    } else {
        proof {
            reveal_strlit("/");
            if dir@.len() > 0 && dir@.last() == '/' {
                assert(dir@.subrange(dir@.len() - 1, dir@.len() as int) =~= "/"@);
            }
        }
        crate::text::concat3(dir, "/", name)
    }
}

/// The directory holding the weights of `model_id` under `data_dir`.
pub fn model_dir(data_dir: &str, model_id: &str) -> (r: String)
    ensures
        r@ == spec_model_dir(data_dir@, model_id@),
{
    let models = join(data_dir, "models");
    let name = model_dir_name(model_id);
    join(models.as_str(), name.as_str())
}

/// The files a model needs on disk to be loadable.
pub open spec fn spec_required_files() -> Seq<Seq<char>> {
    seq!["config.json"@, "tokenizer.json"@, "model.safetensors"@]
}

/// The paths of the files the model `model_id` needs under `data_dir`.
pub fn required_weight_paths(data_dir: &str, model_id: &str) -> (r: Vec<String>)
    ensures
        r@.len() == 3,
        forall|k: int| 0 <= k < 3 ==> #[trigger] r@[k]@ == spec_join(spec_model_dir(data_dir@, model_id@), spec_required_files()[k]),
{
    let dir = model_dir(data_dir, model_id);
    let r = vec![join(dir.as_str(), "config.json"), join(dir.as_str(), "tokenizer.json"), join(dir.as_str(), "model.safetensors")];
    r
}

/// Whether every required weight file is present (`exists` holds, for each
/// required path in order, whether it exists).
pub fn weights_present(exists: &Vec<bool>) -> (r: bool)
    ensures
        r == (forall|k: int| 0 <= k < exists@.len() ==> exists@[k]),
{
    let mut i: usize = 0;
    while i < exists.len()
        invariant
            i <= exists@.len(),
            forall|k: int| 0 <= k < i ==> exists@[k],
        decreases exists.len() - i,
    {
        if !exists[i] {
            return false;
        }
        i = i + 1;
    }
    true
}

/// Readiness of the on-device model weights.
#[derive(Debug, Clone, Copy, PartialEq, Eq, Structural)]
pub enum WeightsState {
    /// This build cannot run the model at all.
    Unsupported,
    /// The engine is built in but the weights are not on disk.
    Absent,
    /// The weights are present and loadable.
    Ready,
}

impl WeightsState {
    /// The stable string of the state.
    pub fn as_str(self) -> (r: &'static str)
        ensures
            r@ == match self {
                WeightsState::Unsupported => "unsupported"@,
                WeightsState::Absent => "absent"@,
                WeightsState::Ready => "ready"@,
            },
    {
        match self {
            WeightsState::Unsupported => "unsupported",
            WeightsState::Absent => "absent",
            WeightsState::Ready => "ready",
        }
    }
}

/// Whether this build can run the embedding model: it is built without the
/// on-device engine.
pub fn feature_compiled() -> (r: bool)
    ensures
        !r,
{
    false
}

/// The weights state: unsupported without the engine, else ready exactly when
/// the weights are present.
pub fn weights_state(present: bool) -> (r: WeightsState)
    ensures
        !feature_compiled_spec() ==> r == WeightsState::Unsupported,
        feature_compiled_spec() ==> r == if present { WeightsState::Ready } else { WeightsState::Absent },
{
    if !feature_compiled() {
        WeightsState::Unsupported
    } else if present {
        WeightsState::Ready
    } else {
        WeightsState::Absent
    }
}

/// Whether this build carries the on-device engine (it does not).
pub open spec fn feature_compiled_spec() -> bool {
    false
}

/// Download the weights of `model_id`: unavailable in a build without the
/// engine, reported as a recoverable error.
pub fn download_weights(data_dir: &str, model_id: &str) -> (r: Result<(), String>)
    ensures
        r matches Err(e) && e@ == "this build was compiled without the embedding-model feature"@,
{
    Err(owned("this build was compiled without the embedding-model feature"))
}

// ---------------------------------------------------------------------------
// The lexical similarity baseline.
// ---------------------------------------------------------------------------

/// Whether `char::is_alphanumeric` holds for `c`.
pub uninterp spec fn spec_is_alphanumeric(c: char) -> bool;

/// `char::is_alphanumeric`: Unicode `Alphabetic` or `Numeric`.
#[verifier::external_body]
fn is_alphanumeric(c: char) -> (r: bool)
    ensures
        r == spec_is_alphanumeric(c),
{
    c.is_alphanumeric()
}

/// The finished tokens of `s` and the token still being read: runs of
/// alphanumeric characters, split at every other character.
pub open spec fn split_tokens(s: Seq<char>) -> (Seq<Seq<char>>, Seq<char>)
    decreases s.len(),
{
    if s.len() == 0 {
        (Seq::empty(), Seq::empty())
    } else {
        let (done, cur) = split_tokens(s.drop_last());
        let c = s.last();
        if spec_is_alphanumeric(c) {
            (done, cur.push(c))
        } else if cur.len() > 0 {
            (done.push(cur), Seq::empty())
        } else {
            (done, Seq::empty())
        }
    }
}

/// The non-empty alphanumeric runs of `s`, in order.
pub open spec fn spec_tokens(s: Seq<char>) -> Seq<Seq<char>> {
    let (done, cur) = split_tokens(s);
    if cur.len() > 0 { done.push(cur) } else { done }
}

/// The set of lowercased tokens of `text`.
pub open spec fn spec_token_set(text: Seq<char>) -> Set<Seq<char>> {
    spec_tokens(text).map_values(|t: Seq<char>| spec_lowercase(t)).to_set()
}

proof fn lemma_to_set_push(s: Seq<Seq<char>>, x: Seq<char>)
    ensures
        s.push(x).to_set() =~= s.to_set().insert(x),
{
    assert forall|y: Seq<char>| s.push(x).to_set().contains(y) <==> s.to_set().insert(x).contains(y) by {
        if s.push(x).contains(y) {
            let k = choose|k: int| 0 <= k < s.push(x).len() && s.push(x)[k] == y;
            if k < s.len() {
                assert(s[k] == y);
            }
        }
        if s.contains(y) {
            let k = choose|k: int| 0 <= k < s.len() && s[k] == y;
            assert(s.push(x)[k] == y);
        }
        if y == x {
            assert(s.push(x)[s.len() as int] == y);
        }
    }
}

fn raw_tokens(text: &str) -> (r: Vec<Vec<char>>)
    ensures
        r@.map_values(|t: Vec<char>| t@) == spec_tokens(text@),
{
    let v = chars_of(text);
    let mut done: Vec<Vec<char>> = Vec::new();
    let mut cur: Vec<char> = Vec::new();
    let mut i: usize = 0;
    proof {
        assert(v@.take(0) =~= Seq::<char>::empty());
        assert(done@.map_values(|t: Vec<char>| t@) =~= Seq::<Seq<char>>::empty());
    }
    while i < v.len()
        invariant
            i <= v@.len(),
            v@ == text@,
            (done@.map_values(|t: Vec<char>| t@), cur@) == split_tokens(v@.take(i as int)),
        decreases v.len() - i,
    {
        proof {
            assert(v@.take(i + 1).drop_last() =~= v@.take(i as int));
            assert(v@.take(i + 1).last() == v@[i as int]);
        }
        let c = v[i];
        if is_alphanumeric(c) {
            cur.push(c);
        } else if cur.len() > 0 {
            let ghost before = done@;
            let token = cur;
            cur = Vec::new();
            done.push(token);
            proof {
                assert(done@.map_values(|t: Vec<char>| t@) =~= before.map_values(|t: Vec<char>| t@).push(token@));
                assert(cur@ =~= Seq::<char>::empty());
            }
        } else {
            proof {
                assert(cur@ =~= Seq::<char>::empty());
            }
        }
        i = i + 1;
    }
    proof {
        assert(v@.take(i as int) =~= v@);
    }
    if cur.len() > 0 {
        let ghost before = done@;
        let token = cur;
        done.push(token);
        proof {
            assert(done@.map_values(|t: Vec<char>| t@) =~= before.map_values(|t: Vec<char>| t@).push(token@));
        }
    }
    done
}

/// The distinct lowercased tokens of `text`, in first-appearance order.
pub fn token_set(text: &str) -> (r: Vec<String>)
    ensures
        r@.map_values(|s: String| s@).no_duplicates(),
        r@.map_values(|s: String| s@).to_set() == spec_token_set(text@),
{
    let raw = raw_tokens(text);
    let ghost lowered = spec_tokens(text@).map_values(|t: Seq<char>| spec_lowercase(t));
    let mut out: Vec<String> = Vec::new();
    let mut i: usize = 0;
    proof {
        assert(out@.map_values(|s: String| s@).to_set() =~= lowered.take(0).to_set());
    }
    while i < raw.len()
        invariant
            i <= raw@.len(),
            raw@.map_values(|t: Vec<char>| t@) == spec_tokens(text@),
            lowered == spec_tokens(text@).map_values(|t: Seq<char>| spec_lowercase(t)),
            out@.map_values(|s: String| s@).no_duplicates(),
            out@.map_values(|s: String| s@).to_set() == lowered.take(i as int).to_set(),
        decreases raw.len() - i,
    {
        let word = string_from_chars(&raw[i]);
        let low = lowercase(word.as_str());
        proof {
            assert(raw@[i as int]@ == spec_tokens(text@)[i as int]);
            assert(low@ == lowered[i as int]);
            assert(lowered.take(i + 1) =~= lowered.take(i as int).push(lowered[i as int]));
        }
        let ghost before = out@.map_values(|s: String| s@);
        if !crate::queue::contains_text(&out, low.as_str()) {
            out.push(low);
            proof {
                let after = out@.map_values(|s: String| s@);
                assert(after =~= before.push(lowered[i as int]));
                lemma_to_set_push(before, lowered[i as int]);
                lemma_to_set_push(lowered.take(i as int), lowered[i as int]);
                assert(after.to_set() =~= lowered.take(i + 1).to_set());
            }
        } else {
            proof {
                assert(before.to_set().contains(lowered[i as int]));
                lemma_to_set_push(lowered.take(i as int), lowered[i as int]);
                assert(before.to_set() =~= lowered.take(i + 1).to_set());
            }
        }
        i = i + 1;
    }
    proof {
        assert(lowered.take(i as int) =~= lowered);
    }
    out
}

/// The lexical similarity provider: scores two texts by the overlap of their
/// token sets.
#[derive(Debug)]
pub struct LexicalSimilarity {
    id: String,
}

impl LexicalSimilarity {
    /// The provider's id, as characters.
    pub closed spec fn id_view(&self) -> Seq<char> {
        self.id@
    }

    /// The provider under its default id.
    pub fn new() -> (r: LexicalSimilarity)
        ensures
            r.id_view() == LEXICAL_SIMILARITY_ID@,
    {
        LexicalSimilarity { id: owned(LEXICAL_SIMILARITY_ID) }
    }

    /// The provider's id.
    pub fn id(&self) -> (r: &str)
        ensures
            r@ == self.id_view(),
    {
        self.id.as_str()
    }
}

// ---------------------------------------------------------------------------
// Evaluation.
// ---------------------------------------------------------------------------

/// One labeled classification sample; no expected label means the text should
/// stay unclassified.
#[derive(Debug, Clone)]
pub struct LabeledSample {
    pub text: String,
    pub expected: Option<String>,
}

/// One ranking sample for the similarity capability: the candidate that should
/// rank first.
#[derive(Debug, Clone)]
pub struct SimilarityRankingSample {
    pub query: String,
    pub candidates: Vec<TextItem>,
    pub expected_id: String,
}

/// The outcome of evaluating a classifier over labeled samples.
#[derive(Debug, Clone, Copy, PartialEq, Eq, Structural)]
pub struct ClassifierEvalReport {
    /// Samples evaluated.
    pub total: usize,
    /// The prediction equals the label (both unknown included).
    pub correct: usize,
    /// A category was predicted that differs from the label.
    pub wrong: usize,
    /// Samples predicted unknown.
    pub unknown_predicted: usize,
}

/// The report after one more sample predicted `predicted` against `expected`:
/// an unknown prediction is counted as such; an equal prediction is correct;
/// a different predicted category is wrong.
pub open spec fn tallied(r: ClassifierEvalReport, predicted: Option<Seq<char>>, expected: Option<Seq<char>>) -> ClassifierEvalReport {
    ClassifierEvalReport {
        total: r.total,
        unknown_predicted: if predicted is None { (r.unknown_predicted + 1) as usize } else { r.unknown_predicted },
        correct: if predicted == expected { (r.correct + 1) as usize } else { r.correct },
        wrong: if predicted != expected && predicted is Some { (r.wrong + 1) as usize } else { r.wrong },
    }
}

/// The evaluation report over `samples` whose predictions are `predictions`
/// (an errored classification counts as an unknown prediction).
pub open spec fn spec_evaluate(predictions: Seq<Option<Seq<char>>>, expected: Seq<Option<Seq<char>>>, total: usize) -> ClassifierEvalReport
    decreases predictions.len(),
{
    if predictions.len() == 0 {
        ClassifierEvalReport { total, correct: 0, wrong: 0, unknown_predicted: 0 }
    } else {
        tallied(
            spec_evaluate(predictions.drop_last(), expected.drop_last(), total),
            predictions.last(),
            expected.last(),
        )
    }
}

/// How many of the positions below `n` satisfy `f`.
pub open spec fn count_where(n: nat, f: spec_fn(int) -> bool) -> nat
    decreases n,
{
    if n == 0 {
        0
    } else {
        count_where((n - 1) as nat, f) + if f(n - 1) { 1nat } else { 0nat }
    }
}

proof fn lemma_count_where_ext(n: nat, f: spec_fn(int) -> bool, g: spec_fn(int) -> bool)
    requires
        forall|k: int| 0 <= k < n ==> #[trigger] f(k) == g(k),
    ensures
        count_where(n, f) == count_where(n, g),
    decreases n,
{
    if n > 0 {
        lemma_count_where_ext((n - 1) as nat, f, g);
    }
}

proof fn lemma_count_where_disjoint(n: nat, f: spec_fn(int) -> bool, g: spec_fn(int) -> bool)
    requires
        forall|k: int| 0 <= k < n ==> !(#[trigger] f(k) && g(k)),
    ensures
        count_where(n, f) + count_where(n, g) <= n,
    decreases n,
{
    if n > 0 {
        lemma_count_where_disjoint((n - 1) as nat, f, g);
    }
}

/// What an evaluation counts, sample by sample: `correct` the samples whose
/// prediction equals the label (both unknown included), `wrong` those where a
/// category was predicted that differs from the label, `unknown_predicted`
/// those predicted unknown; an unknown prediction is never wrong, so the
/// wrong and unknown counts never exceed the samples evaluated.
pub proof fn lemma_evaluation_counts(predictions: Seq<Option<Seq<char>>>, expected: Seq<Option<Seq<char>>>, total: usize)
    requires
        predictions.len() == expected.len(),
        predictions.len() <= total,
    ensures
        ({
            let r = spec_evaluate(predictions, expected, total);
            let n = predictions.len();
            &&& r.total == total
            &&& r.correct == count_where(n, |k: int| predictions[k] == expected[k])
            &&& r.wrong == count_where(n, |k: int| predictions[k] is Some && predictions[k] != expected[k])
            &&& r.unknown_predicted == count_where(n, |k: int| predictions[k] is None)
            &&& r.wrong + r.unknown_predicted <= n
            &&& r.correct + r.wrong <= n
        }),
    decreases predictions.len(),
{
    let n = predictions.len();
    let fc = |k: int| predictions[k] == expected[k];
    let fw = |k: int| predictions[k] is Some && predictions[k] != expected[k];
    let fu = |k: int| predictions[k] is None;
    if n > 0 {
        let p0 = predictions.drop_last();
        let e0 = expected.drop_last();
        lemma_evaluation_counts(p0, e0, total);
        let m = (n - 1) as nat;
        lemma_count_where_ext(m, |k: int| p0[k] == e0[k], fc);
        lemma_count_where_ext(m, |k: int| p0[k] is Some && p0[k] != e0[k], fw);
        lemma_count_where_ext(m, |k: int| p0[k] is None, fu);
    }
    lemma_count_where_disjoint(n, fw, fu);
    lemma_count_where_disjoint(n, fc, fw);
}

fn opt_eq(a: &Option<String>, b: &Option<String>) -> (r: bool)
    ensures
        r == (crate::activity::opt_text(*a) == crate::activity::opt_text(*b)),
{
    match (a, b) {
        (Some(x), Some(y)) => str_eq(x.as_str(), y.as_str()),
        (None, None) => true,
        _ => false,
    }
}

/// Tally a classifier's predictions (one per sample, in order) against the
/// samples' labels.
pub fn evaluate_predictions(samples: &Vec<LabeledSample>, predictions: &Vec<Option<String>>) -> (r: ClassifierEvalReport)
    requires
        samples@.len() == predictions@.len(),
    ensures
        r == spec_evaluate(
            predictions@.map_values(|p: Option<String>| crate::activity::opt_text(p)),
            samples@.map_values(|s: LabeledSample| crate::activity::opt_text(s.expected)),
            samples@.len() as usize,
        ),
{
    let ghost p = predictions@.map_values(|x: Option<String>| crate::activity::opt_text(x));
    let ghost e = samples@.map_values(|s: LabeledSample| crate::activity::opt_text(s.expected));
    let n = samples.len();
    let mut r = ClassifierEvalReport { total: n, correct: 0, wrong: 0, unknown_predicted: 0 };
    let mut i: usize = 0;
    proof {
        assert(p.take(0).len() == 0);
    }
    while i < n
        invariant
            n == samples@.len(),
            n == predictions@.len(),
            i <= n,
            p == predictions@.map_values(|x: Option<String>| crate::activity::opt_text(x)),
            e == samples@.map_values(|s: LabeledSample| crate::activity::opt_text(s.expected)),
            r == spec_evaluate(p.take(i as int), e.take(i as int), n),
            r.correct <= i && r.wrong <= i && r.unknown_predicted <= i,
        decreases n - i,
    {
        proof {
            assert(p.take(i + 1).drop_last() =~= p.take(i as int));
            assert(e.take(i + 1).drop_last() =~= e.take(i as int));
            assert(p.take(i + 1).last() == p[i as int]);
            assert(e.take(i + 1).last() == e[i as int]);
        }
        let predicted = &predictions[i];
        let expected = &samples[i].expected;
        let unknown = predicted.is_none();
        let equal = opt_eq(predicted, expected);
        if unknown {
            r.unknown_predicted = r.unknown_predicted + 1;
        }
        if equal {
            r.correct = r.correct + 1;
        } else if !unknown {
            r.wrong = r.wrong + 1;
        }
        i = i + 1;
    }
    proof {
        assert(p.take(n as int) =~= p);
        assert(e.take(n as int) =~= e);
    }
    r
}

// ---------------------------------------------------------------------------
// Vector indexes.
// ---------------------------------------------------------------------------

/// The exhaustive nearest-neighbour scan: the default index and the
/// correctness contract any approximate index must match.
#[derive(Debug, Default, Clone, Copy)]
pub struct BruteForceVectorIndex;

/// The approximate (HNSW) nearest-neighbour index, seeded so its construction
/// is deterministic.
#[derive(Debug, Clone, Copy)]
pub struct AnnVectorIndex {
    pub seed: u64,
}

impl AnnVectorIndex {
    /// The index with its fixed default seed.
    pub fn new() -> (r: AnnVectorIndex)
        ensures
            r.seed == 0x5EED,
    {
        AnnVectorIndex { seed: 0x5EED }
    }
}


// ---------------------------------------------------------------------------
// Rule matching.
// ---------------------------------------------------------------------------

/// A classification rule's pattern matches lowercased text: the pattern,
/// trimmed and lowercased, is not empty and occurs in the text.
pub open spec fn spec_pattern_matches(pattern: Seq<char>, lowercased_text: Seq<char>) -> bool {
    let needle = spec_lowercase(spec_trim(pattern));
    needle.len() > 0 && contains_seq(lowercased_text, needle)
}

/// A rule matches lowercased text when any of its patterns does.
pub fn rule_matches(patterns: &Vec<String>, lowercased_text: &str) -> (r: bool)
    ensures
        r == exists|k: int| 0 <= k < patterns@.len() && spec_pattern_matches((#[trigger] patterns@[k])@, lowercased_text@),
{
    let mut i: usize = 0;
    while i < patterns.len()
        invariant
            i <= patterns@.len(),
            forall|k: int| 0 <= k < i ==> !spec_pattern_matches((#[trigger] patterns@[k])@, lowercased_text@),
        decreases patterns.len() - i,
    {
        let trimmed = trim(patterns[i].as_str());
        let needle = lowercase(trimmed.as_str());
        if chars_of(needle.as_str()).len() > 0 && contains_str(lowercased_text, needle.as_str()) {
            return true;
        }
        i = i + 1;
    }
    false
}

/// The text to classify, trimmed and lowercased; an error for blank text.
pub fn classification_text(text: &str) -> (r: Result<String, InterpretationError>)
    ensures
        spec_trim(text@).len() == 0 ==> (r matches Err(InterpretationError::InvalidRequest(m)) && m@ == "text to classify is empty"@),
        spec_trim(text@).len() > 0 ==> (r matches Ok(t) && t@ == spec_lowercase(spec_trim(text@))),
{
    let trimmed = trim(text);
    if chars_of(trimmed.as_str()).len() == 0 {
        return Err(InterpretationError::InvalidRequest(owned("text to classify is empty")));
    }
    Ok(lowercase(trimmed.as_str()))
}


// ---------------------------------------------------------------------------
// Token overlap.
// ---------------------------------------------------------------------------

/// The sizes of the intersection and the union of two texts' token sets, the
/// two counts of their Jaccard overlap.
pub fn token_overlap(a: &str, b: &str) -> (r: (u128, u128))
    ensures
        r.0 == spec_token_set(a@).intersect(spec_token_set(b@)).len(),
        r.1 == spec_token_set(a@).union(spec_token_set(b@)).len(),
{
    let va = token_set(a);
    let vb = token_set(b);
    let ghost sa = va@.map_values(|s: String| s@);
    let ghost sb = vb@.map_values(|s: String| s@);
    let ghost set_b = spec_token_set(b@);
    let ghost mut inter: Seq<Seq<char>> = Seq::empty();
    let mut count: usize = 0;
    let mut i: usize = 0;
    proof {
        assert(sa.take(0).to_set() =~= Set::<Seq<char>>::empty());
        assert(inter.to_set() =~= Set::<Seq<char>>::empty());
    }
    while i < va.len()
        invariant
            i <= va@.len(),
            sa == va@.map_values(|s: String| s@),
            sb == vb@.map_values(|s: String| s@),
            sa.no_duplicates(),
            sb.to_set() == set_b,
            inter.no_duplicates(),
            inter.to_set() == sa.take(i as int).to_set().intersect(set_b),
            count == inter.len(),
            count <= i,
        decreases va.len() - i,
    {
        let x = &va[i];
        let ghost xv = sa[i as int];
        proof {
            assert(x@ == xv);
            lemma_to_set_push(sa.take(i as int), xv);
            assert(sa.take(i + 1) =~= sa.take(i as int).push(xv));
            assert(!sa.take(i as int).contains(xv)) by {
                if sa.take(i as int).contains(xv) {
                    let k = choose|k: int| 0 <= k < sa.take(i as int).len() && sa.take(i as int)[k] == xv;
                    assert(sa[k] == sa[i as int]);
                }
            }
        }
        if crate::queue::contains_text(&vb, x.as_str()) {
            proof {
                assert(sb.contains(xv));
                assert(set_b.contains(xv));
                assert(!inter.contains(xv)) by {
                    if inter.contains(xv) {
                        let k = choose|k: int| 0 <= k < inter.len() && inter[k] == xv;
                        assert(inter.to_set().contains(xv));
                    }
                }
                lemma_to_set_push(inter, xv);
                let next = inter.push(xv);
                assert(next.no_duplicates()) by {
                    assert forall|p: int, q: int| 0 <= p < next.len() && 0 <= q < next.len() && p != q
                        implies next[p] != next[q] by {
                        if q == inter.len() {
                            assert(next[p] == inter[p]);
                        } else if p == inter.len() {
                            assert(next[q] == inter[q]);
                        }
                    }
                }
                assert(next.to_set() =~= sa.take(i + 1).to_set().intersect(set_b));
                inter = next;
            }
            count = count + 1;
        } else {
            proof {
                assert(!set_b.contains(xv));
                assert(inter.to_set() =~= sa.take(i + 1).to_set().intersect(set_b));
            }
        }
        i = i + 1;
    }
    proof {
        assert(sa.take(i as int) =~= sa);
        inter.unique_seq_to_set();
        sa.unique_seq_to_set();
        vb@.map_values(|s: String| s@).unique_seq_to_set();
        vstd::set_lib::lemma_set_intersect_union_lens(sa.to_set(), set_b);
        assert(sa.to_set() + set_b == sa.to_set().union(set_b));
    }
    assert(count <= vb.len()) by {
        assert(inter.to_set().subset_of(set_b));
        vstd::set_lib::lemma_len_subset(inter.to_set(), set_b);
    }
    let union = va.len() as u128 + (vb.len() - count) as u128;
    (count as u128, union)
}

} // verus!
