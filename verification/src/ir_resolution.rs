//! Locating a report on a company's investor-relations page when a filing
//! carries no usable attachment: every link of the page is resolved against the
//! page's URL, de-duplicated, stripped of self-links back to the page, and ranked
//! (PDFs first, then report-looking links, then the rest) for the user to
//! choose from. Nothing is picked automatically.

use vstd::prelude::*;
use crate::text::{occurs_at,
    before_query, chars_of, concat2, concat3, contains_seq, contains_str, ends_with, is_prefix,
    is_suffix, lowercase, owned, push_char, spec_is_whitespace, spec_lowercase, spec_trim,
    starts_with, strip_query, string_from_chars, trim,
};

verus! {

/// How many candidates a resolution returns at most.
pub const MAX_CANDIDATES: usize = 40;

/// The error of a company with no IR reports page.
pub const NO_IR_URL: &'static str = "This company has no investor-relations reports page URL set.";

/// What resolving a company's IR report is asked for.
#[derive(Debug, Clone)]
pub struct ResolveIrReportInput {
    pub company_id: String,
    pub period_hint: Option<String>,
    pub report_type: Option<String>,
    pub published_at: Option<String>,
}

/// One candidate link: its absolute URL and its whitespace-normalized text.
#[derive(Debug, Clone, PartialEq, Eq)]
pub struct IrReportCandidate {
    pub url: String,
    pub label: String,
}

/// The candidate links of an IR page, ranked, for the user to choose from.
#[derive(Debug, Clone)]
pub struct IrReportResolution {
    pub candidates: Vec<IrReportCandidate>,
}

/// [`IrReportCandidate`] as characters.
pub struct CandidateView {
    pub url: Seq<char>,
    pub label: Seq<char>,
}

impl View for IrReportCandidate {
    type V = CandidateView;

    open spec fn view(&self) -> CandidateView {
        CandidateView { url: self.url@, label: self.label@ }
    }
}

/// The candidates as plain values.
pub open spec fn candidate_views(v: Seq<IrReportCandidate>) -> Seq<CandidateView> {
    v.map_values(|c: IrReportCandidate| c@)
}

// ---------------------------------------------------------------------------
// What the HTML and URL libraries compute.
// ---------------------------------------------------------------------------

/// The `<a href>` elements `scraper` finds in `html`, in document order: each
/// one's `href` attribute and its concatenated text.
pub uninterp spec fn spec_html_anchors(html: Seq<char>) -> Seq<(Option<Seq<char>>, Seq<char>)>;

/// `url::Url::parse(base)` then `Url::join(href)`, written back as text; `None`
/// when either fails.
pub uninterp spec fn spec_url_join(base: Seq<char>, href: Seq<char>) -> Option<Seq<char>>;

/// `url::Url::parse(text)`'s scheme, host (empty when none) and path; `None`
/// when the text does not parse.
pub uninterp spec fn spec_url_parts(text: Seq<char>) -> Option<(Seq<char>, Seq<char>, Seq<char>)>;

/// `String::from_utf8_lossy` of `bytes`.
pub uninterp spec fn spec_utf8_lossy(bytes: Seq<u8>) -> Seq<char>;

/// `scraper::Html::parse_document` and the `a[href]` selector: the anchors of
/// `html` with their `href` and text. Nothing is claimed of them beyond that
/// they are this function of the document.
#[verifier::external_body]
fn html_anchors(html: &str) -> (r: Vec<(Option<String>, String)>)
    ensures
        r@.map_values(|a: (Option<String>, String)| (crate::activity::opt_text(a.0), a.1@)) == spec_html_anchors(html@),
{
    let document = scraper::Html::parse_document(html);
    let selector = match scraper::Selector::parse("a[href]") {
        Ok(selector) => selector,
        Err(_) => return Vec::new(),
    };
    document
        .select(&selector)
        .map(|element| (element.value().attr("href").map(str::to_owned), element.text().collect::<String>()))
        .collect()
}

/// `url::Url::parse(base)?.join(href)`, as text.
#[verifier::external_body]
fn url_join(base: &str, href: &str) -> (r: Option<String>)
    ensures
        crate::activity::opt_text(r) == spec_url_join(base@, href@),
{
    let base = url::Url::parse(base).ok()?;
    base.join(href).ok().map(|url| url.to_string())
}

/// `url::Url::parse(text)`: its scheme, host (empty when none) and path.
#[verifier::external_body]
fn url_parts(text: &str) -> (r: Option<(String, String, String)>)
    ensures
        match (r, spec_url_parts(text@)) {
            (Some((s, h, p)), Some((es, eh, ep))) => s@ == es && h@ == eh && p@ == ep,
            (None, None) => true,
            _ => false,
        },
{
    let url = url::Url::parse(text).ok()?;
    Some((url.scheme().to_owned(), url.host_str().unwrap_or("").to_owned(), url.path().to_owned()))
}

/// `String::from_utf8_lossy`: the bytes as text, invalid sequences replaced.
#[verifier::external_body]
fn utf8_lossy(bytes: &[u8]) -> (r: String)
    ensures
        r@ == spec_utf8_lossy(bytes@),
{
    String::from_utf8_lossy(bytes).into_owned()
}

// ---------------------------------------------------------------------------
// Normalizing.
// ---------------------------------------------------------------------------

/// `s` without its trailing `/` characters.
pub open spec fn trim_slashes(s: Seq<char>) -> Seq<char>
    decreases s.len(),
{
    if s.len() > 0 && s.last() == '/' { trim_slashes(s.drop_last()) } else { s }
}

/// The key a URL is compared on to recognise a link back to the page itself:
/// scheme, host and path without trailing slashes, ignoring query and fragment.
pub open spec fn spec_self_key(url: Seq<char>) -> Option<Seq<char>> {
    match spec_url_parts(url) {
        Some((scheme, host, path)) => Some(scheme + "://"@ + host + trim_slashes(path)),
        None => None,
    }
}

fn self_key(url: &str) -> (r: Option<String>)
    ensures
        crate::activity::opt_text(r) == spec_self_key(url@),
{
    match url_parts(url) {
        None => None,
        Some((scheme, host, path)) => {
            let p = chars_of(path.as_str());
            let mut n = p.len();
            proof {
                assert(p@.take(n as int) =~= p@);
            }
            while n > 0 && p[n - 1] == '/'
                invariant
                    n <= p@.len(),
                    p@ == path@,
                    trim_slashes(path@) == trim_slashes(p@.take(n as int)),
                decreases n,
            {
                proof {
                    assert(p@.take(n as int).drop_last() =~= p@.take(n - 1));
                }
                n = n - 1;
            }
            proof {
                assert(p@.take(p@.len() as int) =~= p@);
            }
            let trimmed = string_from_chars(&crate::text::sub_chars(&p, 0, n));
            proof {
                assert(p@.subrange(0, n as int) =~= p@.take(n as int));
            }
            let mut key = concat3(scheme.as_str(), "://", host.as_str());
            key.append(trimmed.as_str());
            Some(key)
        },
    }
}

/// The whitespace-separated words of `s` and the word still being read.
pub open spec fn split_words(s: Seq<char>) -> (Seq<Seq<char>>, Seq<char>)
    decreases s.len(),
{
    if s.len() == 0 {
        (Seq::empty(), Seq::empty())
    } else {
        let (done, cur) = split_words(s.drop_last());
        let c = s.last();
        if !spec_is_whitespace(c) {
            (done, cur.push(c))
        } else if cur.len() > 0 {
            (done.push(cur), Seq::empty())
        } else {
            (done, Seq::empty())
        }
    }
}

/// `s` with its words joined by single spaces.
pub open spec fn spec_label(s: Seq<char>) -> Seq<char> {
    let (done, cur) = split_words(s);
    let words = if cur.len() > 0 { done.push(cur) } else { done };
    crate::stages::join(words, " "@)
}

fn label_of(text: &str) -> (r: String)
    ensures
        r@ == spec_label(text@),
{
    let v = chars_of(text);
    let mut words: Vec<String> = Vec::new();
    let mut cur = String::new();
    let mut i: usize = 0;
    proof {
        assert(v@.take(0) =~= Seq::<char>::empty());
        assert(words@.map_values(|w: String| w@) =~= Seq::<Seq<char>>::empty());
    }
    while i < v.len()
        invariant
            i <= v@.len(),
            v@ == text@,
            (words@.map_values(|w: String| w@), cur@) == split_words(v@.take(i as int)),
        decreases v.len() - i,
    {
        proof {
            assert(v@.take(i + 1).drop_last() =~= v@.take(i as int));
            assert(v@.take(i + 1).last() == v@[i as int]);
        }
        let c = v[i];
        if !crate::text::is_whitespace(c) {
            push_char(&mut cur, c);
        } else if chars_of(cur.as_str()).len() > 0 {
            let ghost before = words@;
            let word = cur;
            cur = String::new();
            words.push(word);
            proof {
                assert(words@.map_values(|w: String| w@) =~= before.map_values(|w: String| w@).push(word@));
                assert(cur@ =~= Seq::<char>::empty());
            }
        } else {
            proof {
                assert(cur@ =~= Seq::<char>::empty());
            }
        }
        i = i + 1;
    }
    proof {
        assert(v@.take(i as int) =~= v@);
    }
    if chars_of(cur.as_str()).len() > 0 {
        let ghost before = words@;
        let word = cur;
        words.push(word);
        proof {
            assert(words@.map_values(|w: String| w@) =~= before.map_values(|w: String| w@).push(word@));
        }
    }
    crate::stages::join_words(&words, " ")
}

// ---------------------------------------------------------------------------
// Ranking.
// ---------------------------------------------------------------------------

/// The URL's path (before any query or fragment) ends in `.pdf`, case-insensitively.
pub open spec fn spec_is_pdf_url(url: Seq<char>) -> bool {
    is_suffix(".pdf"@, spec_lowercase(before_query(url)))
}

/// True when the URL's path ends in `.pdf`.
pub fn is_pdf_url(url: &str) -> (r: bool)
    ensures
        r == spec_is_pdf_url(url@),
{
    let bare = strip_query(url);
    let low = lowercase(bare.as_str());
    ends_with(low.as_str(), ".pdf")
}

/// The words that make a link look like a report.
pub open spec fn report_keywords() -> Seq<Seq<char>> {
    seq![
        "raport"@, "report"@, "wyniki"@, "result"@, "quarter"@, "annual"@,
        "kwart"@, "rocz"@, "sprawozda"@, "okresow"@, "financ"@, "finans"@,
    ]
}

/// The text searched for report keywords: the lowercased URL and label,
/// joined by a space. (Lowercasing maps each character on its own, apart
/// from the word-final sigma, whose context never reaches across a space, so
/// this is the lowercased `"{url} {label}"`.)
pub open spec fn spec_report_haystack(c: CandidateView) -> Seq<char> {
    spec_lowercase(c.url) + " "@ + spec_lowercase(c.label)
}

/// A candidate looks like a report: a PDF, or its URL and label (lowercased)
/// contain a report keyword.
pub open spec fn spec_looks_like_report(c: CandidateView) -> bool {
    spec_is_pdf_url(c.url) || exists|k: int| 0 <= k < 12
        && contains_seq(spec_report_haystack(c), #[trigger] report_keywords()[k])
}

proof fn lemma_contains_in_part(a: Seq<char>, b: Seq<char>, needle: Seq<char>)
    ensures
        contains_seq(a, needle) ==> contains_seq(a + " "@ + b, needle),
        contains_seq(b, needle) ==> contains_seq(a + " "@ + b, needle),
{
    reveal_strlit(" ");
    let h = a + " "@ + b;
    if contains_seq(a, needle) {
        let i = choose|i: int| occurs_at(needle, a, i);
        assert(h.subrange(i, i + needle.len()) =~= a.subrange(i, i + needle.len()));
        assert(occurs_at(needle, h, i));
    }
    if contains_seq(b, needle) {
        let i = choose|i: int| occurs_at(needle, b, i);
        let j = i + a.len() + 1;
        assert(h.subrange(j, j + needle.len()) =~= b.subrange(i, i + needle.len()));
        assert(occurs_at(needle, h, j));
    }
}

proof fn lemma_contains_splits(a: Seq<char>, b: Seq<char>, needle: Seq<char>)
    requires
        forall|i: int| 0 <= i < needle.len() ==> needle[i] != ' ',
        contains_seq(a + " "@ + b, needle),
    ensures
        contains_seq(a, needle) || contains_seq(b, needle),
{
    reveal_strlit(" ");
    let h = a + " "@ + b;
    let i = choose|i: int| occurs_at(needle, h, i);
    if i + needle.len() <= a.len() {
        assert(a.subrange(i, i + needle.len()) =~= h.subrange(i, i + needle.len()));
        assert(occurs_at(needle, a, i));
    } else if i >= a.len() + 1 {
        let j = i - a.len() - 1;
        assert(b.subrange(j, j + needle.len()) =~= h.subrange(i, i + needle.len()));
        assert(occurs_at(needle, b, j));
    } else {
        let q = a.len() - i;
        assert(h.subrange(i, i + needle.len())[q] == h[a.len() as int]);
        assert(h[a.len() as int] == ' ');
        assert(needle[q] == ' ');
    }
}

proof fn lemma_keywords_have_no_space()
    ensures
        forall|k: int, i: int| 0 <= k < 12 && 0 <= i < report_keywords()[k].len()
            ==> #[trigger] report_keywords()[k][i] != ' ',
{
    reveal_strlit("raport");
    reveal_strlit("report");
    reveal_strlit("wyniki");
    reveal_strlit("result");
    reveal_strlit("quarter");
    reveal_strlit("annual");
    reveal_strlit("kwart");
    reveal_strlit("rocz");
    reveal_strlit("sprawozda");
    reveal_strlit("okresow");
    reveal_strlit("financ");
    reveal_strlit("finans");
}

/// What makes a link report-looking, in terms of the candidate itself: it is
/// a PDF, or a report keyword occurs in its lowercased URL or in its
/// lowercased label (a keyword in the label alone is enough); and the rank
/// follows: PDFs first, then report-looking links, then the rest.
pub proof fn lemma_report_keywords_in_url_or_label(c: CandidateView)
    ensures
        spec_looks_like_report(c) <==> (spec_is_pdf_url(c.url) || exists|k: int| 0 <= k < 12
            && (contains_seq(spec_lowercase(c.url), #[trigger] report_keywords()[k])
                || contains_seq(spec_lowercase(c.label), report_keywords()[k]))),
        forall|k: int| 0 <= k < 12 && contains_seq(spec_lowercase(c.label), #[trigger] report_keywords()[k])
            ==> spec_looks_like_report(c) && spec_rank(c) <= 1,
        forall|k: int| 0 <= k < 12 && contains_seq(spec_lowercase(c.url), #[trigger] report_keywords()[k])
            ==> spec_looks_like_report(c) && spec_rank(c) <= 1,
        spec_rank(c) == (if spec_is_pdf_url(c.url) { 0u8 } else if spec_looks_like_report(c) { 1u8 } else { 2u8 }),
{
    let a = spec_lowercase(c.url);
    let b = spec_lowercase(c.label);
    lemma_keywords_have_no_space();
    assert forall|k: int| 0 <= k < 12 implies
        (contains_seq(spec_report_haystack(c), #[trigger] report_keywords()[k])
            <==> (contains_seq(a, report_keywords()[k]) || contains_seq(b, report_keywords()[k]))) by {
        lemma_contains_in_part(a, b, report_keywords()[k]);
        if contains_seq(spec_report_haystack(c), report_keywords()[k]) {
            lemma_contains_splits(a, b, report_keywords()[k]);
        }
    }
}

/// Whether a candidate looks like a report.
pub fn looks_like_report(candidate: &IrReportCandidate) -> (r: bool)
    ensures
        r == spec_looks_like_report(candidate@),
{
    if is_pdf_url(candidate.url.as_str()) {
        return true;
    }
    let url_low = lowercase(candidate.url.as_str());
    let label_low = lowercase(candidate.label.as_str());
    let low = concat3(url_low.as_str(), " ", label_low.as_str());
    let h = low.as_str();
    let keywords = vec!["raport", "report", "wyniki", "result", "quarter", "annual", "kwart", "rocz",
        "sprawozda", "okresow", "financ", "finans"];
    proof {
        assert(keywords@.map_values(|k: &str| k@) =~= report_keywords());
    }
    let mut i: usize = 0;
    while i < keywords.len()
        invariant
            i <= keywords@.len(),
            keywords@.len() == 12,
            keywords@.map_values(|k: &str| k@) == report_keywords(),
            h@ == spec_report_haystack(candidate@),
            forall|k: int| 0 <= k < i ==> !contains_seq(h@, report_keywords()[k]),
        decreases keywords.len() - i,
    {
        if contains_str(h, keywords[i]) {
            proof {
                assert(report_keywords()[i as int] == keywords@[i as int]@);
                assert(contains_seq(h@, report_keywords()[i as int]));
            }
            return true;
        }
        proof {
            assert(report_keywords()[i as int] == keywords@[i as int]@);
        }
        i = i + 1;
    }
    false
}

/// The ranking key (lower first): PDFs, then report-looking links, then the rest.
pub open spec fn spec_rank(c: CandidateView) -> u8 {
    if spec_is_pdf_url(c.url) { 0 } else if spec_looks_like_report(c) { 1 } else { 2 }
}

/// The ranking key of a candidate.
pub fn candidate_rank(candidate: &IrReportCandidate) -> (r: u8)
    ensures
        r == spec_rank(candidate@),
{
    if is_pdf_url(candidate.url.as_str()) {
        0
    } else if looks_like_report(candidate) {
        1
    } else {
        2
    }
}

/// The candidates of rank `rank`, in their order.
pub open spec fn bucket(s: Seq<CandidateView>, rank: u8) -> Seq<CandidateView>
    decreases s.len(),
{
    if s.len() == 0 {
        Seq::empty()
    } else {
        let b = bucket(s.drop_last(), rank);
        if spec_rank(s.last()) == rank { b.push(s.last()) } else { b }
    }
}

/// The candidates stably sorted by rank.
pub open spec fn spec_ranked(s: Seq<CandidateView>) -> Seq<CandidateView> {
    bucket(s, 0) + bucket(s, 1) + bucket(s, 2)
}

fn copy_candidate(c: &IrReportCandidate) -> (r: IrReportCandidate)
    ensures
        r@ == c@,
{
    IrReportCandidate { url: c.url.clone(), label: c.label.clone() }
}

fn push_bucket(out: &mut Vec<IrReportCandidate>, cands: &Vec<IrReportCandidate>, rank: u8)
    ensures
        candidate_views(final(out)@) == candidate_views(old(out)@) + bucket(candidate_views(cands@), rank),
{
    let ghost cv = candidate_views(cands@);
    let ghost start = candidate_views(out@);
    let mut i: usize = 0;
    proof {
        assert(cv.take(0) =~= Seq::<CandidateView>::empty());
        assert(start + bucket(cv.take(0), rank) =~= start);
    }
    while i < cands.len()
        invariant
            i <= cands@.len(),
            cv == candidate_views(cands@),
            start == candidate_views(old(out)@),
            candidate_views(out@) == start + bucket(cv.take(i as int), rank),
        decreases cands.len() - i,
    {
        proof {
            assert(cv.take(i + 1).drop_last() =~= cv.take(i as int));
            assert(cv.take(i + 1).last() == cands@[i as int]@);
        }
        if candidate_rank(&cands[i]) == rank {
            let ghost before = out@;
            out.push(copy_candidate(&cands[i]));
            proof {
                assert(candidate_views(out@) =~= candidate_views(before).push(cands@[i as int]@));
                assert(candidate_views(out@) =~= start + bucket(cv.take(i + 1), rank));
            }
        }
        i = i + 1;
    }
    proof {
        assert(cv.take(i as int) =~= cv);
    }
}

// ---------------------------------------------------------------------------
// Extracting the candidates.
// ---------------------------------------------------------------------------

/// One anchor's effect on the URLs seen so far and the candidates: an anchor
/// without an `href`, with an empty one, a fragment, `javascript:` or `mailto:`
/// link, one that does not resolve against the page's URL, one that is not
/// `http(s)` or whose URL was already seen is skipped; a link back to the page
/// itself is seen but not a candidate; any other becomes a candidate labelled
/// with its normalized text.
pub open spec fn anchor_step(
    base: Seq<char>,
    seen: Seq<Seq<char>>,
    cands: Seq<CandidateView>,
    href: Option<Seq<char>>,
    text: Seq<char>,
) -> (Seq<Seq<char>>, Seq<CandidateView>) {
    match href {
        None => (seen, cands),
        Some(h0) => {
            let h = spec_trim(h0);
            if h.len() == 0 || is_prefix("#"@, h) || is_prefix("javascript:"@, h) || is_prefix("mailto:"@, h) {
                (seen, cands)
            } else {
                let absolute = if spec_url_parts(base) is Some { spec_url_join(base, h) } else { Some(h) };
                match absolute {
                    None => (seen, cands),
                    Some(a) => if !is_prefix("http"@, a) || seen.contains(a) {
                        (seen, cands)
                    } else if spec_self_key(base) is Some && spec_self_key(a) == spec_self_key(base) {
                        (seen.push(a), cands)
                    } else {
                        (seen.push(a), cands.push(CandidateView { url: a, label: spec_label(text) }))
                    },
                }
            }
        },
    }
}

/// The seen URLs and candidates after the first `n` anchors.
pub open spec fn scan_anchors(base: Seq<char>, anchors: Seq<(Option<Seq<char>>, Seq<char>)>, n: nat) -> (Seq<Seq<char>>, Seq<CandidateView>)
    decreases n,
{
    if n == 0 || n > anchors.len() {
        (Seq::empty(), Seq::empty())
    } else {
        let p = scan_anchors(base, anchors, (n - 1) as nat);
        anchor_step(base, p.0, p.1, anchors[n - 1].0, anchors[n - 1].1)
    }
}

/// The ranked candidate links of the page `html` served at `base_url`, at most `limit`.
pub open spec fn spec_candidates(html: Seq<char>, base_url: Seq<char>, limit: usize) -> Seq<CandidateView> {
    let anchors = spec_html_anchors(html);
    let ranked = spec_ranked(scan_anchors(base_url, anchors, anchors.len()).1);
    if ranked.len() > limit { ranked.take(limit as int) } else { ranked }
}

/// Extract, resolve, de-duplicate and rank the links of an IR page.
pub fn extract_candidate_links(html: &str, base_url: &str, limit: usize) -> (r: Vec<IrReportCandidate>)
    ensures
        candidate_views(r@) == spec_candidates(html@, base_url@, limit),
{
    let anchors = html_anchors(html);
    let ghost av = spec_html_anchors(html@);
    let base_ok = url_parts(base_url).is_some();
    let base_key = self_key(base_url);
    let mut seen: Vec<String> = Vec::new();
    let mut cands: Vec<IrReportCandidate> = Vec::new();
    let mut i: usize = 0;
    proof {
        assert(seen@.map_values(|s: String| s@) =~= Seq::<Seq<char>>::empty());
        assert(candidate_views(cands@) =~= Seq::<CandidateView>::empty());
    }
    while i < anchors.len()
        invariant
            i <= anchors@.len(),
            av == spec_html_anchors(html@),
            anchors@.map_values(|a: (Option<String>, String)| (crate::activity::opt_text(a.0), a.1@)) == av,
            base_ok == (spec_url_parts(base_url@) is Some),
            crate::activity::opt_text(base_key) == spec_self_key(base_url@),
            (seen@.map_values(|s: String| s@), candidate_views(cands@)) == scan_anchors(base_url@, av, i as nat),
        decreases anchors.len() - i,
    {
        proof {
            assert(av[i as int] == (crate::activity::opt_text(anchors@[i as int].0), anchors@[i as int].1@));
        }
        let ghost seen_before = seen@.map_values(|s: String| s@);
        let ghost cands_before = candidate_views(cands@);
        let (href0, text) = &anchors[i];
        if let Some(h0) = href0 {
            let h = trim(h0.as_str());
            let hs = h.as_str();
            let skip = chars_of(hs).len() == 0 || starts_with(hs, "#") || starts_with(hs, "javascript:")
                || starts_with(hs, "mailto:");
            if !skip {
                let absolute = if base_ok { url_join(base_url, hs) } else { Some(owned(hs)) };
                if let Some(a) = absolute {
                    let as_ = a.as_str();
                    if starts_with(as_, "http") && !crate::queue::contains_text(&seen, as_) {
                        seen.push(owned(as_));
                        proof {
                            assert(seen@.map_values(|s: String| s@) =~= seen_before.push(a@));
                        }
                        let is_self = match &base_key {
                            Some(k) => match self_key(as_) {
                                Some(ak) => crate::text::str_eq(ak.as_str(), k.as_str()),
                                None => false,
                            },
                            None => false,
                        };
                        if !is_self {
                            let label = label_of(text.as_str());
                            cands.push(IrReportCandidate { url: a, label });
                            proof {
                                assert(candidate_views(cands@) =~= cands_before.push(CandidateView { url: a@, label: spec_label(text@) }));
                            }
                        }
                    }
                }
            }
        }
        i = i + 1;
    }
    let mut ranked: Vec<IrReportCandidate> = Vec::new();
    proof {
        assert(candidate_views(ranked@) =~= Seq::<CandidateView>::empty());
    }
    push_bucket(&mut ranked, &cands, 0);
    push_bucket(&mut ranked, &cands, 1);
    push_bucket(&mut ranked, &cands, 2);
    proof {
        assert(candidate_views(ranked@) =~= spec_ranked(candidate_views(cands@)));
    }
    let ghost full = ranked@;
    if ranked.len() > limit {
        ranked.truncate(limit);
        proof {
            assert(candidate_views(ranked@) =~= candidate_views(full).take(limit as int));
        }
    }
    ranked
}

/// What resolving decides before anything is fetched: a company with no IR
/// page URL fails with [`NO_IR_URL`] and nothing is fetched; else its IR page
/// URL is the page to fetch.
pub open spec fn spec_ir_page_to_fetch(ir_url: Option<Seq<char>>) -> Result<Seq<char>, Seq<char>> {
    match ir_url {
        None => Err(NO_IR_URL@),
        Some(u) => Ok(u),
    }
}

/// Decide what to fetch for a company's IR report (see
/// [`spec_ir_page_to_fetch`]).
pub fn ir_page_to_fetch(ir_url: Option<&str>) -> (r: Result<String, String>)
    ensures
        match r {
            Ok(u) => spec_ir_page_to_fetch(crate::runs::opt_chars(ir_url)) == Ok::<Seq<char>, Seq<char>>(u@),
            Err(e) => spec_ir_page_to_fetch(crate::runs::opt_chars(ir_url)) == Err::<Seq<char>, Seq<char>>(e@),
        },
{
    match ir_url {
        Some(u) => Ok(owned(u)),
        None => Err(owned(NO_IR_URL)),
    }
}

/// The outcome of resolving the IR page at `url` given the outcome of
/// fetching it (its bytes or the fetch error): the fetch error, or the page's
/// ranked candidate links.
pub open spec fn spec_resolve_fetched(url: Seq<char>, fetched: Result<Seq<u8>, Seq<char>>) -> Result<Seq<CandidateView>, Seq<char>> {
    match fetched {
        Err(e) => Err("failed to fetch the IR page: "@ + e),
        Ok(bytes) => Ok(spec_candidates(spec_utf8_lossy(bytes), url, MAX_CANDIDATES)),
    }
}

/// The outcome of resolving a company's IR report: an error when it has no IR
/// page URL, or when fetching the page failed; else the page's ranked
/// candidate links.
pub open spec fn spec_resolve(ir_url: Option<Seq<char>>, fetched: Result<Seq<u8>, Seq<char>>) -> Result<Seq<CandidateView>, Seq<char>> {
    match ir_url {
        None => Err(NO_IR_URL@),
        Some(u) => spec_resolve_fetched(u, fetched),
    }
}

/// A resolution as plain values.
pub open spec fn resolution_view(r: Result<IrReportResolution, String>) -> Result<Seq<CandidateView>, Seq<char>> {
    match r {
        Ok(res) => Ok(candidate_views(res.candidates@)),
        Err(e) => Err(e@),
    }
}

/// A fetch outcome as plain values.
pub open spec fn fetched_view(f: Result<Vec<u8>, String>) -> Result<Seq<u8>, Seq<char>> {
    match f {
        Ok(b) => Ok(b@),
        Err(e) => Err(e@),
    }
}

/// Resolve the report candidates of the IR page at `url` from the outcome of
/// fetching it (see [`spec_resolve_fetched`]).
pub fn resolve_fetched_ir_page(url: &str, fetched: Result<&[u8], String>) -> (r: Result<IrReportResolution, String>)
    ensures
        resolution_view(r) == spec_resolve_fetched(url@, match fetched { Ok(b) => Ok(b@), Err(e) => Err(e@) }),
{
    let bytes = match fetched {
        Ok(b) => b,
        Err(e) => return Err(concat2("failed to fetch the IR page: ", e.as_str())),
    };
    let html = utf8_lossy(bytes);
    let candidates = extract_candidate_links(html.as_str(), url, MAX_CANDIDATES);
    Ok(IrReportResolution { candidates })
}

/// Resolve the report candidates of a company's IR page, given its IR page
/// URL (if set) and `fetch`, which fetches a page: the URL is decided first
/// (see [`ir_page_to_fetch`]), so with no URL the result is the
/// [`NO_IR_URL`] error and `fetch` is never called; with one, `fetch` is
/// called on it once and the result is [`spec_resolve_fetched`] over what it
/// returned.
pub fn resolve_ir_report<F: FnOnce(String) -> Result<Vec<u8>, String>>(ir_url: Option<&str>, fetch: F)
    -> (r: Result<IrReportResolution, String>)
    requires
        ir_url matches Some(u) ==> forall|page: String| page@ == u@ ==> call_requires(fetch, (page,)),
    ensures
        ir_url is None ==> resolution_view(r) == Err::<Seq<CandidateView>, Seq<char>>(NO_IR_URL@),
        ir_url matches Some(u) ==> exists|page: String, fetched: Result<Vec<u8>, String>|
            page@ == u@ && call_ensures(fetch, (page,), fetched)
            && resolution_view(r) == spec_resolve_fetched(u@, fetched_view(fetched)),
{
    let url = match ir_page_to_fetch(ir_url) {
        Ok(u) => u,
        Err(e) => return Err(e),
    };
    let page = url.clone();
    let fetched = fetch(page);
    match fetched {
        Ok(bytes) => resolve_fetched_ir_page(url.as_str(), Ok(bytes.as_slice())),
        Err(e) => resolve_fetched_ir_page(url.as_str(), Err(e)),
    }
}

// ---------------------------------------------------------------------------
// What every candidate list is.
// ---------------------------------------------------------------------------

/// No two candidates share a URL.
pub open spec fn distinct_urls(s: Seq<CandidateView>) -> bool {
    forall|i: int, j: int| 0 <= i < j < s.len() ==> (#[trigger] s[i]).url != (#[trigger] s[j]).url
}

/// Candidates of the page at `base`: distinct `http(s)` links, none of them a
/// link back to the page itself.
pub open spec fn sound_candidates(base: Seq<char>, s: Seq<CandidateView>) -> bool {
    &&& distinct_urls(s)
    &&& forall|i: int| 0 <= i < s.len() ==> is_prefix("http"@, (#[trigger] s[i]).url)
    &&& forall|i: int| 0 <= i < s.len() ==>
        !(spec_self_key(base) is Some && spec_self_key((#[trigger] s[i]).url) == spec_self_key(base))
}

proof fn lemma_scan_sound(base: Seq<char>, anchors: Seq<(Option<Seq<char>>, Seq<char>)>, n: nat)
    ensures
        ({
            let (seen, cands) = scan_anchors(base, anchors, n);
            &&& sound_candidates(base, cands)
            &&& forall|i: int| 0 <= i < cands.len() ==> seen.contains(#[trigger] cands[i].url)
        }),
    decreases n,
{
    if n == 0 || n > anchors.len() {
    } else {
        lemma_scan_sound(base, anchors, (n - 1) as nat);
        let p = scan_anchors(base, anchors, (n - 1) as nat);
        let (seen, cands) = scan_anchors(base, anchors, n);
        assert((seen, cands) == anchor_step(base, p.0, p.1, anchors[n - 1].0, anchors[n - 1].1));
        if cands.len() == p.1.len() + 1 {
            let a = cands.last();
            assert forall|i: int| 0 <= i < cands.len() implies seen.contains(#[trigger] cands[i].url) by {
                if i < p.1.len() {
                    assert(cands[i] == p.1[i]);
                    assert(p.0.contains(p.1[i].url));
                    let k = choose|k: int| 0 <= k < p.0.len() && p.0[k] == p.1[i].url;
                    assert(seen[k] == p.0[k]);
                } else {
                    assert(seen[seen.len() - 1] == a.url);
                }
            }
            assert forall|i: int, j: int| 0 <= i < j < cands.len() implies (#[trigger] cands[i]).url != (#[trigger] cands[j]).url by {
                if j == cands.len() - 1 {
                    assert(cands[i] == p.1[i]);
                    assert(p.0.contains(p.1[i].url));
                    assert(!p.0.contains(a.url));
                } else {
                    assert(cands[i] == p.1[i] && cands[j] == p.1[j]);
                }
            }
            assert forall|i: int| 0 <= i < cands.len() implies is_prefix("http"@, (#[trigger] cands[i]).url) by {
                if i < p.1.len() {
                    assert(cands[i] == p.1[i]);
                }
            }
            assert forall|i: int| 0 <= i < cands.len() implies
                !(spec_self_key(base) is Some && spec_self_key((#[trigger] cands[i]).url) == spec_self_key(base)) by {
                if i < p.1.len() {
                    assert(cands[i] == p.1[i]);
                }
            }
        } else {
            assert(cands == p.1);
            assert forall|i: int| 0 <= i < cands.len() implies seen.contains(#[trigger] cands[i].url) by {
                assert(p.0.contains(cands[i].url));
                if seen != p.0 {
                    let k = choose|k: int| 0 <= k < p.0.len() && p.0[k] == cands[i].url;
                    assert(seen[k] == p.0[k]);
                }
            }
        }
    }
}

proof fn lemma_bucket_sound(base: Seq<char>, s: Seq<CandidateView>, rank: u8)
    requires
        sound_candidates(base, s),
    ensures
        sound_candidates(base, bucket(s, rank)),
        forall|i: int| 0 <= i < bucket(s, rank).len() ==> s.contains(#[trigger] bucket(s, rank)[i])
            && spec_rank(bucket(s, rank)[i]) == rank,
        bucket(s, rank).len() <= s.len(),
    decreases s.len(),
{
    if s.len() > 0 {
        let init = s.drop_last();
        assert(sound_candidates(base, init)) by {
            assert forall|i: int, j: int| 0 <= i < j < init.len() implies (#[trigger] init[i]).url != (#[trigger] init[j]).url by {
                assert(init[i] == s[i] && init[j] == s[j]);
            }
            assert forall|i: int| 0 <= i < init.len() implies is_prefix("http"@, (#[trigger] init[i]).url) by {
                assert(init[i] == s[i]);
            }
            assert forall|i: int| 0 <= i < init.len() implies
                !(spec_self_key(base) is Some && spec_self_key((#[trigger] init[i]).url) == spec_self_key(base)) by {
                assert(init[i] == s[i]);
            }
        }
        lemma_bucket_sound(base, init, rank);
        let b0 = bucket(init, rank);
        let b = bucket(s, rank);
        let last = s.last();
        assert forall|i: int| 0 <= i < b0.len() implies s.contains(#[trigger] b0[i]) by {
            let k = choose|k: int| 0 <= k < init.len() && init[k] == b0[i];
            assert(s[k] == init[k]);
        }
        if spec_rank(last) == rank {
            assert(b == b0.push(last));
            assert(s[s.len() - 1] == last);
            assert forall|i: int, j: int| 0 <= i < j < b.len() implies (#[trigger] b[i]).url != (#[trigger] b[j]).url by {
                if j == b.len() - 1 {
                    assert(b[i] == b0[i]);
                    let k = choose|k: int| 0 <= k < init.len() && init[k] == b0[i];
                    assert(s[k] == init[k]);
                    assert(s[k].url != s[s.len() - 1].url);
                } else {
                    assert(b[i] == b0[i] && b[j] == b0[j]);
                }
            }
            assert forall|i: int| 0 <= i < b.len() implies s.contains(#[trigger] b[i]) && spec_rank(b[i]) == rank by {
                if i < b0.len() {
                    assert(b[i] == b0[i]);
                }
            }
            assert forall|i: int| 0 <= i < b.len() implies is_prefix("http"@, (#[trigger] b[i]).url) by {
                if i < b0.len() {
                    assert(b[i] == b0[i]);
                }
            }
            assert forall|i: int| 0 <= i < b.len() implies
                !(spec_self_key(base) is Some && spec_self_key((#[trigger] b[i]).url) == spec_self_key(base)) by {
                if i < b0.len() {
                    assert(b[i] == b0[i]);
                }
            }
        } else {
            assert(b == b0);
        }
    }
}

/// Two candidates of a list with distinct URLs that share a URL are the same.
proof fn lemma_same_url_same_candidate(s: Seq<CandidateView>, x: CandidateView, y: CandidateView)
    requires
        distinct_urls(s),
        s.contains(x),
        s.contains(y),
        x.url == y.url,
    ensures
        x == y,
{
    let i = choose|i: int| 0 <= i < s.len() && s[i] == x;
    let j = choose|j: int| 0 <= j < s.len() && s[j] == y;
    if i < j {
        assert(s[i].url != s[j].url);
    } else if j < i {
        assert(s[j].url != s[i].url);
    }
}

/// The candidate links of an IR page are sound and ranked: at most `limit`
/// of them, each an `http(s)` link that appears once and is never the page
/// itself, PDFs first, then report-looking links, then the rest.
pub proof fn lemma_candidates_are_ranked_unique_links(html: Seq<char>, base_url: Seq<char>, limit: usize)
    ensures
        ({
            let c = spec_candidates(html, base_url, limit);
            &&& c.len() <= limit
            &&& sound_candidates(base_url, c)
            &&& forall|i: int, j: int| 0 <= i < j < c.len() ==> spec_rank(#[trigger] c[i]) <= spec_rank(#[trigger] c[j])
        }),
{
    let anchors = spec_html_anchors(html);
    lemma_scan_sound(base_url, anchors, anchors.len());
    let s = scan_anchors(base_url, anchors, anchors.len()).1;
    lemma_bucket_sound(base_url, s, 0);
    lemma_bucket_sound(base_url, s, 1);
    lemma_bucket_sound(base_url, s, 2);
    let (b0, b1, b2) = (bucket(s, 0), bucket(s, 1), bucket(s, 2));
    let ranked = spec_ranked(s);
    assert(ranked == b0 + b1 + b2);
    let rank_of = |i: int| if i < b0.len() { 0u8 } else if i < b0.len() + b1.len() { 1u8 } else { 2u8 };
    assert forall|i: int| 0 <= i < ranked.len() implies s.contains(#[trigger] ranked[i]) && spec_rank(ranked[i]) == rank_of(i)
        && is_prefix("http"@, ranked[i].url)
        && !(spec_self_key(base_url) is Some && spec_self_key(ranked[i].url) == spec_self_key(base_url)) by {
        if i < b0.len() {
            assert(ranked[i] == b0[i]);
        } else if i < b0.len() + b1.len() {
            assert(ranked[i] == b1[i - b0.len()]);
        } else {
            assert(ranked[i] == b2[i - b0.len() - b1.len()]);
        }
    }
    assert forall|i: int, j: int| 0 <= i < j < ranked.len() implies (#[trigger] ranked[i]).url != (#[trigger] ranked[j]).url by {
        if rank_of(i) == rank_of(j) {
            if i < b0.len() {
                assert(ranked[i] == b0[i] && ranked[j] == b0[j]);
            } else if i < b0.len() + b1.len() {
                assert(ranked[i] == b1[i - b0.len()] && ranked[j] == b1[j - b0.len()]);
            } else {
                assert(ranked[i] == b2[i - b0.len() - b1.len()] && ranked[j] == b2[j - b0.len() - b1.len()]);
            }
        } else if ranked[i].url == ranked[j].url {
            lemma_same_url_same_candidate(s, ranked[i], ranked[j]);
        }
    }
    assert forall|i: int, j: int| 0 <= i < j < ranked.len() implies spec_rank(#[trigger] ranked[i]) <= spec_rank(#[trigger] ranked[j]) by {
        assert(spec_rank(ranked[i]) == rank_of(i));
        assert(spec_rank(ranked[j]) == rank_of(j));
    }
    let c = spec_candidates(html, base_url, limit);
    if ranked.len() > limit {
        assert(c == ranked.take(limit as int));
        assert forall|i: int, j: int| 0 <= i < j < c.len() implies (#[trigger] c[i]).url != (#[trigger] c[j]).url by {
            assert(c[i] == ranked[i] && c[j] == ranked[j]);
        }
        assert forall|i: int, j: int| 0 <= i < j < c.len() implies spec_rank(#[trigger] c[i]) <= spec_rank(#[trigger] c[j]) by {
            assert(c[i] == ranked[i] && c[j] == ranked[j]);
        }
        assert forall|i: int| 0 <= i < c.len() implies is_prefix("http"@, (#[trigger] c[i]).url) by {
            assert(c[i] == ranked[i]);
        }
        assert forall|i: int| 0 <= i < c.len() implies
            !(spec_self_key(base_url) is Some && spec_self_key((#[trigger] c[i]).url) == spec_self_key(base_url)) by {
            assert(c[i] == ranked[i]);
        }
    }
}

} // verus!
