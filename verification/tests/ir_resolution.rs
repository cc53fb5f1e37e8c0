use brawler_core::ir_resolution::{
    candidate_rank, extract_candidate_links, is_pdf_url, looks_like_report, resolve_ir_report, resolve_fetched_ir_page, ir_page_to_fetch, NO_IR_URL, IrReportCandidate,
};

const SAMPLE_HTML: &str = r##"
    <html><body>
        <a href="/about">About us</a>
        <a href="https://reports.example.com/q3-2025.pdf">Skonsolidowany raport okresowy Q3 2025</a>
        <a href="https://reports.example.com/q2-2025.pdf">Raport Q2 2025</a>
        <a href="mailto:ir@example.com">Contact IR</a>
        <a href="#top">Back to top</a>
    </body></html>
"##;

#[test]
fn extracts_absolute_deduped_links_ranked_by_report_likeness() {
    let candidates = extract_candidate_links(SAMPLE_HTML, "https://example.com/investors/", 40);
    assert!(candidates.iter().all(|c| c.url.starts_with("http")));
    assert!(candidates.iter().all(|c| !c.url.contains("mailto")));
    assert!(candidates[0].url.ends_with(".pdf"));
    assert!(candidates.iter().any(|c| c.url == "https://reports.example.com/q3-2025.pdf"));
}

#[test]
fn excludes_links_back_to_the_ir_landing_page() {
    let html = r##"
        <html><body>
            <a href="https://example.com/investors/">Investor relations</a>
            <a href="/investors">Reports</a>
            <a href="https://example.com/investors/?utm=nav#top">Home</a>
            <a href="https://reports.example.com/q3-2025.pdf">Raport Q3 2025</a>
        </body></html>
    "##;
    let candidates = extract_candidate_links(html, "https://example.com/investors/", 40);
    assert!(
        candidates.iter().all(|c| !c.url.contains("example.com/investors")),
        "the IR landing page itself must not be a candidate: {candidates:?}"
    );
    assert!(candidates.iter().any(|c| c.url.ends_with("q3-2025.pdf")));
}

#[test]
fn ranks_pdf_candidates_ahead_of_keyword_html_links() {
    let html = r##"
        <html><body>
            <a href="https://example.com/results-overview">Quarterly results overview</a>
            <a href="https://reports.example.com/q3-2025.pdf">Q3 2025</a>
        </body></html>
    "##;
    let candidates = extract_candidate_links(html, "https://example.com/investors/", 40);
    assert!(
        candidates[0].url.ends_with(".pdf"),
        "a PDF report must rank ahead of a keyword-only HTML link: {candidates:?}"
    );
}

#[test]
fn resolve_errors_without_ir_url() {
    let mut fetched = false;
    let error = resolve_ir_report(None, |_url: String| {
        fetched = true;
        Ok(Vec::new())
    })
    .expect_err("missing IR url errors");
    assert!(error.contains("investor-relations"));
    assert!(!fetched, "nothing is fetched without an IR url");
    assert_eq!(ir_page_to_fetch(None).err().as_deref(), Some(NO_IR_URL));
    assert_eq!(ir_page_to_fetch(Some("https://example.com/ir")).as_deref(), Ok("https://example.com/ir"));
}

#[test]
fn relative_links_are_joined_labels_collapse_whitespace_and_duplicates_drop() {
    let html = r##"
        <html><body>
            <a href="/about">About
                 us</a>
            <a href="docs/annual-2024.pdf">Annual report 2024</a>
            <a href="docs/annual-2024.pdf">Annual report 2024 (again)</a>
        </body></html>
    "##;
    let candidates = extract_candidate_links(html, "https://example.com/investors/", 40);
    let urls: Vec<&str> = candidates.iter().map(|c| c.url.as_str()).collect();
    assert_eq!(
        urls,
        vec!["https://example.com/investors/docs/annual-2024.pdf", "https://example.com/about"]
    );
    assert_eq!(candidates[1].label, "About us");
}

#[test]
fn the_limit_truncates_after_ranking() {
    let candidates = extract_candidate_links(SAMPLE_HTML, "https://example.com/investors/", 1);
    assert_eq!(candidates.len(), 1);
    assert!(candidates[0].url.ends_with(".pdf"));
}

#[test]
fn a_fetch_failure_names_the_ir_page() {
    let error = resolve_ir_report(Some("https://example.com/ir"), |url: String| {
        assert_eq!(url, "https://example.com/ir", "the IR page itself is fetched");
        Err("timeout".to_owned())
    })
    .expect_err("fetch failure");
    assert_eq!(error, "failed to fetch the IR page: timeout");
    let resolved = resolve_ir_report(Some("https://example.com/investors/"), |_url: String| Ok(SAMPLE_HTML.as_bytes().to_vec()))
        .expect("resolved");
    assert_eq!(resolved.candidates[0].url, "https://reports.example.com/q3-2025.pdf");
    let direct = resolve_fetched_ir_page("https://example.com/investors/", Ok(SAMPLE_HTML.as_bytes())).expect("resolved");
    assert_eq!(direct.candidates, resolved.candidates);
}

fn candidate(url: &str, label: &str) -> IrReportCandidate {
    IrReportCandidate { url: url.to_owned(), label: label.to_owned() }
}

#[test]
fn pdfs_rank_first_then_report_looking_links_then_the_rest() {
    assert!(is_pdf_url("https://x/Raport.PDF?v=2#page=3"));
    assert!(!is_pdf_url("https://x/report.pdf.html"));
    assert_eq!(candidate_rank(&candidate("https://x/q3.pdf", "Q3")), 0);
    assert_eq!(candidate_rank(&candidate("https://x/wyniki", "Wyniki finansowe")), 1);
    assert_eq!(candidate_rank(&candidate("https://x/about", "About us")), 2);
    assert!(looks_like_report(&candidate("https://x/SPRAWOZDANIE-2024", "")));
    assert!(!looks_like_report(&candidate("https://x/contact", "Kontakt")));
}
