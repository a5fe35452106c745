use news_search::filter::FilterCode;
use news_search::pipeline::run_report;
use news_search::url::build_url;

#[test]
fn transport_error_passes_through_untouched() {
    let fetched: Result<String, i32> = Err(7);
    let report = run_report(fetched, false, true);
    assert_eq!(report.unwrap_err(), 7);
}

#[test]
fn empty_body_reports_the_no_results_line() {
    let fetched: Result<String, i32> = Ok(String::new());
    let report = run_report(fetched, false, true).unwrap();
    assert_eq!(report, vec!["Nenhuma notícia encontrada".to_string()]);
}

#[test]
fn body_without_articles_reports_the_no_results_line() {
    let fetched: Result<String, i32> = Ok("<html><body>nada</body></html>".to_string());
    let report = run_report(fetched, false, true).unwrap();
    assert_eq!(report, vec!["Nenhuma notícia encontrada".to_string()]);
}

#[test]
fn fetched_articles_are_extracted_and_rendered() {
    let body = "<article><h3>A</h3><a href=\"./a\">x</a>\
                <time datetime=\"2024-01-01\">hoje</time></article>"
        .to_string();
    let report = run_report(Ok::<String, i32>(body), true, true).unwrap();
    assert_eq!(
        report,
        vec![
            "hoje A".to_string(),
            "https://news.google.com/a".to_string(),
            "".to_string(),
        ]
    );
}

#[test]
fn url_concatenates_endpoint_query_suffix_and_language() {
    let u = build_url("rust", FilterCode::LastHour, "ptbr");
    assert_eq!(u, "https://news.google.com/search?q=rust+when:1h&hl=ptbr");
    let u = build_url("rust", FilterCode::All, "en");
    assert_eq!(u, "https://news.google.com/search?q=rust&hl=en");
}

#[test]
fn url_escapes_the_query() {
    let u = build_url("a b&c", FilterCode::All, "en");
    assert_eq!(u, "https://news.google.com/search?q=a%20b%26c&hl=en");
}

#[test]
fn url_keeps_unreserved_and_non_ascii_characters() {
    let u = build_url("caf~e.x-z_9é", FilterCode::All, "en");
    assert_eq!(u, "https://news.google.com/search?q=caf~e.x-z_9é&hl=en");
}
