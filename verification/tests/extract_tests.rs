use news_search::extract::extract;

fn article(title: &str, href: &str, datetime: &str, display: &str) -> String {
    format!(
        "<article><h3>{}</h3><a href=\"{}\">go</a><time datetime=\"{}\">{}</time></article>",
        title, href, datetime, display
    )
}

#[test]
fn three_well_formed_articles_in_document_order() {
    let m = format!(
        "<html><body>{}{}{}</body></html>",
        article("A", "/read/a", "2024-01-01T00:00:00Z", "aaaaa"),
        article("B", "/read/b", "2024-01-02T00:00:00Z", "bbbbbbbb"),
        article("C", "/read/c", "2024-01-03T00:00:00Z", "ccc"),
    );
    let out = extract(&m, true);
    assert_eq!(out.len(), 3);
    assert_eq!(out[0].title, "A");
    assert_eq!(out[1].title, "B");
    assert_eq!(out[2].title, "C");
    assert_eq!(out[0].timestamp_display, "aaaaa");
    assert_eq!(out[1].timestamp_display, "bbbbbbbb");
    assert_eq!(out[2].timestamp_display, "ccc");
    assert_eq!(out[0].timestamp_raw, "2024-01-01T00:00:00Z");
}

#[test]
fn no_extracted_record_has_an_empty_title() {
    let m = format!(
        "{}{}",
        article("", "/read/a", "d", "t"),
        article("Real", "/read/b", "d", "t"),
    );
    let out = extract(&m, false);
    assert_eq!(out.len(), 1);
    assert_eq!(out[0].title, "Real");
    for r in &out {
        assert!(r.title.len() > 0);
    }
}

#[test]
fn empty_markup_extracts_nothing() {
    assert_eq!(extract("", true).len(), 0);
    assert_eq!(extract("<html><body>no articles here</body></html>", true).len(), 0);
}

#[test]
fn links_enabled_prefix_origin_and_strip_leading_separator() {
    let m = article("A", "./read/path", "d", "t");
    let out = extract(&m, true);
    assert_eq!(out.len(), 1);
    assert_eq!(
        out[0].link.as_deref(),
        Some("https://news.google.com/read/path")
    );
}

#[test]
fn links_disabled_store_no_link() {
    let m = format!(
        "{}{}",
        article("A", "/read/a", "d1", "t1"),
        article("B", "/read/b", "d2", "t2"),
    );
    let out = extract(&m, false);
    assert_eq!(out.len(), 2);
    for r in &out {
        assert!(r.link.is_none());
    }
}

#[test]
fn article_without_anchor_is_skipped() {
    let m = format!(
        "<article><h3>A</h3><time datetime=\"d\">t</time></article>{}",
        article("B", "/read/b", "d", "t"),
    );
    let out = extract(&m, true);
    assert_eq!(out.len(), 1);
    assert_eq!(out[0].title, "B");
}

#[test]
fn article_without_time_is_skipped() {
    let m = format!(
        "<article><h3>A</h3><a href=\"/read/a\">go</a></article>{}",
        article("B", "/read/b", "d", "t"),
    );
    let out = extract(&m, true);
    assert_eq!(out.len(), 1);
    assert_eq!(out[0].title, "B");
}

#[test]
fn article_with_empty_href_is_skipped() {
    let m = article("A", "", "d", "t");
    let out = extract(&m, true);
    assert_eq!(out.len(), 0);
}

#[test]
fn single_character_href_leaves_the_bare_origin() {
    let m = article("A", ".", "d", "t");
    let out = extract(&m, true);
    assert_eq!(out.len(), 1);
    assert_eq!(out[0].link.as_deref(), Some("https://news.google.com"));
}

#[test]
fn unclosed_article_ends_the_scan() {
    let m = format!("{}<article><h3>B</h3>", article("A", "/read/a", "d", "t"));
    let out = extract(&m, false);
    assert_eq!(out.len(), 1);
    assert_eq!(out[0].title, "A");
}
