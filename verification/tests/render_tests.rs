use news_search::extract::extract;
use news_search::record::ArticleRecord;
use news_search::render::{column_width, render};

fn rec(title: &str, raw: &str, display: &str, link: Option<&str>) -> ArticleRecord {
    ArticleRecord {
        title: title.to_string(),
        link: link.map(|l| l.to_string()),
        timestamp_raw: raw.to_string(),
        timestamp_display: display.to_string(),
    }
}

#[test]
fn column_width_is_the_longest_display_timestamp() {
    let records = vec![
        rec("A", "r1", "aaaaa", None),
        rec("B", "r2", "bbbbbbbb", None),
        rec("C", "r3", "ccc", None),
    ];
    assert_eq!(column_width(&records), 8);
}

#[test]
fn column_width_of_no_records_is_zero() {
    let records: Vec<ArticleRecord> = Vec::new();
    assert_eq!(column_width(&records), 0);
}

#[test]
fn three_records_render_aligned_to_width_eight() {
    let m = format!(
        "<article><h3>A</h3><a href=\"/a\">x</a><time datetime=\"d1\">aaaaa</time></article>\
         <article><h3>B</h3><a href=\"/b\">x</a><time datetime=\"d2\">bbbbbbbb</time></article>\
         <article><h3>C</h3><a href=\"/c\">x</a><time datetime=\"d3\">ccc</time></article>"
    );
    let records = extract(&m, false);
    assert_eq!(records.len(), 3);
    assert_eq!(column_width(&records), 8);
    let lines = render(&records, true);
    assert_eq!(
        lines,
        vec![
            "aaaaa    A".to_string(),
            "".to_string(),
            "bbbbbbbb B".to_string(),
            "".to_string(),
            "ccc      C".to_string(),
            "".to_string(),
        ]
    );
}

#[test]
fn link_line_follows_the_content_line() {
    let records = vec![rec("A", "r", "tt", Some("https://news.google.com/read/a"))];
    let lines = render(&records, true);
    assert_eq!(
        lines,
        vec![
            "tt A".to_string(),
            "https://news.google.com/read/a".to_string(),
            "".to_string(),
        ]
    );
}

#[test]
fn raw_timestamp_longer_than_the_column_suppresses_the_line_only() {
    // The width comes from the display strings; a longer raw string,
    // selected for printing, drops the content line but keeps the
    // separator line.
    let records = vec![
        rec("T1", "0123456789", "ccc", None),
        rec("T2", "ab", "xyz", None),
    ];
    let lines = render(&records, false);
    assert_eq!(lines, vec!["".to_string(), "ab  T2".to_string(), "".to_string()]);
}

#[test]
fn rendering_no_records_emits_no_lines() {
    let records: Vec<ArticleRecord> = Vec::new();
    let lines = render(&records, true);
    assert_eq!(lines.len(), 0);
}
