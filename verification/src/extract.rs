//! The extractor: scans raw markup for article containers, in document
//! order, and pulls the title, link path, and the two timestamps out of
//! each block, skipping blocks without usable content.

use vstd::prelude::*;
use vstd::string::StrSliceExecFns;
use vstd::string::StringExecFns;
use crate::text::{matches_at, find_from, find, lemma_find_from_some};
use crate::record::{RecordModel, ArticleRecord, recs_view};

verus! {

/// Opening of an article container tag.
pub open spec fn open_tag() -> Seq<char> {
    "<article"@
}

/// Opening of the closing tag of an article container.
pub open spec fn close_tag() -> Seq<char> {
    "</article"@
}

/// Site origin prefixed to a relative link path.
pub open spec fn origin() -> Seq<char> {
    "https://news.google.com"@
}

/// Text content of the first `tag` element of `b`: the characters
/// between the `>` that ends the element's opening tag and the next `<`.
pub open spec fn tag_text(b: Seq<char>, tag: Seq<char>) -> Option<Seq<char>> {
    match find_from(b, tag, 0) {
        None => None,
        Some(t) => match find_from(b, ">"@, t) {
            None => None,
            Some(g) => match find_from(b, "<"@, g + 1) {
                None => None,
                Some(l) => Some(b.subrange(g + 1, l)),
            },
        },
    }
}

/// Value of the attribute introduced by `attr` (for example `href="`)
/// at or after the first `tag` element of `b`: the characters up to the
/// closing quote.
pub open spec fn attr_value(b: Seq<char>, tag: Seq<char>, attr: Seq<char>) -> Option<Seq<char>> {
    match find_from(b, tag, 0) {
        None => None,
        Some(t) => match find_from(b, attr, t) {
            None => None,
            Some(a) => match find_from(b, "\""@, a + attr.len() as int) {
                None => None,
                Some(q) => Some(b.subrange(a + attr.len() as int, q)),
            },
        },
    }
}

/// Parse of one article block. A block yields a record only when it has
/// a heading with non-empty text, an anchor with a non-empty `href`,
/// and a time element with a `datetime` attribute and display text;
/// otherwise the block is skipped. The stored link, kept only when
/// links are enabled, is the origin followed by the `href` with its
/// leading separator removed.
pub open spec fn parse_block(b: Seq<char>, include_links: bool) -> Option<RecordModel> {
    match tag_text(b, "<h3"@) {
        None => None,
        Some(title) => if title.len() == 0 {
            None
        } else {
            match attr_value(b, "<a"@, "href=\""@) {
                None => None,
                Some(href) => if href.len() == 0 {
                    None
                } else {
                    match attr_value(b, "<time"@, "datetime=\""@) {
                        None => None,
                        Some(raw) => match tag_text(b, "<time"@) {
                            None => None,
                            Some(disp) => Some(
                                RecordModel {
                                    title: title,
                                    link: if include_links {
                                        Some(origin() + href.subrange(1, href.len() as int))
                                    } else {
                                        None
                                    },
                                    timestamp_raw: raw,
                                    timestamp_display: disp,
                                },
                            ),
                        },
                    }
                },
            }
        },
    }
}

/// One located article container: the positions of its open and close
/// tags in the whole markup, and the record its block parses to.
pub ghost struct Hit {
    pub open_at: int,
    pub close_at: int,
    pub rec: RecordModel,
}

/// Scan of the markup from position `i`: every article container from
/// there on, in document order, paired with the record its block parses
/// to; blocks that parse to nothing are dropped. An unclosed container
/// ends the scan.
pub open spec fn scan(m: Seq<char>, i: int, include_links: bool) -> Seq<Hit>
    recommends
        0 <= i,
    decreases m.len() - i,
        when 0 <= i
        via scan_decreases
{
    match find_from(m, open_tag(), i) {
        None => Seq::empty(),
        Some(a) => match find_from(m, close_tag(), a + open_tag().len() as int) {
            None => Seq::empty(),
            Some(c) => {
                let rest = scan(m, c + close_tag().len() as int, include_links);
                match parse_block(m.subrange(a + open_tag().len() as int, c), include_links) {
                    None => rest,
                    Some(r) => seq![Hit { open_at: a, close_at: c, rec: r }] + rest,
                }
            },
        },
    }
}

#[via_fn]
proof fn scan_decreases(m: Seq<char>, i: int, include_links: bool) {
    reveal_strlit("<article");
    reveal_strlit("</article");
    match find_from(m, open_tag(), i) {
        None => {},
        Some(a) => {
            lemma_find_from_some(m, open_tag(), i, a);
            match find_from(m, close_tag(), a + open_tag().len() as int) {
                None => {},
                Some(c) => {
                    lemma_find_from_some(m, close_tag(), a + open_tag().len() as int, c);
                },
            }
        },
    }
}

/// Models of the records extracted from the markup, in document order.
pub open spec fn extract_model(m: Seq<char>, include_links: bool) -> Seq<RecordModel> {
    scan(m, 0, include_links).map_values(|h: Hit| h.rec)
}

/// Soundness of the scan: each hit is a genuine article container — the
/// open tag occurs at `open_at`, the close tag at `close_at` after it,
/// and the hit's record is exactly what the block between them parses to.
pub proof fn lemma_scan_sound(m: Seq<char>, i: int, include_links: bool)
    requires
        0 <= i,
    ensures
        forall|k: int|
            0 <= k < scan(m, i, include_links).len() ==> {
                let h = #[trigger] scan(m, i, include_links)[k];
                &&& matches_at(m, open_tag(), h.open_at)
                &&& matches_at(m, close_tag(), h.close_at)
                &&& h.open_at + open_tag().len() <= h.close_at
                &&& parse_block(
                    m.subrange(h.open_at + open_tag().len() as int, h.close_at),
                    include_links,
                ) == Some(h.rec)
            },
    decreases m.len() - i,
{
    reveal_strlit("<article");
    reveal_strlit("</article");
    match find_from(m, open_tag(), i) {
        None => {},
        Some(a) => {
            lemma_find_from_some(m, open_tag(), i, a);
            match find_from(m, close_tag(), a + open_tag().len() as int) {
                None => {},
                Some(c) => {
                    lemma_find_from_some(m, close_tag(), a + open_tag().len() as int, c);
                    let next = c + close_tag().len() as int;
                    lemma_scan_sound(m, next, include_links);
                    let rest = scan(m, next, include_links);
                    match parse_block(m.subrange(a + open_tag().len() as int, c), include_links) {
                        None => {},
                        Some(r) => {
                            let h0 = Hit { open_at: a, close_at: c, rec: r };
                            assert forall|k: int|
                                0 <= k < scan(m, i, include_links).len() implies {
                                let h = #[trigger] scan(m, i, include_links)[k];
                                &&& matches_at(m, open_tag(), h.open_at)
                                &&& matches_at(m, close_tag(), h.close_at)
                                &&& h.open_at + open_tag().len() <= h.close_at
                                &&& parse_block(
                                    m.subrange(h.open_at + open_tag().len() as int, h.close_at),
                                    include_links,
                                ) == Some(h.rec)
                            } by {
                                if k == 0 {
                                    assert(scan(m, i, include_links)[0] == h0);
                                } else {
                                    assert(scan(m, i, include_links)[k] == rest[k - 1]);
                                }
                            }
                        },
                    }
                },
            }
        },
    }
}

/// Document order: the hits of a scan sit at or after the scan start,
/// at strictly increasing container positions.
pub proof fn lemma_scan_ordered(m: Seq<char>, i: int, include_links: bool)
    requires
        0 <= i,
    ensures
        forall|k: int|
            0 <= k < scan(m, i, include_links).len() ==> i <= #[trigger] scan(
                m,
                i,
                include_links,
            )[k].open_at,
        forall|k: int|
            0 <= k < scan(m, i, include_links).len() - 1 ==> #[trigger] scan(
                m,
                i,
                include_links,
            )[k].open_at < scan(m, i, include_links)[k + 1].open_at,
    decreases m.len() - i,
{
    reveal_strlit("<article");
    reveal_strlit("</article");
    match find_from(m, open_tag(), i) {
        None => {},
        Some(a) => {
            lemma_find_from_some(m, open_tag(), i, a);
            match find_from(m, close_tag(), a + open_tag().len() as int) {
                None => {},
                Some(c) => {
                    lemma_find_from_some(m, close_tag(), a + open_tag().len() as int, c);
                    let next = c + close_tag().len() as int;
                    lemma_scan_ordered(m, next, include_links);
                    let rest = scan(m, next, include_links);
                    match parse_block(m.subrange(a + open_tag().len() as int, c), include_links) {
                        None => {},
                        Some(r) => {
                            let h0 = Hit { open_at: a, close_at: c, rec: r };
                            let s = scan(m, i, include_links);
                            assert(s == seq![h0] + rest);
                            assert forall|k: int| 0 <= k < s.len() implies i
                                <= #[trigger] s[k].open_at by {
                                if k > 0 {
                                    assert(s[k] == rest[k - 1]);
                                }
                            }
                            assert forall|k: int| 0 <= k < s.len() - 1 implies #[trigger] s[k].open_at
                                < s[k + 1].open_at by {
                                if k == 0 {
                                    assert(s[1] == rest[0]);
                                } else {
                                    assert(s[k] == rest[k - 1]);
                                    assert(s[k + 1] == rest[k]);
                                }
                            }
                        },
                    }
                },
            }
        },
    }
}

/// Every extracted record has a non-empty title, and when links are
/// disabled no extracted record carries one.
pub proof fn lemma_scan_records_wf(m: Seq<char>, i: int, include_links: bool)
    requires
        0 <= i,
    ensures
        forall|k: int|
            0 <= k < scan(m, i, include_links).len() ==> #[trigger] scan(
                m,
                i,
                include_links,
            )[k].rec.title.len() > 0,
        !include_links ==> forall|k: int|
            0 <= k < scan(m, i, include_links).len() ==> #[trigger] scan(
                m,
                i,
                include_links,
            )[k].rec.link is None,
    decreases m.len() - i,
{
    reveal_strlit("<article");
    reveal_strlit("</article");
    match find_from(m, open_tag(), i) {
        None => {},
        Some(a) => {
            lemma_find_from_some(m, open_tag(), i, a);
            match find_from(m, close_tag(), a + open_tag().len() as int) {
                None => {},
                Some(c) => {
                    lemma_find_from_some(m, close_tag(), a + open_tag().len() as int, c);
                    let next = c + close_tag().len() as int;
                    lemma_scan_records_wf(m, next, include_links);
                    let rest = scan(m, next, include_links);
                    match parse_block(m.subrange(a + open_tag().len() as int, c), include_links) {
                        None => {},
                        Some(r) => {
                            let s = scan(m, i, include_links);
                            assert forall|k: int| 0 < k < s.len() implies s[k] == rest[k - 1] by {}
                        },
                    }
                },
            }
        },
    }
}

/// Every record of `extract_model` has a non-empty title; its records
/// are the scan's records in document order; and with links disabled no
/// record carries a link.
pub proof fn lemma_extract_model_wf(m: Seq<char>, include_links: bool)
    ensures
        extract_model(m, include_links).len() == scan(m, 0, include_links).len(),
        forall|k: int|
            0 <= k < extract_model(m, include_links).len() ==> #[trigger] extract_model(
                m,
                include_links,
            )[k] == scan(m, 0, include_links)[k].rec,
        forall|k: int|
            0 <= k < extract_model(m, include_links).len() ==> #[trigger] extract_model(
                m,
                include_links,
            )[k].title.len() > 0,
        !include_links ==> forall|k: int|
            0 <= k < extract_model(m, include_links).len() ==> #[trigger] extract_model(
                m,
                include_links,
            )[k].link is None,
{
    lemma_scan_records_wf(m, 0, include_links);
}

/// Shape of a stored link: a block that parses with links enabled has an
/// anchor whose non-empty `href` value, shorn of its first character, is
/// what the record's link appends to the origin; with links disabled the
/// parse stores no link.
pub proof fn lemma_block_link_shape(b: Seq<char>)
    ensures
        parse_block(b, true) matches Some(r) ==> attr_value(b, "<a"@, "href=\""@) matches Some(
            href,
        ) && href.len() > 0 && r.link == Some(origin() + href.subrange(1, href.len() as int)),
        parse_block(b, false) matches Some(r) ==> r.link is None,
{
}

fn tag_text_exec(b: &str, tag: &str) -> (r: Option<String>)
    ensures
        r is Some <==> tag_text(b@, tag@) is Some,
        r matches Some(s) ==> tag_text(b@, tag@) == Some(s@),
{
    let n = b.unicode_len();
    let t = match find(b, tag, 0) {
        None => {
            return None;
        },
        Some(t) => t,
    };
    proof {
        lemma_find_from_some(b@, tag@, 0, t as int);
    }
    let g = match find(b, ">", t) {
        None => {
            return None;
        },
        Some(g) => g,
    };
    proof {
        lemma_find_from_some(b@, ">"@, t as int, g as int);
        reveal_strlit(">");
    }
    let l = match find(b, "<", g + 1) {
        None => {
            return None;
        },
        Some(l) => l,
    };
    proof {
        lemma_find_from_some(b@, "<"@, g + 1, l as int);
    }
    Some(b.substring_char(g + 1, l).to_owned())
}

fn attr_value_exec(b: &str, tag: &str, attr: &str) -> (r: Option<String>)
    ensures
        r is Some <==> attr_value(b@, tag@, attr@) is Some,
        r matches Some(s) ==> attr_value(b@, tag@, attr@) == Some(s@),
{
    let n = b.unicode_len();
    let alen = attr.unicode_len();
    let t = match find(b, tag, 0) {
        None => {
            return None;
        },
        Some(t) => t,
    };
    proof {
        lemma_find_from_some(b@, tag@, 0, t as int);
    }
    let a = match find(b, attr, t) {
        None => {
            return None;
        },
        Some(a) => a,
    };
    proof {
        lemma_find_from_some(b@, attr@, t as int, a as int);
    }
    let q = match find(b, "\"", a + alen) {
        None => {
            return None;
        },
        Some(q) => q,
    };
    proof {
        lemma_find_from_some(b@, "\""@, (a + alen) as int, q as int);
    }
    Some(b.substring_char(a + alen, q).to_owned())
}

/// The model of an optional record.
pub open spec fn opt_rec_view(r: Option<ArticleRecord>) -> Option<RecordModel> {
    match r {
        Some(a) => Some(a@),
        None => None,
    }
}

fn parse_block_exec(b: &str, include_links: bool) -> (r: Option<ArticleRecord>)
    ensures
        opt_rec_view(r) == parse_block(b@, include_links),
{
    let title = match tag_text_exec(b, "<h3") {
        None => {
            return None;
        },
        Some(t) => t,
    };
    if title.as_str().unicode_len() == 0 {
        return None;
    }
    let href = match attr_value_exec(b, "<a", "href=\"") {
        None => {
            return None;
        },
        Some(h) => h,
    };
    let hlen = href.as_str().unicode_len();
    if hlen == 0 {
        return None;
    }
    let raw = match attr_value_exec(b, "<time", "datetime=\"") {
        None => {
            return None;
        },
        Some(x) => x,
    };
    let disp = match tag_text_exec(b, "<time") {
        None => {
            return None;
        },
        Some(x) => x,
    };
    let link: Option<String> = if include_links {
        let mut l = String::from_str("https://news.google.com");
        l.append(href.as_str().substring_char(1, hlen));
        proof {
            assert(l@ == origin() + href@.subrange(1, href@.len() as int));
        }
        Some(l)
    } else {
        None
    };
    Some(ArticleRecord { title, link, timestamp_raw: raw, timestamp_display: disp })
}

/// Extracts the article records of the raw markup, in document order.
pub fn extract(markup: &str, include_links: bool) -> (r: Vec<ArticleRecord>)
    ensures
        recs_view(r@) == extract_model(markup@, include_links),
{
    let mut out: Vec<ArticleRecord> = Vec::new();
    let n = markup.unicode_len();
    let mut i: usize = 0;
    proof {
        assert(recs_view(out@) + scan(markup@, 0, include_links).map_values(|h: Hit| h.rec)
            =~= extract_model(markup@, include_links));
    }
    loop
        invariant_except_break
            n == markup@.len(),
            0 <= i <= n,
            recs_view(out@) + scan(markup@, i as int, include_links).map_values(|h: Hit| h.rec)
                == extract_model(markup@, include_links),
        ensures
            recs_view(out@) == extract_model(markup@, include_links),
        decreases n - i,
    {
        proof {
            reveal_strlit("<article");
            reveal_strlit("</article");
        }
        match find(markup, "<article", i) {
            None => {
                proof {
                    assert(scan(markup@, i as int, include_links) =~= Seq::<Hit>::empty());
                    assert(recs_view(out@) + Seq::<Hit>::empty().map_values(|h: Hit| h.rec)
                        =~= recs_view(out@));
                }
                break ;
            },
            Some(a) => {
                proof {
                    lemma_find_from_some(markup@, "<article"@, i as int, a as int);
                }
                let astart = a + 8;
                match find(markup, "</article", astart) {
                    None => {
                        proof {
                            assert(scan(markup@, i as int, include_links) =~= Seq::<Hit>::empty());
                            assert(recs_view(out@) + Seq::<Hit>::empty().map_values(|h: Hit| h.rec)
                                =~= recs_view(out@));
                        }
                        break ;
                    },
                    Some(c) => {
                        proof {
                            lemma_find_from_some(markup@, "</article"@, astart as int, c as int);
                        }
                        let block = markup.substring_char(astart, c);
                        let parsed = parse_block_exec(block, include_links);
                        let ghost prev = scan(markup@, i as int, include_links);
                        let ghost rest = scan(markup@, c + 9, include_links);
                        match parsed {
                            None => {
                                proof {
                                    assert(prev == rest);
                                }
                            },
                            Some(rec) => {
                                let ghost old_out = out@;
                                out.push(rec);
                                proof {
                                    let h0 = Hit {
                                        open_at: a as int,
                                        close_at: c as int,
                                        rec: rec@,
                                    };
                                    assert(prev == seq![h0] + rest);
                                    assert(prev.map_values(|h: Hit| h.rec) =~= seq![rec@]
                                        + rest.map_values(|h: Hit| h.rec));
                                    assert(recs_view(out@) =~= recs_view(old_out) + seq![rec@]);
                                    assert(recs_view(out@) + rest.map_values(|h: Hit| h.rec)
                                        =~= recs_view(old_out) + prev.map_values(|h: Hit| h.rec));
                                }
                            },
                        }
                        i = c + 9;
                    },
                }
            },
        }
    }
    out
}

} // verus!
