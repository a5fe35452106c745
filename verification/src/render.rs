//! The presenter: computes a column width from the longest display
//! timestamp and lays each record out as an aligned content line, an
//! optional link line, and a blank separator line.

use vstd::prelude::*;
use vstd::string::StrSliceExecFns;
use vstd::string::StringExecFns;
use crate::record::{RecordModel, ArticleRecord, recs_view};

verus! {

/// Greatest display-timestamp length among the records; 0 when there
/// are none. The width is always measured on the display timestamp,
/// whichever timestamp is later printed.
pub open spec fn width_of(rs: Seq<RecordModel>) -> int
    decreases rs.len(),
{
    if rs.len() == 0 {
        0
    } else {
        let rest = width_of(rs.drop_first());
        let head = rs[0].timestamp_display.len() as int;
        if head > rest {
            head
        } else {
            rest
        }
    }
}

/// The column width is exactly the maximum display-timestamp length:
/// no record exceeds it, some record reaches it, and it is 0 for an
/// empty sequence.
pub proof fn lemma_width_is_max(rs: Seq<RecordModel>)
    ensures
        rs.len() == 0 ==> width_of(rs) == 0,
        width_of(rs) >= 0,
        forall|k: int|
            0 <= k < rs.len() ==> #[trigger] rs[k].timestamp_display.len() <= width_of(rs),
        rs.len() > 0 ==> exists|k: int|
            0 <= k < rs.len() && #[trigger] rs[k].timestamp_display.len() == width_of(rs),
    decreases rs.len(),
{
    if rs.len() > 0 {
        let rest = rs.drop_first();
        lemma_width_is_max(rest);
        assert forall|k: int|
            0 <= k < rs.len() implies #[trigger] rs[k].timestamp_display.len() <= width_of(rs) by {
            if k > 0 {
                assert(rest[k - 1] == rs[k]);
            }
        }
        if rs[0].timestamp_display.len() as int >= width_of(rest) {
            assert(rs[0].timestamp_display.len() == width_of(rs));
        } else {
            let j = choose|j: int|
                0 <= j < rest.len() && #[trigger] rest[j].timestamp_display.len() == width_of(rest);
            assert(rs[j + 1].timestamp_display.len() == width_of(rs));
        }
    }
}

/// A run of `n` spaces (none when `n` is negative).
pub open spec fn spaces(n: int) -> Seq<char> {
    Seq::new(
        if n >= 0 {
            n as nat
        } else {
            0
        },
        |j: int| ' ',
    )
}

/// The timestamp text selected for display.
pub open spec fn selected_ts(r: RecordModel, use_formatted_time: bool) -> Seq<char> {
    if use_formatted_time {
        r.timestamp_display
    } else {
        r.timestamp_raw
    }
}

/// The content line of a record: the selected timestamp, padded on the
/// right to the column width, one space, then the title.
pub open spec fn content_line(r: RecordModel, w: int, use_formatted_time: bool) -> Seq<char> {
    let sel = selected_ts(r, use_formatted_time);
    sel + spaces(w - sel.len()) + seq![' '] + r.title
}

/// The link line of a record, when it carries one.
pub open spec fn link_lines(r: RecordModel) -> Seq<Seq<char>> {
    match r.link {
        Some(l) => seq![l],
        None => Seq::empty(),
    }
}

/// The output lines of one record: the content line when the selected
/// timestamp fits the column width (a longer one suppresses the line),
/// the link line when a link is present, and always one blank
/// separator line.
pub open spec fn record_lines(r: RecordModel, w: int, use_formatted_time: bool) -> Seq<Seq<char>> {
    let sel = selected_ts(r, use_formatted_time);
    let content: Seq<Seq<char>> = if sel.len() <= w {
        seq![content_line(r, w, use_formatted_time)]
    } else {
        Seq::empty()
    };
    content + link_lines(r) + seq![Seq::<char>::empty()]
}

/// A record's selected timestamp longer than the column width yields no
/// content line, and exactly those records are dropped; every record
/// still ends in exactly one blank separator line.
pub proof fn lemma_drop_policy(r: RecordModel, w: int, use_formatted_time: bool)
    ensures
        selected_ts(r, use_formatted_time).len() > w ==> record_lines(r, w, use_formatted_time)
            =~= link_lines(r) + seq![Seq::<char>::empty()],
        selected_ts(r, use_formatted_time).len() <= w ==> record_lines(r, w, use_formatted_time)
            =~= seq![content_line(r, w, use_formatted_time)] + link_lines(r)
            + seq![Seq::<char>::empty()],
        record_lines(r, w, use_formatted_time).len() >= 1,
        record_lines(r, w, use_formatted_time).last() == Seq::<char>::empty(),
{
}

/// Lines of all records, each laid out against the same column width.
pub open spec fn lines_from(rs: Seq<RecordModel>, w: int, use_formatted_time: bool) -> Seq<
    Seq<char>,
>
    decreases rs.len(),
{
    if rs.len() == 0 {
        Seq::empty()
    } else {
        record_lines(rs[0], w, use_formatted_time) + lines_from(
            rs.drop_first(),
            w,
            use_formatted_time,
        )
    }
}

/// Full rendering model: the lines of every record, aligned to the
/// column width computed from the display timestamps.
pub open spec fn render_model(rs: Seq<RecordModel>, use_formatted_time: bool) -> Seq<Seq<char>> {
    lines_from(rs, width_of(rs), use_formatted_time)
}

/// The models of a sequence of output lines.
pub open spec fn lines_view(s: Seq<String>) -> Seq<Seq<char>> {
    s.map_values(|x: String| x@)
}

/// Column width of a report: the greatest display-timestamp length.
pub fn column_width(records: &Vec<ArticleRecord>) -> (w: usize)
    ensures
        w as int == width_of(recs_view(records@)),
{
    let ghost rs = recs_view(records@);
    let n = records.len();
    let mut w: usize = 0;
    let mut k: usize = n;
    proof {
        assert(rs.subrange(n as int, rs.len() as int) =~= Seq::<RecordModel>::empty());
    }
    while k > 0
        invariant
            n == records@.len(),
            rs == recs_view(records@),
            rs.len() == n,
            0 <= k <= n,
            w as int == width_of(rs.subrange(k as int, n as int)),
        decreases k,
    {
        k = k - 1;
        let d = records[k].timestamp_display.as_str().unicode_len();
        proof {
            assert(rs[k as int] == records@[k as int]@);
            assert(rs.subrange(k as int, n as int).drop_first() =~= rs.subrange(
                k as int + 1,
                n as int,
            ));
            assert(rs.subrange(k as int, n as int)[0] == rs[k as int]);
        }
        if d > w {
            w = d;
        }
    }
    proof {
        assert(rs.subrange(0, n as int) =~= rs);
    }
    w
}

/// Renders the records as output lines: for each record, in order, its
/// content line when the selected timestamp fits the column width, its
/// link line when it carries a link, and one blank separator line.
pub fn render(records: &Vec<ArticleRecord>, use_formatted_time: bool) -> (lines: Vec<String>)
    ensures
        lines_view(lines@) == render_model(recs_view(records@), use_formatted_time),
{
    let ghost rs = recs_view(records@);
    let w = column_width(records);
    let n = records.len();
    let mut lines: Vec<String> = Vec::new();
    let mut k: usize = 0;
    proof {
        assert(lines_view(lines@) + lines_from(rs.subrange(0, n as int), w as int,
            use_formatted_time) =~= render_model(rs, use_formatted_time)) by {
            assert(rs.subrange(0, n as int) =~= rs);
            assert(lines_view(lines@) =~= Seq::<Seq<char>>::empty());
        }
    }
    while k < n
        invariant
            n == records@.len(),
            rs == recs_view(records@),
            rs.len() == n,
            w as int == width_of(rs),
            0 <= k <= n,
            lines_view(lines@) + lines_from(
                rs.subrange(k as int, n as int),
                w as int,
                use_formatted_time,
            ) == render_model(rs, use_formatted_time),
        decreases n - k,
    {
        let ghost lines0 = lines@;
        let ghost rk = rs[k as int];
        proof {
            assert(rk == records@[k as int]@);
            assert(rs.subrange(k as int, n as int)[0] == rk);
            assert(rs.subrange(k as int, n as int).drop_first() =~= rs.subrange(
                k as int + 1,
                n as int,
            ));
        }
        let sel: &String = if use_formatted_time {
            &records[k].timestamp_display
        } else {
            &records[k].timestamp_raw
        };
        let sl = sel.as_str().unicode_len();
        if sl <= w {
            let mut line = sel.clone();
            let mut j: usize = 0;
            proof {
                reveal_strlit(" ");
                assert(line@ =~= selected_ts(rk, use_formatted_time) + spaces(0));
            }
            while j < w - sl
                invariant
                    j <= w - sl <= w,
                    line@ == selected_ts(rk, use_formatted_time) + spaces(j as int),
                decreases w - sl - j,
            {
                line.append(" ");
                proof {
                    reveal_strlit(" ");
                    assert(selected_ts(rk, use_formatted_time) + spaces(j as int) + " "@
                        =~= selected_ts(rk, use_formatted_time) + spaces(j as int + 1));
                }
                j = j + 1;
            }
            line.append(" ");
            line.append(records[k].title.as_str());
            proof {
                reveal_strlit(" ");
                assert(line@ =~= content_line(rk, w as int, use_formatted_time));
            }
            lines.push(line);
        }
        match &records[k].link {
            Some(l) => {
                lines.push(l.clone());
            },
            None => {},
        }
        lines.push(String::new());
        proof {
            assert(lines_view(lines@) =~= lines_view(lines0) + record_lines(
                rk,
                w as int,
                use_formatted_time,
            ));
            assert(lines_view(lines@) + lines_from(
                rs.subrange(k as int + 1, n as int),
                w as int,
                use_formatted_time,
            ) =~= lines_view(lines0) + lines_from(
                rs.subrange(k as int, n as int),
                w as int,
                use_formatted_time,
            ));
        }
        k = k + 1;
    }
    proof {
        assert(rs.subrange(n as int, n as int) =~= Seq::<RecordModel>::empty());
        assert(lines_view(lines@) + lines_from(
            Seq::<RecordModel>::empty(),
            w as int,
            use_formatted_time,
        ) =~= lines_view(lines@));
    }
    lines
}

} // verus!
