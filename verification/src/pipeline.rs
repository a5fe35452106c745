//! The run after the fetch: a transport error aborts untouched, a
//! fetched body is extracted and rendered, and an empty extraction
//! yields the single informational line.

use vstd::prelude::*;
use vstd::string::StringExecFns;
use crate::record::recs_view;
use crate::extract::{extract, extract_model};
use crate::render::{render, render_model, lines_view};

verus! {

/// The informational line printed when no article was extracted.
pub open spec fn no_results_line() -> Seq<char> {
    "Nenhuma notícia encontrada"@
}

/// Report model: the rendered lines of the extracted records, or the
/// single informational line when nothing was extracted.
pub open spec fn report_model(m: Seq<char>, include_links: bool, use_formatted_time: bool) -> Seq<
    Seq<char>,
> {
    let rs = extract_model(m, include_links);
    if rs.len() == 0 {
        seq![no_results_line()]
    } else {
        render_model(rs, use_formatted_time)
    }
}

/// Runs the part of the pipeline after the fetch. A transport error is
/// handed back untouched, and nothing is extracted or rendered; a
/// fetched body is extracted and rendered, yielding the single
/// informational line when no article survives extraction.
pub fn run_report<E>(
    fetch_result: Result<String, E>,
    include_links: bool,
    use_formatted_time: bool,
) -> (r: Result<Vec<String>, E>)
    ensures
        fetch_result matches Err(e) ==> r matches Err(e2) && e2 == e,
        fetch_result matches Ok(body) ==> r matches Ok(lines) && lines_view(lines@)
            == report_model(body@, include_links, use_formatted_time),
{
    match fetch_result {
        Err(e) => Err(e),
        Ok(body) => {
            let records = extract(body.as_str(), include_links);
            if records.len() == 0 {
                let mut lines: Vec<String> = Vec::new();
                lines.push(String::from_str("Nenhuma notícia encontrada"));
                proof {
                    assert(extract_model(body@, include_links).len() == 0) by {
                        assert(recs_view(records@).len() == 0);
                    }
                    assert(lines_view(lines@) =~= seq![no_results_line()]);
                }
                Ok(lines)
            } else {
                let lines = render(&records, use_formatted_time);
                proof {
                    assert(extract_model(body@, include_links).len() == records@.len()) by {
                        assert(recs_view(records@).len() == records@.len());
                    }
                }
                Ok(lines)
            }
        },
    }
}

} // verus!
