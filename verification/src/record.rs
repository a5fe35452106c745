//! The article record: one extracted news item, with its mathematical
//! model over character sequences.

use vstd::prelude::*;

verus! {

/// Mathematical model of one extracted article.
pub ghost struct RecordModel {
    pub title: Seq<char>,
    pub link: Option<Seq<char>>,
    pub timestamp_raw: Seq<char>,
    pub timestamp_display: Seq<char>,
}

/// One extracted news item: a non-empty title, an optional absolute
/// link, and the two timestamp representations found in the markup.
#[derive(Clone, Debug)]
pub struct ArticleRecord {
    pub title: String,
    pub link: Option<String>,
    pub timestamp_raw: String,
    pub timestamp_display: String,
}

impl View for ArticleRecord {
    type V = RecordModel;

    open spec fn view(&self) -> RecordModel {
        RecordModel {
            title: self.title@,
            link: match self.link {
                Some(l) => Some(l@),
                None => None,
            },
            timestamp_raw: self.timestamp_raw@,
            timestamp_display: self.timestamp_display@,
        }
    }
}

/// The models of a sequence of records, in the same order.
pub open spec fn recs_view(s: Seq<ArticleRecord>) -> Seq<RecordModel> {
    s.map_values(|a: ArticleRecord| a@)
}

} // verus!
