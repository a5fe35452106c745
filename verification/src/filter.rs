//! The time filter applied to a search: a closed set of seven codes,
//! each mapped to a query-string suffix token, chosen through a menu
//! of seven fixed labels.

use vstd::prelude::*;
use crate::text::str_eq;

verus! {

/// Time window applied to a search query.
#[derive(Clone, Copy, PartialEq, Eq, Structural, Debug)]
pub enum FilterCode {
    LastHour,
    Last24Hours,
    Yesterday,
    LastWeek,
    LastMonth,
    LastYear,
    All,
}

/// The query-string suffix token of a filter code; empty for `All`.
pub open spec fn suffix_of(f: FilterCode) -> Seq<char> {
    match f {
        FilterCode::LastHour => "+when:1h"@,
        FilterCode::Last24Hours => "+when:1d"@,
        FilterCode::Yesterday => "+when:2d"@,
        FilterCode::LastWeek => "+when:7d"@,
        FilterCode::LastMonth => "+when:1m"@,
        FilterCode::LastYear => "+when:1y"@,
        FilterCode::All => ""@,
    }
}

impl FilterCode {
    /// The suffix token appended to the search query for this filter.
    pub fn suffix_token(&self) -> (r: &'static str)
        ensures
            r@ == suffix_of(*self),
    {
        match self {
            FilterCode::LastHour => "+when:1h",
            FilterCode::Last24Hours => "+when:1d",
            FilterCode::Yesterday => "+when:2d",
            FilterCode::LastWeek => "+when:7d",
            FilterCode::LastMonth => "+when:1m",
            FilterCode::LastYear => "+when:1y",
            FilterCode::All => "",
        }
    }
}

/// The filter code selected by a menu label; an unrecognized label
/// falls back to `All`.
pub open spec fn filter_of_label(l: Seq<char>) -> FilterCode {
    if l == "Última hora"@ {
        FilterCode::LastHour
    } else if l == "Últimas 24 horas"@ {
        FilterCode::Last24Hours
    } else if l == "Ontem"@ {
        FilterCode::Yesterday
    } else if l == "Última semana"@ {
        FilterCode::LastWeek
    } else if l == "Último mês"@ {
        FilterCode::LastMonth
    } else if l == "Último ano"@ {
        FilterCode::LastYear
    } else {
        FilterCode::All
    }
}

/// Maps a menu label to its filter code; unrecognized labels map to `All`.
pub fn from_label(label: &str) -> (f: FilterCode)
    ensures
        f == filter_of_label(label@),
{
    if str_eq(label, "Última hora") {
        FilterCode::LastHour
    } else if str_eq(label, "Últimas 24 horas") {
        FilterCode::Last24Hours
    } else if str_eq(label, "Ontem") {
        FilterCode::Yesterday
    } else if str_eq(label, "Última semana") {
        FilterCode::LastWeek
    } else if str_eq(label, "Último mês") {
        FilterCode::LastMonth
    } else if str_eq(label, "Último ano") {
        FilterCode::LastYear
    } else {
        FilterCode::All
    }
}

/// Membership in the closed set of the seven defined suffix tokens.
pub open spec fn is_defined_token(t: Seq<char>) -> bool {
    ||| t == "+when:1h"@
    ||| t == "+when:1d"@
    ||| t == "+when:2d"@
    ||| t == "+when:7d"@
    ||| t == "+when:1m"@
    ||| t == "+when:1y"@
    ||| t == ""@
}

/// Every label — menu label or not — maps deterministically to a filter
/// code whose suffix token is exactly one of the seven defined tokens.
pub proof fn lemma_label_token_defined(label: Seq<char>)
    ensures
        is_defined_token(suffix_of(filter_of_label(label))),
{
}

} // verus!
