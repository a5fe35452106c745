//! The query URL: the search endpoint, the percent-escaped query, the
//! filter's suffix token, and the language parameter.

use vstd::prelude::*;
use vstd::string::StrSliceExecFns;
use vstd::string::StringExecFns;
use crate::filter::{FilterCode, suffix_of};

verus! {

/// Uppercase hexadecimal digit of a value below sixteen.
pub open spec fn hex_digit(n: int) -> char {
    if n == 0 {
        '0'
    } else if n == 1 {
        '1'
    } else if n == 2 {
        '2'
    } else if n == 3 {
        '3'
    } else if n == 4 {
        '4'
    } else if n == 5 {
        '5'
    } else if n == 6 {
        '6'
    } else if n == 7 {
        '7'
    } else if n == 8 {
        '8'
    } else if n == 9 {
        '9'
    } else if n == 10 {
        'A'
    } else if n == 11 {
        'B'
    } else if n == 12 {
        'C'
    } else if n == 13 {
        'D'
    } else if n == 14 {
        'E'
    } else {
        'F'
    }
}

/// Characters that travel unescaped in a query: ASCII letters, digits,
/// and the unreserved marks `-`, `.`, `_`, `~`.
pub open spec fn is_unreserved(c: char) -> bool {
    let v = c as u32;
    ||| ('a' as u32) <= v && v <= ('z' as u32)
    ||| ('A' as u32) <= v && v <= ('Z' as u32)
    ||| ('0' as u32) <= v && v <= ('9' as u32)
    ||| v == ('-' as u32)
    ||| v == ('.' as u32)
    ||| v == ('_' as u32)
    ||| v == ('~' as u32)
}

/// Escape of one character: kept when unreserved or beyond ASCII,
/// otherwise a percent sign and the two hex digits of its code.
pub open spec fn escape_char(c: char) -> Seq<char> {
    if is_unreserved(c) || c as u32 >= 128 {
        seq![c]
    } else {
        seq!['%', hex_digit(c as u32 as int / 16), hex_digit(c as u32 as int % 16)]
    }
}

/// Percent-escape of a whole query.
pub open spec fn escape_query(s: Seq<char>) -> Seq<char>
    decreases s.len(),
{
    if s.len() == 0 {
        Seq::empty()
    } else {
        escape_char(s[0]) + escape_query(s.drop_first())
    }
}

proof fn lemma_escape_snoc(s: Seq<char>, c: char)
    ensures
        escape_query(s.push(c)) == escape_query(s) + escape_char(c),
    decreases s.len(),
{
    if s.len() == 0 {
        assert(s.push(c).drop_first() =~= Seq::<char>::empty());
        assert(s.push(c)[0] == c);
        assert(escape_query(s.push(c)) == escape_char(c) + escape_query(Seq::<char>::empty()));
        assert(escape_char(c) + Seq::<char>::empty() =~= escape_char(c));
        assert(Seq::<char>::empty() + escape_char(c) =~= escape_char(c));
        assert(escape_query(s.push(c)) =~= escape_query(s) + escape_char(c));
    } else {
        lemma_escape_snoc(s.drop_first(), c);
        assert(s.push(c).drop_first() =~= s.drop_first().push(c));
        assert(s.push(c)[0] == s[0]);
        assert(escape_char(s[0]) + (escape_query(s.drop_first()) + escape_char(c)) =~= (escape_char(
            s[0],
        ) + escape_query(s.drop_first())) + escape_char(c));
    }
}

/// The full search URL for a query, filter, and language code.
pub open spec fn url_model(q: Seq<char>, f: FilterCode, lang: Seq<char>) -> Seq<char> {
    "https://news.google.com/search?q="@ + escape_query(q) + suffix_of(f) + "&hl="@ + lang
}

fn hex_str(d: u32) -> (r: &'static str)
    requires
        d < 16,
    ensures
        r@ == seq![hex_digit(d as int)],
{
    proof {
        reveal_strlit("0");
        reveal_strlit("1");
        reveal_strlit("2");
        reveal_strlit("3");
        reveal_strlit("4");
        reveal_strlit("5");
        reveal_strlit("6");
        reveal_strlit("7");
        reveal_strlit("8");
        reveal_strlit("9");
        reveal_strlit("A");
        reveal_strlit("B");
        reveal_strlit("C");
        reveal_strlit("D");
        reveal_strlit("E");
        reveal_strlit("F");
    }
    if d == 0 {
        "0"
    } else if d == 1 {
        "1"
    } else if d == 2 {
        "2"
    } else if d == 3 {
        "3"
    } else if d == 4 {
        "4"
    } else if d == 5 {
        "5"
    } else if d == 6 {
        "6"
    } else if d == 7 {
        "7"
    } else if d == 8 {
        "8"
    } else if d == 9 {
        "9"
    } else if d == 10 {
        "A"
    } else if d == 11 {
        "B"
    } else if d == 12 {
        "C"
    } else if d == 13 {
        "D"
    } else if d == 14 {
        "E"
    } else {
        "F"
    }
}

fn is_unreserved_exec(c: char) -> (r: bool)
    ensures
        r == is_unreserved(c),
{
    let v = c as u32;
    (('a' as u32) <= v && v <= ('z' as u32)) || (('A' as u32) <= v && v <= ('Z' as u32)) || (('0'
        as u32) <= v && v <= ('9' as u32)) || v == ('-' as u32) || v == ('.' as u32) || v == ('_'
        as u32) || v == ('~' as u32)
}

/// Builds the search URL: endpoint, percent-escaped query, the filter's
/// suffix token, and the language code as the `hl` parameter.
pub fn build_url(query: &str, filter: FilterCode, language: &str) -> (u: String)
    ensures
        u@ == url_model(query@, filter, language@),
{
    let mut u = String::from_str("https://news.google.com/search?q=");
    let n = query.unicode_len();
    let mut k: usize = 0;
    proof {
        assert(query@.subrange(0, 0) =~= Seq::<char>::empty());
        assert(u@ =~= "https://news.google.com/search?q="@ + escape_query(query@.subrange(0, 0)));
    }
    while k < n
        invariant
            n == query@.len(),
            0 <= k <= n,
            u@ == "https://news.google.com/search?q="@ + escape_query(query@.subrange(0, k as int)),
        decreases n - k,
    {
        let c = query.get_char(k);
        let ghost pre = query@.subrange(0, k as int);
        proof {
            lemma_escape_snoc(pre, c);
            assert(query@.subrange(0, k as int + 1) =~= pre.push(c));
        }
        if is_unreserved_exec(c) || c as u32 >= 128 {
            u.append(query.substring_char(k, k + 1));
            proof {
                assert(query@.subrange(k as int, k as int + 1) =~= seq![c]);
                assert(u@ =~= "https://news.google.com/search?q="@ + escape_query(
                    query@.subrange(0, k as int + 1),
                ));
            }
        } else {
            let v = c as u32;
            u.append("%");
            u.append(hex_str(v / 16));
            u.append(hex_str(v % 16));
            proof {
                reveal_strlit("%");
                assert(escape_char(c) =~= "%"@ + seq![hex_digit(v as int / 16)] + seq![
                    hex_digit(v as int % 16),
                ]);
                assert(u@ =~= "https://news.google.com/search?q="@ + escape_query(
                    query@.subrange(0, k as int + 1),
                ));
            }
        }
        k = k + 1;
    }
    proof {
        assert(query@.subrange(0, n as int) =~= query@);
    }
    u.append(filter.suffix_token());
    u.append("&hl=");
    u.append(language);
    proof {
        assert(u@ =~= url_model(query@, filter, language@));
    }
    u
}

} // verus!
