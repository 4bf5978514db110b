//! The stock lookup endpoints' parameter rules: the search text and the
//! price history range.
use vstd::prelude::*;
use crate::api::{
    ApiError, opt_str, opt_string_view, opt_ymd, parse_range, range_outcome, unprocessable,
    UNPROCESSABLE_ENTITY,
};
use crate::calendar::CalendarDate;
use crate::market::{num_or, opt_u16, opt_u8};
use crate::text::{push_char, push_str, string_of, trim, trimmed};

verus! {

broadcast use vstd::string::group_string_axioms;

/// A validated search: the trimmed text, its `LIKE` pattern, and the
/// limit.
pub struct StockSearchQuery {
    pub query: String,
    /// `%query%`.
    pub pattern: String,
    pub limit: u8,
}

/// How many bytes UTF-8 takes for `c`.
pub open spec fn utf8_width(c: char) -> int {
    let u = c as u32;
    if u < 0x80 {
        1
    } else if u < 0x800 {
        2
    } else if u < 0x10000 {
        3
    } else {
        4
    }
}

/// The UTF-8 length of a text (`str::len`).
pub open spec fn byte_len(s: Seq<char>) -> int
    decreases s.len(),
{
    if s.len() == 0 {
        0
    } else {
        byte_len(s.drop_last()) + utf8_width(s.last())
    }
}

proof fn lemma_byte_len_monotone(s: Seq<char>, i: int)
    requires
        0 <= i <= s.len(),
    ensures
        byte_len(s.take(i)) <= byte_len(s),
    decreases s.len(),
{
    if i < s.len() {
        assert(s.drop_last().take(i) == s.take(i));
        lemma_byte_len_monotone(s.drop_last(), i);
    } else {
        assert(s.take(i) == s);
    }
}

/// `byte_len(s)` when it is at most `cap`, else some number above `cap`.
fn byte_len_capped(s: &str, cap: usize) -> (r: usize)
    requires
        cap <= 1000,
    ensures
        r <= cap ==> r == byte_len(s@),
        r > cap ==> byte_len(s@) > cap,
{
    let v = crate::text::chars_of(s);
    let mut n: usize = 0;
    let mut i: usize = 0;
    while i < v.len()
        invariant
            i <= v@.len(),
            n == byte_len(v@.take(i as int)),
            n <= cap,
            cap <= 1000,
            v@ == s@,
        decreases v@.len() - i,
    {
        proof {
            assert(v@.take(i + 1).drop_last() == v@.take(i as int));
        }
        let u = v[i] as u32;
        let w: usize = if u < 0x80 {
            1
        } else if u < 0x800 {
            2
        } else if u < 0x10000 {
            3
        } else {
            4
        };
        n = n + w;
        i = i + 1;
        if n > cap {
            proof {
                lemma_byte_len_monotone(v@, i as int);
            }
            return n;
        }
    }
    proof {
        assert(v@.take(v@.len() as int) == v@);
    }
    n
}

/// Checks a search request: the trimmed text must be 1 to 100 bytes, the
/// limit (default 10) 1 to 50.
pub fn validate_search(query: &str, limit: Option<u8>) -> (r: Result<StockSearchQuery, ApiError>)
    ensures
        ({
            let t = trimmed(query@);
            let n = num_or(crate::market::opt_u8(limit), 10);
            match r {
                Ok(q) => {
                    &&& 1 <= byte_len(t) <= 100
                    &&& q.query@ == t
                    &&& q.pattern@ == seq!['%'] + t + seq!['%']
                    &&& q.limit == n && 1 <= n <= 50
                },
                Err(e) => {
                    &&& e.status == UNPROCESSABLE_ENTITY
                    &&& if !(1 <= byte_len(t) <= 100) {
                        e.message@ == "query 長度必須介於 1 至 100 字元"@
                    } else {
                        !(1 <= n <= 50) && e.message@ == "limit 必須介於 1 至 50"@
                    }
                },
            }
        }),
{
    let t = trim(query);
    let len = byte_len_capped(t.as_str(), 100);
    if !(1 <= len && len <= 100) {
        return Err(unprocessable("query 長度必須介於 1 至 100 字元"));
    }
    let n = match limit {
        Some(v) => v,
        None => 10,
    };
    if !(1 <= n && n <= 50) {
        return Err(unprocessable("limit 必須介於 1 至 50"));
    }
    let mut pattern = String::new();
    push_char(&mut pattern, '%');
    push_str(&mut pattern, t.as_str());
    push_char(&mut pattern, '%');
    assert(pattern@ =~= seq!['%'] + t@ + seq!['%']);
    Ok(StockSearchQuery { query: t, pattern, limit: n })
}

/// The price history endpoint's parameters.
pub struct HistoryParams {
    pub from: Option<String>,
    pub to: Option<String>,
    pub limit: Option<u16>,
}

/// A validated price history query.
pub struct HistoryQuery {
    pub from: Option<CalendarDate>,
    pub to: Option<CalendarDate>,
    pub limit: u16,
}

/// Checks the price history parameters: the range (chrono's `%Y-%m-%d`,
/// start not after end), then the limit (default 100, 1 to 365).
pub fn validate_price_history(p: &HistoryParams) -> (r: Result<HistoryQuery, ApiError>)
    ensures
        ({
            let range = range_outcome(opt_string_view(p.from), opt_string_view(p.to));
            let n = num_or(opt_u16(p.limit), 100);
            match r {
                Ok(q) => {
                    &&& range == Ok::<
                        (Option<(int, int, int)>, Option<(int, int, int)>),
                        Seq<char>,
                    >((opt_ymd(q.from), opt_ymd(q.to)))
                    &&& q.limit == n && 1 <= n <= 365
                },
                Err(e) => {
                    &&& e.status == UNPROCESSABLE_ENTITY
                    &&& match range {
                        Err(m) => e.message@ == m,
                        Ok(_) => !(1 <= n <= 365) && e.message@ == "limit 必須介於 1 至 365"@,
                    }
                },
            }
        }),
{
    let (from, to) = match parse_range(opt_str(&p.from), opt_str(&p.to)) {
        Ok(v) => v,
        Err(m) => {
            return Err(unprocessable(m));
        },
    };
    let n = match p.limit {
        Some(v) => v,
        None => 100,
    };
    if !(1 <= n && n <= 365) {
        return Err(unprocessable("limit 必須介於 1 至 365"));
    }
    Ok(HistoryQuery { from, to, limit: n })
}

} // verus!
