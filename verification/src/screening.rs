//! The stock screening endpoint's rules: the fixed `ORDER BY` clauses, the
//! parameter checks, and the demand for at least one real filter.
use vstd::prelude::*;
use crate::api::{
    ApiError, market_id_for_stocks, market_stats_id, opt_string_view, split_hundreds, str_or,
    text_or, trunc_div, trunc_rem, unprocessable, UNPROCESSABLE_ENTITY,
};
use crate::calendar::{CalendarDate, days_from_to, days_between};
use crate::text::{chars_of, i64_text, parse_i64_chars, push_char, push_signed_decimal, push_str, signed_decimal};
use crate::decimal::DecimalValue;
use crate::market::{bad_industry, industry_error, market_error, num_or, opt_u8};
use crate::order::str_equal;

verus! {

broadcast use vstd::string::group_string_axioms;

/// The fixed `ORDER BY` clause for a sort field and direction; indicators
/// sort their missing values last and break ties by symbol.
pub open spec fn screen_order(sort_by: Seq<char>, sort_order: Seq<char>) -> Result<Seq<char>, Seq<char>> {
    let asc = sort_order == "asc"@;
    let desc = sort_order == "desc"@;
    if !(asc || desc) {
        Err("sort_order 必須為 asc 或 desc"@)
    } else if sort_by == "stock_symbol"@ {
        Ok(if asc { "ORDER BY stock_symbol ASC"@ } else { "ORDER BY stock_symbol DESC"@ })
    } else if sort_by == "revenue_yoy"@ {
        Ok(
            if asc {
                "ORDER BY revenue_yoy_percent ASC NULLS LAST, stock_symbol ASC"@
            } else {
                "ORDER BY revenue_yoy_percent DESC NULLS LAST, stock_symbol ASC"@
            },
        )
    } else if sort_by == "eps"@ {
        Ok(
            if asc {
                "ORDER BY earnings_per_share ASC NULLS LAST, stock_symbol ASC"@
            } else {
                "ORDER BY earnings_per_share DESC NULLS LAST, stock_symbol ASC"@
            },
        )
    } else if sort_by == "roe"@ {
        Ok(
            if asc {
                "ORDER BY return_on_equity ASC NULLS LAST, stock_symbol ASC"@
            } else {
                "ORDER BY return_on_equity DESC NULLS LAST, stock_symbol ASC"@
            },
        )
    } else if sort_by == "dividend_yield"@ {
        Ok(
            if asc {
                "ORDER BY dividend_yield_percent ASC NULLS LAST, stock_symbol ASC"@
            } else {
                "ORDER BY dividend_yield_percent DESC NULLS LAST, stock_symbol ASC"@
            },
        )
    } else if sort_by == "valuation_percentage"@ {
        Ok(
            if asc {
                "ORDER BY valuation_percentage ASC NULLS LAST, stock_symbol ASC"@
            } else {
                "ORDER BY valuation_percentage DESC NULLS LAST, stock_symbol ASC"@
            },
        )
    } else {
        Err("sort_by 不在允許範圍"@)
    }
}

/// One of the twelve fixed `ORDER BY` clauses; the caller's text never
/// reaches the SQL.
pub fn screen_order_by(sort_by: &str, sort_order: &str) -> (r: Result<&'static str, &'static str>)
    ensures
        match r {
            Ok(o) => screen_order(sort_by@, sort_order@) == Ok::<Seq<char>, Seq<char>>(o@),
            Err(e) => screen_order(sort_by@, sort_order@) == Err::<Seq<char>, Seq<char>>(e@),
        },
{
    let asc = str_equal(sort_order, "asc");
    let desc = str_equal(sort_order, "desc");
    if !(asc || desc) {
        return Err("sort_order 必須為 asc 或 desc");
    }
    if str_equal(sort_by, "stock_symbol") {
        Ok(if asc { "ORDER BY stock_symbol ASC" } else { "ORDER BY stock_symbol DESC" })
    } else if str_equal(sort_by, "revenue_yoy") {
        Ok(
            if asc {
                "ORDER BY revenue_yoy_percent ASC NULLS LAST, stock_symbol ASC"
            } else {
                "ORDER BY revenue_yoy_percent DESC NULLS LAST, stock_symbol ASC"
            },
        )
    } else if str_equal(sort_by, "eps") {
        Ok(
            if asc {
                "ORDER BY earnings_per_share ASC NULLS LAST, stock_symbol ASC"
            } else {
                "ORDER BY earnings_per_share DESC NULLS LAST, stock_symbol ASC"
            },
        )
    } else if str_equal(sort_by, "roe") {
        Ok(
            if asc {
                "ORDER BY return_on_equity ASC NULLS LAST, stock_symbol ASC"
            } else {
                "ORDER BY return_on_equity DESC NULLS LAST, stock_symbol ASC"
            },
        )
    } else if str_equal(sort_by, "dividend_yield") {
        Ok(
            if asc {
                "ORDER BY dividend_yield_percent ASC NULLS LAST, stock_symbol ASC"
            } else {
                "ORDER BY dividend_yield_percent DESC NULLS LAST, stock_symbol ASC"
            },
        )
    } else if str_equal(sort_by, "valuation_percentage") {
        Ok(
            if asc {
                "ORDER BY valuation_percentage ASC NULLS LAST, stock_symbol ASC"
            } else {
                "ORDER BY valuation_percentage DESC NULLS LAST, stock_symbol ASC"
            },
        )
    } else {
        Err("sort_by 不在允許範圍")
    }
}

/// A numeric threshold as the request gave it, after the range check on
/// the number (which the caller makes on the floating-point value): absent,
/// within its range as an exact decimal, or rejected.
#[derive(Clone, Copy, PartialEq, Eq, Structural, Debug)]
pub enum Threshold {
    Absent,
    InRange(DecimalValue),
    Rejected,
}

/// The screening endpoint's parameters.
pub struct StockScreeningParams {
    pub market: Option<String>,
    pub industry_id: Option<i32>,
    pub valuation_band: Option<String>,
    pub min_revenue_yoy_percent: Threshold,
    pub min_eps: Threshold,
    pub min_roe_percent: Threshold,
    pub min_dividend_yield_percent: Threshold,
    pub sort_by: Option<String>,
    pub sort_order: Option<String>,
    pub limit: Option<u8>,
}

/// A validated screening query.
pub struct ValidatedScreeningParams {
    /// 0 stands for both listed markets.
    pub market_id: i32,
    pub min_revenue_yoy_percent: Option<DecimalValue>,
    pub min_eps: Option<DecimalValue>,
    pub min_roe_percent: Option<DecimalValue>,
    pub min_dividend_yield_percent: Option<DecimalValue>,
    /// One of the twelve fixed clauses.
    pub order_by: &'static str,
    pub limit: u8,
}

/// The valuation bands a filter may name.
pub open spec fn known_band(b: Seq<char>) -> bool {
    b == "undervalued"@ || b == "fair_valued"@ || b == "overvalued"@ || b == "highly_overvalued"@
}

/// A band parameter that is present and unknown.
pub open spec fn bad_band(v: Option<String>) -> bool {
    match v {
        Some(b) => !known_band(b@),
        None => false,
    }
}

/// The decimal of an accepted threshold.
pub open spec fn threshold_value(t: Threshold) -> Option<DecimalValue> {
    match t {
        Threshold::InRange(d) => Some(d),
        _ => None,
    }
}

/// Whether the request narrows the listed market at all: a single market,
/// an industry, a band or any threshold.
pub open spec fn has_filter(p: StockScreeningParams) -> bool {
    text_or(p.market, "all"@) != "all"@ || p.industry_id is Some || p.valuation_band is Some
        || !(p.min_revenue_yoy_percent is Absent) || !(p.min_eps is Absent)
        || !(p.min_roe_percent is Absent) || !(p.min_dividend_yield_percent is Absent)
}

/// The first rule a request breaks, as its message, in the order the
/// endpoint checks them; `None` when it breaks none.
pub open spec fn screening_error(p: StockScreeningParams) -> Option<Seq<char>> {
    let order = screen_order(text_or(p.sort_by, "stock_symbol"@), text_or(p.sort_order, "asc"@));
    let limit = num_or(opt_u8(p.limit), 20);
    if market_stats_id(text_or(p.market, "all"@)) is None {
        Some(market_error())
    } else if bad_industry(p.industry_id) {
        Some(industry_error())
    } else if bad_band(p.valuation_band) {
        Some("valuation_band 不在允許範圍"@)
    } else if p.min_revenue_yoy_percent is Rejected {
        Some("min_revenue_yoy_percent 必須介於 -100 至 10000"@)
    } else if p.min_eps is Rejected {
        Some("min_eps 必須介於 -10000 至 10000"@)
    } else if p.min_roe_percent is Rejected {
        Some("min_roe_percent 必須介於 -10000 至 10000"@)
    } else if p.min_dividend_yield_percent is Rejected {
        Some("min_dividend_yield_percent 必須介於 0 至 1000"@)
    } else {
        match order {
            Err(m) => Some(m),
            Ok(_) => if !(1 <= limit <= 50) {
                Some("limit 必須介於 1 至 50"@)
            } else if !has_filter(p) {
                Some("至少需要一個篩選條件"@)
            } else {
                None
            },
        }
    }
}

fn band_is_known(b: &str) -> (r: bool)
    ensures
        r == known_band(b@),
{
    str_equal(b, "undervalued") || str_equal(b, "fair_valued") || str_equal(b, "overvalued")
        || str_equal(b, "highly_overvalued")
}

fn threshold_of(t: Threshold) -> (r: Option<DecimalValue>)
    ensures
        r == threshold_value(t),
{
    match t {
        Threshold::InRange(d) => Some(d),
        _ => None,
    }
}

/// Checks the screening parameters (see [`screening_error`]) and gives
/// the values to bind.
pub fn validate_screening_params(p: &StockScreeningParams) -> (r: Result<ValidatedScreeningParams, ApiError>)
    ensures
        match r {
            Ok(v) => {
                &&& screening_error(*p) is None
                &&& market_stats_id(text_or(p.market, "all"@)) == Some(v.market_id)
                &&& v.min_revenue_yoy_percent == threshold_value(p.min_revenue_yoy_percent)
                &&& v.min_eps == threshold_value(p.min_eps)
                &&& v.min_roe_percent == threshold_value(p.min_roe_percent)
                &&& v.min_dividend_yield_percent == threshold_value(p.min_dividend_yield_percent)
                &&& screen_order(text_or(p.sort_by, "stock_symbol"@), text_or(p.sort_order, "asc"@))
                    == Ok::<Seq<char>, Seq<char>>(v.order_by@)
                &&& v.limit == num_or(opt_u8(p.limit), 20)
            },
            Err(e) => e.status == UNPROCESSABLE_ENTITY && screening_error(*p) == Some(e.message@),
        },
{
    let market = str_or(&p.market, "all");
    let market_id = match market_id_for_stocks(market) {
        Some(v) => v,
        None => {
            return Err(unprocessable("market 必須為 all、twse 或 tpex"));
        },
    };
    if let Some(v) = p.industry_id {
        if v <= 0 {
            return Err(unprocessable("industry_id 必須為正整數"));
        }
    }
    if let Some(b) = &p.valuation_band {
        if !band_is_known(b.as_str()) {
            return Err(unprocessable("valuation_band 不在允許範圍"));
        }
    }
    if let Threshold::Rejected = p.min_revenue_yoy_percent {
        return Err(unprocessable("min_revenue_yoy_percent 必須介於 -100 至 10000"));
    }
    if let Threshold::Rejected = p.min_eps {
        return Err(unprocessable("min_eps 必須介於 -10000 至 10000"));
    }
    if let Threshold::Rejected = p.min_roe_percent {
        return Err(unprocessable("min_roe_percent 必須介於 -10000 至 10000"));
    }
    if let Threshold::Rejected = p.min_dividend_yield_percent {
        return Err(unprocessable("min_dividend_yield_percent 必須介於 0 至 1000"));
    }
    let order_by = match screen_order_by(str_or(&p.sort_by, "stock_symbol"), str_or(&p.sort_order, "asc")) {
        Ok(v) => v,
        Err(m) => {
            return Err(unprocessable(m));
        },
    };
    let limit = match p.limit {
        Some(v) => v,
        None => 20,
    };
    if !(1 <= limit && limit <= 50) {
        return Err(unprocessable("limit 必須介於 1 至 50"));
    }
    let filtered = !str_equal(market, "all") || p.industry_id.is_some() || p.valuation_band.is_some()
        || !matches!(p.min_revenue_yoy_percent, Threshold::Absent)
        || !matches!(p.min_eps, Threshold::Absent)
        || !matches!(p.min_roe_percent, Threshold::Absent)
        || !matches!(p.min_dividend_yield_percent, Threshold::Absent);
    if !filtered {
        return Err(unprocessable("至少需要一個篩選條件"));
    }
    Ok(ValidatedScreeningParams {
        market_id,
        min_revenue_yoy_percent: threshold_of(p.min_revenue_yoy_percent),
        min_eps: threshold_of(p.min_eps),
        min_roe_percent: threshold_of(p.min_roe_percent),
        min_dividend_yield_percent: threshold_of(p.min_dividend_yield_percent),
        order_by,
        limit,
    })
}

// ---------------------------------------------------------------------------
// Freshness of the screened figures
// ---------------------------------------------------------------------------

/// How many months the query month is after the revenue month, counting
/// `year * 12 + month` on both sides; the revenue month is the database's
/// `YYYYMM` number, split by truncating division.
pub open spec fn revenue_lag(query: CalendarDate, revenue_month: int) -> int {
    (query.year * 12 + query.month) - (trunc_div(revenue_month, 100) * 12 + trunc_rem(revenue_month, 100))
}

/// A monthly revenue still counts when it is for the query month or one of
/// the three before it (across years too); a later month never counts.
pub open spec fn revenue_fresh(query: CalendarDate, revenue_month: int) -> bool {
    0 <= revenue_lag(query, revenue_month) <= 3
}

/// Whether a monthly revenue is fresh enough to screen on.
pub fn revenue_month_is_fresh(query_date: CalendarDate, revenue_month: i64) -> (r: bool)
    ensures
        r == revenue_fresh(query_date, revenue_month as int),
{
    let (year, month) = split_hundreds(revenue_month);
    let query_ordinal: i128 = query_date.year as i128 * 12 + query_date.month as i128;
    let revenue_ordinal: i128 = year as i128 * 12 + month as i128;
    let lag: i128 = query_ordinal - revenue_ordinal;
    0 <= lag && lag <= 3
}

/// The quarter number of a period such as `Q3`: the text after a leading
/// `Q`, read as an `i64`; `None` without the `Q` or a number.
pub open spec fn quarter_number(quarter: Seq<char>) -> Option<int> {
    if quarter.len() > 0 && quarter[0] == 'Q' {
        i64_text(quarter.skip(1))
    } else {
        None
    }
}

/// The quarter a day falls in, counted as `year * 4 + quarter`.
pub open spec fn quarter_ordinal(d: CalendarDate) -> int {
    d.year * 4 + (d.month - 1) / 3 + 1
}

/// A quarterly statement still counts when it is for the query's quarter
/// or one of the two before it; a later quarter or an unreadable quarter
/// never counts.
pub open spec fn financial_fresh(query: CalendarDate, year: int, quarter: Seq<char>) -> bool {
    match quarter_number(quarter) {
        Some(q) => 0 <= quarter_ordinal(query) - (year * 4 + q) <= 2,
        None => false,
    }
}

/// The `i64` arithmetic of the rule does not overflow: `year * 4`, the
/// statement's ordinal and its distance to the query's.
pub open spec fn financial_in_range(query: CalendarDate, year: int, quarter: Seq<char>) -> bool {
    match quarter_number(quarter) {
        Some(q) => {
            &&& i64::MIN <= year * 4 <= i64::MAX
            &&& i64::MIN <= year * 4 + q <= i64::MAX
            &&& i64::MIN <= quarter_ordinal(query) - (year * 4 + q) <= i64::MAX
        },
        None => true,
    }
}

/// Whether a quarterly statement is fresh enough to screen on.
pub fn financial_period_is_fresh(query_date: CalendarDate, year: i64, quarter: &str) -> (r: bool)
    requires
        query_date.valid(),
        financial_in_range(query_date, year as int, quarter@),
    ensures
        r == financial_fresh(query_date, year as int, quarter@),
{
    let v = chars_of(quarter);
    if v.len() == 0 || v[0] != 'Q' {
        return false;
    }
    proof {
        assert(v@.subrange(1, v@.len() as int) == quarter@.skip(1));
    }
    let q = match parse_i64_chars(&v, 1, v.len()) {
        Some(n) => n,
        None => {
            return false;
        },
    };
    let query_ordinal: i128 = query_date.year as i128 * 4 + ((query_date.month - 1) / 3) as i128 + 1;
    let financial_ordinal: i128 = year as i128 * 4 + q as i128;
    let lag: i128 = query_ordinal - financial_ordinal;
    0 <= lag && lag <= 2
}

/// A daily figure (valuation, yield) still counts when it is dated on the
/// query day or within the thirty days before it; a later day never counts.
pub open spec fn analytical_fresh(query: CalendarDate, source: CalendarDate) -> bool {
    &&& !query.before(source)
    &&& days_from_to(
        source.year as int,
        source.month as int,
        source.day as int,
        query.year as int,
        query.month as int,
        query.day as int,
    ) <= 30
}

/// Whether a daily figure is fresh enough to screen on.
pub fn analytical_date_is_fresh(query_date: CalendarDate, source_date: CalendarDate) -> (r: bool)
    requires
        query_date.valid(),
        source_date.valid(),
    ensures
        r == analytical_fresh(query_date, source_date),
{
    if query_date.is_before(&source_date) {
        return false;
    }
    days_between(source_date, query_date) <= 30
}

/// The period of a screened stock's latest statement as the answer shows
/// it: the year, `-`, and the quarter as the database writes it; none unless
/// both are there.
pub open spec fn financial_period_of(year: Option<i64>, quarter: Option<String>) -> Option<Seq<char>> {
    match (year, quarter) {
        (Some(y), Some(q)) => Some(signed_decimal(y as int) + seq!['-'] + q@),
        _ => None,
    }
}

/// Writes the period of a screened stock's latest statement.
pub fn financial_period_text(year: Option<i64>, quarter: Option<String>) -> (r: Option<String>)
    ensures
        match r {
            Some(t) => financial_period_of(year, quarter) == Some(t@),
            None => financial_period_of(year, quarter) is None,
        },
{
    match (year, quarter) {
        (Some(y), Some(q)) => {
            let mut t = String::new();
            push_signed_decimal(&mut t, y);
            push_char(&mut t, '-');
            push_str(&mut t, q.as_str());
            assert(t@ =~= signed_decimal(y as int) + seq!['-'] + q@);
            Some(t)
        },
        _ => None,
    }
}


/// The column a screening sort field orders by.
pub open spec fn sort_column(sort_by: Seq<char>) -> Option<Seq<char>> {
    if sort_by == "stock_symbol"@ {
        Some("stock_symbol"@)
    } else if sort_by == "revenue_yoy"@ {
        Some("revenue_yoy_percent"@)
    } else if sort_by == "eps"@ {
        Some("earnings_per_share"@)
    } else if sort_by == "roe"@ {
        Some("return_on_equity"@)
    } else if sort_by == "dividend_yield"@ {
        Some("dividend_yield_percent"@)
    } else if sort_by == "valuation_percentage"@ {
        Some("valuation_percentage"@)
    } else {
        None
    }
}

/// The SQL direction keyword of a sort order: `asc` is `ASC`, `desc` is
/// `DESC`.
pub open spec fn sort_direction(sort_order: Seq<char>) -> Option<Seq<char>> {
    if sort_order == "asc"@ {
        Some("ASC"@)
    } else if sort_order == "desc"@ {
        Some("DESC"@)
    } else {
        None
    }
}

/// Law: the clause orders by the column of the field asked for, in the
/// direction asked for (`desc` gives `<column> DESC`, `asc` gives
/// `<column> ASC`); every field but the symbol itself puts missing values
/// last and breaks ties by symbol, ascending. A clause exists exactly for
/// an allowed field and direction.
pub proof fn lemma_order_clause_follows_request(sort_by: Seq<char>, sort_order: Seq<char>)
    ensures
        screen_order(sort_by, sort_order) is Ok <==> (sort_column(sort_by) is Some && sort_direction(
            sort_order,
        ) is Some),
        match (sort_column(sort_by), sort_direction(sort_order)) {
            (Some(c), Some(d)) => screen_order(sort_by, sort_order) == Ok::<Seq<char>, Seq<char>>(
                "ORDER BY "@ + c + " "@ + d + if c == "stock_symbol"@ {
                    ""@
                } else {
                    " NULLS LAST, stock_symbol ASC"@
                },
            ),
            _ => true,
        },
{
    reveal_strlit("");
    reveal_strlit(" ");
    reveal_strlit(" NULLS LAST, stock_symbol ASC");
    reveal_strlit("ASC");
    reveal_strlit("DESC");
    reveal_strlit("ORDER BY ");
    reveal_strlit("ORDER BY dividend_yield_percent ASC NULLS LAST, stock_symbol ASC");
    reveal_strlit("ORDER BY dividend_yield_percent DESC NULLS LAST, stock_symbol ASC");
    reveal_strlit("ORDER BY earnings_per_share ASC NULLS LAST, stock_symbol ASC");
    reveal_strlit("ORDER BY earnings_per_share DESC NULLS LAST, stock_symbol ASC");
    reveal_strlit("ORDER BY return_on_equity ASC NULLS LAST, stock_symbol ASC");
    reveal_strlit("ORDER BY return_on_equity DESC NULLS LAST, stock_symbol ASC");
    reveal_strlit("ORDER BY revenue_yoy_percent ASC NULLS LAST, stock_symbol ASC");
    reveal_strlit("ORDER BY revenue_yoy_percent DESC NULLS LAST, stock_symbol ASC");
    reveal_strlit("ORDER BY stock_symbol ASC");
    reveal_strlit("ORDER BY stock_symbol DESC");
    reveal_strlit("ORDER BY valuation_percentage ASC NULLS LAST, stock_symbol ASC");
    reveal_strlit("ORDER BY valuation_percentage DESC NULLS LAST, stock_symbol ASC");
    reveal_strlit("dividend_yield_percent");
    reveal_strlit("earnings_per_share");
    reveal_strlit("return_on_equity");
    reveal_strlit("revenue_yoy_percent");
    reveal_strlit("stock_symbol");
    reveal_strlit("valuation_percentage");
    assert("ORDER BY stock_symbol ASC"@ =~= "ORDER BY "@ + "stock_symbol"@ + " "@ + "ASC"@ + ""@);
    assert("ORDER BY stock_symbol DESC"@ =~= "ORDER BY "@ + "stock_symbol"@ + " "@ + "DESC"@ + ""@);
    assert("ORDER BY revenue_yoy_percent ASC NULLS LAST, stock_symbol ASC"@ =~= "ORDER BY "@ + "revenue_yoy_percent"@ + " "@ + "ASC"@ + " NULLS LAST, stock_symbol ASC"@);
    assert("ORDER BY revenue_yoy_percent DESC NULLS LAST, stock_symbol ASC"@ =~= "ORDER BY "@ + "revenue_yoy_percent"@ + " "@ + "DESC"@ + " NULLS LAST, stock_symbol ASC"@);
    assert("ORDER BY earnings_per_share ASC NULLS LAST, stock_symbol ASC"@ =~= "ORDER BY "@ + "earnings_per_share"@ + " "@ + "ASC"@ + " NULLS LAST, stock_symbol ASC"@);
    assert("ORDER BY earnings_per_share DESC NULLS LAST, stock_symbol ASC"@ =~= "ORDER BY "@ + "earnings_per_share"@ + " "@ + "DESC"@ + " NULLS LAST, stock_symbol ASC"@);
    assert("ORDER BY return_on_equity ASC NULLS LAST, stock_symbol ASC"@ =~= "ORDER BY "@ + "return_on_equity"@ + " "@ + "ASC"@ + " NULLS LAST, stock_symbol ASC"@);
    assert("ORDER BY return_on_equity DESC NULLS LAST, stock_symbol ASC"@ =~= "ORDER BY "@ + "return_on_equity"@ + " "@ + "DESC"@ + " NULLS LAST, stock_symbol ASC"@);
    assert("ORDER BY dividend_yield_percent ASC NULLS LAST, stock_symbol ASC"@ =~= "ORDER BY "@ + "dividend_yield_percent"@ + " "@ + "ASC"@ + " NULLS LAST, stock_symbol ASC"@);
    assert("ORDER BY dividend_yield_percent DESC NULLS LAST, stock_symbol ASC"@ =~= "ORDER BY "@ + "dividend_yield_percent"@ + " "@ + "DESC"@ + " NULLS LAST, stock_symbol ASC"@);
    assert("ORDER BY valuation_percentage ASC NULLS LAST, stock_symbol ASC"@ =~= "ORDER BY "@ + "valuation_percentage"@ + " "@ + "ASC"@ + " NULLS LAST, stock_symbol ASC"@);
    assert("ORDER BY valuation_percentage DESC NULLS LAST, stock_symbol ASC"@ =~= "ORDER BY "@ + "valuation_percentage"@ + " "@ + "DESC"@ + " NULLS LAST, stock_symbol ASC"@);
}

} // verus!
