//! The per-stock fundamentals endpoints' parameter rules (monthly revenue,
//! financial statements, dividends, valuation) and their period labels.
use vstd::prelude::*;
use crate::api::{
    ApiError, date_error, month_error, month_number, opt_str, opt_string_view, opt_ymd,
    optional_date_outcome, parse_month, parse_optional_date, quarter_label, quarter_to_api, str_or,
    text_or, unprocessable, UNPROCESSABLE_ENTITY,
};
use crate::calendar::{CalendarDate, local_today};
use crate::market::{num_or, opt_i32, opt_u16};
use crate::order::str_equal;
use crate::text::{push_char, push_signed_decimal, push_str, signed_decimal, string_of};

verus! {

broadcast use vstd::string::group_string_axioms;

/// The monthly revenue endpoint's parameters.
pub struct RevenueHistoryParams {
    pub from: Option<String>,
    pub to: Option<String>,
    pub limit: Option<u16>,
}

/// A validated monthly revenue query, months as `YYYYMM` numbers.
pub struct RevenueHistoryQuery {
    pub from: Option<i64>,
    pub to: Option<i64>,
    pub limit: u16,
}

/// The month number of an optional month parameter: `Ok(None)` when
/// absent, `Err` when malformed.
pub open spec fn optional_month(v: Option<Seq<char>>) -> Result<Option<int>, ()> {
    match v {
        None => Ok(None),
        Some(s) => match month_number(s) {
            Some(n) => Ok(Some(n)),
            None => Err(()),
        },
    }
}

/// An optional `i64` as an optional integer.
pub open spec fn opt_i64(v: Option<i64>) -> Option<int> {
    match v {
        Some(x) => Some(x as int),
        None => None,
    }
}

/// Checks the revenue parameters in order: from, to (`YYYY-MM`), their
/// order, then limit (default 24, 1 to 120).
pub fn validate_revenue_history(p: &RevenueHistoryParams) -> (r: Result<RevenueHistoryQuery, ApiError>)
    ensures
        ({
            let f = optional_month(opt_string_view(p.from));
            let t = optional_month(opt_string_view(p.to));
            let limit = num_or(opt_u16(p.limit), 24);
            match r {
                Ok(q) => {
                    &&& f == Ok::<Option<int>, ()>(opt_i64(q.from))
                    &&& t == Ok::<Option<int>, ()>(opt_i64(q.to))
                    &&& !(q.from matches Some(a) && q.to matches Some(b) && a > b)
                    &&& q.limit == limit && 1 <= limit <= 120
                },
                Err(e) => {
                    &&& e.status == UNPROCESSABLE_ENTITY
                    &&& if f is Err || t is Err {
                        e.message@ == month_error()
                    } else if f->Ok_0 matches Some(a) && t->Ok_0 matches Some(b) && a > b {
                        e.message@ == "from 不可晚於 to"@
                    } else {
                        !(1 <= limit <= 120) && e.message@ == "limit 必須介於 1 至 120"@
                    }
                },
            }
        }),
{
    let from = match opt_str(&p.from) {
        None => None,
        Some(s) => match parse_month(s) {
            Ok(v) => Some(v),
            Err(m) => {
                return Err(unprocessable(m));
            },
        },
    };
    let to = match opt_str(&p.to) {
        None => None,
        Some(s) => match parse_month(s) {
            Ok(v) => Some(v),
            Err(m) => {
                return Err(unprocessable(m));
            },
        },
    };
    if let (Some(a), Some(b)) = (from, to) {
        if a > b {
            return Err(unprocessable("from 不可晚於 to"));
        }
    }
    let limit = match p.limit {
        Some(v) => v,
        None => 24,
    };
    if !(1 <= limit && limit <= 120) {
        return Err(unprocessable("limit 必須介於 1 至 120"));
    }
    Ok(RevenueHistoryQuery { from, to, limit })
}

/// The financial statements endpoint's parameters.
pub struct StatementHistoryParams {
    pub period_type: Option<String>,
    pub limit: Option<u16>,
}

/// A validated financial statements query.
pub struct StatementHistoryQuery {
    /// `quarterly`, `annual` or `all`.
    pub period_type: String,
    pub limit: u16,
}

/// The statement period types the endpoint knows.
pub open spec fn known_period_type(t: Seq<char>) -> bool {
    t == "quarterly"@ || t == "annual"@ || t == "all"@
}

/// Checks the statement parameters in order: period type (default
/// `quarterly`), then limit (default 12, 1 to 40).
pub fn validate_statement_history(p: &StatementHistoryParams) -> (r: Result<StatementHistoryQuery, ApiError>)
    ensures
        ({
            let kind = text_or(p.period_type, "quarterly"@);
            let limit = num_or(opt_u16(p.limit), 12);
            match r {
                Ok(q) => q.period_type@ == kind && known_period_type(kind) && q.limit == limit && 1
                    <= limit <= 40,
                Err(e) => {
                    &&& e.status == UNPROCESSABLE_ENTITY
                    &&& if !known_period_type(kind) {
                        e.message@ == "period_type 必須為 quarterly、annual 或 all"@
                    } else {
                        !(1 <= limit <= 40) && e.message@ == "limit 必須介於 1 至 40"@
                    }
                },
            }
        }),
{
    let kind = str_or(&p.period_type, "quarterly");
    if !(str_equal(kind, "quarterly") || str_equal(kind, "annual") || str_equal(kind, "all")) {
        return Err(unprocessable("period_type 必須為 quarterly、annual 或 all"));
    }
    let limit = match p.limit {
        Some(v) => v,
        None => 12,
    };
    if !(1 <= limit && limit <= 40) {
        return Err(unprocessable("limit 必須介於 1 至 40"));
    }
    Ok(StatementHistoryQuery { period_type: string_of(kind), limit })
}

/// The dividend history endpoint's parameters.
pub struct DividendHistoryParams {
    pub from_year: Option<i32>,
    pub to_year: Option<i32>,
    pub limit: Option<u16>,
}

/// A validated dividend history query.
pub struct DividendHistoryQuery {
    pub from_year: Option<i32>,
    pub to_year: Option<i32>,
    pub limit: u16,
}

/// A year parameter that is present and outside 1990 to `max_year`.
pub open spec fn bad_year(v: Option<i32>, max_year: int) -> bool {
    match v {
        Some(y) => !(1990 <= y <= max_year),
        None => false,
    }
}

/// What the dividend parameters come to for the current year
/// `current_year`, checked in order: each given year in 1990 to next year,
/// their order, then limit (default 20, 1 to 80).
pub open spec fn dividend_history_result(
    p: DividendHistoryParams,
    current_year: int,
    r: Result<DividendHistoryQuery, ApiError>,
) -> bool {
    let max_year = current_year + 1;
    let limit = num_or(opt_u16(p.limit), 20);
    let reversed = p.from_year matches Some(a) && p.to_year matches Some(b) && a > b;
    match r {
        Ok(q) => {
            &&& q.from_year == p.from_year && q.to_year == p.to_year
            &&& !bad_year(p.from_year, max_year) && !bad_year(p.to_year, max_year)
            &&& !reversed
            &&& q.limit == limit && 1 <= limit <= 80
        },
        Err(e) => {
            &&& e.status == UNPROCESSABLE_ENTITY
            &&& if bad_year(p.from_year, max_year) || bad_year(p.to_year, max_year) {
                e.message@ == "年度必須介於 1990 至目前年度加一"@
            } else if reversed {
                e.message@ == "from_year 不可晚於 to_year"@
            } else {
                !(1 <= limit <= 80) && e.message@ == "limit 必須介於 1 至 80"@
            }
        },
    }
}

/// Checks the dividend parameters in order, for the current year
/// `current_year` (see [`dividend_history_result`]).
pub fn validate_dividend_history(p: &DividendHistoryParams, current_year: i32) -> (r: Result<
    DividendHistoryQuery,
    ApiError,
>)
    requires
        current_year < i32::MAX,
    ensures
        dividend_history_result(*p, current_year as int, r),
{
    let max_year = current_year + 1;
    if let Some(y) = p.from_year {
        if !(1990 <= y && y <= max_year) {
            return Err(unprocessable("年度必須介於 1990 至目前年度加一"));
        }
    }
    if let Some(y) = p.to_year {
        if !(1990 <= y && y <= max_year) {
            return Err(unprocessable("年度必須介於 1990 至目前年度加一"));
        }
    }
    if let (Some(a), Some(b)) = (p.from_year, p.to_year) {
        if a > b {
            return Err(unprocessable("from_year 不可晚於 to_year"));
        }
    }
    let limit = match p.limit {
        Some(v) => v,
        None => 20,
    };
    if !(1 <= limit && limit <= 80) {
        return Err(unprocessable("limit 必須介於 1 至 80"));
    }
    Ok(DividendHistoryQuery { from_year: p.from_year, to_year: p.to_year, limit })
}

/// Checks the dividend parameters against the local clock's year: the
/// result is that of [`validate_dividend_history`] for the year of today,
/// which the clock gives (so the contract states it for some year).
pub fn validate_dividend_history_today(p: &DividendHistoryParams) -> (r: Result<
    DividendHistoryQuery,
    ApiError,
>)
    ensures
        exists|year: i32|
            #![trigger dividend_history_result(*p, year as int, r)]
            year < i32::MAX && dividend_history_result(*p, year as int, r),
{
    let today = local_today();
    let r = validate_dividend_history(p, today.year);
    assert(dividend_history_result(*p, today.year as int, r));
    r
}

/// The valuation endpoint's parameters.
pub struct ValuationParams {
    pub date: Option<String>,
}

/// Checks the valuation endpoint's optional date.
pub fn validate_valuation(p: &ValuationParams) -> (r: Result<Option<CalendarDate>, ApiError>)
    ensures
        match r {
            Ok(d) => optional_date_outcome(opt_string_view(p.date)) == Ok::<
                Option<(int, int, int)>,
                Seq<char>,
            >(opt_ymd(d)),
            Err(e) => e.status == UNPROCESSABLE_ENTITY && optional_date_outcome(
                opt_string_view(p.date),
            ) is Err && e.message@ == date_error(),
        },
{
    match parse_optional_date(opt_str(&p.date)) {
        Ok(d) => Ok(d),
        Err(m) => Err(unprocessable(m)),
    }
}

/// The label of a financial or dividend period: the year, `-`, and the
/// API's quarter label (`2025-Q3`, `2024-A`).
pub open spec fn period_label_text(year: int, quarter: Seq<char>) -> Seq<char> {
    signed_decimal(year) + seq!['-'] + quarter_label(quarter)
}

/// Writes a period label (the `data_as_of` of statements and dividends).
pub fn period_label(year: i64, quarter: &str) -> (r: String)
    ensures
        r@ == period_label_text(year as int, quarter@),
{
    let mut r = String::new();
    push_signed_decimal(&mut r, year);
    push_char(&mut r, '-');
    let q = quarter_to_api(quarter);
    push_str(&mut r, q.as_str());
    assert(r@ =~= period_label_text(year as int, quarter@));
    r
}

} // verus!
