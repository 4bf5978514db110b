//! The market endpoints' parameter rules (breadth, index history, dividend
//! yield and QFII rankings, dividend calendar) and the breadth response.
use vstd::prelude::*;
use crate::api::{
    ApiError, date_error, date_ymd, market_id_for_stats, market_id_for_stocks, market_stats_id,
    opt_str, opt_string_view, opt_ymd, optional_date_outcome, parse_optional_date, str_or,
    text_or, unprocessable, ymd_before, UNPROCESSABLE_ENTITY,
};
use crate::calendar::{
    CalendarDate, add_days, days_from_to, days_between, days_later, lemma_add_days_is_days_later,
    local_today, ymd,
};
use crate::order::str_equal;
use crate::text::string_of;

verus! {

broadcast use vstd::string::group_string_axioms;

/// One day of market breadth: counts of stocks per valuation band, above
/// and below each moving average, and by the day's direction.
#[derive(Clone, Debug, PartialEq)]
pub struct MarketBreadth {
    pub date: String,
    pub market: String,
    pub undervalued: i32,
    pub fair_valued: i32,
    pub overvalued: i32,
    pub highly_overvalued: i32,
    pub below_5_day_moving_average: i32,
    pub above_5_day_moving_average: i32,
    pub below_20_day_moving_average: i32,
    pub above_20_day_moving_average: i32,
    pub below_60_day_moving_average: i32,
    pub above_60_day_moving_average: i32,
    pub below_120_day_moving_average: i32,
    pub above_120_day_moving_average: i32,
    pub below_240_day_moving_average: i32,
    pub above_240_day_moving_average: i32,
    pub stocks_up: i32,
    pub stocks_down: i32,
    pub stocks_unchanged: i32,
    pub updated_at: Option<String>,
}

impl MarketBreadth {
    /// A copy of this day's figures.
    pub fn duplicate(&self) -> (r: MarketBreadth)
        ensures
            r == *self,
    {
        MarketBreadth {
            date: self.date.clone(),
            market: self.market.clone(),
            undervalued: self.undervalued,
            fair_valued: self.fair_valued,
            overvalued: self.overvalued,
            highly_overvalued: self.highly_overvalued,
            below_5_day_moving_average: self.below_5_day_moving_average,
            above_5_day_moving_average: self.above_5_day_moving_average,
            below_20_day_moving_average: self.below_20_day_moving_average,
            above_20_day_moving_average: self.above_20_day_moving_average,
            below_60_day_moving_average: self.below_60_day_moving_average,
            above_60_day_moving_average: self.above_60_day_moving_average,
            below_120_day_moving_average: self.below_120_day_moving_average,
            above_120_day_moving_average: self.above_120_day_moving_average,
            below_240_day_moving_average: self.below_240_day_moving_average,
            above_240_day_moving_average: self.above_240_day_moving_average,
            stocks_up: self.stocks_up,
            stocks_down: self.stocks_down,
            stocks_unchanged: self.stocks_unchanged,
            updated_at: match &self.updated_at {
                Some(t) => Some(t.clone()),
                None => None,
            },
        }
    }
}

/// The breadth answer: the latest day, its date, and the days asked for.
#[derive(Debug)]
pub struct MarketBreadthResponse {
    pub data_as_of: String,
    pub breadth: MarketBreadth,
    pub history: Vec<MarketBreadth>,
}

/// Wraps the days (newest first) into the answer, whose headline is the
/// first day; `None` when there is no day.
pub fn build_market_breadth_response(history: Vec<MarketBreadth>) -> (r: Option<
    MarketBreadthResponse,
>)
    ensures
        r is None <==> history@.len() == 0,
        r matches Some(resp) ==> {
            &&& resp.breadth == history@[0]
            &&& resp.data_as_of@ == history@[0].date@
            &&& resp.history@ == history@
        },
{
    if history.len() == 0 {
        return None;
    }
    let breadth = history[0].duplicate();
    let data_as_of = breadth.date.clone();
    Some(MarketBreadthResponse { data_as_of, breadth, history })
}

/// The message for an unknown market.
pub open spec fn market_error() -> Seq<char> {
    "market 必須為 all、twse 或 tpex"@
}

/// The breadth endpoint's parameters.
pub struct MarketBreadthParams {
    pub market: Option<String>,
    pub date: Option<String>,
    pub days: Option<u8>,
}

/// A validated breadth query.
pub struct MarketBreadthQuery {
    /// The market name, for the rows' `market` field.
    pub market: String,
    /// The statistics row id.
    pub market_id: i32,
    /// The last day to look at; the latest data when absent.
    pub date: Option<CalendarDate>,
    /// How many trading days, newest first.
    pub days: u8,
}

/// The value of an optional number, or `d`.
pub open spec fn num_or(v: Option<int>, d: int) -> int {
    match v {
        Some(x) => x,
        None => d,
    }
}

/// An optional `u8` as an optional integer.
pub open spec fn opt_u8(v: Option<u8>) -> Option<int> {
    match v {
        Some(x) => Some(x as int),
        None => None,
    }
}

/// An optional `u16` as an optional integer.
pub open spec fn opt_u16(v: Option<u16>) -> Option<int> {
    match v {
        Some(x) => Some(x as int),
        None => None,
    }
}

/// An optional `i32` as an optional integer.
pub open spec fn opt_i32(v: Option<i32>) -> Option<int> {
    match v {
        Some(x) => Some(x as int),
        None => None,
    }
}

/// Checks the breadth parameters in order: market (default `all`), date,
/// then days (default 1, 1 to 60).
pub fn validate_market_breadth(p: &MarketBreadthParams) -> (r: Result<MarketBreadthQuery, ApiError>)
    ensures
        match r {
            Ok(q) => {
                &&& q.market@ == text_or(p.market, "all"@)
                &&& market_stats_id(q.market@) == Some(q.market_id)
                &&& optional_date_outcome(opt_string_view(p.date)) == Ok::<
                    Option<(int, int, int)>,
                    Seq<char>,
                >(opt_ymd(q.date))
                &&& q.days == num_or(opt_u8(p.days), 1)
                &&& 1 <= q.days <= 60
            },
            Err(e) => {
                &&& e.status == UNPROCESSABLE_ENTITY
                &&& if market_stats_id(text_or(p.market, "all"@)) is None {
                    e.message@ == market_error()
                } else if optional_date_outcome(opt_string_view(p.date)) is Err {
                    e.message@ == date_error()
                } else {
                    !(1 <= num_or(opt_u8(p.days), 1) <= 60) && e.message@ == "days 必須介於 1 至 60"@
                }
            },
        },
{
    let market = str_or(&p.market, "all");
    let market_id = match market_id_for_stats(market) {
        Some(v) => v,
        None => {
            return Err(unprocessable("market 必須為 all、twse 或 tpex"));
        },
    };
    let date = match parse_optional_date(opt_str(&p.date)) {
        Ok(v) => v,
        Err(m) => {
            return Err(unprocessable(m));
        },
    };
    let days = match p.days {
        Some(d) => d,
        None => 1,
    };
    if !(1 <= days && days <= 60) {
        return Err(unprocessable("days 必須介於 1 至 60"));
    }
    Ok(MarketBreadthQuery { market: string_of(market), market_id, date, days })
}

/// The index history endpoint's parameters.
pub struct MarketIndexHistoryParams {
    pub from: Option<String>,
    pub to: Option<String>,
    pub limit: Option<u16>,
}

/// A validated index history query.
pub struct MarketIndexHistoryQuery {
    pub from: Option<CalendarDate>,
    pub to: Option<CalendarDate>,
    pub limit: u16,
}

/// The message for a range whose start is after its end.
pub open spec fn order_error() -> Seq<char> {
    "from 不可晚於 to"@
}

/// Whether both bounds are present and the start is after the end.
pub open spec fn reversed(
    a: Result<Option<(int, int, int)>, Seq<char>>,
    b: Result<Option<(int, int, int)>, Seq<char>>,
) -> bool {
    match (a, b) {
        (Ok(Some(x)), Ok(Some(y))) => ymd_before(y, x),
        _ => false,
    }
}

/// Checks the index history parameters in order: from, to (fixed-shape
/// dates), their order, then limit (default 30, 1 to 365).
pub fn validate_market_index_history(p: &MarketIndexHistoryParams) -> (r: Result<
    MarketIndexHistoryQuery,
    ApiError,
>)
    ensures
        ({
            let f = optional_date_outcome(opt_string_view(p.from));
            let t = optional_date_outcome(opt_string_view(p.to));
            let limit = num_or(opt_u16(p.limit), 30);
            match r {
                Ok(q) => {
                    &&& f == Ok::<Option<(int, int, int)>, Seq<char>>(opt_ymd(q.from))
                    &&& t == Ok::<Option<(int, int, int)>, Seq<char>>(opt_ymd(q.to))
                    &&& !reversed(f, t)
                    &&& q.limit == limit
                    &&& 1 <= limit <= 365
                },
                Err(e) => {
                    &&& e.status == UNPROCESSABLE_ENTITY
                    &&& if f is Err || t is Err {
                        e.message@ == date_error()
                    } else if reversed(f, t) {
                        e.message@ == order_error()
                    } else {
                        !(1 <= limit <= 365) && e.message@ == "limit 必須介於 1 至 365"@
                    }
                },
            }
        }),
{
    let from = match parse_optional_date(opt_str(&p.from)) {
        Ok(v) => v,
        Err(m) => {
            return Err(unprocessable(m));
        },
    };
    let to = match parse_optional_date(opt_str(&p.to)) {
        Ok(v) => v,
        Err(m) => {
            return Err(unprocessable(m));
        },
    };
    match (from, to) {
        (Some(a), Some(b)) => {
            if b.is_before(&a) {
                return Err(unprocessable("from 不可晚於 to"));
            }
        },
        _ => {},
    }
    let limit = match p.limit {
        Some(v) => v,
        None => 30,
    };
    if !(1 <= limit && limit <= 365) {
        return Err(unprocessable("limit 必須介於 1 至 365"));
    }
    Ok(MarketIndexHistoryQuery { from, to, limit })
}

/// The dividend yield ranking's parameters.
pub struct DividendYieldRankingParams {
    pub date: Option<String>,
    pub market: Option<String>,
    pub industry_id: Option<i32>,
    pub limit: Option<u8>,
}

/// A validated dividend yield ranking query.
pub struct DividendYieldRankingQuery {
    pub date: Option<CalendarDate>,
    /// 0 stands for both listed markets.
    pub market_id: i32,
    pub industry_id: Option<i32>,
    pub limit: u8,
}

/// The message for a non-positive industry id.
pub open spec fn industry_error() -> Seq<char> {
    "industry_id 必須為正整數"@
}

/// An industry id parameter that is present and not positive.
pub open spec fn bad_industry(v: Option<i32>) -> bool {
    match v {
        Some(x) => x <= 0,
        None => false,
    }
}

/// Checks the ranking parameters in order: date, market (default `all`),
/// industry (positive when given), then limit (default 20, 1 to 50).
pub fn validate_dividend_yield_ranking(p: &DividendYieldRankingParams) -> (r: Result<
    DividendYieldRankingQuery,
    ApiError,
>)
    ensures
        ({
            let d = optional_date_outcome(opt_string_view(p.date));
            let m = market_stats_id(text_or(p.market, "all"@));
            let limit = num_or(opt_u8(p.limit), 20);
            match r {
                Ok(q) => {
                    &&& d == Ok::<Option<(int, int, int)>, Seq<char>>(opt_ymd(q.date))
                    &&& m == Some(q.market_id)
                    &&& q.industry_id == p.industry_id && !bad_industry(p.industry_id)
                    &&& q.limit == limit && 1 <= limit <= 50
                },
                Err(e) => {
                    &&& e.status == UNPROCESSABLE_ENTITY
                    &&& if d is Err {
                        e.message@ == date_error()
                    } else if m is None {
                        e.message@ == market_error()
                    } else if bad_industry(p.industry_id) {
                        e.message@ == industry_error()
                    } else {
                        !(1 <= limit <= 50) && e.message@ == "limit 必須介於 1 至 50"@
                    }
                },
            }
        }),
{
    let date = match parse_optional_date(opt_str(&p.date)) {
        Ok(v) => v,
        Err(m) => {
            return Err(unprocessable(m));
        },
    };
    let market_id = match market_id_for_stocks(str_or(&p.market, "all")) {
        Some(v) => v,
        None => {
            return Err(unprocessable("market 必須為 all、twse 或 tpex"));
        },
    };
    if let Some(v) = p.industry_id {
        if v <= 0 {
            return Err(unprocessable("industry_id 必須為正整數"));
        }
    }
    let limit = match p.limit {
        Some(v) => v,
        None => 20,
    };
    if !(1 <= limit && limit <= 50) {
        return Err(unprocessable("limit 必須介於 1 至 50"));
    }
    Ok(DividendYieldRankingQuery { date, market_id, industry_id: p.industry_id, limit })
}

/// The `ORDER BY` of a QFII sort: by holding percentage or by shares held,
/// highest first, then by symbol.
pub open spec fn qfii_order(sort_by: Seq<char>) -> Option<Seq<char>> {
    if sort_by == "percentage"@ {
        Some("ORDER BY qfii_share_holding_percentage DESC, stock_symbol ASC"@)
    } else if sort_by == "shares"@ {
        Some("ORDER BY qfii_shares_held DESC, stock_symbol ASC"@)
    } else {
        None
    }
}

/// The fixed `ORDER BY` clause of a QFII sort; the caller's text never
/// reaches the SQL.
pub fn qfii_order_by(sort_by: &str) -> (r: Result<&'static str, &'static str>)
    ensures
        match r {
            Ok(o) => qfii_order(sort_by@) == Some(o@),
            Err(e) => qfii_order(sort_by@) is None && e@ == "sort_by 必須為 percentage 或 shares"@,
        },
{
    if str_equal(sort_by, "percentage") {
        Ok("ORDER BY qfii_share_holding_percentage DESC, stock_symbol ASC")
    } else if str_equal(sort_by, "shares") {
        Ok("ORDER BY qfii_shares_held DESC, stock_symbol ASC")
    } else {
        Err("sort_by 必須為 percentage 或 shares")
    }
}

/// The QFII ranking's parameters.
pub struct QfiiHoldingRankingParams {
    pub market: Option<String>,
    pub industry_id: Option<i32>,
    pub sort_by: Option<String>,
    pub limit: Option<u8>,
}

/// A validated QFII ranking query.
pub struct QfiiHoldingRankingQuery {
    /// 0 stands for both listed markets.
    pub market_id: i32,
    pub industry_id: Option<i32>,
    pub order_by: &'static str,
    pub limit: u8,
}

/// Checks the QFII parameters in order: market (default `all`), industry,
/// sort (default `percentage`), then limit (default 20, 1 to 50).
pub fn validate_qfii_holding_ranking(p: &QfiiHoldingRankingParams) -> (r: Result<
    QfiiHoldingRankingQuery,
    ApiError,
>)
    ensures
        ({
            let m = market_stats_id(text_or(p.market, "all"@));
            let o = qfii_order(text_or(p.sort_by, "percentage"@));
            let limit = num_or(opt_u8(p.limit), 20);
            match r {
                Ok(q) => {
                    &&& m == Some(q.market_id)
                    &&& q.industry_id == p.industry_id && !bad_industry(p.industry_id)
                    &&& o == Some(q.order_by@)
                    &&& q.limit == limit && 1 <= limit <= 50
                },
                Err(e) => {
                    &&& e.status == UNPROCESSABLE_ENTITY
                    &&& if m is None {
                        e.message@ == market_error()
                    } else if bad_industry(p.industry_id) {
                        e.message@ == industry_error()
                    } else if o is None {
                        e.message@ == "sort_by 必須為 percentage 或 shares"@
                    } else {
                        !(1 <= limit <= 50) && e.message@ == "limit 必須介於 1 至 50"@
                    }
                },
            }
        }),
{
    let market_id = match market_id_for_stocks(str_or(&p.market, "all")) {
        Some(v) => v,
        None => {
            return Err(unprocessable("market 必須為 all、twse 或 tpex"));
        },
    };
    if let Some(v) = p.industry_id {
        if v <= 0 {
            return Err(unprocessable("industry_id 必須為正整數"));
        }
    }
    let order_by = match qfii_order_by(str_or(&p.sort_by, "percentage")) {
        Ok(v) => v,
        Err(m) => {
            return Err(unprocessable(m));
        },
    };
    let limit = match p.limit {
        Some(v) => v,
        None => 20,
    };
    if !(1 <= limit && limit <= 50) {
        return Err(unprocessable("limit 必須介於 1 至 50"));
    }
    Ok(QfiiHoldingRankingQuery { market_id, industry_id: p.industry_id, order_by, limit })
}

/// The calendar window for the given bounds and today: the start defaults
/// to today, the end to 30 days after the start; the end may not be before
/// the start, nor more than 92 days after it.
pub open spec fn calendar_range(
    from: Option<(int, int, int)>,
    to: Option<(int, int, int)>,
    today: (int, int, int),
) -> Result<((int, int, int), (int, int, int)), Seq<char>> {
    let f = match from {
        Some(x) => x,
        None => today,
    };
    let t = match to {
        Some(y) => Some(y),
        None => days_later(f.0, f.1, f.2, 30),
    };
    match t {
        None => Err("日期超出可查詢範圍"@),
        Some(t) => if ymd_before(t, f) {
            Err("from 不可晚於 to"@)
        } else if days_from_to(f.0, f.1, f.2, t.0, t.1, t.2) > 92 {
            Err("查詢區間不可超過 92 天"@)
        } else {
            Ok((f, t))
        },
    }
}

/// Resolves the dividend calendar's window (see [`calendar_range`]).
pub fn resolve_calendar_range(
    from: Option<CalendarDate>,
    to: Option<CalendarDate>,
    today: CalendarDate,
) -> (r: Result<(CalendarDate, CalendarDate), &'static str>)
    requires
        from matches Some(x) ==> x.valid(),
        to matches Some(y) ==> y.valid(),
        today.valid(),
    ensures
        match r {
            Ok((a, b)) => calendar_range(opt_ymd(from), opt_ymd(to), date_ymd(today)) == Ok::<
                ((int, int, int), (int, int, int)),
                Seq<char>,
            >((date_ymd(a), date_ymd(b))) && a.valid() && b.valid(),
            Err(e) => calendar_range(opt_ymd(from), opt_ymd(to), date_ymd(today)) == Err::<
                ((int, int, int), (int, int, int)),
                Seq<char>,
            >(e@),
        },
{
    let f = match from {
        Some(x) => x,
        None => today,
    };
    let t = match to {
        Some(y) => y,
        None => match add_days(f, 30) {
            Some(y) => {
                proof {
                    lemma_add_days_is_days_later(f, 30, Some(y));
                }
                y
            },
            None => {
                proof {
                    lemma_add_days_is_days_later(f, 30, None);
                }
                return Err("日期超出可查詢範圍");
            },
        },
    };
    if t.is_before(&f) {
        return Err("from 不可晚於 to");
    }
    if days_between(f, t) > 92 {
        return Err("查詢區間不可超過 92 天");
    }
    Ok((f, t))
}

/// The dividend calendar's parameters.
pub struct DividendCalendarParams {
    pub from: Option<String>,
    pub to: Option<String>,
    pub event_type: Option<String>,
    pub limit: Option<u16>,
}

/// A validated dividend calendar query.
pub struct DividendCalendarQuery {
    pub from: CalendarDate,
    pub to: CalendarDate,
    pub event_type: String,
    pub limit: u16,
}

/// The event types the calendar knows.
pub open spec fn known_event_type(t: Seq<char>) -> bool {
    t == "ex_dividend"@ || t == "ex_rights"@ || t == "cash_payable"@ || t == "stock_payable"@ || t
        == "all"@
}

/// The unwrapped date of a successful optional date outcome.
pub open spec fn outcome_date(o: Result<Option<(int, int, int)>, Seq<char>>) -> Option<
    (int, int, int),
> {
    match o {
        Ok(d) => d,
        Err(_) => None,
    }
}

/// What the calendar parameters come to with `today` as the default
/// start, checked in order: from, to, the window, the event type (default
/// `all`), then limit (default 50, 1 to 200).
pub open spec fn dividend_calendar_result(
    p: DividendCalendarParams,
    today: CalendarDate,
    r: Result<DividendCalendarQuery, ApiError>,
) -> bool {
    let f = optional_date_outcome(opt_string_view(p.from));
    let t = optional_date_outcome(opt_string_view(p.to));
    let w = calendar_range(outcome_date(f), outcome_date(t), date_ymd(today));
    let kind = text_or(p.event_type, "all"@);
    let limit = num_or(opt_u16(p.limit), 50);
    match r {
        Ok(q) => {
            &&& f is Ok && t is Ok
            &&& w == Ok::<((int, int, int), (int, int, int)), Seq<char>>(
                (date_ymd(q.from), date_ymd(q.to)),
            )
            &&& q.event_type@ == kind && known_event_type(kind)
            &&& q.limit == limit && 1 <= limit <= 200
        },
        Err(e) => {
            &&& e.status == UNPROCESSABLE_ENTITY
            &&& if f is Err || t is Err {
                e.message@ == date_error()
            } else if w is Err {
                w == Err::<((int, int, int), (int, int, int)), Seq<char>>(e.message@)
            } else if !known_event_type(kind) {
                e.message@
                    == "event_type 必須為 ex_dividend、ex_rights、cash_payable、stock_payable 或 all"@
            } else {
                !(1 <= limit <= 200) && e.message@ == "limit 必須介於 1 至 200"@
            }
        },
    }
}

/// Checks the calendar parameters in order, with `today` as the default
/// start (see [`dividend_calendar_result`]).
pub fn validate_dividend_calendar(p: &DividendCalendarParams, today: CalendarDate) -> (r: Result<
    DividendCalendarQuery,
    ApiError,
>)
    requires
        today.valid(),
    ensures
        dividend_calendar_result(*p, today, r),
{
    let from = match parse_optional_date(opt_str(&p.from)) {
        Ok(v) => v,
        Err(m) => {
            return Err(unprocessable(m));
        },
    };
    let to = match parse_optional_date(opt_str(&p.to)) {
        Ok(v) => v,
        Err(m) => {
            return Err(unprocessable(m));
        },
    };
    let (a, b) = match resolve_calendar_range(from, to, today) {
        Ok(w) => w,
        Err(m) => {
            return Err(unprocessable(m));
        },
    };
    let kind = str_or(&p.event_type, "all");
    if !(str_equal(kind, "ex_dividend") || str_equal(kind, "ex_rights") || str_equal(
        kind,
        "cash_payable",
    ) || str_equal(kind, "stock_payable") || str_equal(kind, "all")) {
        return Err(
            unprocessable(
                "event_type 必須為 ex_dividend、ex_rights、cash_payable、stock_payable 或 all",
            ),
        );
    }
    let limit = match p.limit {
        Some(v) => v,
        None => 50,
    };
    if !(1 <= limit && limit <= 200) {
        return Err(unprocessable("limit 必須介於 1 至 200"));
    }
    Ok(DividendCalendarQuery { from: a, to: b, event_type: string_of(kind), limit })
}

/// Checks the calendar parameters with today's local date as the default
/// start: the result is that of [`validate_dividend_calendar`] for today,
/// which the clock gives (so the contract states it for some valid day).
pub fn validate_dividend_calendar_today(p: &DividendCalendarParams) -> (r: Result<
    DividendCalendarQuery,
    ApiError,
>)
    ensures
        exists|today: CalendarDate|
            #![trigger dividend_calendar_result(*p, today, r)]
            today.valid() && dividend_calendar_result(*p, today, r),
{
    let today = local_today();
    let r = validate_dividend_calendar(p, today);
    assert(dividend_calendar_result(*p, today, r));
    r
}

/// Law: a calendar window that is accepted never runs backwards and spans
/// at most 92 days; without an end it is the 30 days after the start.
pub proof fn lemma_calendar_window_bounded(
    from: Option<(int, int, int)>,
    to: Option<(int, int, int)>,
    today: (int, int, int),
    f: (int, int, int),
    t: (int, int, int),
)
    requires
        calendar_range(from, to, today) == Ok::<((int, int, int), (int, int, int)), Seq<char>>((f, t)),
    ensures
        !ymd_before(t, f),
        days_from_to(f.0, f.1, f.2, t.0, t.1, t.2) <= 92,
        f == (match from {
            Some(x) => x,
            None => today,
        }),
        to is None ==> days_later(f.0, f.1, f.2, 30) == Some(t),
{
}


/// Law: each of the five documented event types (`ex_dividend`,
/// `ex_rights`, `cash_payable`, `stock_payable`, `all`), like an absent one,
/// is accepted: with readable dates, a window the rules allow and a limit
/// in range, the calendar query succeeds and keeps the event type asked.
pub proof fn lemma_documented_event_types_are_accepted(
    p: DividendCalendarParams,
    today: CalendarDate,
    r: Result<DividendCalendarQuery, ApiError>,
)
    requires
        today.valid(),
        dividend_calendar_result(p, today, r),
        match p.event_type {
            Some(k) => k@ == "ex_dividend"@ || k@ == "ex_rights"@ || k@ == "cash_payable"@ || k@
                == "stock_payable"@ || k@ == "all"@,
            None => true,
        },
        optional_date_outcome(opt_string_view(p.from)) is Ok,
        optional_date_outcome(opt_string_view(p.to)) is Ok,
        calendar_range(
            outcome_date(optional_date_outcome(opt_string_view(p.from))),
            outcome_date(optional_date_outcome(opt_string_view(p.to))),
            date_ymd(today),
        ) is Ok,
        1 <= num_or(opt_u16(p.limit), 50) <= 200,
    ensures
        r matches Ok(q) && q.event_type@ == text_or(p.event_type, "all"@),
{
}

} // verus!
