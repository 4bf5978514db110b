//! The daily CAGR ranking: its periods, return measures and sort keys, the
//! rules for the ranking's query parameters, and the conversion of computed
//! results into the API's items (every amount a fixed-scale string).
use vstd::prelude::*;
use crate::api::{
    ApiError, date_error, opt_str, opt_string_view, opt_view, opt_ymd, optional_date_outcome,
    parse_optional_date, text_or, unprocessable, UNPROCESSABLE_ENTITY,
};
use crate::calendar::{CalendarDate, date_to_string, iso_date};
use crate::decimal::{DecimalValue, decimal_fixed, decimal_fixed_text};
use crate::market::{bad_industry, num_or, opt_u16};
use crate::order::str_equal;
use crate::text::{chars_of, i32_text, parse_i32_text, string_of, trim, trimmed};

verus! {

broadcast use vstd::string::group_string_axioms;

/// How far back a CAGR looks.
#[derive(Clone, Copy, PartialEq, Eq, Structural, Debug)]
pub enum CagrPeriod {
    M3,
    M6,
    Y1,
    Y1H,
    Y2,
    Y3,
    Y5,
    Y7,
    Y10,
}

/// Which return a CAGR measures.
#[derive(Clone, Copy, PartialEq, Eq, Structural, Debug)]
pub enum CagrMetric {
    /// Price only.
    Price,
    /// Price plus dividends, not reinvested (the main measure).
    Total,
    /// Price plus dividends, reinvested.
    Reinvested,
}

/// How the ranking is ordered.
#[derive(Clone, Copy, PartialEq, Eq, Structural, Debug)]
pub enum CagrSortKey {
    /// By annualised return.
    Cagr,
    /// By the period's total return.
    TotalReturn,
}

/// The code of a period.
pub open spec fn period_code(p: CagrPeriod) -> Seq<char> {
    match p {
        CagrPeriod::M3 => "M3"@,
        CagrPeriod::M6 => "M6"@,
        CagrPeriod::Y1 => "Y1"@,
        CagrPeriod::Y1H => "Y1H"@,
        CagrPeriod::Y2 => "Y2"@,
        CagrPeriod::Y3 => "Y3"@,
        CagrPeriod::Y5 => "Y5"@,
        CagrPeriod::Y7 => "Y7"@,
        CagrPeriod::Y10 => "Y10"@,
    }
}

/// The period with this code, if any (codes are case-sensitive).
pub open spec fn period_of_code(s: Seq<char>) -> Option<CagrPeriod> {
    if s == "M3"@ {
        Some(CagrPeriod::M3)
    } else if s == "M6"@ {
        Some(CagrPeriod::M6)
    } else if s == "Y1"@ {
        Some(CagrPeriod::Y1)
    } else if s == "Y1H"@ {
        Some(CagrPeriod::Y1H)
    } else if s == "Y2"@ {
        Some(CagrPeriod::Y2)
    } else if s == "Y3"@ {
        Some(CagrPeriod::Y3)
    } else if s == "Y5"@ {
        Some(CagrPeriod::Y5)
    } else if s == "Y7"@ {
        Some(CagrPeriod::Y7)
    } else if s == "Y10"@ {
        Some(CagrPeriod::Y10)
    } else {
        None
    }
}

/// The code of a metric.
pub open spec fn metric_code(m: CagrMetric) -> Seq<char> {
    match m {
        CagrMetric::Price => "price"@,
        CagrMetric::Total => "total"@,
        CagrMetric::Reinvested => "reinvested"@,
    }
}

/// The metric with this code, if any.
pub open spec fn metric_of_code(s: Seq<char>) -> Option<CagrMetric> {
    if s == "price"@ {
        Some(CagrMetric::Price)
    } else if s == "total"@ {
        Some(CagrMetric::Total)
    } else if s == "reinvested"@ {
        Some(CagrMetric::Reinvested)
    } else {
        None
    }
}

/// The code of a sort key.
pub open spec fn sort_code(k: CagrSortKey) -> Seq<char> {
    match k {
        CagrSortKey::Cagr => "cagr"@,
        CagrSortKey::TotalReturn => "total_return"@,
    }
}

/// The sort key with this code, if any.
pub open spec fn sort_of_code(s: Seq<char>) -> Option<CagrSortKey> {
    if s == "cagr"@ {
        Some(CagrSortKey::Cagr)
    } else if s == "total_return"@ {
        Some(CagrSortKey::TotalReturn)
    } else {
        None
    }
}

/// Whether a period offers the price-only metric: not the five- and
/// ten-year periods, where ignoring stock dividends understates too much.
pub open spec fn offers_price_metric(p: CagrPeriod) -> bool {
    !(p == CagrPeriod::Y5 || p == CagrPeriod::Y10)
}

/// Whether a period's results carry the survivorship-bias note (the five-
/// and ten-year periods).
pub open spec fn needs_coverage_disclosure(p: CagrPeriod) -> bool {
    p == CagrPeriod::Y5 || p == CagrPeriod::Y10
}

/// The default sort for a period: total return below a year, where
/// annualising inflates the figure, else the annualised return.
pub open spec fn default_sort(p: CagrPeriod) -> CagrSortKey {
    if p == CagrPeriod::M3 || p == CagrPeriod::M6 {
        CagrSortKey::TotalReturn
    } else {
        CagrSortKey::Cagr
    }
}

impl CagrPeriod {
    /// Every period, shortest first.
    pub fn all() -> (r: Vec<CagrPeriod>)
        ensures
            r@ == seq![
                CagrPeriod::M3,
                CagrPeriod::M6,
                CagrPeriod::Y1,
                CagrPeriod::Y1H,
                CagrPeriod::Y2,
                CagrPeriod::Y3,
                CagrPeriod::Y5,
                CagrPeriod::Y7,
                CagrPeriod::Y10,
            ],
    {
        vec![
            CagrPeriod::M3,
            CagrPeriod::M6,
            CagrPeriod::Y1,
            CagrPeriod::Y1H,
            CagrPeriod::Y2,
            CagrPeriod::Y3,
            CagrPeriod::Y5,
            CagrPeriod::Y7,
            CagrPeriod::Y10,
        ]
    }

    /// The period's code, such as `Y1H`.
    pub fn code(&self) -> (r: &'static str)
        ensures
            r@ == period_code(*self),
    {
        match self {
            CagrPeriod::M3 => "M3",
            CagrPeriod::M6 => "M6",
            CagrPeriod::Y1 => "Y1",
            CagrPeriod::Y1H => "Y1H",
            CagrPeriod::Y2 => "Y2",
            CagrPeriod::Y3 => "Y3",
            CagrPeriod::Y5 => "Y5",
            CagrPeriod::Y7 => "Y7",
            CagrPeriod::Y10 => "Y10",
        }
    }

    /// The period with this exact code.
    pub fn from_code(code: &str) -> (r: Option<CagrPeriod>)
        ensures
            r == period_of_code(code@),
    {
        if str_equal(code, "M3") {
            Some(CagrPeriod::M3)
        } else if str_equal(code, "M6") {
            Some(CagrPeriod::M6)
        } else if str_equal(code, "Y1") {
            Some(CagrPeriod::Y1)
        } else if str_equal(code, "Y1H") {
            Some(CagrPeriod::Y1H)
        } else if str_equal(code, "Y2") {
            Some(CagrPeriod::Y2)
        } else if str_equal(code, "Y3") {
            Some(CagrPeriod::Y3)
        } else if str_equal(code, "Y5") {
            Some(CagrPeriod::Y5)
        } else if str_equal(code, "Y7") {
            Some(CagrPeriod::Y7)
        } else if str_equal(code, "Y10") {
            Some(CagrPeriod::Y10)
        } else {
            None
        }
    }

    /// Whether the price-only metric is offered for this period.
    pub fn supports_price_metric(&self) -> (r: bool)
        ensures
            r == offers_price_metric(*self),
    {
        !matches!(self, CagrPeriod::Y5 | CagrPeriod::Y10)
    }

    /// Whether results of this period carry the survivorship-bias note.
    pub fn requires_coverage_disclosure(&self) -> (r: bool)
        ensures
            r == needs_coverage_disclosure(*self),
    {
        matches!(self, CagrPeriod::Y5 | CagrPeriod::Y10)
    }
}

impl CagrMetric {
    /// Every metric.
    pub fn all() -> (r: Vec<CagrMetric>)
        ensures
            r@ == seq![CagrMetric::Price, CagrMetric::Total, CagrMetric::Reinvested],
    {
        vec![CagrMetric::Price, CagrMetric::Total, CagrMetric::Reinvested]
    }

    /// The metric's code.
    pub fn code(&self) -> (r: &'static str)
        ensures
            r@ == metric_code(*self),
    {
        match self {
            CagrMetric::Price => "price",
            CagrMetric::Total => "total",
            CagrMetric::Reinvested => "reinvested",
        }
    }

    /// The metric with this exact code.
    pub fn from_code(code: &str) -> (r: Option<CagrMetric>)
        ensures
            r == metric_of_code(code@),
    {
        if str_equal(code, "price") {
            Some(CagrMetric::Price)
        } else if str_equal(code, "total") {
            Some(CagrMetric::Total)
        } else if str_equal(code, "reinvested") {
            Some(CagrMetric::Reinvested)
        } else {
            None
        }
    }
}

impl CagrSortKey {
    /// The sort key's code.
    pub fn code(&self) -> (r: &'static str)
        ensures
            r@ == sort_code(*self),
    {
        match self {
            CagrSortKey::Cagr => "cagr",
            CagrSortKey::TotalReturn => "total_return",
        }
    }

    /// The sort key with this exact code.
    pub fn from_code(code: &str) -> (r: Option<CagrSortKey>)
        ensures
            r == sort_of_code(code@),
    {
        if str_equal(code, "cagr") {
            Some(CagrSortKey::Cagr)
        } else if str_equal(code, "total_return") {
            Some(CagrSortKey::TotalReturn)
        } else {
            None
        }
    }

    /// The sort used when none is asked for.
    pub fn default_for(period: CagrPeriod) -> (r: CagrSortKey)
        ensures
            r == default_sort(period),
    {
        match period {
            CagrPeriod::M3 | CagrPeriod::M6 => CagrSortKey::TotalReturn,
            _ => CagrSortKey::Cagr,
        }
    }
}

/// Law: every period's code reads back as that period, and every metric's
/// and sort key's likewise.
pub proof fn lemma_codes_round_trip(p: CagrPeriod, m: CagrMetric, k: CagrSortKey)
    ensures
        period_of_code(period_code(p)) == Some(p),
        metric_of_code(metric_code(m)) == Some(m),
        sort_of_code(sort_code(k)) == Some(k),
{
    reveal_strlit("M3");
    reveal_strlit("M6");
    reveal_strlit("Y1");
    reveal_strlit("Y1H");
    reveal_strlit("Y2");
    reveal_strlit("Y3");
    reveal_strlit("Y5");
    reveal_strlit("Y7");
    reveal_strlit("Y10");
    reveal_strlit("price");
    reveal_strlit("total");
    reveal_strlit("reinvested");
    reveal_strlit("cagr");
    reveal_strlit("total_return");
    let c = period_code(p);
    assert(c.len() >= 2);
    if c[0] == 'M' {
        assert(c != "Y1"@ && c != "Y1H"@ && c != "Y2"@ && c != "Y3"@ && c != "Y5"@);
        assert(c != "Y7"@ && c != "Y10"@);
        if c[1] == '6' {
            assert(c != "M3"@);
        }
    } else {
        assert(c != "M3"@ && c != "M6"@);
        if c.len() == 3 {
            assert(c != "Y1"@ && c != "Y2"@ && c != "Y3"@ && c != "Y5"@ && c != "Y7"@);
            if c[1] == '1' && c[2] == '0' {
                assert(c != "Y1H"@);
            }
        } else {
            assert(c != "Y1H"@ && c != "Y10"@);
            if c[1] != '1' {
                assert(c != "Y1"@);
            }
            if c[1] != '2' {
                assert(c != "Y2"@);
            }
            if c[1] != '3' {
                assert(c != "Y3"@);
            }
            if c[1] != '5' {
                assert(c != "Y5"@);
            }
        }
    }
    let mc = metric_code(m);
    assert(mc[0] == 'r' ==> mc != "price"@ && mc != "total"@);
    assert(mc[0] == 't' ==> mc != "price"@);
    let kc = sort_code(k);
    assert(kc.len() > 4 ==> kc != "cagr"@);
}

/// The text of an optional parameter, or `default`.
pub open spec fn opt_text_or(v: Option<Seq<char>>, default: Seq<char>) -> Seq<char> {
    match v {
        Some(s) => s,
        None => default,
    }
}

/// The message for an unknown period.
pub open spec fn period_error() -> Seq<char> {
    "period 必須為 M3、M6、Y1、Y1H、Y2、Y3、Y5、Y7 或 Y10"@
}

/// The message for an unknown metric.
pub open spec fn metric_error() -> Seq<char> {
    "metric 必須為 price、total 或 reinvested"@
}

/// Reads the `period` parameter; `Y1` when absent.
pub fn parse_cagr_period(value: Option<&str>) -> (r: Result<CagrPeriod, &'static str>)
    ensures
        match r {
            Ok(p) => period_of_code(opt_text_or(opt_view(value), "Y1"@)) == Some(p),
            Err(e) => period_of_code(opt_text_or(opt_view(value), "Y1"@)) is None && e@
                == period_error(),
        },
{
    let code = match value {
        Some(v) => v,
        None => "Y1",
    };
    match CagrPeriod::from_code(code) {
        Some(p) => Ok(p),
        None => Err("period 必須為 M3、M6、Y1、Y1H、Y2、Y3、Y5、Y7 或 Y10"),
    }
}

/// Reads the `metric` parameter; `total` when absent.
pub fn parse_cagr_metric(value: Option<&str>) -> (r: Result<CagrMetric, &'static str>)
    ensures
        match r {
            Ok(m) => metric_of_code(opt_text_or(opt_view(value), "total"@)) == Some(m),
            Err(e) => metric_of_code(opt_text_or(opt_view(value), "total"@)) is None && e@
                == metric_error(),
        },
{
    let code = match value {
        Some(v) => v,
        None => "total",
    };
    match CagrMetric::from_code(code) {
        Some(m) => Ok(m),
        None => Err("metric 必須為 price、total 或 reinvested"),
    }
}

/// The market filter of a `market` value: `all` none, `twse` 2, `tpex` 4,
/// or any positive market id written as an integer.
pub open spec fn cagr_market(m: Seq<char>) -> Result<Option<i32>, ()> {
    if m == "all"@ {
        Ok(None)
    } else if m == "twse"@ {
        Ok(Some(2))
    } else if m == "tpex"@ {
        Ok(Some(4))
    } else {
        match i32_text(m) {
            Some(v) => if v > 0 {
                Ok(Some(v as i32))
            } else {
                Err(())
            },
            None => Err(()),
        }
    }
}

/// The message for a bad `market` value.
pub open spec fn cagr_market_error() -> Seq<char> {
    "market 必須為 all、twse、tpex 或正整數市場編號"@
}

/// Reads the ranking's `market` filter; `all` filters nothing, so that
/// the page agrees with the coverage counts of the whole universe.
pub fn cagr_market_id(market: &str) -> (r: Result<Option<i32>, &'static str>)
    ensures
        match r {
            Ok(v) => cagr_market(market@) == Ok::<Option<i32>, ()>(v),
            Err(e) => cagr_market(market@) is Err && e@ == cagr_market_error(),
        },
{
    if str_equal(market, "all") {
        Ok(None)
    } else if str_equal(market, "twse") {
        Ok(Some(2))
    } else if str_equal(market, "tpex") {
        Ok(Some(4))
    } else {
        match parse_i32_text(market) {
            Some(v) => if v > 0 {
                Ok(Some(v))
            } else {
                Err("market 必須為 all、twse、tpex 或正整數市場編號")
            },
            None => Err("market 必須為 all、twse、tpex 或正整數市場編號"),
        }
    }
}

/// The keyword filter: trimmed; absent when empty; at most 50 characters.
pub open spec fn cagr_keyword(v: Option<Seq<char>>) -> Result<Option<Seq<char>>, ()> {
    match v {
        None => Ok(None),
        Some(s) => {
            let t = trimmed(s);
            if t.len() == 0 {
                Ok(None)
            } else if t.len() > 50 {
                Err(())
            } else {
                Ok(Some(t))
            }
        },
    }
}

/// The message for an overlong keyword.
pub open spec fn keyword_error() -> Seq<char> {
    "keyword 長度必須介於 1 至 50 字元"@
}

/// The view of an optional `String`, as an optional text.
pub open spec fn opt_owned_view(v: Option<String>) -> Option<Seq<char>> {
    match v {
        Some(s) => Some(s@),
        None => None,
    }
}

/// Normalises the keyword filter (see [`cagr_keyword`]).
pub fn normalize_cagr_keyword(keyword: Option<&str>) -> (r: Result<Option<String>, &'static str>)
    ensures
        match r {
            Ok(v) => cagr_keyword(opt_view(keyword)) == Ok::<Option<Seq<char>>, ()>(
                opt_owned_view(v),
            ),
            Err(e) => cagr_keyword(opt_view(keyword)) is Err && e@ == keyword_error(),
        },
{
    match keyword {
        None => Ok(None),
        Some(k) => {
            let t = trim(k);
            let n = chars_of(t.as_str()).len();
            if n == 0 {
                Ok(None)
            } else if n > 50 {
                Err("keyword 長度必須介於 1 至 50 字元")
            } else {
                Ok(Some(t))
            }
        },
    }
}

/// The ranking endpoint's parameters.
pub struct CagrRankingParams {
    pub period: Option<String>,
    pub metric: Option<String>,
    pub sort: Option<String>,
    pub market: Option<String>,
    pub stock_industry_id: Option<i32>,
    pub keyword: Option<String>,
    pub include_incomplete: Option<bool>,
    pub limit: Option<u16>,
    pub offset: Option<u32>,
    pub date: Option<String>,
}

/// A validated ranking query. The date is the one asked for; when absent
/// the latest computed date is used.
pub struct CagrRankingQuery {
    pub date: Option<CalendarDate>,
    pub period: CagrPeriod,
    pub metric: CagrMetric,
    pub sort: CagrSortKey,
    pub market_id: Option<i32>,
    pub industry_id: Option<i32>,
    pub keyword: Option<String>,
    pub include_incomplete: bool,
    pub limit: i64,
    pub offset: i64,
}

/// The message for the price-only metric on a long period.
pub open spec fn price_metric_error() -> Seq<char> {
    "長期間不提供純價格口徑：近十年每年皆有 134–216 檔股票配股,忽略配股在長期間的低估幅度顯著,請改用 total 或 reinvested"@
}

/// The sort of the request: the period's default when absent.
pub open spec fn requested_sort(v: Option<String>, p: CagrPeriod) -> Option<CagrSortKey> {
    match v {
        None => Some(default_sort(p)),
        Some(s) => sort_of_code(s@),
    }
}

/// The first rule a ranking request breaks, as its message, in the order
/// the endpoint checks them; `None` when it breaks none.
pub open spec fn cagr_ranking_error(p: CagrRankingParams) -> Option<Seq<char>> {
    let period = period_of_code(text_or(p.period, "Y1"@));
    let metric = metric_of_code(text_or(p.metric, "total"@));
    let limit = num_or(opt_u16(p.limit), 50);
    if period is None {
        Some(period_error())
    } else if metric is None {
        Some(metric_error())
    } else if metric == Some(CagrMetric::Price) && !offers_price_metric(period->Some_0) {
        Some(price_metric_error())
    } else if requested_sort(p.sort, period->Some_0) is None {
        Some("sort 必須為 cagr 或 total_return"@)
    } else if cagr_market(text_or(p.market, "all"@)) is Err {
        Some(cagr_market_error())
    } else if bad_industry(p.stock_industry_id) {
        Some("stock_industry_id 必須為正整數"@)
    } else if cagr_keyword(opt_string_view(p.keyword)) is Err {
        Some(keyword_error())
    } else if !(1 <= limit <= 200) {
        Some("limit 必須介於 1 至 200"@)
    } else if optional_date_outcome(opt_string_view(p.date)) is Err {
        Some(date_error())
    } else {
        None
    }
}

/// Checks the ranking parameters (see [`cagr_ranking_error`]) and gives
/// the query.
pub fn validate_cagr_ranking(p: &CagrRankingParams) -> (r: Result<CagrRankingQuery, ApiError>)
    ensures
        match r {
            Ok(q) => {
                &&& cagr_ranking_error(*p) is None
                &&& period_of_code(text_or(p.period, "Y1"@)) == Some(q.period)
                &&& metric_of_code(text_or(p.metric, "total"@)) == Some(q.metric)
                &&& requested_sort(p.sort, q.period) == Some(q.sort)
                &&& cagr_market(text_or(p.market, "all"@)) == Ok::<Option<i32>, ()>(q.market_id)
                &&& q.industry_id == p.stock_industry_id
                &&& cagr_keyword(opt_string_view(p.keyword)) == Ok::<Option<Seq<char>>, ()>(
                    opt_owned_view(q.keyword),
                )
                &&& q.include_incomplete == match p.include_incomplete {
                    Some(b) => b,
                    None => true,
                }
                &&& q.limit == num_or(opt_u16(p.limit), 50)
                &&& q.offset == match p.offset {
                    Some(o) => o as int,
                    None => 0,
                }
                &&& optional_date_outcome(opt_string_view(p.date)) == Ok::<
                    Option<(int, int, int)>,
                    Seq<char>,
                >(opt_ymd(q.date))
            },
            Err(e) => e.status == UNPROCESSABLE_ENTITY && cagr_ranking_error(*p) == Some(e.message@),
        },
{
    let period = match parse_cagr_period(opt_str(&p.period)) {
        Ok(v) => v,
        Err(m) => {
            return Err(unprocessable(m));
        },
    };
    let metric = match parse_cagr_metric(opt_str(&p.metric)) {
        Ok(v) => v,
        Err(m) => {
            return Err(unprocessable(m));
        },
    };
    if metric == CagrMetric::Price && !period.supports_price_metric() {
        return Err(
            unprocessable(
                "長期間不提供純價格口徑：近十年每年皆有 134–216 檔股票配股,忽略配股在長期間的低估幅度顯著,請改用 total 或 reinvested",
            ),
        );
    }
    let sort = match &p.sort {
        None => CagrSortKey::default_for(period),
        Some(code) => match CagrSortKey::from_code(code.as_str()) {
            Some(v) => v,
            None => {
                return Err(unprocessable("sort 必須為 cagr 或 total_return"));
            },
        },
    };
    let market = match &p.market {
        Some(m) => m.as_str(),
        None => "all",
    };
    let market_id = match cagr_market_id(market) {
        Ok(v) => v,
        Err(m) => {
            return Err(unprocessable(m));
        },
    };
    if let Some(v) = p.stock_industry_id {
        if v <= 0 {
            return Err(unprocessable("stock_industry_id 必須為正整數"));
        }
    }
    let keyword = match normalize_cagr_keyword(opt_str(&p.keyword)) {
        Ok(v) => v,
        Err(m) => {
            return Err(unprocessable(m));
        },
    };
    let limit = match p.limit {
        Some(v) => v,
        None => 50,
    };
    if !(1 <= limit && limit <= 200) {
        return Err(unprocessable("limit 必須介於 1 至 200"));
    }
    let offset = match p.offset {
        Some(v) => v,
        None => 0,
    };
    let date = match parse_optional_date(opt_str(&p.date)) {
        Ok(v) => v,
        Err(m) => {
            return Err(unprocessable(m));
        },
    };
    Ok(CagrRankingQuery {
        date,
        period,
        metric,
        sort,
        market_id,
        industry_id: p.stock_industry_id,
        keyword,
        include_incomplete: match p.include_incomplete {
            Some(b) => b,
            None => true,
        },
        limit: limit as i64,
        offset: offset as i64,
    })
}

/// The single-stock endpoint's parameters.
pub struct CagrSymbolParams {
    pub metric: Option<String>,
    pub date: Option<String>,
}

/// Checks the single-stock parameters in order: metric (default `total`),
/// then date.
pub fn validate_cagr_symbol(p: &CagrSymbolParams) -> (r: Result<(CagrMetric, Option<CalendarDate>), ApiError>)
    ensures
        match r {
            Ok((m, d)) => {
                &&& metric_of_code(text_or(p.metric, "total"@)) == Some(m)
                &&& optional_date_outcome(opt_string_view(p.date)) == Ok::<
                    Option<(int, int, int)>,
                    Seq<char>,
                >(opt_ymd(d))
            },
            Err(e) => {
                &&& e.status == UNPROCESSABLE_ENTITY
                &&& if metric_of_code(text_or(p.metric, "total"@)) is None {
                    e.message@ == metric_error()
                } else {
                    optional_date_outcome(opt_string_view(p.date)) is Err && e.message@ == date_error()
                }
            },
        },
{
    let metric = match parse_cagr_metric(opt_str(&p.metric)) {
        Ok(v) => v,
        Err(m) => {
            return Err(unprocessable(m));
        },
    };
    let date = match parse_optional_date(opt_str(&p.date)) {
        Ok(v) => v,
        Err(m) => {
            return Err(unprocessable(m));
        },
    };
    Ok((metric, date))
}

/// The simulated investment of one metric over one period.
#[derive(Clone, Copy, PartialEq, Eq, Structural, Debug)]
pub struct SimulationOutcome {
    /// Shares held at the end (stock dividends included).
    pub end_shares: DecimalValue,
    /// Cash dividends received.
    pub cash_received: DecimalValue,
    /// Value at the end.
    pub end_value: DecimalValue,
    /// Total return of the period, in percent.
    pub total_return_pct: DecimalValue,
    /// Annualised return, in percent.
    pub cagr_pct: DecimalValue,
}

/// The computed CAGR of one stock, one period, one calculation date.
#[derive(Debug)]
pub struct StockCagr {
    pub date: CalendarDate,
    pub stock_symbol: String,
    pub period: CagrPeriod,
    /// The trading day actually used as the start.
    pub base_date: Option<CalendarDate>,
    pub base_price: Option<DecimalValue>,
    pub end_price: Option<DecimalValue>,
    /// Years between the start and the end trading day.
    pub years: Option<DecimalValue>,
    pub price: Option<SimulationOutcome>,
    pub total: Option<SimulationOutcome>,
    pub reinvested: Option<SimulationOutcome>,
    pub first_quote_date: Option<CalendarDate>,
    /// Days the start was pushed past the nominal start.
    pub shortfall_days: Option<i32>,
    pub data_complete: bool,
    pub has_anomaly: bool,
    pub dividend_events: i32,
}

/// An optional decimal within `rust_decimal`'s range.
pub open spec fn opt_dec_wf(v: Option<DecimalValue>) -> bool {
    match v {
        Some(d) => d.wf(),
        None => true,
    }
}

/// An optional outcome whose decimals are within range.
pub open spec fn opt_outcome_wf(v: Option<SimulationOutcome>) -> bool {
    match v {
        Some(o) => o.end_shares.wf() && o.cash_received.wf() && o.end_value.wf()
            && o.total_return_pct.wf() && o.cagr_pct.wf(),
        None => true,
    }
}

/// An optional date that is a real day.
pub open spec fn opt_date_valid(v: Option<CalendarDate>) -> bool {
    match v {
        Some(d) => d.valid(),
        None => true,
    }
}

impl StockCagr {
    /// Every decimal within range and every date a real day, as values read
    /// from the database are.
    pub open spec fn wf(self) -> bool {
        &&& self.date.valid()
        &&& opt_date_valid(self.base_date)
        &&& opt_date_valid(self.first_quote_date)
        &&& opt_dec_wf(self.base_price)
        &&& opt_dec_wf(self.end_price)
        &&& opt_dec_wf(self.years)
        &&& opt_outcome_wf(self.price)
        &&& opt_outcome_wf(self.total)
        &&& opt_outcome_wf(self.reinvested)
    }
}

/// The outcome of the chosen metric.
pub open spec fn outcome_of(r: StockCagr, m: CagrMetric) -> Option<SimulationOutcome> {
    match m {
        CagrMetric::Price => r.price,
        CagrMetric::Total => r.total,
        CagrMetric::Reinvested => r.reinvested,
    }
}

/// The outcome of the chosen metric; `None` when that metric could not be
/// computed.
pub fn cagr_outcome(record: &StockCagr, metric: CagrMetric) -> (r: Option<SimulationOutcome>)
    ensures
        r == outcome_of(*record, metric),
{
    match metric {
        CagrMetric::Price => record.price,
        CagrMetric::Total => record.total,
        CagrMetric::Reinvested => record.reinvested,
    }
}

/// An optional decimal written with `places` fractional digits.
pub open spec fn fixed_text(v: Option<DecimalValue>, places: int) -> Option<Seq<char>> {
    match v {
        Some(d) => Some(decimal_fixed_text(d.mantissa as int, d.scale as int, places)),
        None => None,
    }
}

/// An amount or ratio as a string with four fractional digits (strings,
/// because a JSON number would pass through `f64`).
pub fn decimal_ratio(value: Option<DecimalValue>) -> (r: Option<String>)
    requires
        opt_dec_wf(value),
    ensures
        opt_owned_view(r) == fixed_text(value, 4),
{
    match value {
        Some(d) => Some(decimal_fixed(d, 4)),
        None => None,
    }
}

/// A share count as a string with eight fractional digits (stock dividends
/// leave fractions of a share).
pub fn decimal_shares(value: Option<DecimalValue>) -> (r: Option<String>)
    requires
        opt_dec_wf(value),
    ensures
        opt_owned_view(r) == fixed_text(value, 8),
{
    match value {
        Some(d) => Some(decimal_fixed(d, 8)),
        None => None,
    }
}

/// An optional date as `YYYY-MM-DD`.
pub open spec fn date_text(v: Option<CalendarDate>) -> Option<Seq<char>> {
    match v {
        Some(d) => Some(iso_date(d)),
        None => None,
    }
}

/// Writes an optional date as `YYYY-MM-DD`.
pub fn opt_date_string(v: Option<CalendarDate>) -> (r: Option<String>)
    ensures
        opt_owned_view(r) == date_text(v),
{
    match v {
        Some(d) => Some(date_to_string(d)),
        None => None,
    }
}

/// A field of an optional outcome.
pub open spec fn field_of(o: Option<SimulationOutcome>, f: spec_fn(SimulationOutcome) -> DecimalValue) -> Option<DecimalValue> {
    match o {
        Some(x) => Some(f(x)),
        None => None,
    }
}

/// One row of the ranking as the ranking query gives it.
#[derive(Debug)]
pub struct CagrRankingEntry {
    pub cagr: StockCagr,
    pub name: String,
    pub industry_id: i32,
    /// Rank in the whole, unfiltered market; `None` for incomplete rows.
    pub rank: Option<i64>,
}

/// One row of the ranking as the API gives it.
#[derive(Debug)]
pub struct CagrRankingItem {
    pub rank: Option<i64>,
    pub stock_symbol: String,
    pub name: String,
    pub stock_industry_id: i32,
    pub base_date: Option<String>,
    pub first_quote_date: Option<String>,
    pub shortfall_days: Option<i32>,
    pub base_price: Option<String>,
    pub end_price: Option<String>,
    pub end_shares: Option<String>,
    pub cash_received: Option<String>,
    pub end_value: Option<String>,
    pub total_return_pct: Option<String>,
    pub cagr_pct: Option<String>,
    pub dividend_events: i32,
    pub data_complete: bool,
    pub has_anomaly: bool,
}

/// `dto` holds the result figures of `r` for metric `m`: dates as
/// `YYYY-MM-DD`, prices and amounts with four decimals, shares with eight;
/// a metric that could not be computed leaves its figures `None`.
pub open spec fn figures_match(
    r: StockCagr,
    m: CagrMetric,
    base_date: Option<String>,
    first_quote_date: Option<String>,
    base_price: Option<String>,
    end_price: Option<String>,
    end_shares: Option<String>,
    cash_received: Option<String>,
    end_value: Option<String>,
    total_return_pct: Option<String>,
    cagr_pct: Option<String>,
) -> bool {
    let o = outcome_of(r, m);
    &&& opt_owned_view(base_date) == date_text(r.base_date)
    &&& opt_owned_view(first_quote_date) == date_text(r.first_quote_date)
    &&& opt_owned_view(base_price) == fixed_text(r.base_price, 4)
    &&& opt_owned_view(end_price) == fixed_text(r.end_price, 4)
    &&& opt_owned_view(end_shares) == fixed_text(field_of(o, |x: SimulationOutcome| x.end_shares), 8)
    &&& opt_owned_view(cash_received) == fixed_text(field_of(o, |x: SimulationOutcome| x.cash_received), 4)
    &&& opt_owned_view(end_value) == fixed_text(field_of(o, |x: SimulationOutcome| x.end_value), 4)
    &&& opt_owned_view(total_return_pct) == fixed_text(
        field_of(o, |x: SimulationOutcome| x.total_return_pct),
        4,
    )
    &&& opt_owned_view(cagr_pct) == fixed_text(field_of(o, |x: SimulationOutcome| x.cagr_pct), 4)
}

fn outcome_fields(o: Option<SimulationOutcome>) -> (r: (
    Option<String>,
    Option<String>,
    Option<String>,
    Option<String>,
    Option<String>,
))
    requires
        opt_outcome_wf(o),
    ensures
        opt_owned_view(r.0) == fixed_text(field_of(o, |x: SimulationOutcome| x.end_shares), 8),
        opt_owned_view(r.1) == fixed_text(field_of(o, |x: SimulationOutcome| x.cash_received), 4),
        opt_owned_view(r.2) == fixed_text(field_of(o, |x: SimulationOutcome| x.end_value), 4),
        opt_owned_view(r.3) == fixed_text(field_of(o, |x: SimulationOutcome| x.total_return_pct), 4),
        opt_owned_view(r.4) == fixed_text(field_of(o, |x: SimulationOutcome| x.cagr_pct), 4),
{
    match o {
        Some(x) => (
            decimal_shares(Some(x.end_shares)),
            decimal_ratio(Some(x.cash_received)),
            decimal_ratio(Some(x.end_value)),
            decimal_ratio(Some(x.total_return_pct)),
            decimal_ratio(Some(x.cagr_pct)),
        ),
        None => (None, None, None, None, None),
    }
}

/// Converts a ranking row for metric `metric`; the rank, symbol, name and
/// flags are carried over.
pub fn cagr_ranking_item(item: CagrRankingEntry, metric: CagrMetric) -> (r: CagrRankingItem)
    requires
        item.cagr.wf(),
    ensures
        r.rank == item.rank,
        r.stock_symbol@ == item.cagr.stock_symbol@,
        r.name@ == item.name@,
        r.stock_industry_id == item.industry_id,
        r.shortfall_days == item.cagr.shortfall_days,
        r.dividend_events == item.cagr.dividend_events,
        r.data_complete == item.cagr.data_complete,
        r.has_anomaly == item.cagr.has_anomaly,
        figures_match(
            item.cagr,
            metric,
            r.base_date,
            r.first_quote_date,
            r.base_price,
            r.end_price,
            r.end_shares,
            r.cash_received,
            r.end_value,
            r.total_return_pct,
            r.cagr_pct,
        ),
{
    let outcome = cagr_outcome(&item.cagr, metric);
    let (end_shares, cash_received, end_value, total_return_pct, cagr_pct) = outcome_fields(outcome);
    let base_date = opt_date_string(item.cagr.base_date);
    let first_quote_date = opt_date_string(item.cagr.first_quote_date);
    let base_price = decimal_ratio(item.cagr.base_price);
    let end_price = decimal_ratio(item.cagr.end_price);
    CagrRankingItem {
        rank: item.rank,
        stock_symbol: item.cagr.stock_symbol,
        name: item.name,
        stock_industry_id: item.industry_id,
        base_date,
        first_quote_date,
        shortfall_days: item.cagr.shortfall_days,
        base_price,
        end_price,
        end_shares,
        cash_received,
        end_value,
        total_return_pct,
        cagr_pct,
        dividend_events: item.cagr.dividend_events,
        data_complete: item.cagr.data_complete,
        has_anomaly: item.cagr.has_anomaly,
    }
}

/// One period of a single stock as the API gives it.
#[derive(Debug)]
pub struct CagrPeriodItem {
    pub period: String,
    pub stock_symbol: String,
    pub name: String,
    pub stock_industry_id: i32,
    pub base_date: Option<String>,
    pub first_quote_date: Option<String>,
    pub shortfall_days: Option<i32>,
    pub base_price: Option<String>,
    pub end_price: Option<String>,
    pub end_shares: Option<String>,
    pub cash_received: Option<String>,
    pub end_value: Option<String>,
    pub total_return_pct: Option<String>,
    pub cagr_pct: Option<String>,
    pub years: Option<String>,
    pub dividend_events: i32,
    pub data_complete: bool,
    pub has_anomaly: bool,
    pub survivorship_note: bool,
}

/// Converts one period of a single stock for metric `metric`, with the
/// stock's name and industry and the period's disclosure flag.
pub fn cagr_period_item(record: StockCagr, name: &str, industry_id: i32, metric: CagrMetric) -> (r:
    CagrPeriodItem)
    requires
        record.wf(),
    ensures
        r.period@ == period_code(record.period),
        r.stock_symbol@ == record.stock_symbol@,
        r.name@ == name@,
        r.stock_industry_id == industry_id,
        r.shortfall_days == record.shortfall_days,
        opt_owned_view(r.years) == fixed_text(record.years, 4),
        r.dividend_events == record.dividend_events,
        r.data_complete == record.data_complete,
        r.has_anomaly == record.has_anomaly,
        r.survivorship_note == needs_coverage_disclosure(record.period),
        figures_match(
            record,
            metric,
            r.base_date,
            r.first_quote_date,
            r.base_price,
            r.end_price,
            r.end_shares,
            r.cash_received,
            r.end_value,
            r.total_return_pct,
            r.cagr_pct,
        ),
{
    let outcome = cagr_outcome(&record, metric);
    let (end_shares, cash_received, end_value, total_return_pct, cagr_pct) = outcome_fields(outcome);
    CagrPeriodItem {
        period: string_of(record.period.code()),
        stock_symbol: record.stock_symbol,
        name: string_of(name),
        stock_industry_id: industry_id,
        base_date: opt_date_string(record.base_date),
        first_quote_date: opt_date_string(record.first_quote_date),
        shortfall_days: record.shortfall_days,
        base_price: decimal_ratio(record.base_price),
        end_price: decimal_ratio(record.end_price),
        end_shares,
        cash_received,
        end_value,
        total_return_pct,
        cagr_pct,
        years: decimal_ratio(record.years),
        dividend_events: record.dividend_events,
        data_complete: record.data_complete,
        has_anomaly: record.has_anomaly,
        survivorship_note: record.period.requires_coverage_disclosure(),
    }
}

/// Whether row `e` is complete and started on `d`.
pub open spec fn starts_on(e: CagrRankingEntry, d: CalendarDate) -> bool {
    e.cagr.data_complete && e.cagr.base_date == Some(d)
}

/// How many complete rows of `s` started on `d`.
pub open spec fn start_count(s: Seq<CagrRankingEntry>, d: CalendarDate) -> nat
    decreases s.len(),
{
    if s.len() == 0 {
        0
    } else {
        start_count(s.drop_last(), d) + if starts_on(s.last(), d) {
            1nat
        } else {
            0nat
        }
    }
}

/// `d` is the most common start of the complete rows, the later date among
/// equally common ones.
pub open spec fn is_representative(s: Seq<CagrRankingEntry>, d: CalendarDate) -> bool {
    &&& start_count(s, d) >= 1
    &&& forall|e: CalendarDate|
        #![trigger start_count(s, e)]
        start_count(s, e) < start_count(s, d) || (start_count(s, e) == start_count(s, d)
            && !d.before(e))
}

proof fn lemma_start_count_witness(s: Seq<CagrRankingEntry>, d: CalendarDate)
    requires
        start_count(s, d) >= 1,
    ensures
        exists|k: int| 0 <= k < s.len() && starts_on(s[k], d),
    decreases s.len(),
{
    if !starts_on(s.last(), d) {
        lemma_start_count_witness(s.drop_last(), d);
        let k = choose|k: int| 0 <= k < s.drop_last().len() && starts_on(s.drop_last()[k], d);
        assert(s[k] == s.drop_last()[k]);
    } else {
        assert(starts_on(s[s.len() - 1], d));
    }
}

proof fn lemma_start_count_none(s: Seq<CagrRankingEntry>, d: CalendarDate)
    requires
        forall|k: int| 0 <= k < s.len() ==> !starts_on(s[k], d),
    ensures
        start_count(s, d) == 0,
    decreases s.len(),
{
    if s.len() > 0 {
        assert forall|k: int| 0 <= k < s.drop_last().len() implies !starts_on(s.drop_last()[k], d) by {
            assert(s.drop_last()[k] == s[k]);
        }
        lemma_start_count_none(s.drop_last(), d);
    }
}

fn count_starts(items: &Vec<CagrRankingEntry>, d: CalendarDate) -> (r: usize)
    ensures
        r == start_count(items@, d),
{
    let mut c: usize = 0;
    let mut j: usize = 0;
    while j < items.len()
        invariant
            j <= items@.len(),
            c == start_count(items@.take(j as int), d),
            c <= j,
        decreases items@.len() - j,
    {
        proof {
            assert(items@.take(j + 1).drop_last() == items@.take(j as int));
        }
        if items[j].cagr.data_complete {
            if let Some(b) = items[j].cagr.base_date {
                if b == d {
                    c = c + 1;
                }
            }
        }
        j = j + 1;
    }
    proof {
        assert(items@.take(items@.len() as int) == items@);
    }
    c
}

/// The most common start date among the complete rows (the later one on a
/// tie, so the answer does not depend on row order); `None` when no row is
/// complete with a start date.
pub fn representative_base_date(items: &Vec<CagrRankingEntry>) -> (r: Option<CalendarDate>)
    ensures
        r is None <==> forall|k: int| 0 <= k < items@.len() ==> !(items@[k].cagr.data_complete
            && items@[k].cagr.base_date is Some),
        r matches Some(d) ==> is_representative(items@, d),
{
    let mut best: Option<(CalendarDate, usize)> = None;
    let mut i: usize = 0;
    while i < items.len()
        invariant
            i <= items@.len(),
            best is None ==> forall|k: int| 0 <= k < i ==> !(items@[k].cagr.data_complete
                && items@[k].cagr.base_date is Some),
            best matches Some((bd, bc)) ==> {
                &&& bc == start_count(items@, bd)
                &&& bc >= 1
                &&& forall|k: int|
                    0 <= k < i && items@[k].cagr.data_complete && items@[k].cagr.base_date
                        is Some ==> #[trigger] start_count(items@, items@[k].cagr.base_date->Some_0) < bc || (
                    start_count(items@, items@[k].cagr.base_date->Some_0) == bc && !bd.before(
                        items@[k].cagr.base_date->Some_0,
                    ))
            },
        decreases items@.len() - i,
    {
        if items[i].cagr.data_complete {
            if let Some(d) = items[i].cagr.base_date {
                let c = count_starts(items, d);
                proof {
                    assert(starts_on(items@[i as int], d));
                    if start_count(items@, d) == 0 {
                        lemma_start_count_positive(items@, i as int, d);
                    }
                }
                let better = match best {
                    None => true,
                    Some((bd, bc)) => c > bc || (c == bc && bd.is_before(&d)),
                };
                if better {
                    best = Some((d, c));
                }
            }
        }
        i = i + 1;
    }
    match best {
        None => None,
        Some((bd, bc)) => {
            proof {
                lemma_start_count_witness(items@, bd);
                let w = choose|k: int| 0 <= k < items@.len() && starts_on(items@[k], bd);
                assert(items@[w].cagr.data_complete && items@[w].cagr.base_date is Some);
                assert forall|e: CalendarDate|
                    #![trigger start_count(items@, e)]
                    start_count(items@, e) < start_count(items@, bd) || (start_count(items@, e)
                        == start_count(items@, bd) && !bd.before(e)) by {
                    if start_count(items@, e) >= 1 {
                        lemma_start_count_witness(items@, e);
                        let k = choose|k: int| 0 <= k < items@.len() && starts_on(items@[k], e);
                        assert(items@[k].cagr.base_date->Some_0 == e);
                    }
                }
            }
            Some(bd)
        },
    }
}

proof fn lemma_start_count_positive(s: Seq<CagrRankingEntry>, i: int, d: CalendarDate)
    requires
        0 <= i < s.len(),
        starts_on(s[i], d),
    ensures
        start_count(s, d) >= 1,
    decreases s.len(),
{
    if i < s.len() - 1 {
        assert(s.drop_last()[i] == s[i]);
        lemma_start_count_positive(s.drop_last(), i, d);
    }
}

/// The years of the first complete row that started on `target`: the
/// header's years next to its start date.
pub open spec fn header_years_of(s: Seq<CagrRankingEntry>, target: CalendarDate) -> Option<DecimalValue>
    decreases s.len(),
{
    if s.len() == 0 {
        None
    } else if starts_on(s[0], target) {
        s[0].cagr.years
    } else {
        header_years_of(s.skip(1), target)
    }
}

/// The years shown beside the header's start date: those of the first
/// complete row that started on it; `None` without a start date.
pub fn representative_years(items: &Vec<CagrRankingEntry>, target: Option<CalendarDate>) -> (r:
    Option<DecimalValue>)
    ensures
        r == match target {
            Some(t) => header_years_of(items@, t),
            None => None,
        },
{
    let t = match target {
        Some(t) => t,
        None => {
            return None;
        },
    };
    let mut i: usize = 0;
    proof {
        assert(items@.skip(0) == items@);
    }
    while i < items.len()
        invariant
            i <= items@.len(),
            target == Some(t),
            header_years_of(items@, t) == header_years_of(items@.skip(i as int), t),
        decreases items@.len() - i,
    {
        proof {
            assert(items@.skip(i as int).skip(1) == items@.skip(i + 1));
            assert(items@.skip(i as int)[0] == items@[i as int]);
        }
        if items[i].cagr.data_complete {
            if let Some(b) = items[i].cagr.base_date {
                if b == t {
                    assert(items@.skip(i as int).len() > 0);
                    assert(starts_on(items@.skip(i as int)[0], t));
                    assert(header_years_of(items@.skip(i as int), t) == items@[i as int].cagr.years);
                    return items[i].cagr.years;
                }
            }
        }
        i = i + 1;
    }
    proof {
        assert(items@.skip(i as int).len() == 0);
    }
    None
}


/// Law: each metric reads its own simulation of the record: the price-only
/// metric the price simulation, the total-return metric the total
/// simulation, the reinvested metric the reinvested simulation, whatever
/// the record holds.
pub proof fn lemma_metric_reads_its_own_simulation(r: StockCagr)
    ensures
        outcome_of(r, CagrMetric::Price) == r.price,
        outcome_of(r, CagrMetric::Total) == r.total,
        outcome_of(r, CagrMetric::Reinvested) == r.reinvested,
        forall|m: CagrMetric| #![trigger outcome_of(r, m)]
            metric_code(m) == "reinvested"@ ==> outcome_of(r, m) == r.reinvested,
{
    reveal_strlit("price");
    reveal_strlit("total");
    reveal_strlit("reinvested");
    assert forall|m: CagrMetric| #![trigger outcome_of(r, m)]
        metric_code(m) == "reinvested"@ implies outcome_of(r, m) == r.reinvested by {
        match m {
            CagrMetric::Price => {
                assert(metric_code(m)[0] != "reinvested"@[0]);
            },
            CagrMetric::Total => {
                assert(metric_code(m)[0] != "reinvested"@[0]);
            },
            CagrMetric::Reinvested => {},
        }
    }
}

} // verus!
