use stock_crawler::api::{
    format_month, market_id_for_stats, market_id_for_stocks, parse_month, parse_optional_date,
    parse_range, quarter_to_api, sanitize_date, valuation_band,
};
use stock_crawler::auth::bearer_authorized;
use stock_crawler::calendar::{date_to_string, CalendarDate};
use stock_crawler::decimal::DecimalValue;
use stock_crawler::fundamentals::{
    period_label, validate_dividend_history, validate_revenue_history, validate_statement_history,
    DividendHistoryParams, RevenueHistoryParams, StatementHistoryParams,
};
use stock_crawler::market::{
    build_market_breadth_response, qfii_order_by, resolve_calendar_range,
    validate_dividend_calendar, validate_dividend_yield_ranking, validate_market_breadth,
    validate_market_index_history, validate_qfii_holding_ranking, DividendCalendarParams,
    DividendYieldRankingParams, MarketBreadth, MarketBreadthParams, MarketIndexHistoryParams,
    QfiiHoldingRankingParams,
};
use stock_crawler::rpc::{describe_certificate, format_error_chain, get_tls_config};
use stock_crawler::screening::{
    analytical_date_is_fresh, financial_period_is_fresh, financial_period_text, revenue_month_is_fresh, screen_order_by,
    validate_screening_params, StockScreeningParams, Threshold,
};

fn date(year: i32, month: u32, day: u32) -> CalendarDate {
    CalendarDate { year, month, day }
}

fn dec(mantissa: i128, scale: u32) -> DecimalValue {
    DecimalValue { mantissa, scale }
}

fn month_conversion_roundtrip_and_validation() {
    assert_eq!(parse_month("2026-06"), Ok(202606));
    assert_eq!(format_month(202606), "2026-06");
    assert_eq!(parse_month("2012-01"), Ok(201201));
    for invalid in [
        "2026-13", "2026-00", "2026-6", "202606", "26-06", "abcd-ef", "",
    ] {
        assert!(parse_month(invalid).is_err(), "{invalid:?} 應為非法月份");
    }
}

#[test]
fn handlers_month_conversion_roundtrip_and_validation() {
    month_conversion_roundtrip_and_validation();
}

#[test]
fn mod_month_conversion_roundtrip_and_validation() {
    month_conversion_roundtrip_and_validation();
}

#[test]
fn months_take_digits_only() {
    assert!(parse_month("2026-+1").is_err());
    assert!(parse_month("+999-01").is_err());
    assert!(parse_month("2026- 1").is_err());
    assert!(parse_month("0999-01").is_err());
    assert_eq!(parse_month("9999-12"), Ok(999912));
    assert_eq!(parse_month(&format_month(100001)), Ok(100001));
    assert!(parse_month("2026--1").is_err());
    assert_eq!(format_month(-101), "-001--1");
    assert_eq!(format_month(5), "0000-05");
}

fn quarter_mapping_follows_section_3_5() {
    assert_eq!(quarter_to_api(""), "A");
    for passthrough in ["Q1", "Q2", "Q3", "Q4", "H1", "H2"] {
        assert_eq!(quarter_to_api(passthrough), passthrough);
    }
}

#[test]
fn handlers_quarter_mapping_follows_section_3_5() {
    quarter_mapping_follows_section_3_5();
}

#[test]
fn mod_quarter_mapping_follows_section_3_5() {
    quarter_mapping_follows_section_3_5();
}

fn dividend_date_sanitizing_drops_invalid_markers() {
    assert_eq!(sanitize_date("2026-07-15"), Some("2026-07-15".to_owned()));
    for invalid in ["-", "尚未公布", "", "1.39%", "2026/07/15", "2026-02-30"] {
        assert_eq!(sanitize_date(invalid), None, "{invalid:?} 應輸出 null");
    }
}

#[test]
fn handlers_dividend_date_sanitizing_drops_invalid_markers() {
    dividend_date_sanitizing_drops_invalid_markers();
}

#[test]
fn mod_dividend_date_sanitizing_drops_invalid_markers() {
    dividend_date_sanitizing_drops_invalid_markers();
}

fn valuation_band_matches_market_breadth_boundaries() {
    let cheap = dec(100, 0);
    let fair = dec(200, 0);
    let expensive = dec(300, 0);
    assert_eq!(valuation_band(dec(100, 0), cheap, fair, expensive), "undervalued");
    assert_eq!(valuation_band(dec(101, 0), cheap, fair, expensive), "fair_valued");
    assert_eq!(valuation_band(dec(200, 0), cheap, fair, expensive), "fair_valued");
    assert_eq!(valuation_band(dec(201, 0), cheap, fair, expensive), "overvalued");
    assert_eq!(valuation_band(dec(300, 0), cheap, fair, expensive), "overvalued");
    assert_eq!(valuation_band(dec(301, 0), cheap, fair, expensive), "highly_overvalued");
}

#[test]
fn handlers_valuation_band_matches_market_breadth_boundaries() {
    valuation_band_matches_market_breadth_boundaries();
}

#[test]
fn mod_valuation_band_matches_market_breadth_boundaries() {
    valuation_band_matches_market_breadth_boundaries();
}

#[test]
fn valuation_band_compares_values_not_scales() {
    assert_eq!(
        valuation_band(dec(10000, 2), dec(100, 0), dec(2000, 1), dec(300, 0)),
        "undervalued"
    );
    assert_eq!(
        valuation_band(dec(10001, 2), dec(100, 0), dec(2000, 1), dec(300, 0)),
        "fair_valued"
    );
}

fn market_mapping_follows_section_3_6() {
    for mapper in [market_id_for_stats, market_id_for_stocks] {
        assert_eq!(mapper("all"), Some(0));
        assert_eq!(mapper("twse"), Some(2));
        assert_eq!(mapper("tpex"), Some(4));
        assert_eq!(mapper("emerging"), None);
    }
}

#[test]
fn handlers_market_mapping_follows_section_3_6() {
    market_mapping_follows_section_3_6();
}

#[test]
fn mod_market_mapping_follows_section_3_6() {
    market_mapping_follows_section_3_6();
}

fn analytics_date_validation_is_deterministic() {
    assert!(parse_optional_date(None).unwrap().is_none());
    assert_eq!(
        date_to_string(parse_optional_date(Some("2026-07-16")).unwrap().unwrap()),
        "2026-07-16"
    );
    for invalid in ["2026-02-30", "2026/07/16", "2026-7-16", ""] {
        assert!(parse_optional_date(Some(invalid)).is_err());
    }
}

#[test]
fn handlers_analytics_date_validation_is_deterministic() {
    analytics_date_validation_is_deterministic();
}

#[test]
fn mod_analytics_date_validation_is_deterministic() {
    analytics_date_validation_is_deterministic();
}

fn breadth_envelope_uses_first_available_history_row() {
    let point = MarketBreadth {
        date: "2026-07-16".to_owned(),
        market: "all".to_owned(),
        undervalued: 1,
        fair_valued: 2,
        overvalued: 3,
        highly_overvalued: 4,
        below_5_day_moving_average: 5,
        above_5_day_moving_average: 6,
        below_20_day_moving_average: 7,
        above_20_day_moving_average: 8,
        below_60_day_moving_average: 9,
        above_60_day_moving_average: 10,
        below_120_day_moving_average: 11,
        above_120_day_moving_average: 12,
        below_240_day_moving_average: 13,
        above_240_day_moving_average: 14,
        stocks_up: 15,
        stocks_down: 16,
        stocks_unchanged: 17,
        updated_at: None,
    };
    let response = build_market_breadth_response(vec![point.clone()]).unwrap();
    assert_eq!(response.data_as_of, "2026-07-16");
    assert_eq!(response.breadth, point);
    assert_eq!(response.breadth, response.history[0]);
    assert!(build_market_breadth_response(Vec::new()).is_none());
}

#[test]
fn handlers_breadth_envelope_uses_first_available_history_row() {
    breadth_envelope_uses_first_available_history_row();
}

#[test]
fn market_stats_breadth_envelope_uses_first_available_history_row() {
    breadth_envelope_uses_first_available_history_row();
}

fn screening_params() -> StockScreeningParams {
    StockScreeningParams {
        market: None,
        industry_id: None,
        valuation_band: None,
        min_revenue_yoy_percent: Threshold::Absent,
        min_eps: Threshold::Absent,
        min_roe_percent: Threshold::Absent,
        min_dividend_yield_percent: Threshold::Absent,
        sort_by: None,
        sort_order: None,
        limit: None,
    }
}

fn screening_requires_a_meaningful_filter() {
    assert_eq!(
        validate_screening_params(&screening_params()).err().map(|e| e.message),
        Some("至少需要一個篩選條件".to_string())
    );
    let mut explicit_all = screening_params();
    explicit_all.market = Some("all".to_owned());
    assert!(validate_screening_params(&explicit_all).is_err());

    let mut twse = screening_params();
    twse.market = Some("twse".to_owned());
    let validated = validate_screening_params(&twse).expect("twse 本身是有效條件");
    assert_eq!(validated.market_id, 2);
    assert_eq!(validated.limit, 20);
    assert_eq!(validated.order_by, "ORDER BY stock_symbol ASC");

    let mut industry = screening_params();
    industry.industry_id = Some(24);
    assert!(validate_screening_params(&industry).is_ok());
    let mut minimum = screening_params();
    minimum.min_eps = Threshold::InRange(dec(0, 0));
    assert!(validate_screening_params(&minimum).is_ok());
}

#[test]
fn handlers_screening_requires_a_meaningful_filter() {
    screening_requires_a_meaningful_filter();
}

#[test]
fn screening_screening_requires_a_meaningful_filter() {
    screening_requires_a_meaningful_filter();
}

#[test]
fn screening_checks_come_in_order() {
    let mut p = screening_params();
    p.market = Some("emerging".to_owned());
    p.industry_id = Some(0);
    assert_eq!(
        validate_screening_params(&p).err().map(|e| e.message),
        Some("market 必須為 all、twse 或 tpex".to_string())
    );
    let mut p = screening_params();
    p.industry_id = Some(3);
    p.valuation_band = Some("cheap".to_owned());
    assert_eq!(
        validate_screening_params(&p).err().map(|e| e.message),
        Some("valuation_band 不在允許範圍".to_string())
    );
    let mut p = screening_params();
    p.min_roe_percent = Threshold::Rejected;
    assert_eq!(
        validate_screening_params(&p).err().map(|e| e.message),
        Some("min_roe_percent 必須介於 -10000 至 10000".to_string())
    );
    let mut p = screening_params();
    p.market = Some("tpex".to_owned());
    p.limit = Some(51);
    let e = validate_screening_params(&p).err().unwrap();
    assert_eq!(e.status, 422);
    assert_eq!(e.message, "limit 必須介於 1 至 50");
    let mut p = screening_params();
    p.market = Some("tpex".to_owned());
    p.sort_by = Some("eps".to_owned());
    p.sort_order = Some("desc".to_owned());
    p.min_dividend_yield_percent = Threshold::InRange(dec(35, 1));
    let v = validate_screening_params(&p).unwrap();
    assert_eq!(v.market_id, 4);
    assert_eq!(v.order_by, "ORDER BY earnings_per_share DESC NULLS LAST, stock_symbol ASC");
    assert_eq!(v.min_dividend_yield_percent, Some(dec(35, 1)));
}

fn screening_sort_has_twelve_static_branches() {
    let fields = [
        "stock_symbol",
        "revenue_yoy",
        "eps",
        "roe",
        "dividend_yield",
        "valuation_percentage",
    ];
    for field in fields {
        for order in ["asc", "desc"] {
            let sql = screen_order_by(field, order).expect("白名單組合應存在");
            assert!(sql.starts_with("ORDER BY "));
            if field != "stock_symbol" {
                assert!(sql.contains("NULLS LAST"));
                assert!(sql.ends_with("stock_symbol ASC"));
            }
        }
    }
    assert!(screen_order_by("closing_price; DROP TABLE stocks", "asc").is_err());
    assert!(screen_order_by("eps", "sideways").is_err());
}

#[test]
fn handlers_screening_sort_has_twelve_static_branches() {
    screening_sort_has_twelve_static_branches();
}

#[test]
fn screening_screening_sort_has_twelve_static_branches() {
    screening_sort_has_twelve_static_branches();
}

fn screening_freshness_boundaries_cross_years() {
    let query_date = date(2026, 1, 31);
    assert!(revenue_month_is_fresh(query_date, 202510));
    assert!(!revenue_month_is_fresh(query_date, 202509));
    assert!(!revenue_month_is_fresh(query_date, 202602));

    assert!(financial_period_is_fresh(query_date, 2025, "Q3"));
    assert!(!financial_period_is_fresh(query_date, 2025, "Q2"));
    assert!(!financial_period_is_fresh(query_date, 2026, "Q2"));
    assert!(!financial_period_is_fresh(query_date, 2025, ""));

    let thirty_days_ago = date(2026, 1, 1);
    let thirty_one_days_ago = date(2025, 12, 31);
    assert!(analytical_date_is_fresh(query_date, thirty_days_ago));
    assert!(!analytical_date_is_fresh(query_date, thirty_one_days_ago));
    assert!(!analytical_date_is_fresh(query_date, date(2026, 2, 1)));
}

#[test]
fn handlers_screening_freshness_boundaries_cross_years() {
    screening_freshness_boundaries_cross_years();
}

#[test]
fn screening_screening_freshness_boundaries_cross_years() {
    screening_freshness_boundaries_cross_years();
}

#[test]
fn freshness_reads_quarters_and_months_like_the_database() {
    let query_date = date(2026, 5, 15);
    // The second quarter is the query's own; the first and the last of the
    // year before still count.
    assert!(financial_period_is_fresh(query_date, 2026, "Q2"));
    assert!(financial_period_is_fresh(query_date, 2025, "Q4"));
    assert!(!financial_period_is_fresh(query_date, 2025, "Q3"));
    // The quarter text is read as `str::parse` reads an integer.
    assert!(financial_period_is_fresh(query_date, 2026, "Q+1"));
    assert!(!financial_period_is_fresh(query_date, 2026, "q1"));
    assert!(!financial_period_is_fresh(query_date, 2026, "Q1a"));
    assert!(!financial_period_is_fresh(query_date, 2026, "Q"));
    // A month number splits at the hundreds: 202602 is February 2026.
    assert!(revenue_month_is_fresh(query_date, 202605));
    assert!(revenue_month_is_fresh(query_date, 202602));
    assert!(!revenue_month_is_fresh(query_date, 202601));
    assert!(!revenue_month_is_fresh(query_date, -202605));
    assert!(analytical_date_is_fresh(query_date, query_date));
}

#[test]
fn qfii_sort_has_two_static_branches() {
    assert_eq!(
        qfii_order_by("percentage"),
        Ok("ORDER BY qfii_share_holding_percentage DESC, stock_symbol ASC")
    );
    assert_eq!(
        qfii_order_by("shares"),
        Ok("ORDER BY qfii_shares_held DESC, stock_symbol ASC")
    );
    for invalid in ["", "issued_share", "percentage; DROP TABLE stocks"] {
        assert!(qfii_order_by(invalid).is_err(), "{invalid:?} 應被拒絕");
    }
}

#[test]
fn calendar_range_resolution_follows_section_4_9() {
    let today = date(2026, 7, 17);
    assert_eq!(
        resolve_calendar_range(None, None, today),
        Ok((today, date(2026, 8, 16)))
    );
    let from = date(2026, 1, 1);
    assert_eq!(
        resolve_calendar_range(Some(from), None, today),
        Ok((from, date(2026, 1, 31)))
    );
    let to_92 = date(2026, 4, 3);
    let to_93 = date(2026, 4, 4);
    assert_eq!(
        resolve_calendar_range(Some(from), Some(to_92), today)
            .unwrap()
            .1,
        to_92
    );
    assert_eq!(
        resolve_calendar_range(Some(from), Some(to_93), today),
        Err("查詢區間不可超過 92 天")
    );
    assert_eq!(
        resolve_calendar_range(Some(to_92), Some(from), today),
        Err("from 不可晚於 to")
    );
    assert_eq!(
        resolve_calendar_range(Some(date(262142, 12, 31)), None, today),
        Err("日期超出可查詢範圍")
    );
}

#[test]
fn dividend_calendar_parameters() {
    let today = date(2026, 7, 17);
    let params = DividendCalendarParams {
        from: Some("2026-07-17".to_owned()),
        to: Some("2026-07-01".to_owned()),
        event_type: None,
        limit: None,
    };
    assert_eq!(
        validate_dividend_calendar(&params, today).err().map(|e| e.message),
        Some("from 不可晚於 to".to_string())
    );
    let params = DividendCalendarParams {
        from: None,
        to: None,
        event_type: Some("cash".to_owned()),
        limit: None,
    };
    assert!(validate_dividend_calendar(&params, today).is_err());
    let params = DividendCalendarParams {
        from: Some("2026-01-01".to_owned()),
        to: Some("2026-04-30".to_owned()),
        event_type: None,
        limit: None,
    };
    assert_eq!(
        validate_dividend_calendar(&params, today).err().map(|e| e.message),
        Some("查詢區間不可超過 92 天".to_string())
    );
    let params = DividendCalendarParams {
        from: None,
        to: None,
        event_type: Some("ex_rights".to_owned()),
        limit: Some(200),
    };
    let q = validate_dividend_calendar(&params, today).unwrap();
    assert_eq!(q.from, today);
    assert_eq!(q.to, date(2026, 8, 16));
    assert_eq!(q.event_type, "ex_rights");
    assert_eq!(q.limit, 200);
    let params = DividendCalendarParams { from: None, to: None, event_type: None, limit: Some(201) };
    assert!(validate_dividend_calendar(&params, today).is_err());
}

#[test]
fn breadth_parameters() {
    let q = validate_market_breadth(&MarketBreadthParams { market: None, date: None, days: None }).unwrap();
    assert_eq!(q.market, "all");
    assert_eq!(q.market_id, 0);
    assert_eq!(q.days, 1);
    let e = validate_market_breadth(&MarketBreadthParams { market: Some("emerging".to_owned()), date: None, days: None })
        .err()
        .unwrap();
    assert_eq!(e.message, "market 必須為 all、twse 或 tpex");
    let e = validate_market_breadth(&MarketBreadthParams { market: None, date: None, days: Some(61) })
        .err()
        .unwrap();
    assert_eq!(e.message, "days 必須介於 1 至 60");
    let e = validate_market_breadth(&MarketBreadthParams { market: None, date: Some("1900-1-01".to_owned()), days: None })
        .err()
        .unwrap();
    assert_eq!(e.message, "日期必須為 YYYY-MM-DD");
}

#[test]
fn index_history_and_rankings_parameters() {
    let e = validate_market_index_history(&MarketIndexHistoryParams {
        from: Some("2026-07-17".to_owned()),
        to: Some("2026-01-01".to_owned()),
        limit: None,
    })
    .err()
    .unwrap();
    assert_eq!(e.message, "from 不可晚於 to");
    assert!(validate_market_index_history(&MarketIndexHistoryParams { from: None, to: None, limit: Some(366) }).is_err());
    assert_eq!(
        validate_market_index_history(&MarketIndexHistoryParams { from: None, to: None, limit: None }).unwrap().limit,
        30
    );
    let e = validate_qfii_holding_ranking(&QfiiHoldingRankingParams {
        market: None,
        industry_id: Some(0),
        sort_by: None,
        limit: None,
    })
    .err()
    .unwrap();
    assert_eq!(e.message, "industry_id 必須為正整數");
    assert!(validate_qfii_holding_ranking(&QfiiHoldingRankingParams {
        market: None,
        industry_id: None,
        sort_by: Some("issued_share".to_owned()),
        limit: None,
    })
    .is_err());
    let q = validate_dividend_yield_ranking(&DividendYieldRankingParams {
        date: None,
        market: Some("twse".to_owned()),
        industry_id: Some(2147483647),
        limit: None,
    })
    .unwrap();
    assert_eq!(q.market_id, 2);
    assert_eq!(q.limit, 20);
}

#[test]
fn fundamentals_parameters() {
    let e = validate_revenue_history(&RevenueHistoryParams {
        from: Some("2026-06".to_owned()),
        to: Some("2026-01".to_owned()),
        limit: None,
    })
    .err()
    .unwrap();
    assert_eq!(e.message, "from 不可晚於 to");
    let e = validate_revenue_history(&RevenueHistoryParams { from: Some("2026-13".to_owned()), to: None, limit: None })
        .err()
        .unwrap();
    assert_eq!(e.message, "月份必須為 YYYY-MM");
    let q = validate_revenue_history(&RevenueHistoryParams { from: Some("1990-01".to_owned()), to: Some("1990-02".to_owned()), limit: None }).unwrap();
    assert_eq!((q.from, q.to, q.limit), (Some(199001), Some(199002), 24));
    assert!(validate_statement_history(&StatementHistoryParams { period_type: Some("monthly".to_owned()), limit: None }).is_err());
    assert_eq!(
        validate_statement_history(&StatementHistoryParams { period_type: None, limit: None }).unwrap().period_type,
        "quarterly"
    );
    let e = validate_dividend_history(&DividendHistoryParams { from_year: Some(1989), to_year: None, limit: None }, 2026)
        .err()
        .unwrap();
    assert_eq!(e.message, "年度必須介於 1990 至目前年度加一");
    assert!(validate_dividend_history(&DividendHistoryParams { from_year: Some(2027), to_year: None, limit: None }, 2026).is_ok());
    assert!(validate_dividend_history(&DividendHistoryParams { from_year: Some(2028), to_year: None, limit: None }, 2026).is_err());
    assert_eq!(period_label(2025, "Q3"), "2025-Q3");
    assert_eq!(period_label(2024, ""), "2024-A");
}

#[test]
fn range_parsing_keeps_order() {
    assert_eq!(parse_range(None, None), Ok((None, None)));
    assert_eq!(
        parse_range(Some("2026-02-01"), Some("2026-01-01")),
        Err("from 不可晚於 to")
    );
    assert_eq!(parse_range(Some("2026/02/01"), None), Err("日期必須為 YYYY-MM-DD"));
}

#[test]
fn bearer_key_must_match_exactly() {
    assert!(bearer_authorized(Some("k3y"), Some("Bearer k3y")));
    assert!(!bearer_authorized(Some("k3y"), Some("Bearer k3y ")));
    assert!(!bearer_authorized(Some("k3y"), Some("bearer k3y")));
    assert!(!bearer_authorized(Some("k3y"), None));
    assert!(!bearer_authorized(None, Some("Bearer k3y")));
    assert!(!bearer_authorized(Some("k3y"), Some("Bearer ")));
}

#[test]
fn tls_needs_both_paths() {
    assert_eq!(
        get_tls_config("cert.pem".to_string(), "key.pem".to_string()),
        Some(("cert.pem".to_string(), "key.pem".to_string()))
    );
    assert_eq!(get_tls_config(String::new(), "key.pem".to_string()), None);
    assert_eq!(get_tls_config("cert.pem".to_string(), String::new()), None);
}

#[test]
fn error_chain_is_joined_outermost_first() {
    let chain = vec!["transport error".to_string(), "connection refused".to_string()];
    assert_eq!(format_error_chain(&chain), "transport error: connection refused");
    assert_eq!(format_error_chain(&vec!["only".to_string()]), "only");
}

#[test]
fn certificate_description_reports_missing_blocks() {
    assert_eq!(describe_certificate("no pem here"), "PEM 中找不到 CERTIFICATE 區塊");
    let bad = "-----BEGIN CERTIFICATE-----\nAAAA\n-----END CERTIFICATE-----\n";
    assert!(describe_certificate(bad).starts_with("X.509 憑證解析失敗: "));
}

/// A self-signed certificate for `CN=stock-crawler.test`, valid from 2026
/// to 2030.
const TEST_CERTIFICATE: &str = "-----BEGIN CERTIFICATE-----\nMIIBJjCBzaADAgECAgEBMAoGCCqGSM49BAMCMB0xGzAZBgNVBAMMEnN0b2NrLWNy\nYXdsZXIudGVzdDAeFw0yNjAxMDEwMDAwMDBaFw0zMDAxMDEwMDAwMDBaMB0xGzAZ\nBgNVBAMMEnN0b2NrLWNyYXdsZXIudGVzdDBZMBMGByqGSM49AgEGCCqGSM49AwEH\nA0IABCRUzHepGMjJJtEGR8+E51/lqcs3DCiMD7wBU4KPGro6+QXsQ6XCX6IGmEus\ngkiK1uL5WL5L62RS0SjhuSeGT78wCgYIKoZIzj0EAwIDSAAwRQIhAIml5Q8gu0yY\nRiHHoXBBT37Gw+tNi0Y55u/XDpKtVxIwAiBPlIrSf/KwAdIT5pRn6XxvQmlu763K\nuoG5SvjeGTMxiQ==\n-----END CERTIFICATE-----\n";

#[test]
fn certificate_description_names_subject_and_expiry() {
    assert_eq!(
        describe_certificate(TEST_CERTIFICATE),
        "subject=CN=stock-crawler.test, not_after=Jan  1 00:00:00 2030 +00:00"
    );
    // The first certificate is described; text around it is ignored.
    let framed = format!("leading text\n{TEST_CERTIFICATE}trailing text\n");
    assert_eq!(describe_certificate(&framed), describe_certificate(TEST_CERTIFICATE));
}

#[test]
fn screened_period_needs_year_and_quarter() {
    assert_eq!(financial_period_text(Some(2025), Some("Q3".to_string())), Some("2025-Q3".to_string()));
    assert_eq!(financial_period_text(Some(2025), Some(String::new())), Some("2025-".to_string()));
    assert_eq!(financial_period_text(Some(2025), None), None);
    assert_eq!(financial_period_text(None, Some("Q1".to_string())), None);
}
