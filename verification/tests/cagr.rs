use stock_crawler::cagr::{
    cagr_market_id, cagr_period_item, cagr_ranking_item, decimal_ratio, decimal_shares,
    normalize_cagr_keyword, parse_cagr_metric, parse_cagr_period, representative_base_date,
    representative_years, validate_cagr_ranking, validate_cagr_symbol, CagrMetric, CagrPeriod,
    CagrRankingEntry, CagrRankingParams, CagrSortKey, CagrSymbolParams, SimulationOutcome,
    StockCagr,
};
use stock_crawler::calendar::CalendarDate;
use stock_crawler::decimal::DecimalValue;

fn date(year: i32, month: u32, day: u32) -> CalendarDate {
    CalendarDate { year, month, day }
}

fn dec(mantissa: i128, scale: u32) -> DecimalValue {
    DecimalValue { mantissa, scale }
}

fn complete(symbol: &str, period: CagrPeriod, base_date: CalendarDate) -> StockCagr {
    StockCagr {
        date: date(2026, 8, 6),
        stock_symbol: symbol.to_owned(),
        period,
        base_date: Some(base_date),
        base_price: Some(dec(178, 0)),
        end_price: Some(dec(1340, 0)),
        years: Some(dec(10002740, 6)),
        price: None,
        total: Some(SimulationOutcome {
            end_shares: dec(5617977528, 8),
            cash_received: dec(67977528, 4),
            end_value: dec(820786517, 4),
            total_return_pct: dec(7207865, 4),
            cagr_pct: dec(234318, 4),
        }),
        reinvested: None,
        first_quote_date: Some(date(2015, 3, 2)),
        shortfall_days: Some(0),
        data_complete: true,
        has_anomaly: false,
        dividend_events: 38,
    }
}

fn incomplete(symbol: &str, period: CagrPeriod) -> StockCagr {
    StockCagr {
        date: date(2026, 8, 6),
        stock_symbol: symbol.to_owned(),
        period,
        base_date: None,
        base_price: None,
        end_price: None,
        years: None,
        price: None,
        total: None,
        reinvested: None,
        first_quote_date: Some(date(2024, 5, 1)),
        shortfall_days: None,
        data_complete: false,
        has_anomaly: false,
        dividend_events: 0,
    }
}

fn ranking_item(cagr: StockCagr, rank: Option<i64>) -> CagrRankingEntry {
    CagrRankingEntry {
        cagr,
        name: "台積電".to_owned(),
        industry_id: 24,
        rank,
    }
}

fn base_date() -> CalendarDate {
    date(2016, 8, 5)
}

#[test]
fn test_period_and_metric_defaults_and_whitelist() {
    assert_eq!(parse_cagr_period(None), Ok(CagrPeriod::Y1));
    assert_eq!(parse_cagr_metric(None), Ok(CagrMetric::Total));
    for period in CagrPeriod::all() {
        assert_eq!(parse_cagr_period(Some(period.code())), Ok(period));
    }
    for metric in CagrMetric::all() {
        assert_eq!(parse_cagr_metric(Some(metric.code())), Ok(metric));
    }
    assert!(parse_cagr_period(Some("y1")).is_err());
    assert!(parse_cagr_period(Some("Y8")).is_err());
    assert!(parse_cagr_metric(Some("TOTAL")).is_err());
    assert!(parse_cagr_metric(Some("cash")).is_err());
}

#[test]
fn test_default_sort_key_follows_period_length() {
    assert_eq!(
        CagrSortKey::default_for(CagrPeriod::M3),
        CagrSortKey::TotalReturn
    );
    assert_eq!(
        CagrSortKey::default_for(CagrPeriod::M6),
        CagrSortKey::TotalReturn
    );
    for period in [CagrPeriod::Y1, CagrPeriod::Y5, CagrPeriod::Y10] {
        assert_eq!(CagrSortKey::default_for(period), CagrSortKey::Cagr);
    }
    assert_eq!(
        CagrSortKey::from_code("total_return"),
        Some(CagrSortKey::TotalReturn)
    );
    assert_eq!(CagrSortKey::from_code("cagr"), Some(CagrSortKey::Cagr));
    assert_eq!(CagrSortKey::from_code("CAGR"), None);
}

#[test]
fn test_long_periods_reject_price_metric() {
    for period in [CagrPeriod::Y5, CagrPeriod::Y10] {
        assert!(!period.supports_price_metric(), "{period:?} 應拒絕純價格");
        assert!(period.requires_coverage_disclosure());
    }
    for period in [CagrPeriod::M3, CagrPeriod::Y1, CagrPeriod::Y3] {
        assert!(period.supports_price_metric());
        assert!(!period.requires_coverage_disclosure());
    }
}

#[test]
fn test_market_parameter_whitelist() {
    assert_eq!(cagr_market_id("all"), Ok(None));
    assert_eq!(cagr_market_id("twse"), Ok(Some(2)));
    assert_eq!(cagr_market_id("tpex"), Ok(Some(4)));
    assert_eq!(cagr_market_id("5"), Ok(Some(5)));
    assert!(cagr_market_id("0").is_err());
    assert!(cagr_market_id("-1").is_err());
    assert!(cagr_market_id("emerging").is_err());
}

#[test]
fn market_ids_follow_i32_parsing() {
    assert_eq!(cagr_market_id("+7"), Ok(Some(7)));
    assert_eq!(cagr_market_id("2147483647"), Ok(Some(2147483647)));
    assert!(cagr_market_id("2147483648").is_err());
    assert!(cagr_market_id("99999999999999999999").is_err());
    assert!(cagr_market_id("").is_err());
    assert!(cagr_market_id("+").is_err());
}

#[test]
fn test_keyword_normalization() {
    assert_eq!(normalize_cagr_keyword(None), Ok(None));
    assert_eq!(normalize_cagr_keyword(Some("   ")), Ok(None));
    assert_eq!(
        normalize_cagr_keyword(Some("  台積  ")),
        Ok(Some("台積".to_owned()))
    );
    assert!(normalize_cagr_keyword(Some(&"台".repeat(51))).is_err());
    assert!(normalize_cagr_keyword(Some(&"台".repeat(50))).is_ok());
}

#[test]
fn test_decimal_serializes_as_fixed_scale_string() {
    assert_eq!(decimal_ratio(Some(dec(178, 0))), Some("178.0000".to_owned()));
    assert_eq!(
        decimal_ratio(Some(dec(820786517, 4))),
        Some("82078.6517".to_owned())
    );
    assert_eq!(
        decimal_ratio(Some(dec(10002740, 6))),
        Some("10.0027".to_owned())
    );
    assert_eq!(
        decimal_shares(Some(dec(5617977528, 8))),
        Some("56.17977528".to_owned())
    );
    assert_eq!(decimal_ratio(None), None);
    assert_eq!(decimal_shares(None), None);
}

#[test]
fn test_ranking_item_maps_selected_metric() {
    let item = ranking_item(complete("2330", CagrPeriod::Y10, base_date()), Some(1));
    let dto = cagr_ranking_item(item, CagrMetric::Total);
    assert_eq!(dto.rank, Some(1));
    assert_eq!(dto.stock_symbol, "2330");
    assert_eq!(dto.name, "台積電");
    assert_eq!(dto.stock_industry_id, 24);
    assert_eq!(dto.base_date.as_deref(), Some("2016-08-05"));
    assert_eq!(dto.first_quote_date.as_deref(), Some("2015-03-02"));
    assert_eq!(dto.shortfall_days, Some(0));
    assert_eq!(dto.base_price.as_deref(), Some("178.0000"));
    assert_eq!(dto.end_price.as_deref(), Some("1340.0000"));
    assert_eq!(dto.end_shares.as_deref(), Some("56.17977528"));
    assert_eq!(dto.cash_received.as_deref(), Some("6797.7528"));
    assert_eq!(dto.end_value.as_deref(), Some("82078.6517"));
    assert_eq!(dto.total_return_pct.as_deref(), Some("720.7865"));
    assert_eq!(dto.cagr_pct.as_deref(), Some("23.4318"));
    assert_eq!(dto.dividend_events, 38);
    assert!(dto.data_complete);
    assert!(!dto.has_anomaly);
}

#[test]
fn test_ranking_item_missing_metric_is_null() {
    let item = ranking_item(complete("2330", CagrPeriod::Y10, base_date()), Some(1));
    let dto = cagr_ranking_item(item, CagrMetric::Price);
    assert!(dto.end_shares.is_none());
    assert!(dto.cash_received.is_none());
    assert!(dto.end_value.is_none());
    assert!(dto.total_return_pct.is_none());
    assert!(dto.cagr_pct.is_none());
    assert!(dto.base_price.is_some());
}

#[test]
fn test_incomplete_item_keeps_row_with_null_fields() {
    let mut item = ranking_item(incomplete("6666", CagrPeriod::Y10), None);
    item.name = "測試股".to_owned();
    item.industry_id = 3;
    let dto = cagr_ranking_item(item, CagrMetric::Total);
    assert_eq!(dto.rank, None, "資料不足不得佔名次");
    assert_eq!(dto.stock_symbol, "6666");
    assert!(!dto.data_complete);
    for field in [
        &dto.base_date,
        &dto.base_price,
        &dto.end_price,
        &dto.end_shares,
        &dto.cash_received,
        &dto.end_value,
        &dto.total_return_pct,
        &dto.cagr_pct,
    ] {
        assert!(field.is_none(), "資料不足時所有數值欄位必須是 null");
    }
    assert!(dto.shortfall_days.is_none());
    assert_eq!(dto.first_quote_date.as_deref(), Some("2024-05-01"));
}

#[test]
fn test_period_item_carries_period_and_disclosure_flag() {
    let dto = cagr_period_item(
        complete("2330", CagrPeriod::Y10, base_date()),
        "台積電",
        24,
        CagrMetric::Total,
    );
    assert_eq!(dto.period, "Y10");
    assert_eq!(dto.years.as_deref(), Some("10.0027"));
    assert_eq!(dto.stock_industry_id, 24);
    assert!(dto.survivorship_note);

    let short = cagr_period_item(
        complete("2330", CagrPeriod::M3, base_date()),
        "台積電",
        24,
        CagrMetric::Total,
    );
    assert_eq!(short.period, "M3");
    assert!(!short.survivorship_note);
}

#[test]
fn test_representative_base_date_ignores_incomplete_rows() {
    let common = base_date();
    let delayed = date(2016, 8, 22);
    let items = vec![
        ranking_item(complete("a", CagrPeriod::Y10, common), Some(1)),
        ranking_item(complete("b", CagrPeriod::Y10, delayed), Some(2)),
        ranking_item(complete("c", CagrPeriod::Y10, common), Some(3)),
        ranking_item(incomplete("d", CagrPeriod::Y10), None),
    ];
    assert_eq!(representative_base_date(&items), Some(common));
    assert_eq!(representative_base_date(&vec![]), None);
    assert_eq!(
        representative_base_date(&vec![ranking_item(incomplete("d", CagrPeriod::Y10), None)]),
        None
    );
}

#[test]
fn representative_base_date_prefers_the_later_date_on_a_tie() {
    let early = date(2016, 8, 5);
    let late = date(2016, 8, 22);
    let items = vec![
        ranking_item(complete("a", CagrPeriod::Y10, late), Some(1)),
        ranking_item(complete("b", CagrPeriod::Y10, early), Some(2)),
    ];
    assert_eq!(representative_base_date(&items), Some(late));
    let mut other = complete("c", CagrPeriod::Y10, late);
    other.years = Some(dec(99, 1));
    let items = vec![
        ranking_item(incomplete("z", CagrPeriod::Y10), None),
        ranking_item(complete("a", CagrPeriod::Y10, early), Some(1)),
        ranking_item(other, Some(2)),
    ];
    assert_eq!(representative_years(&items, Some(late)), Some(dec(99, 1)));
    assert_eq!(representative_years(&items, None), None);
}

fn ranking_params() -> CagrRankingParams {
    CagrRankingParams {
        period: None,
        metric: None,
        sort: None,
        market: None,
        stock_industry_id: None,
        keyword: None,
        include_incomplete: None,
        limit: None,
        offset: None,
        date: None,
    }
}

#[test]
fn cagr_ranking_rejects_invalid_parameters_before_any_query() {
    let cases: Vec<(fn(&mut CagrRankingParams), &str)> = vec![
        (|p| p.period = Some("Y8".to_owned()), "period 必須為 M3、M6、Y1、Y1H、Y2、Y3、Y5、Y7 或 Y10"),
        (|p| p.period = Some("y1".to_owned()), "period 必須為 M3、M6、Y1、Y1H、Y2、Y3、Y5、Y7 或 Y10"),
        (|p| p.metric = Some("cash".to_owned()), "metric 必須為 price、total 或 reinvested"),
        (|p| p.sort = Some("return".to_owned()), "sort 必須為 cagr 或 total_return"),
        (|p| p.market = Some("emerging".to_owned()), "market 必須為 all、twse、tpex 或正整數市場編號"),
        (|p| p.stock_industry_id = Some(0), "stock_industry_id 必須為正整數"),
        (|p| p.limit = Some(0), "limit 必須介於 1 至 200"),
        (|p| p.limit = Some(201), "limit 必須介於 1 至 200"),
        (|p| p.date = Some("2026-8-6".to_owned()), "日期必須為 YYYY-MM-DD"),
    ];
    for (edit, message) in cases {
        let mut p = ranking_params();
        edit(&mut p);
        let e = validate_cagr_ranking(&p).err().expect("應回 422");
        assert_eq!(e.status, 422);
        assert_eq!(e.message, message);
    }
    for period in ["Y5", "Y10"] {
        let mut p = ranking_params();
        p.period = Some(period.to_owned());
        p.metric = Some("price".to_owned());
        let e = validate_cagr_ranking(&p).err().expect("長期間純價格應回 422");
        assert!(e.message.starts_with("長期間不提供純價格口徑"));
    }
    let e = validate_cagr_symbol(&CagrSymbolParams { metric: Some("cash".to_owned()), date: None })
        .err()
        .unwrap();
    assert_eq!(e.status, 422);
    assert!(validate_cagr_symbol(&CagrSymbolParams { metric: None, date: Some("2026-08-6".to_owned()) }).is_err());
}

#[test]
fn cagr_ranking_defaults() {
    let q = validate_cagr_ranking(&ranking_params()).unwrap();
    assert_eq!(q.period, CagrPeriod::Y1);
    assert_eq!(q.metric, CagrMetric::Total);
    assert_eq!(q.sort, CagrSortKey::Cagr);
    assert_eq!(q.market_id, None);
    assert!(q.include_incomplete);
    assert_eq!((q.limit, q.offset), (50, 0));
    assert!(q.date.is_none());
    let mut p = ranking_params();
    p.period = Some("M3".to_owned());
    p.keyword = Some("  台積 ".to_owned());
    p.date = Some("1990-01-03".to_owned());
    p.offset = Some(10);
    let q = validate_cagr_ranking(&p).unwrap();
    assert_eq!(q.sort, CagrSortKey::TotalReturn);
    assert_eq!(q.keyword.as_deref(), Some("台積"));
    assert_eq!(q.date, Some(date(1990, 1, 3)));
    assert_eq!(q.offset, 10);
}
