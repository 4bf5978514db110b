use stock_crawler::backfill::{
    corporate_action_item, parse_cagr_date_input, parse_corporate_action, parse_grpc_date,
    parse_grpc_month, parse_grpc_period, parse_grpc_security_code, parse_grpc_share_ratio,
    parse_grpc_symbol_list, parse_request_corporate_action, parse_request_date,
    parse_request_month, parse_request_period, parse_request_security_code,
    parse_request_share_ratio, parse_request_symbol_list, start_job_error_response,
    start_job_error_to_status, start_task, check_year, BackfillTask, GrpcCode, HttpError,
    JobReport, BAD_REQUEST, JOB_TIMEOUT_SECS, LONG_RUNNING_JOB_TIMEOUT_SECS,
};
use stock_crawler::backfill_page::{form_endpoints, INDEX_HTML};
use stock_crawler::cagr::CagrPeriod;
use stock_crawler::calendar::CalendarDate;
use stock_crawler::decimal::DecimalValue;
use stock_crawler::job_board::{JobBoard, StartJobError, MAX_CONCURRENT_JOBS};
use stock_crawler::symbols::normalize_security_code;

fn date(year: i32, month: u32, day: u32) -> CalendarDate {
    CalendarDate { year, month, day }
}

fn dec(mantissa: i128, scale: u32) -> DecimalValue {
    DecimalValue { mantissa, scale }
}

fn status_of<T>(result: Result<T, HttpError>) -> u16 {
    match result {
        Ok(_) => panic!("應為解析失敗"),
        Err(e) => e.status,
    }
}

#[test]
fn quote_history_symbol_list_is_normalized() {
    assert_eq!(
        parse_grpc_symbol_list("0056, 0050\n0056").expect("代號清單應合法"),
        vec!["0050".to_string(), "0056".to_string()]
    );
    assert!(
        parse_grpc_symbol_list("  ")
            .expect("空清單應合法")
            .is_empty()
    );
}

#[test]
fn corporate_action_share_ratio_validation_rejects_invalid_values() {
    assert_eq!(
        parse_grpc_share_ratio("4").expect("正整數比例應合法"),
        dec(4, 0)
    );
    for raw in ["0", "-1", "1:4", "1001"] {
        let err = parse_grpc_share_ratio(raw).expect_err("非法比例應被拒絕");
        assert_eq!(err.code, GrpcCode::InvalidArgument, "raw={raw}");
    }
}

#[test]
fn request_date_accepts_iso_dates_and_rejects_the_rest() {
    assert_eq!(
        parse_request_date(" 2026-04-30 ").expect("合法日期"),
        date(2026, 4, 30)
    );
    for raw in ["", "2026-04", "2026/04/30", "not-a-date", "2026-02-30"] {
        assert_eq!(status_of(parse_request_date(raw)), BAD_REQUEST);
    }
}

#[test]
fn request_month_resolves_to_the_first_day() {
    assert_eq!(
        parse_request_month(" 2015-01 ").expect("合法月份"),
        date(2015, 1, 1)
    );
    for raw in ["", "2015", "2015-13", "2015-01-01"] {
        assert_eq!(status_of(parse_request_month(raw)), BAD_REQUEST);
    }
}

#[test]
fn request_period_only_accepts_known_codes() {
    let period = parse_request_period(" Y1 ").expect("Y1 應為合法期間");
    assert_eq!(period.code(), "Y1");
    for raw in ["", "Y99", "1Y"] {
        assert_eq!(status_of(parse_request_period(raw)), BAD_REQUEST);
    }
}

#[test]
fn request_share_ratio_guards_against_nonsense_values() {
    assert_eq!(parse_request_share_ratio(" 4 ").expect("正整數"), dec(4, 0));
    assert_eq!(parse_request_share_ratio("0.5").expect("小數比例"), dec(5, 1));
    assert_eq!(
        parse_request_share_ratio("1000").expect("上界值應合法"),
        dec(1000, 0)
    );
    for raw in ["0", "-4", "1:4", "", "1000.1"] {
        assert_eq!(
            status_of(parse_request_share_ratio(raw)),
            BAD_REQUEST,
            "share_ratio={raw} 應被拒絕"
        );
    }
}

#[test]
fn request_symbol_list_normalizes_separators_and_duplicates() {
    assert_eq!(
        parse_request_symbol_list("0056, 0050\n0056\t2330").expect("合法清單"),
        vec!["0050".to_string(), "0056".to_string(), "2330".to_string()]
    );
    assert!(
        parse_request_symbol_list("  \n ")
            .expect("空白視為空清單")
            .is_empty()
    );
    assert_eq!(
        status_of(parse_request_symbol_list("0050, 00;50")),
        BAD_REQUEST
    );
}

#[test]
fn security_code_is_trimmed_and_restricted_to_ascii_alphanumerics() {
    assert_eq!(
        normalize_security_code(" 2330 ".to_string()).expect("合法代號"),
        "2330"
    );
    assert_eq!(
        normalize_security_code("2330\n".to_string()).expect("尾端換行應被 trim"),
        "2330"
    );
    for raw in ["", "   ", "23 30", "0050;DROP", "台積電"] {
        assert!(
            normalize_security_code(raw.to_string()).is_err(),
            "security_code={raw:?} 應被拒絕"
        );
    }
    assert_eq!(
        status_of(parse_request_security_code("0050;".to_string())),
        BAD_REQUEST
    );
}

#[test]
fn security_code_errors_name_the_rule() {
    assert_eq!(
        normalize_security_code("  ".to_string()).unwrap_err(),
        "security_code is required"
    );
    assert_eq!(
        normalize_security_code("a-b".to_string()).unwrap_err(),
        "security_code may only contain ASCII letters or numbers"
    );
    let grpc = parse_grpc_security_code("x y".to_string()).unwrap_err();
    assert_eq!(grpc.code, GrpcCode::InvalidArgument);
}

#[test]
fn start_job_errors_map_to_conflict_and_too_many_requests() {
    let duplicate = StartJobError::DuplicateActiveJob {
        existing_id: "20260815000000-1".to_string(),
    };
    assert!(duplicate.message().contains("20260815000000-1"));
    assert_eq!(start_job_error_response(&duplicate).status, 409);

    let too_many = StartJobError::TooManyActiveJobs {
        max: MAX_CONCURRENT_JOBS,
    };
    assert!(too_many.message().contains(&MAX_CONCURRENT_JOBS.to_string()));
    assert_eq!(start_job_error_response(&too_many).status, 429);
}

#[test]
fn start_job_errors_map_to_grpc_codes() {
    let duplicate = StartJobError::DuplicateActiveJob {
        existing_id: "x-1".to_string(),
    };
    let status = start_job_error_to_status(&duplicate);
    assert_eq!(status.code, GrpcCode::AlreadyExists);
    assert_eq!(status.message, "the same backfill job is already running: id=x-1");
    let too_many = StartJobError::TooManyActiveJobs { max: 4 };
    let status = start_job_error_to_status(&too_many);
    assert_eq!(status.code, GrpcCode::ResourceExhausted);
    assert_eq!(
        status.message,
        "too many backfill jobs are running (limit: 4), try again later"
    );
}

#[test]
fn every_form_endpoint_in_the_page_has_a_route() {
    for endpoint in [
        "/api/manual-backfill/daily-quotes",
        "/api/manual-backfill/closing-aggregate",
        "/api/manual-backfill/taiwan-stock-index",
        "/api/manual-backfill/received-dividend-records",
        "/api/manual-backfill/historical-dividends",
        "/api/manual-backfill/multiple-dividend-historical-dividends",
        "/api/manual-backfill/quote-history",
        "/api/manual-backfill/cagr",
        "/api/manual-backfill/cagr-period",
        "/api/manual-backfill/corporate-action",
    ] {
        assert!(
            INDEX_HTML.contains(&format!("data-endpoint=\"{endpoint}\"")),
            "頁面缺少 {endpoint} 的表單"
        );
    }
}

#[test]
fn listed_form_endpoints_all_have_forms() {
    let endpoints = form_endpoints();
    assert_eq!(endpoints.len(), 10);
    for endpoint in endpoints {
        assert!(INDEX_HTML.contains(&format!("data-endpoint=\"{endpoint}\"")));
    }
}

#[test]
fn invalid_grpc_inputs_are_invalid_arguments() {
    assert_eq!(
        parse_grpc_month("2015").unwrap_err().code,
        GrpcCode::InvalidArgument
    );
    assert_eq!(
        parse_grpc_symbol_list("0050; DROP").unwrap_err().code,
        GrpcCode::InvalidArgument
    );
    assert_eq!(
        parse_grpc_period("Y8").unwrap_err().message,
        "unknown period: Y8"
    );
    assert!(parse_grpc_date("not-a-date")
        .unwrap_err()
        .message
        .starts_with("date must use YYYY-MM-DD: "));
}

#[test]
fn cagr_date_may_be_blank() {
    assert_eq!(parse_cagr_date_input("  ").unwrap(), None);
    assert_eq!(
        parse_cagr_date_input("2026-08-07").unwrap(),
        Some(date(2026, 8, 7))
    );
    assert!(parse_cagr_date_input("not-a-date").is_err());
}

#[test]
fn dividend_year_range() {
    assert_eq!(check_year(1900), Ok(1900));
    assert_eq!(check_year(3000), Ok(3000));
    assert_eq!(
        check_year(1899).unwrap_err(),
        "year must be between 1900 and 3000"
    );
    assert!(check_year(3001).is_err());
}

#[test]
fn corporate_action_fields_are_checked_in_order() {
    let action = parse_corporate_action(
        " 0050 ".to_string(),
        "2025-06-18",
        "4.00",
        "  split  ",
    )
    .expect("合法公司行動");
    assert_eq!(action.stock_symbol, "0050");
    assert_eq!(action.effective_date, date(2025, 6, 18));
    assert_eq!(action.note, "split");
    let item = corporate_action_item(&action);
    assert_eq!(item.effective_date, "2025-06-18");
    assert_eq!(item.share_ratio, "4");
    assert_eq!(item.note, "split");

    let err = parse_request_corporate_action("0050".to_string(), "2025-06-18", "0", "")
        .unwrap_err();
    assert_eq!(err.status, BAD_REQUEST);
    assert_eq!(err.message, "share_ratio must be greater than zero");
    let err = parse_corporate_action("00;50".to_string(), "bad", "0", "").unwrap_err();
    assert_eq!(err, "security_code may only contain ASCII letters or numbers");
}

#[test]
fn tasks_name_their_kind_input_and_time_limit() {
    let history = BackfillTask::QuoteHistory {
        stock_symbols: vec!["0050".to_string(), "0056".to_string()],
        from: date(2015, 1, 1),
        to: date(2021, 12, 1),
    };
    assert_eq!(history.kind(), "quote_history");
    assert_eq!(history.input(), "0050,0056|2015-01~2021-12");
    assert_eq!(history.timeout_seconds(), LONG_RUNNING_JOB_TIMEOUT_SECS);

    let all_etf = BackfillTask::QuoteHistory {
        stock_symbols: vec![],
        from: date(2015, 1, 1),
        to: date(2015, 2, 1),
    };
    assert_eq!(all_etf.input(), "all-etf|2015-01~2015-02");

    let cagr = BackfillTask::Cagr { date: None };
    assert_eq!(cagr.input(), "latest");
    assert_eq!(cagr.timeout_seconds(), JOB_TIMEOUT_SECS);
    let period = BackfillTask::CagrPeriod { period: CagrPeriod::Y1H };
    assert_eq!(period.kind(), "cagr_period");
    assert_eq!(period.input(), "Y1H");
    let year = BackfillTask::MultipleDividendHistoricalDividends { year: 2026 };
    assert_eq!(year.input(), "2026");
    let quotes = BackfillTask::DailyQuotes { date: date(2026, 4, 30) };
    assert_eq!(quotes.kind(), "daily_quotes");
    assert_eq!(quotes.input(), "2026-04-30");
}

#[test]
fn starting_a_task_registers_its_job_once() {
    let mut board = JobBoard::new();
    let task = BackfillTask::ClosingAggregate { date: date(2026, 1, 2) };
    let job = start_task(&mut board, &task).expect("job should start");
    assert_eq!(job.kind, "closing_aggregate");
    assert_eq!(job.input, "2026-01-02");
    assert_eq!(job.message, "queued");
    match start_task(&mut board, &task) {
        Err(StartJobError::DuplicateActiveJob { existing_id }) => assert_eq!(existing_id, job.id),
        other => panic!("expected DuplicateActiveJob, got {other:?}"),
    }
}

#[test]
fn job_reports_spell_out_their_counts() {
    assert_eq!(
        JobReport::DailyQuotes { quote_count: 1234 }.message(),
        "daily quotes backfill completed: quote_count=1234"
    );
    assert_eq!(
        JobReport::ClosingAggregate.message(),
        "closing aggregate backfill completed"
    );
    assert_eq!(
        JobReport::QuoteHistory {
            symbols: 2,
            months_requested: 3,
            months_with_data: 3,
            months_failed: 0,
            quotes_fetched: 60,
            rows_inserted: 42,
        }
        .message(),
        "quote history backfill completed: symbols=2, months_requested=3, months_with_data=3, months_failed=0, quotes_fetched=60, rows_inserted=42"
    );
    assert_eq!(
        JobReport::Cagr {
            date: Some(date(2026, 8, 6)),
            universe: 10,
            periods_calculated: 9,
            periods_skipped: 1,
            rows_written: 90,
            anomaly_symbols: 0,
        }
        .message(),
        "cagr calculation completed: date=Some(2026-08-06), universe=10, periods_calculated=9, periods_skipped=1, rows_written=90, anomaly_symbols=0"
    );
    assert_eq!(
        JobReport::CagrPeriod {
            period: CagrPeriod::Y10,
            dates_pending: 5,
            dates_processed: 4,
            dates_skipped: 1,
            rows_written: 8,
        }
        .message(),
        "cagr period backfill completed: period=Y10, dates_pending=5, dates_processed=4, dates_skipped=1, rows_written=8"
    );
}
