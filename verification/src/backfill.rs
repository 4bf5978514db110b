//! Manual backfill requests: reading their fields (for the HTTP forms and
//! the gRPC service alike), the job each request starts (kind, input text
//! and time limit), and the summary a finished job reports.
use vstd::prelude::*;
use crate::calendar::{CalendarDate, chrono_parse_ymd, date_to_string, iso_date, iso_month, parse_date_ymd, push_iso_date, push_iso_month};
use crate::api::date_ymd;
use crate::cagr::{CagrPeriod, period_code, period_of_code};
use crate::decimal::{DecimalValue, at_most_int, decimal_from_str_exact, parse_decimal_exact};
use crate::job_board::{BackfillJob, BackfillJobStatus, JobBoard, StartJobError, MAX_CONCURRENT_JOBS, admits, is_active, without_id, is_new_job, next_counter, pruned, running_count, start_error_text, status_text};
use crate::symbols::{code_charset, is_token, list_chars_ok, normalize_security_code, parse_symbol_list, security_code_outcome, strictly_sorted, in_list};
use crate::text::{decimal, joined, push_char, push_decimal, push_signed_decimal, push_str, signed_decimal, string_of, string_views, trim, trimmed};

verus! {

broadcast use vstd::string::group_string_axioms;

/// HTTP 400, the status of a malformed backfill field.
pub const BAD_REQUEST: u16 = 400;

/// An error answer of the backfill HTTP API.
#[derive(Debug)]
pub struct HttpError {
    pub status: u16,
    pub message: String,
}

/// The gRPC status codes the backfill service answers with.
#[derive(Clone, Copy, PartialEq, Eq, Structural, Debug)]
pub enum GrpcCode {
    InvalidArgument,
    NotFound,
    AlreadyExists,
    ResourceExhausted,
    Internal,
}

/// An error answer of the backfill gRPC service.
#[derive(Debug)]
pub struct GrpcStatus {
    pub code: GrpcCode,
    pub message: String,
}

/// A 400 answer with this message.
pub fn bad_request(message: String) -> (r: HttpError)
    ensures
        r.status == BAD_REQUEST,
        r.message == message,
{
    HttpError { status: BAD_REQUEST, message }
}

/// An `INVALID_ARGUMENT` status with this message.
pub fn invalid_argument(message: String) -> (r: GrpcStatus)
    ensures
        r.code == GrpcCode::InvalidArgument,
        r.message == message,
{
    GrpcStatus { code: GrpcCode::InvalidArgument, message }
}

/// What a date field gives: the trimmed text read as `%Y-%m-%d`, or the
/// message with `chrono`'s reason.
pub open spec fn date_input(raw: Seq<char>) -> Result<(int, int, int), Seq<char>> {
    match chrono_parse_ymd(trimmed(raw)) {
        Ok(t) => Ok(t),
        Err(why) => Err("date must use YYYY-MM-DD: "@ + why),
    }
}

/// Reads a date field (see [`date_input`]).
pub fn parse_date_input(raw: &str) -> (r: Result<CalendarDate, String>)
    ensures
        match r {
            Ok(d) => date_input(raw@) == Ok::<(int, int, int), Seq<char>>(date_ymd(d)) && d.valid(),
            Err(e) => date_input(raw@) == Err::<(int, int, int), Seq<char>>(e@),
        },
{
    let t = trim(raw);
    match parse_date_ymd(t.as_str()) {
        Ok(d) => Ok(d),
        Err(why) => {
            let mut m = string_of("date must use YYYY-MM-DD: ");
            push_str(&mut m, why.as_str());
            Err(m)
        },
    }
}

/// What a month field gives: the first day of the trimmed `YYYY-MM` (read
/// as `%Y-%m-%d` once `-01` is appended), or the message with the reason.
pub open spec fn month_input(raw: Seq<char>) -> Result<(int, int, int), Seq<char>> {
    match chrono_parse_ymd(trimmed(raw) + "-01"@) {
        Ok(t) => Ok(t),
        Err(why) => Err("month must use YYYY-MM: "@ + why),
    }
}

/// Reads a month field as its first day (see [`month_input`]).
pub fn parse_month_input(raw: &str) -> (r: Result<CalendarDate, String>)
    ensures
        match r {
            Ok(d) => month_input(raw@) == Ok::<(int, int, int), Seq<char>>(date_ymd(d)) && d.valid(),
            Err(e) => month_input(raw@) == Err::<(int, int, int), Seq<char>>(e@),
        },
{
    let mut t = trim(raw);
    push_str(&mut t, "-01");
    match parse_date_ymd(t.as_str()) {
        Ok(d) => Ok(d),
        Err(why) => {
            let mut m = string_of("month must use YYYY-MM: ");
            push_str(&mut m, why.as_str());
            Err(m)
        },
    }
}

/// What a period field gives: the period of the trimmed code, or the
/// message naming the code as sent.
pub open spec fn period_input(raw: Seq<char>) -> Result<CagrPeriod, Seq<char>> {
    match period_of_code(trimmed(raw)) {
        Some(p) => Ok(p),
        None => Err("unknown period: "@ + raw),
    }
}

/// Reads a CAGR period field (see [`period_input`]).
pub fn parse_period_input(raw: &str) -> (r: Result<CagrPeriod, String>)
    ensures
        match r {
            Ok(p) => period_input(raw@) == Ok::<CagrPeriod, Seq<char>>(p),
            Err(e) => period_input(raw@) == Err::<CagrPeriod, Seq<char>>(e@),
        },
{
    let t = trim(raw);
    match CagrPeriod::from_code(t.as_str()) {
        Some(p) => Ok(p),
        None => {
            let mut m = string_of("unknown period: ");
            push_str(&mut m, raw);
            Err(m)
        },
    }
}

/// What a share ratio field gives: the exact decimal of the trimmed text,
/// which must be above zero and at most 1000.
pub open spec fn share_ratio_input(raw: Seq<char>) -> Result<(int, int), Seq<char>> {
    match decimal_from_str_exact(trimmed(raw)) {
        Err(why) => Err("share_ratio must be a decimal number: "@ + why),
        Ok((m, s)) => if m <= 0 {
            Err("share_ratio must be greater than zero"@)
        } else if m > 1000 * crate::decimal::pow10(s as nat) {
            Err("share_ratio looks implausible (> 1000)"@)
        } else {
            Ok((m, s))
        },
    }
}

/// Reads a corporate action's share ratio (see [`share_ratio_input`]):
/// zero would wipe the holding, and anything above 1000 is a typing slip
/// such as pasting `1:4`.
pub fn parse_share_ratio_input(raw: &str) -> (r: Result<DecimalValue, String>)
    ensures
        match r {
            Ok(d) => share_ratio_input(raw@) == Ok::<(int, int), Seq<char>>(
                (d.mantissa as int, d.scale as int),
            ) && d.wf(),
            Err(e) => share_ratio_input(raw@) == Err::<(int, int), Seq<char>>(e@),
        },
{
    let t = trim(raw);
    let ratio = match parse_decimal_exact(t.as_str()) {
        Ok(d) => d,
        Err(why) => {
            let mut m = string_of("share_ratio must be a decimal number: ");
            push_str(&mut m, why.as_str());
            return Err(m);
        },
    };
    if at_most_int(ratio, 0) {
        assert(ratio.mantissa <= 0) by {
            assert(0 * crate::decimal::pow10(ratio.scale as nat) == 0);
        }
        return Err(string_of("share_ratio must be greater than zero"));
    }
    assert(ratio.mantissa > 0) by {
        assert(0 * crate::decimal::pow10(ratio.scale as nat) == 0);
    }
    if !at_most_int(ratio, 1000) {
        return Err(string_of("share_ratio looks implausible (> 1000)"));
    }
    Ok(ratio)
}

/// Checks a dividend year: 1900 to 3000.
pub fn check_year(year: i32) -> (r: Result<i32, String>)
    ensures
        match r {
            Ok(y) => y == year && 1900 <= year <= 3000,
            Err(e) => !(1900 <= year <= 3000) && e@ == "year must be between 1900 and 3000"@,
        },
{
    if 1900 <= year && year <= 3000 {
        Ok(year)
    } else {
        Err(string_of("year must be between 1900 and 3000"))
    }
}

/// What the CAGR job's date field gives: no date (the latest trading day)
/// when blank, else the date.
pub open spec fn cagr_date_input(raw: Seq<char>) -> Result<Option<(int, int, int)>, Seq<char>> {
    if trimmed(raw).len() == 0 {
        Ok(None)
    } else {
        match date_input(raw) {
            Ok(t) => Ok(Some(t)),
            Err(e) => Err(e),
        }
    }
}

/// Reads the CAGR job's optional date (see [`cagr_date_input`]).
pub fn parse_cagr_date_input(raw: &str) -> (r: Result<Option<CalendarDate>, String>)
    ensures
        match r {
            Ok(None) => cagr_date_input(raw@) == Ok::<Option<(int, int, int)>, Seq<char>>(None),
            Ok(Some(d)) => cagr_date_input(raw@) == Ok::<Option<(int, int, int)>, Seq<char>>(
                Some(date_ymd(d)),
            ) && d.valid(),
            Err(e) => cagr_date_input(raw@) == Err::<Option<(int, int, int)>, Seq<char>>(e@),
        },
{
    let t = trim(raw);
    if t.as_str().is_empty() {
        return Ok(None);
    }
    match parse_date_input(raw) {
        Ok(d) => Ok(Some(d)),
        Err(e) => Err(e),
    }
}

/// A date field of the HTTP API; 400 when malformed.
pub fn parse_request_date(date: &str) -> (r: Result<CalendarDate, HttpError>)
    ensures
        match r {
            Ok(d) => date_input(date@) == Ok::<(int, int, int), Seq<char>>(date_ymd(d)) && d.valid(),
            Err(e) => e.status == BAD_REQUEST && date_input(date@) == Err::<
                (int, int, int),
                Seq<char>,
            >(e.message@),
        },
{
    match parse_date_input(date) {
        Ok(d) => Ok(d),
        Err(m) => Err(bad_request(m)),
    }
}

/// A month field of the HTTP API, as its first day; 400 when malformed.
pub fn parse_request_month(month: &str) -> (r: Result<CalendarDate, HttpError>)
    ensures
        match r {
            Ok(d) => month_input(month@) == Ok::<(int, int, int), Seq<char>>(date_ymd(d)) && d.valid(),
            Err(e) => e.status == BAD_REQUEST && month_input(month@) == Err::<
                (int, int, int),
                Seq<char>,
            >(e.message@),
        },
{
    match parse_month_input(month) {
        Ok(d) => Ok(d),
        Err(m) => Err(bad_request(m)),
    }
}

/// A CAGR period field of the HTTP API; 400 when unknown.
pub fn parse_request_period(period: &str) -> (r: Result<CagrPeriod, HttpError>)
    ensures
        match r {
            Ok(p) => period_input(period@) == Ok::<CagrPeriod, Seq<char>>(p),
            Err(e) => e.status == BAD_REQUEST && period_input(period@) == Err::<CagrPeriod, Seq<char>>(
                e.message@,
            ),
        },
{
    match parse_period_input(period) {
        Ok(p) => Ok(p),
        Err(m) => Err(bad_request(m)),
    }
}

/// A share ratio field of the HTTP API; 400 when not accepted.
pub fn parse_request_share_ratio(raw: &str) -> (r: Result<DecimalValue, HttpError>)
    ensures
        match r {
            Ok(d) => share_ratio_input(raw@) == Ok::<(int, int), Seq<char>>(
                (d.mantissa as int, d.scale as int),
            ) && d.wf(),
            Err(e) => e.status == BAD_REQUEST && share_ratio_input(raw@) == Err::<(int, int), Seq<char>>(
                e.message@,
            ),
        },
{
    match parse_share_ratio_input(raw) {
        Ok(d) => Ok(d),
        Err(m) => Err(bad_request(m)),
    }
}

/// The strings of `v` are exactly the codes of the list `s`, in strictly
/// increasing order, and `s` holds no stray character.
pub open spec fn symbol_list_of(s: Seq<char>, v: Seq<String>) -> bool {
    &&& list_chars_ok(s)
    &&& strictly_sorted(v)
    &&& forall|x: Seq<char>| #[trigger] in_list(v, x) <==> is_token(s, x)
}

/// A list of codes in the HTTP API; 400 when a code is invalid.
pub fn parse_request_symbol_list(raw: &str) -> (r: Result<Vec<String>, HttpError>)
    ensures
        match r {
            Ok(v) => symbol_list_of(raw@, v@),
            Err(e) => e.status == BAD_REQUEST && !list_chars_ok(raw@) && e.message@ == code_charset(),
        },
{
    match parse_symbol_list(raw) {
        Ok(v) => Ok(v),
        Err(m) => Err(bad_request(m)),
    }
}

/// A security code field of the HTTP API; 400 when invalid.
pub fn parse_request_security_code(security_code: String) -> (r: Result<String, HttpError>)
    ensures
        match r {
            Ok(c) => security_code_outcome(security_code@) == Ok::<Seq<char>, Seq<char>>(c@),
            Err(e) => e.status == BAD_REQUEST && security_code_outcome(security_code@) == Err::<
                Seq<char>,
                Seq<char>,
            >(e.message@),
        },
{
    match normalize_security_code(security_code) {
        Ok(c) => Ok(c),
        Err(m) => Err(bad_request(m)),
    }
}

/// A date field of the gRPC service; `INVALID_ARGUMENT` when malformed.
pub fn parse_grpc_date(date: &str) -> (r: Result<CalendarDate, GrpcStatus>)
    ensures
        match r {
            Ok(d) => date_input(date@) == Ok::<(int, int, int), Seq<char>>(date_ymd(d)) && d.valid(),
            Err(e) => e.code == GrpcCode::InvalidArgument && date_input(date@) == Err::<
                (int, int, int),
                Seq<char>,
            >(e.message@),
        },
{
    match parse_date_input(date) {
        Ok(d) => Ok(d),
        Err(m) => Err(invalid_argument(m)),
    }
}

/// A month field of the gRPC service, as its first day.
pub fn parse_grpc_month(month: &str) -> (r: Result<CalendarDate, GrpcStatus>)
    ensures
        match r {
            Ok(d) => month_input(month@) == Ok::<(int, int, int), Seq<char>>(date_ymd(d)) && d.valid(),
            Err(e) => e.code == GrpcCode::InvalidArgument && month_input(month@) == Err::<
                (int, int, int),
                Seq<char>,
            >(e.message@),
        },
{
    match parse_month_input(month) {
        Ok(d) => Ok(d),
        Err(m) => Err(invalid_argument(m)),
    }
}

/// A list of codes in the gRPC service.
pub fn parse_grpc_symbol_list(raw: &str) -> (r: Result<Vec<String>, GrpcStatus>)
    ensures
        match r {
            Ok(v) => symbol_list_of(raw@, v@),
            Err(e) => e.code == GrpcCode::InvalidArgument && !list_chars_ok(raw@) && e.message@
                == code_charset(),
        },
{
    match parse_symbol_list(raw) {
        Ok(v) => Ok(v),
        Err(m) => Err(invalid_argument(m)),
    }
}

/// A security code field of the gRPC service.
pub fn parse_grpc_security_code(security_code: String) -> (r: Result<String, GrpcStatus>)
    ensures
        match r {
            Ok(c) => security_code_outcome(security_code@) == Ok::<Seq<char>, Seq<char>>(c@),
            Err(e) => e.code == GrpcCode::InvalidArgument && security_code_outcome(security_code@)
                == Err::<Seq<char>, Seq<char>>(e.message@),
        },
{
    match normalize_security_code(security_code) {
        Ok(c) => Ok(c),
        Err(m) => Err(invalid_argument(m)),
    }
}

/// A share ratio field of the gRPC service.
pub fn parse_grpc_share_ratio(raw: &str) -> (r: Result<DecimalValue, GrpcStatus>)
    ensures
        match r {
            Ok(d) => share_ratio_input(raw@) == Ok::<(int, int), Seq<char>>(
                (d.mantissa as int, d.scale as int),
            ) && d.wf(),
            Err(e) => e.code == GrpcCode::InvalidArgument && share_ratio_input(raw@) == Err::<
                (int, int),
                Seq<char>,
            >(e.message@),
        },
{
    match parse_share_ratio_input(raw) {
        Ok(d) => Ok(d),
        Err(m) => Err(invalid_argument(m)),
    }
}

/// A CAGR period field of the gRPC service.
pub fn parse_grpc_period(period: &str) -> (r: Result<CagrPeriod, GrpcStatus>)
    ensures
        match r {
            Ok(p) => period_input(period@) == Ok::<CagrPeriod, Seq<char>>(p),
            Err(e) => e.code == GrpcCode::InvalidArgument && period_input(period@) == Err::<
                CagrPeriod,
                Seq<char>,
            >(e.message@),
        },
{
    match parse_period_input(period) {
        Ok(p) => Ok(p),
        Err(m) => Err(invalid_argument(m)),
    }
}

/// A refused start as an HTTP answer: 409 for a duplicate, 429 for the
/// limit, with the refusal's text.
pub fn start_job_error_response(err: &StartJobError) -> (r: HttpError)
    ensures
        r.status == (if err is DuplicateActiveJob {
            409u16
        } else {
            429u16
        }),
        r.message@ == start_error_text(*err),
{
    HttpError { status: err.http_status(), message: err.message() }
}

/// A refused start as a gRPC status: `ALREADY_EXISTS` for a duplicate,
/// `RESOURCE_EXHAUSTED` for the limit.
pub fn start_job_error_to_status(err: &StartJobError) -> (r: GrpcStatus)
    ensures
        r.code == (if err is DuplicateActiveJob {
            GrpcCode::AlreadyExists
        } else {
            GrpcCode::ResourceExhausted
        }),
        r.message@ == start_error_text(*err),
{
    let code = match err {
        StartJobError::DuplicateActiveJob { .. } => GrpcCode::AlreadyExists,
        StartJobError::TooManyActiveJobs { .. } => GrpcCode::ResourceExhausted,
    };
    GrpcStatus { code, message: err.message() }
}

/// The answer for a job id the board does not know.
pub fn job_not_found(id: &str) -> (r: GrpcStatus)
    ensures
        r.code == GrpcCode::NotFound,
        r.message@ == "job not found: "@ + id@,
{
    let mut m = string_of("job not found: ");
    push_str(&mut m, id);
    GrpcStatus { code: GrpcCode::NotFound, message: m }
}

/// The same for the HTTP API (404).
pub fn job_not_found_response(id: &str) -> (r: HttpError)
    ensures
        r.status == 404,
        r.message@ == "job not found: "@ + id@,
{
    let mut m = string_of("job not found: ");
    push_str(&mut m, id);
    HttpError { status: 404, message: m }
}

/// The time limit of ordinary jobs, in seconds (one hour).
pub const JOB_TIMEOUT_SECS: u64 = 3600;

/// The time limit of the long history jobs, in seconds (twelve hours).
pub const LONG_RUNNING_JOB_TIMEOUT_SECS: u64 = 43200;

/// A backfill the operator asked for, with its fields read.
#[derive(Debug)]
#[allow(inconsistent_fields)]
pub enum BackfillTask {
    DailyQuotes { date: CalendarDate },
    MultipleDividendHistoricalDividends { year: i32 },
    ClosingAggregate { date: CalendarDate },
    TaiwanStockIndex { date: CalendarDate },
    ReceivedDividendRecords { security_code: String },
    HistoricalDividends { security_code: String },
    /// An empty list stands for every listed ETF and ETN.
    QuoteHistory { stock_symbols: Vec<String>, from: CalendarDate, to: CalendarDate },
    /// No date stands for the latest trading day.
    Cagr { date: Option<CalendarDate> },
    CagrPeriod { period: CagrPeriod },
}

/// The job kind of a task.
pub open spec fn task_kind(t: BackfillTask) -> Seq<char> {
    match t {
        BackfillTask::DailyQuotes { .. } => "daily_quotes"@,
        BackfillTask::MultipleDividendHistoricalDividends { .. } => "multiple_dividend_historical_dividends"@,
        BackfillTask::ClosingAggregate { .. } => "closing_aggregate"@,
        BackfillTask::TaiwanStockIndex { .. } => "taiwan_stock_index"@,
        BackfillTask::ReceivedDividendRecords { .. } => "received_dividend_records"@,
        BackfillTask::HistoricalDividends { .. } => "historical_dividends"@,
        BackfillTask::QuoteHistory { .. } => "quote_history"@,
        BackfillTask::Cagr { .. } => "cagr"@,
        BackfillTask::CagrPeriod { .. } => "cagr_period"@,
    }
}

/// The input text of a task, which with the kind identifies a duplicate:
/// the date, year, code or period; for the history, the codes joined by
/// commas (or `all-etf`), `|`, and the months `YYYY-MM~YYYY-MM`; for the
/// CAGR, the date or `latest`.
pub open spec fn task_input(t: BackfillTask) -> Seq<char> {
    match t {
        BackfillTask::DailyQuotes { date } => iso_date(date),
        BackfillTask::MultipleDividendHistoricalDividends { year } => signed_decimal(year as int),
        BackfillTask::ClosingAggregate { date } => iso_date(date),
        BackfillTask::TaiwanStockIndex { date } => iso_date(date),
        BackfillTask::ReceivedDividendRecords { security_code } => security_code@,
        BackfillTask::HistoricalDividends { security_code } => security_code@,
        BackfillTask::QuoteHistory { stock_symbols, from, to } => (if stock_symbols@.len() == 0 {
            "all-etf"@
        } else {
            joined(string_views(stock_symbols@), ","@)
        }) + "|"@ + iso_month(from) + "~"@ + iso_month(to),
        BackfillTask::Cagr { date } => match date {
            Some(d) => iso_date(d),
            None => "latest"@,
        },
        BackfillTask::CagrPeriod { period } => period_code(period),
    }
}

/// The time limit of a task, in seconds: twelve hours for the quote
/// history and the CAGR period backfill, one hour otherwise.
pub open spec fn task_timeout(t: BackfillTask) -> u64 {
    match t {
        BackfillTask::QuoteHistory { .. } => LONG_RUNNING_JOB_TIMEOUT_SECS,
        BackfillTask::CagrPeriod { .. } => LONG_RUNNING_JOB_TIMEOUT_SECS,
        _ => JOB_TIMEOUT_SECS,
    }
}

impl BackfillTask {
    /// The job kind.
    pub fn kind(&self) -> (r: &'static str)
        ensures
            r@ == task_kind(*self),
    {
        match self {
            BackfillTask::DailyQuotes { .. } => "daily_quotes",
            BackfillTask::MultipleDividendHistoricalDividends { .. } => "multiple_dividend_historical_dividends",
            BackfillTask::ClosingAggregate { .. } => "closing_aggregate",
            BackfillTask::TaiwanStockIndex { .. } => "taiwan_stock_index",
            BackfillTask::ReceivedDividendRecords { .. } => "received_dividend_records",
            BackfillTask::HistoricalDividends { .. } => "historical_dividends",
            BackfillTask::QuoteHistory { .. } => "quote_history",
            BackfillTask::Cagr { .. } => "cagr",
            BackfillTask::CagrPeriod { .. } => "cagr_period",
        }
    }

    /// The input text.
    pub fn input(&self) -> (r: String)
        ensures
            r@ == task_input(*self),
    {
        match self {
            BackfillTask::DailyQuotes { date } => date_to_string(*date),
            BackfillTask::MultipleDividendHistoricalDividends { year } => {
                let mut s = String::new();
                push_signed_decimal(&mut s, *year as i64);
                assert(s@ =~= signed_decimal(*year as int));
                s
            },
            BackfillTask::ClosingAggregate { date } => date_to_string(*date),
            BackfillTask::TaiwanStockIndex { date } => date_to_string(*date),
            BackfillTask::ReceivedDividendRecords { security_code } => security_code.clone(),
            BackfillTask::HistoricalDividends { security_code } => security_code.clone(),
            BackfillTask::QuoteHistory { stock_symbols, from, to } => {
                let mut s = if stock_symbols.len() == 0 {
                    string_of("all-etf")
                } else {
                    crate::text::join(stock_symbols, ",")
                };
                push_char(&mut s, '|');
                push_iso_month(&mut s, *from);
                push_char(&mut s, '~');
                push_iso_month(&mut s, *to);
                proof {
                    reveal_strlit("|");
                    reveal_strlit("~");
                }
                assert(s@ =~= task_input(*self));
                s
            },
            BackfillTask::Cagr { date } => match date {
                Some(d) => date_to_string(*d),
                None => string_of("latest"),
            },
            BackfillTask::CagrPeriod { period } => string_of(period.code()),
        }
    }

    /// The time limit, in seconds.
    pub fn timeout_seconds(&self) -> (r: u64)
        ensures
            r == task_timeout(*self),
    {
        match self {
            BackfillTask::QuoteHistory { .. } => LONG_RUNNING_JOB_TIMEOUT_SECS,
            BackfillTask::CagrPeriod { .. } => LONG_RUNNING_JOB_TIMEOUT_SECS,
            _ => JOB_TIMEOUT_SECS,
        }
    }
}

/// Starts the job of `task` on the board (see [`JobBoard::start`]): its
/// kind and input decide whether it is a duplicate.
///
/// Refused with `DuplicateActiveJob` (naming the running job) when a job of
/// the same kind and input is running, else with `TooManyActiveJobs` when
/// [`MAX_CONCURRENT_JOBS`] jobs are running; the board is then unchanged.
/// Otherwise a new running job with the task's kind and input, the message
/// `queued` and no finish time is added, old finished jobs are pruned, and
/// the job is returned.
pub fn start_task(board: &mut JobBoard, task: &BackfillTask) -> (r: Result<BackfillJob, StartJobError>)
    requires
        old(board).wf(),
    ensures
        final(board).wf(),
        r is Ok <==> admits(old(board)@, task_kind(*task), task_input(*task)),
        match r {
            Err(StartJobError::DuplicateActiveJob { existing_id }) => {
                &&& final(board)@ == old(board)@
                &&& final(board).counter() == old(board).counter()
                &&& exists|i: int|
                    0 <= i < old(board)@.len() && is_active(old(board)@[i], task_kind(*task), task_input(*task))
                        && old(board)@[i].id@ == existing_id@
            },
            Err(StartJobError::TooManyActiveJobs { max }) => {
                &&& final(board)@ == old(board)@
                &&& final(board).counter() == old(board).counter()
                &&& max == MAX_CONCURRENT_JOBS
                &&& forall|i: int|
                    0 <= i < old(board)@.len() ==> !is_active(old(board)@[i], task_kind(*task), task_input(*task))
                &&& running_count(old(board)@) == MAX_CONCURRENT_JOBS as nat
            },
            Ok(job) => {
                &&& forall|i: int|
                    0 <= i < old(board)@.len() ==> !is_active(old(board)@[i], task_kind(*task), task_input(*task))
                &&& running_count(old(board)@) < MAX_CONCURRENT_JOBS as nat
                &&& is_new_job(job, job.id@, task_kind(*task), task_input(*task), job.started_at@)
                &&& pruned(without_id(old(board)@, job.id@).push(job), final(board)@)
                &&& final(board)@.contains(job)
                &&& final(board).counter() == next_counter(old(board).counter())
            },
        },
{
    let kind = task.kind();
    let input = task.input();
    let r = board.start(kind, input);
    match &r {
        Ok(job) => {
            let ghost old_jobs = without_id(old(board)@, job.id@);
            assert(old_jobs.push(*job)[old_jobs.len() as int] == *job);
            assert(crate::job_board::is_running(old_jobs.push(*job)[old_jobs.len() as int]));
        },
        Err(_) => {},
    }
    r
}

/// A corporate action to record: a change in the number of shares per
/// share held, from a date on.
#[derive(Debug)]
pub struct CorporateAction {
    pub stock_symbol: String,
    pub effective_date: CalendarDate,
    pub share_ratio: DecimalValue,
    pub note: String,
}

/// What a corporate action form gives, its fields checked in order: the
/// code, the date, the ratio; the note is trimmed.
pub open spec fn corporate_action_error(symbol: Seq<char>, date: Seq<char>, ratio: Seq<char>) -> Option<Seq<char>> {
    match security_code_outcome(symbol) {
        Err(e) => Some(e),
        Ok(_) => match date_input(date) {
            Err(e) => Some(e),
            Ok(_) => match share_ratio_input(ratio) {
                Err(e) => Some(e),
                Ok(_) => None,
            },
        },
    }
}

/// `a` is the corporate action read from the fields: the normalised code,
/// the date and the exact ratio as read, the trimmed note.
pub open spec fn corporate_action_read(
    a: CorporateAction,
    stock_symbol: Seq<char>,
    effective_date: Seq<char>,
    share_ratio: Seq<char>,
    note: Seq<char>,
) -> bool {
    &&& corporate_action_error(stock_symbol, effective_date, share_ratio) is None
    &&& security_code_outcome(stock_symbol) == Ok::<Seq<char>, Seq<char>>(a.stock_symbol@)
    &&& date_input(effective_date) == Ok::<(int, int, int), Seq<char>>(date_ymd(a.effective_date))
    &&& a.effective_date.valid()
    &&& share_ratio_input(share_ratio) == Ok::<(int, int), Seq<char>>(
        (a.share_ratio.mantissa as int, a.share_ratio.scale as int),
    )
    &&& a.share_ratio.wf()
    &&& a.note@ == trimmed(note)
}

/// Reads a corporate action's fields (see [`corporate_action_error`]).
pub fn parse_corporate_action(stock_symbol: String, effective_date: &str, share_ratio: &str, note: &str) -> (r: Result<
    CorporateAction,
    String,
>)
    ensures
        match r {
            Ok(a) => corporate_action_read(a, stock_symbol@, effective_date@, share_ratio@, note@),
            Err(e) => corporate_action_error(stock_symbol@, effective_date@, share_ratio@) == Some(e@),
        },
{
    let stock_symbol = normalize_security_code(stock_symbol)?;
    let effective_date = parse_date_input(effective_date)?;
    let share_ratio = parse_share_ratio_input(share_ratio)?;
    Ok(CorporateAction { stock_symbol, effective_date, share_ratio, note: trim(note) })
}

/// Reads a corporate action from the HTTP form; 400 when a field is bad.
pub fn parse_request_corporate_action(stock_symbol: String, effective_date: &str, share_ratio: &str, note: &str) -> (r: Result<
    CorporateAction,
    HttpError,
>)
    ensures
        match r {
            Ok(a) => corporate_action_read(a, stock_symbol@, effective_date@, share_ratio@, note@),
            Err(e) => e.status == BAD_REQUEST && corporate_action_error(stock_symbol@, effective_date@, share_ratio@)
                == Some(e.message@),
        },
{
    match parse_corporate_action(stock_symbol, effective_date, share_ratio, note) {
        Ok(a) => Ok(a),
        Err(m) => Err(bad_request(m)),
    }
}

/// Reads a corporate action from the gRPC request; `INVALID_ARGUMENT` when
/// a field is bad.
pub fn parse_grpc_corporate_action(stock_symbol: String, effective_date: &str, share_ratio: &str, note: &str) -> (r: Result<
    CorporateAction,
    GrpcStatus,
>)
    ensures
        match r {
            Ok(a) => corporate_action_read(a, stock_symbol@, effective_date@, share_ratio@, note@),
            Err(e) => e.code == GrpcCode::InvalidArgument && corporate_action_error(stock_symbol@, effective_date@, share_ratio@)
                == Some(e.message@),
        },
{
    match parse_corporate_action(stock_symbol, effective_date, share_ratio, note) {
        Ok(a) => Ok(a),
        Err(m) => Err(invalid_argument(m)),
    }
}

/// A recorded corporate action as the answer lists it.
#[derive(Debug)]
pub struct CorporateActionItem {
    pub effective_date: String,
    /// The ratio without trailing zeros.
    pub share_ratio: String,
    pub note: String,
}

/// Lists a recorded corporate action: the date as `YYYY-MM-DD`, the ratio
/// normalised (`4`, not `4.00`), the note as recorded.
pub fn corporate_action_item(a: &CorporateAction) -> (r: CorporateActionItem)
    requires
        a.share_ratio.wf(),
    ensures
        r.effective_date@ == iso_date(a.effective_date),
        r.share_ratio@ == crate::decimal::decimal_normalized_text(
            a.share_ratio.mantissa as int,
            a.share_ratio.scale as int,
        ),
        r.note@ == a.note@,
{
    CorporateActionItem {
        effective_date: date_to_string(a.effective_date),
        share_ratio: crate::decimal::decimal_normalized(a.share_ratio),
        note: a.note.clone(),
    }
}

/// What a finished backfill reports, with its counts.
#[derive(Debug)]
pub enum JobReport {
    DailyQuotes { quote_count: u64 },
    MultipleDividendHistoricalDividends { stock_count: u64, detail_count: u64 },
    ClosingAggregate,
    TaiwanStockIndex { upserted_count: u64 },
    ReceivedDividendRecords { holding_count: u64, year_count: u64, recalculated_count: u64 },
    HistoricalDividends { upserted_count: u64 },
    QuoteHistory {
        symbols: u64,
        months_requested: u64,
        months_with_data: u64,
        months_failed: u64,
        quotes_fetched: u64,
        rows_inserted: u64,
    },
    Cagr {
        date: Option<CalendarDate>,
        universe: u64,
        periods_calculated: u64,
        periods_skipped: u64,
        rows_written: u64,
        anomaly_symbols: u64,
    },
    CagrPeriod {
        period: CagrPeriod,
        dates_pending: u64,
        dates_processed: u64,
        dates_skipped: u64,
        rows_written: u64,
    },
}

/// `name=n`.
pub open spec fn count_text(name: Seq<char>, n: u64) -> Seq<char> {
    name + "="@ + decimal(n as nat)
}

/// An optional date as `{:?}` writes it: `Some(YYYY-MM-DD)` or `None`.
pub open spec fn debug_date(d: Option<CalendarDate>) -> Seq<char> {
    match d {
        Some(x) => "Some("@ + iso_date(x) + ")"@,
        None => "None"@,
    }
}

/// The summary message a successful job records.
pub open spec fn report_text(r: JobReport) -> Seq<char> {
    match r {
        JobReport::DailyQuotes { quote_count } => "daily quotes backfill completed: "@ + count_text(
            "quote_count"@,
            quote_count,
        ),
        JobReport::MultipleDividendHistoricalDividends { stock_count, detail_count } =>
            "multiple dividend historical dividends backfill completed: "@ + count_text(
            "stock_count"@,
            stock_count,
        ) + ", "@ + count_text("detail_count"@, detail_count),
        JobReport::ClosingAggregate => "closing aggregate backfill completed"@,
        JobReport::TaiwanStockIndex { upserted_count } => "taiwan stock index backfill completed: "@
            + count_text("upserted_count"@, upserted_count),
        JobReport::ReceivedDividendRecords { holding_count, year_count, recalculated_count } =>
            "received dividend records backfill completed: "@ + count_text(
            "holding_count"@,
            holding_count,
        ) + ", "@ + count_text("year_count"@, year_count) + ", "@ + count_text(
            "recalculated_count"@,
            recalculated_count,
        ),
        JobReport::HistoricalDividends { upserted_count } => "historical dividends backfill completed: "@
            + count_text("upserted_count"@, upserted_count),
        JobReport::QuoteHistory {
            symbols,
            months_requested,
            months_with_data,
            months_failed,
            quotes_fetched,
            rows_inserted,
        } => "quote history backfill completed: "@ + count_text("symbols"@, symbols) + ", "@
            + count_text("months_requested"@, months_requested) + ", "@ + count_text(
            "months_with_data"@,
            months_with_data,
        ) + ", "@ + count_text("months_failed"@, months_failed) + ", "@ + count_text(
            "quotes_fetched"@,
            quotes_fetched,
        ) + ", "@ + count_text("rows_inserted"@, rows_inserted),
        JobReport::Cagr {
            date,
            universe,
            periods_calculated,
            periods_skipped,
            rows_written,
            anomaly_symbols,
        } => "cagr calculation completed: date="@ + debug_date(date) + ", "@ + count_text(
            "universe"@,
            universe,
        ) + ", "@ + count_text("periods_calculated"@, periods_calculated) + ", "@ + count_text(
            "periods_skipped"@,
            periods_skipped,
        ) + ", "@ + count_text("rows_written"@, rows_written) + ", "@ + count_text(
            "anomaly_symbols"@,
            anomaly_symbols,
        ),
        JobReport::CagrPeriod {
            period,
            dates_pending,
            dates_processed,
            dates_skipped,
            rows_written,
        } => "cagr period backfill completed: period="@ + period_code(period) + ", "@ + count_text(
            "dates_pending"@,
            dates_pending,
        ) + ", "@ + count_text("dates_processed"@, dates_processed) + ", "@ + count_text(
            "dates_skipped"@,
            dates_skipped,
        ) + ", "@ + count_text("rows_written"@, rows_written),
    }
}

fn push_count(s: &mut String, name: &str, n: u64)
    ensures
        final(s)@ == old(s)@ + count_text(name@, n),
{
    let ghost start = s@;
    push_str(s, name);
    push_str(s, "=");
    push_decimal(s, n);
    assert(s@ =~= start + count_text(name@, n));
}

fn push_next_count(s: &mut String, name: &str, n: u64)
    ensures
        final(s)@ == old(s)@ + ", "@ + count_text(name@, n),
{
    let ghost start = s@;
    push_str(s, ", ");
    push_count(s, name, n);
    assert(s@ =~= start + ", "@ + count_text(name@, n));
}

impl JobReport {
    /// The summary message.
    pub fn message(&self) -> (r: String)
        ensures
            r@ == report_text(*self),
    {
        match self {
            JobReport::DailyQuotes { quote_count } => {
                let mut s = string_of("daily quotes backfill completed: ");
                push_count(&mut s, "quote_count", *quote_count);
                s
            },
            JobReport::MultipleDividendHistoricalDividends { stock_count, detail_count } => {
                let mut s = string_of("multiple dividend historical dividends backfill completed: ");
                push_count(&mut s, "stock_count", *stock_count);
                push_next_count(&mut s, "detail_count", *detail_count);
                s
            },
            JobReport::ClosingAggregate => string_of("closing aggregate backfill completed"),
            JobReport::TaiwanStockIndex { upserted_count } => {
                let mut s = string_of("taiwan stock index backfill completed: ");
                push_count(&mut s, "upserted_count", *upserted_count);
                s
            },
            JobReport::ReceivedDividendRecords { holding_count, year_count, recalculated_count } => {
                let mut s = string_of("received dividend records backfill completed: ");
                push_count(&mut s, "holding_count", *holding_count);
                push_next_count(&mut s, "year_count", *year_count);
                push_next_count(&mut s, "recalculated_count", *recalculated_count);
                s
            },
            JobReport::HistoricalDividends { upserted_count } => {
                let mut s = string_of("historical dividends backfill completed: ");
                push_count(&mut s, "upserted_count", *upserted_count);
                s
            },
            JobReport::QuoteHistory {
                symbols,
                months_requested,
                months_with_data,
                months_failed,
                quotes_fetched,
                rows_inserted,
            } => {
                let mut s = string_of("quote history backfill completed: ");
                push_count(&mut s, "symbols", *symbols);
                push_next_count(&mut s, "months_requested", *months_requested);
                push_next_count(&mut s, "months_with_data", *months_with_data);
                push_next_count(&mut s, "months_failed", *months_failed);
                push_next_count(&mut s, "quotes_fetched", *quotes_fetched);
                push_next_count(&mut s, "rows_inserted", *rows_inserted);
                s
            },
            JobReport::Cagr {
                date,
                universe,
                periods_calculated,
                periods_skipped,
                rows_written,
                anomaly_symbols,
            } => {
                let mut s = string_of("cagr calculation completed: date=");
                match date {
                    Some(d) => {
                        push_str(&mut s, "Some(");
                        push_iso_date(&mut s, *d);
                        push_str(&mut s, ")");
                    },
                    None => {
                        push_str(&mut s, "None");
                    },
                }
                push_next_count(&mut s, "universe", *universe);
                push_next_count(&mut s, "periods_calculated", *periods_calculated);
                push_next_count(&mut s, "periods_skipped", *periods_skipped);
                push_next_count(&mut s, "rows_written", *rows_written);
                push_next_count(&mut s, "anomaly_symbols", *anomaly_symbols);
                s
            },
            JobReport::CagrPeriod {
                period,
                dates_pending,
                dates_processed,
                dates_skipped,
                rows_written,
            } => {
                let mut s = string_of("cagr period backfill completed: period=");
                push_str(&mut s, period.code());
                push_next_count(&mut s, "dates_pending", *dates_pending);
                push_next_count(&mut s, "dates_processed", *dates_processed);
                push_next_count(&mut s, "dates_skipped", *dates_skipped);
                push_next_count(&mut s, "rows_written", *rows_written);
                s
            },
        }
    }
}


/// Law: the two backfills that crawl or recompute years of history, the
/// quote history and the CAGR period backfill, may run twelve hours, for
/// every input; every other backfill is stopped after one hour.
pub proof fn lemma_long_backfills_get_twelve_hours(t: BackfillTask)
    ensures
        t is QuoteHistory || t is CagrPeriod ==> task_timeout(t) == 12 * 60 * 60,
        !(t is QuoteHistory || t is CagrPeriod) ==> task_timeout(t) == 60 * 60,
{
}

} // verus!
