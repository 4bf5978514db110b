//! Rules shared by the read-only data API's endpoints: the error value they
//! answer with, and the conversions of months, quarters, markets, dates and
//! valuation bands between the database and the API's contract.
use vstd::prelude::*;
use crate::calendar::{CalendarDate, date_to_string, iso_date, parse_date_ymd, chrono_parse_ymd};
use crate::decimal::{DecimalValue, decimal_le};
use crate::order::str_equal;
use crate::text::{
    all_digits, ascii_digit, chars_of, decimal, digit_char, digit_value, digits_value, i32_text, is_ascii_digit,
    lemma_decimal_of_digits, lemma_digit_round_trip, parse_i32_chars, push_char, push_str,
    push_zero_padded, string_of, zero_padded,
};

verus! {

broadcast use vstd::string::group_string_axioms;

/// HTTP 422, the status of every rejected parameter.
pub const UNPROCESSABLE_ENTITY: u16 = 422;

/// HTTP 404.
pub const NOT_FOUND: u16 = 404;

/// An error answer: the HTTP status and the message of the JSON body.
#[derive(Debug)]
pub struct ApiError {
    pub status: u16,
    pub message: String,
}

/// A 422 answer with this message.
pub fn unprocessable(message: &str) -> (r: ApiError)
    ensures
        r.status == UNPROCESSABLE_ENTITY,
        r.message@ == message@,
{
    ApiError { status: UNPROCESSABLE_ENTITY, message: string_of(message) }
}

/// The `YYYYMM` number a `YYYY-MM` month stands for: exactly four ASCII
/// digits, `-`, two ASCII digits, with a year in 1000..=9999 and a month
/// in 1..=12. Anything else (a sign, a space, a missing zero) is no month.
pub open spec fn month_number(s: Seq<char>) -> Option<int> {
    let y = s.take(4);
    let m = s.skip(5);
    if s.len() == 7 && s[4] == '-' && all_digits(y) && all_digits(m) && 1000 <= digits_value(y)
        <= 9999 && 1 <= digits_value(m) <= 12 {
        Some((digits_value(y) * 100 + digits_value(m)) as int)
    } else {
        None
    }
}

/// The message of a malformed month.
pub open spec fn month_error() -> Seq<char> {
    "月份必須為 YYYY-MM"@
}

/// Reads a `YYYY-MM` month as the database's `YYYYMM` number
/// (`2026-06` is `202606`).
pub fn parse_month(value: &str) -> (r: Result<i64, &'static str>)
    ensures
        match r {
            Ok(n) => month_number(value@) == Some(n as int),
            Err(e) => month_number(value@) is None && e@ == month_error(),
        },
{
    let v = chars_of(value);
    if v.len() != 7 || v[4] != '-' {
        return Err("月份必須為 YYYY-MM");
    }
    let ghost y = v@.take(4);
    let ghost m = v@.skip(5);
    proof {
        assert forall|k: int| 0 <= k < 4 implies y[k] == v@[k] by {}
        assert forall|k: int| 0 <= k < 2 implies m[k] == v@[k + 5] by {}
    }
    if !(ascii_digit(v[0]) && ascii_digit(v[1]) && ascii_digit(v[2]) && ascii_digit(v[3])) {
        proof {
            assert(!all_digits(y)) by {
                if all_digits(y) {
                    assert(is_ascii_digit(y[0]) && is_ascii_digit(y[1]) && is_ascii_digit(y[2])
                        && is_ascii_digit(y[3]));
                }
            }
        }
        return Err("月份必須為 YYYY-MM");
    }
    if !(ascii_digit(v[5]) && ascii_digit(v[6])) {
        proof {
            assert(!all_digits(m)) by {
                if all_digits(m) {
                    assert(is_ascii_digit(m[0]) && is_ascii_digit(m[1]));
                }
            }
        }
        return Err("月份必須為 YYYY-MM");
    }
    proof {
        assert(all_digits(y));
        assert(all_digits(m));
        lemma_four_digits(y);
        lemma_two_digits(m);
    }
    let year: i64 = (v[0] as u32 - 0x30) as i64 * 1000 + (v[1] as u32 - 0x30) as i64 * 100 + (
    v[2] as u32 - 0x30) as i64 * 10 + (v[3] as u32 - 0x30) as i64;
    let month: i64 = (v[5] as u32 - 0x30) as i64 * 10 + (v[6] as u32 - 0x30) as i64;
    assert(year == digits_value(y));
    assert(month == digits_value(m));
    if 1000 <= year && year <= 9999 && 1 <= month && month <= 12 {
        Ok(year * 100 + month)
    } else {
        Err("月份必須為 YYYY-MM")
    }
}

/// `n` written with at least `width` characters, as `format!("{:0width$}")`
/// writes an integer: a `-` sign first when negative, then zeros.
pub open spec fn signed_zero_padded(n: int, width: nat) -> Seq<char> {
    if n < 0 {
        seq!['-'] + zero_padded((-n) as nat, if width > 0 {
            (width - 1) as nat
        } else {
            0
        })
    } else {
        zero_padded(n as nat, width)
    }
}

/// `a / b` rounded toward zero, as Rust divides integers.
pub open spec fn trunc_div(a: int, b: int) -> int {
    if a >= 0 {
        a / b
    } else {
        -((-a) / b)
    }
}

/// `a % b` with the sign of `a`, as Rust's `%`.
pub open spec fn trunc_rem(a: int, b: int) -> int {
    a - trunc_div(a, b) * b
}

/// The text `format!("{:04}-{:02}", v / 100, v % 100)` writes.
pub open spec fn month_text(v: int) -> Seq<char> {
    signed_zero_padded(trunc_div(v, 100), 4) + seq!['-'] + signed_zero_padded(trunc_rem(v, 100), 2)
}

fn push_signed_zero_padded(s: &mut String, n: i64, width: usize)
    requires
        n > i64::MIN,
        width >= 1,
    ensures
        final(s)@ == old(s)@ + signed_zero_padded(n as int, width as nat),
{
    if n < 0 {
        let ghost start = s@;
        push_char(s, '-');
        push_zero_padded(s, (0 - n) as u64, width - 1);
        assert(s@ == start + (seq!['-'] + zero_padded((-n) as nat, (width - 1) as nat)));
    } else {
        push_zero_padded(s, n as u64, width);
    }
}

/// `(value / 100, value % 100)` with Rust's truncating division, which
/// splits a `YYYYMM` number into its year and month.
pub fn split_hundreds(value: i64) -> (r: (i64, i64))
    ensures
        r.0 == trunc_div(value as int, 100),
        r.1 == trunc_rem(value as int, 100),
        -100 < r.1 < 100,
{
    if value >= 0 {
        (value / 100, value % 100)
    } else {
        let a: u64 = (0 - (value as i128)) as u64;
        (0 - ((a / 100) as i64), 0 - ((a % 100) as i64))
    }
}

/// Writes the database's `YYYYMM` number as `YYYY-MM` (the reverse of
/// [`parse_month`]).
pub fn format_month(value: i64) -> (r: String)
    ensures
        r@ == month_text(value as int),
{
    let (q, m) = split_hundreds(value);
    let mut r = String::new();
    push_signed_zero_padded(&mut r, q, 4);
    push_char(&mut r, '-');
    push_signed_zero_padded(&mut r, m, 2);
    assert(r@ =~= month_text(value as int));
    r
}

proof fn lemma_four_digits(y: Seq<char>)
    requires
        y.len() == 4,
        all_digits(y),
    ensures
        digits_value(y) == digit_value(y[0]) * 1000 + digit_value(y[1]) * 100 + digit_value(y[2])
            * 10 + digit_value(y[3]),
        0 <= digit_value(y[0]) <= 9,
        0 <= digit_value(y[1]) <= 9,
        0 <= digit_value(y[2]) <= 9,
        0 <= digit_value(y[3]) <= 9,
        y[0] != '0' ==> 1000 <= digits_value(y) <= 9999,
        digits_value(y) <= 9999,
{
    lemma_digit_round_trip(y[0]);
    lemma_digit_round_trip(y[1]);
    lemma_digit_round_trip(y[2]);
    lemma_digit_round_trip(y[3]);
    let p3 = y.drop_last();
    let p2 = p3.drop_last();
    let p1 = p2.drop_last();
    assert(p1.drop_last().len() == 0);
    assert(digits_value(p1.drop_last()) == 0);
    assert(p1.last() == y[0] && p2.last() == y[1] && p3.last() == y[2] && y.last() == y[3]);
    assert(digits_value(p1) == digit_value(y[0]));
    assert(digits_value(p2) == digit_value(y[0]) * 10 + digit_value(y[1]));
    assert(digits_value(p3) == digits_value(p2) * 10 + digit_value(y[2]));
    assert(digits_value(y) == digits_value(p3) * 10 + digit_value(y[3]));
}

proof fn lemma_two_digits(m: Seq<char>)
    requires
        m.len() == 2,
        all_digits(m),
    ensures
        digits_value(m) == digit_value(m[0]) * 10 + digit_value(m[1]),
        0 <= digit_value(m[0]) <= 9,
        0 <= digit_value(m[1]) <= 9,
{
    lemma_digit_round_trip(m[0]);
    lemma_digit_round_trip(m[1]);
    let p = m.drop_last();
    assert(p.drop_last().len() == 0);
    assert(digits_value(p.drop_last()) == 0);
    assert(p.last() == m[0] && m.last() == m[1]);
    assert(digits_value(p) == digit_value(m[0]));
}

/// Law: every month written `YYYY-MM` with four digits for a year from
/// 1000 and two for a month from 01 to 12 is read by [`parse_month`] as
/// `YYYYMM`, and [`format_month`] writes that number back as the same
/// text.
pub proof fn lemma_month_round_trip(y: Seq<char>, m: Seq<char>)
    requires
        y.len() == 4,
        all_digits(y),
        y[0] != '0',
        m.len() == 2,
        all_digits(m),
        1 <= digits_value(m) <= 12,
    ensures
        month_number(y + seq!['-'] + m) == Some((digits_value(y) * 100 + digits_value(m)) as int),
        month_text((digits_value(y) * 100 + digits_value(m)) as int) == y + seq!['-'] + m,
{
    let s = y + seq!['-'] + m;
    lemma_four_digits(y);
    lemma_two_digits(m);
    assert(s.len() == 7);
    assert(s[4] == '-');
    assert(s.take(4) == y);
    assert(s.skip(5) == m);
    let v: int = (digits_value(y) * 100 + digits_value(m)) as int;
    assert(trunc_div(v, 100) == digits_value(y));
    assert(trunc_rem(v, 100) == digits_value(m));
    lemma_decimal_of_digits(y);
    assert(zero_padded(digits_value(y), 4) == y);
    if m[0] != '0' {
        lemma_decimal_of_digits(m);
        assert(zero_padded(digits_value(m), 2) == m);
    } else {
        let tail = seq![m[1]];
        assert(all_digits(tail));
        lemma_digit_round_trip(m[0]);
        assert(digit_value(m[0]) == 0) by {
            assert(('0' as u32) == 0x30);
        }
        assert(digits_value(tail) == digits_value(m)) by {
            assert(tail.drop_last().len() == 0);
            assert(digits_value(tail.drop_last()) == 0);
            assert(tail.last() == m[1]);
        }
        lemma_decimal_of_digits(tail);
        assert(decimal(digits_value(m)) == tail);
        assert(Seq::new(1, |k: int| '0') + tail =~= m);
    }
    assert(month_text(v) =~= y + seq!['-'] + m);
}

proof fn lemma_digit_char_value(d: int)
    requires
        0 <= d <= 9,
    ensures
        is_ascii_digit(digit_char(d as nat)),
        digit_value(digit_char(d as nat)) == d,
        d != 0 ==> digit_char(d as nat) != '0',
{
    assert(((0x30 + d) as char) as u32 == 0x30 + d);
    assert(('0' as u32) == 0x30);
}

/// Law: what [`format_month`] writes for a `YYYYMM` number with a year in
/// 1000..=9999 and a month in 1..=12, [`parse_month`] reads back as that
/// number.
pub proof fn lemma_month_number_of_text(v: int)
    requires
        1000 <= v / 100 <= 9999,
        1 <= v % 100 <= 12,
    ensures
        month_number(month_text(v)) == Some(v),
{
    let y = v / 100;
    let m = v % 100;
    let a = y / 1000;
    let b = (y / 100) % 10;
    let c = (y / 10) % 10;
    let d = y % 10;
    let e = m / 10;
    let f = m % 10;
    assert(v == y * 100 + m) by (nonlinear_arith)
        requires
            y == v / 100,
            m == v % 100,
    ;
    assert(1 <= a <= 9 && 0 <= b <= 9 && 0 <= c <= 9 && 0 <= d <= 9 && y == a * 1000 + b * 100 + c
        * 10 + d) by (nonlinear_arith)
        requires
            1000 <= y <= 9999,
            a == y / 1000,
            b == (y / 100) % 10,
            c == (y / 10) % 10,
            d == y % 10,
    ;
    assert(0 <= e <= 1 && 0 <= f <= 9 && m == e * 10 + f) by (nonlinear_arith)
        requires
            1 <= m <= 12,
            e == m / 10,
            f == m % 10,
    ;
    lemma_digit_char_value(a);
    lemma_digit_char_value(b);
    lemma_digit_char_value(c);
    lemma_digit_char_value(d);
    lemma_digit_char_value(e);
    lemma_digit_char_value(f);
    let ys = seq![
        digit_char(a as nat),
        digit_char(b as nat),
        digit_char(c as nat),
        digit_char(d as nat),
    ];
    let ms = seq![digit_char(e as nat), digit_char(f as nat)];
    assert(all_digits(ys)) by {
        assert forall|k: int| 0 <= k < 4 implies is_ascii_digit(#[trigger] ys[k]) by {}
    }
    assert(all_digits(ms)) by {
        assert forall|k: int| 0 <= k < 2 implies is_ascii_digit(#[trigger] ms[k]) by {}
    }
    lemma_four_digits(ys);
    lemma_two_digits(ms);
    assert(digits_value(ys) == y);
    assert(digits_value(ms) == m);
    lemma_month_round_trip(ys, ms);
    assert(v == y * 100 + m);
}

/// The API's period label: the database's empty quarter (a whole year) is
/// `A`, every other label stays.
pub open spec fn quarter_label(q: Seq<char>) -> Seq<char> {
    if q.len() == 0 {
        "A"@
    } else {
        q
    }
}

/// Maps the database's quarter label to the API's.
pub fn quarter_to_api(quarter: &str) -> (r: String)
    ensures
        r@ == quarter_label(quarter@),
{
    if quarter.is_empty() {
        string_of("A")
    } else {
        string_of(quarter)
    }
}

/// The statistics row id of a market name: `all` 0, `twse` 2, `tpex` 4.
pub open spec fn market_stats_id(m: Seq<char>) -> Option<i32> {
    if m == "all"@ {
        Some(0)
    } else if m == "twse"@ {
        Some(2)
    } else if m == "tpex"@ {
        Some(4)
    } else {
        None
    }
}

/// The id of the market's row in the daily statistics table.
pub fn market_id_for_stats(market: &str) -> (r: Option<i32>)
    ensures
        r == market_stats_id(market@),
{
    if str_equal(market, "all") {
        Some(0)
    } else if str_equal(market, "twse") {
        Some(2)
    } else if str_equal(market, "tpex") {
        Some(4)
    } else {
        None
    }
}

/// The market filter for stock queries: the same ids, where 0 stands for
/// both listed markets (2 and 4), never for a market of its own.
pub fn market_id_for_stocks(market: &str) -> (r: Option<i32>)
    ensures
        r == market_stats_id(market@),
{
    market_id_for_stats(market)
}

/// The message of a malformed date.
pub open spec fn date_error() -> Seq<char> {
    "日期必須為 YYYY-MM-DD"@
}

/// `s` has the fixed `YYYY-MM-DD` shape: ten bytes (UTF-8) with `-` as the
/// fifth and eighth.
pub open spec fn date_shape(s: Seq<char>) -> bool {
    let b = vstd::utf8::encode_utf8(s);
    b.len() == 10 && b[4] == 45 && b[7] == 45
}

/// What an optional date parameter gives: nothing when absent, else the
/// date when it has the fixed shape and `chrono` reads a date from it.
pub open spec fn optional_date_outcome(value: Option<Seq<char>>) -> Result<
    Option<(int, int, int)>,
    Seq<char>,
> {
    match value {
        None => Ok(None),
        Some(s) => if date_shape(s) {
            match chrono_parse_ymd(s) {
                Ok(t) => Ok(Some(t)),
                Err(_) => Err(date_error()),
            }
        } else {
            Err(date_error())
        },
    }
}

/// The `(year, month, day)` of a date.
pub open spec fn date_ymd(d: CalendarDate) -> (int, int, int) {
    (d.year as int, d.month as int, d.day as int)
}

/// The view of an optional text.
pub open spec fn opt_view(v: Option<&str>) -> Option<Seq<char>> {
    match v {
        Some(s) => Some(s@),
        None => None,
    }
}

/// Reads an optional `YYYY-MM-DD` date parameter. The shape is checked
/// first (chrono alone would accept unpadded months and days), then the
/// calendar.
pub fn parse_optional_date(value: Option<&str>) -> (r: Result<Option<CalendarDate>, &'static str>)
    ensures
        match r {
            Ok(None) => optional_date_outcome(opt_view(value)) == Ok::<
                Option<(int, int, int)>,
                Seq<char>,
            >(None),
            Ok(Some(d)) => optional_date_outcome(opt_view(value)) == Ok::<
                Option<(int, int, int)>,
                Seq<char>,
            >(Some(date_ymd(d))) && d.valid(),
            Err(e) => optional_date_outcome(opt_view(value)) == Err::<
                Option<(int, int, int)>,
                Seq<char>,
            >(e@),
        },
{
    match value {
        None => Ok(None),
        Some(raw) => {
            if raw.len() != 10 {
                return Err("日期必須為 YYYY-MM-DD");
            }
            let bytes = raw.as_bytes();
            if bytes[4] != 45u8 || bytes[7] != 45u8 {
                return Err("日期必須為 YYYY-MM-DD");
            }
            match parse_date_ymd(raw) {
                Ok(d) => Ok(Some(d)),
                Err(_) => Err("日期必須為 YYYY-MM-DD"),
            }
        },
    }
}

/// The dates of an optional range as `chrono` reads them, without the
/// shape check: each bound must parse, and `from` must not be after `to`.
pub open spec fn range_outcome(from: Option<Seq<char>>, to: Option<Seq<char>>) -> Result<
    (Option<(int, int, int)>, Option<(int, int, int)>),
    Seq<char>,
> {
    let f = match from {
        None => Ok(None),
        Some(s) => match chrono_parse_ymd(s) {
            Ok(t) => Ok(Some(t)),
            Err(_) => Err(date_error()),
        },
    };
    let t = match to {
        None => Ok(None),
        Some(s) => match chrono_parse_ymd(s) {
            Ok(t) => Ok(Some(t)),
            Err(_) => Err(date_error()),
        },
    };
    match (f, t) {
        (Err(e), _) => Err(e),
        (_, Err(e)) => Err(e),
        (Ok(a), Ok(b)) => match (a, b) {
            (Some(x), Some(y)) => if ymd_before(y, x) {
                Err("from 不可晚於 to"@)
            } else {
                Ok((a, b))
            },
            _ => Ok((a, b)),
        },
    }
}

/// `a` is an earlier day than `b`.
pub open spec fn ymd_before(a: (int, int, int), b: (int, int, int)) -> bool {
    a.0 < b.0 || (a.0 == b.0 && (a.1 < b.1 || (a.1 == b.1 && a.2 < b.2)))
}

/// The `(year, month, day)` of an optional date.
pub open spec fn opt_ymd(d: Option<CalendarDate>) -> Option<(int, int, int)> {
    match d {
        Some(x) => Some(date_ymd(x)),
        None => None,
    }
}

/// Reads an optional date range (`%Y-%m-%d`, as chrono reads it) and
/// rejects one whose start is after its end.
pub fn parse_range(from: Option<&str>, to: Option<&str>) -> (r: Result<
    (Option<CalendarDate>, Option<CalendarDate>),
    &'static str,
>)
    ensures
        match r {
            Ok((a, b)) => range_outcome(opt_view(from), opt_view(to)) == Ok::<
                (Option<(int, int, int)>, Option<(int, int, int)>),
                Seq<char>,
            >((opt_ymd(a), opt_ymd(b))),
            Err(e) => range_outcome(opt_view(from), opt_view(to)) == Err::<
                (Option<(int, int, int)>, Option<(int, int, int)>),
                Seq<char>,
            >(e@),
        },
{
    let a = match from {
        None => None,
        Some(raw) => match parse_date_ymd(raw) {
            Ok(d) => Some(d),
            Err(_) => {
                return Err("日期必須為 YYYY-MM-DD");
            },
        },
    };
    let b = match to {
        None => None,
        Some(raw) => match parse_date_ymd(raw) {
            Ok(d) => Some(d),
            Err(_) => {
                return Err("日期必須為 YYYY-MM-DD");
            },
        },
    };
    match (a, b) {
        (Some(x), Some(y)) => {
            if y.is_before(&x) {
                return Err("from 不可晚於 to");
            }
        },
        _ => {},
    }
    Ok((a, b))
}

/// A dividend date as the API gives it: the date when `chrono` reads one
/// from the text (`%Y-%m-%d`), written back as `YYYY-MM-DD`; `None` for the
/// placeholders and stray values the table holds.
pub fn sanitize_date(value: &str) -> (r: Option<String>)
    ensures
        match r {
            Some(t) => exists|d: CalendarDate|
                chrono_parse_ymd(value@) == Ok::<(int, int, int), Seq<char>>(date_ymd(d)) && t@
                    == iso_date(d),
            None => chrono_parse_ymd(value@) is Err,
        },
{
    match parse_date_ymd(value) {
        Ok(d) => Some(date_to_string(d)),
        Err(_) => None,
    }
}

/// The valuation band of a closing price against the three boundaries; a
/// price equal to a boundary falls in the lower band.
pub open spec fn band_of(price: DecimalValue, cheap: DecimalValue, fair: DecimalValue, expensive: DecimalValue) -> Seq<char> {
    if price.at_most(cheap) {
        "undervalued"@
    } else if price.at_most(fair) {
        "fair_valued"@
    } else if price.at_most(expensive) {
        "overvalued"@
    } else {
        "highly_overvalued"@
    }
}

/// Classifies a closing price by the cheap, fair and expensive boundaries.
pub fn valuation_band(
    closing_price: DecimalValue,
    cheap: DecimalValue,
    fair: DecimalValue,
    expensive: DecimalValue,
) -> (r: &'static str)
    requires
        closing_price.wf(),
        cheap.wf(),
        fair.wf(),
        expensive.wf(),
    ensures
        r@ == band_of(closing_price, cheap, fair, expensive),
{
    if decimal_le(closing_price, cheap) {
        "undervalued"
    } else if decimal_le(closing_price, fair) {
        "fair_valued"
    } else if decimal_le(closing_price, expensive) {
        "overvalued"
    } else {
        "highly_overvalued"
    }
}

/// The view of an optional `String`.
pub open spec fn opt_string_view(v: Option<String>) -> Option<Seq<char>> {
    match v {
        Some(s) => Some(s@),
        None => None,
    }
}

/// The text of an optional parameter, or `default` when it is absent.
pub open spec fn text_or(v: Option<String>, default: Seq<char>) -> Seq<char> {
    match v {
        Some(s) => s@,
        None => default,
    }
}

/// The optional parameter as `&str` (`Option::as_deref`).
pub fn opt_str(v: &Option<String>) -> (r: Option<&str>)
    ensures
        opt_view(r) == opt_string_view(*v),
{
    match v {
        Some(s) => Some(s.as_str()),
        None => None,
    }
}

/// The optional parameter's text, or `default` (`as_deref().unwrap_or`).
pub fn str_or<'a>(v: &'a Option<String>, default: &'a str) -> (r: &'a str)
    ensures
        r@ == text_or(*v, default@),
{
    match v {
        Some(s) => s.as_str(),
        None => default,
    }
}

} // verus!
