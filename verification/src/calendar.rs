//! Calendar dates as plain values, their ISO text, and the few calendar
//! computations taken from `chrono` (parsing, day arithmetic, the clock).
use chrono::Datelike;
use vstd::prelude::*;
use crate::text::{
    decimal, lemma_decimal_len, push_char, push_decimal, push_zero_padded, zero_padded,
};

verus! {

broadcast use vstd::string::group_string_axioms;

/// Earliest year a `chrono::NaiveDate` can hold.
pub const MIN_YEAR: i32 = -262143;

/// Latest year a `chrono::NaiveDate` can hold.
pub const MAX_YEAR: i32 = 262142;

/// A day of the proleptic Gregorian calendar, as `chrono::NaiveDate`
/// holds it.
#[derive(Clone, Copy, PartialEq, Eq, Structural, Debug)]
pub struct CalendarDate {
    /// Year (negative before 1 BCE).
    pub year: i32,
    /// Month, 1 to 12.
    pub month: u32,
    /// Day of the month, from 1.
    pub day: u32,
}

/// Gregorian leap year.
pub open spec fn is_leap_year(year: int) -> bool {
    (year % 4 == 0 && year % 100 != 0) || year % 400 == 0
}

/// Number of days in `month` of `year`.
pub open spec fn days_in_month(year: int, month: int) -> int {
    if month == 2 {
        if is_leap_year(year) {
            29
        } else {
            28
        }
    } else if month == 4 || month == 6 || month == 9 || month == 11 {
        30
    } else {
        31
    }
}

impl CalendarDate {
    /// A real day within the range `chrono` supports.
    pub open spec fn valid(self) -> bool {
        &&& MIN_YEAR <= self.year <= MAX_YEAR
        &&& 1 <= self.month <= 12
        &&& 1 <= self.day <= days_in_month(self.year as int, self.month as int)
    }

    /// `self` comes strictly before `other`.
    pub open spec fn before(self, other: CalendarDate) -> bool {
        ||| self.year < other.year
        ||| (self.year == other.year && self.month < other.month)
        ||| (self.year == other.year && self.month == other.month && self.day < other.day)
    }

    /// Whether `self` comes strictly before `other`.
    pub fn is_before(&self, other: &CalendarDate) -> (r: bool)
        ensures
            r == self.before(*other),
    {
        self.year < other.year || (self.year == other.year && self.month < other.month) || (
        self.year == other.year && self.month == other.month && self.day < other.day)
    }
}

/// The year as `chrono` writes it for `%Y`: four digits from 0 to 9999,
/// otherwise an explicit sign and at least four digits.
pub open spec fn year_text(year: int) -> Seq<char> {
    if 0 <= year <= 9999 {
        zero_padded(year as nat, 4)
    } else if year < 0 {
        seq!['-'] + zero_padded((-year) as nat, 4)
    } else {
        seq!['+'] + zero_padded(year as nat, 4)
    }
}

/// `YYYY-MM-DD`, as `NaiveDate`'s `Display` writes it.
pub open spec fn iso_date(d: CalendarDate) -> Seq<char> {
    year_text(d.year as int) + seq!['-'] + zero_padded(d.month as nat, 2) + seq!['-']
        + zero_padded(d.day as nat, 2)
}

/// `YYYY-MM`, as `format("%Y-%m")` writes it.
pub open spec fn iso_month(d: CalendarDate) -> Seq<char> {
    year_text(d.year as int) + seq!['-'] + zero_padded(d.month as nat, 2)
}

/// Appends `year_text(year)`.
pub fn push_year(s: &mut String, year: i32)
    ensures
        final(s)@ == old(s)@ + year_text(year as int),
{
    if 0 <= year && year <= 9999 {
        push_zero_padded(s, year as u64, 4);
    } else if year < 0 {
        let ghost start = s@;
        push_char(s, '-');
        let m: u64 = if year == i32::MIN {
            2147483648u64
        } else {
            (-year) as u64
        };
        push_zero_padded(s, m, 4);
        assert(start.push('-') + zero_padded(m as nat, 4) == start + (seq!['-'] + zero_padded(
            m as nat,
            4,
        )));
    } else {
        let ghost start = s@;
        push_char(s, '+');
        push_zero_padded(s, year as u64, 4);
        assert(start.push('+') + zero_padded(year as nat, 4) == start + (seq!['+'] + zero_padded(
            year as nat,
            4,
        )));
    }
}

/// Appends `iso_date(d)`.
pub fn push_iso_date(s: &mut String, d: CalendarDate)
    ensures
        final(s)@ == old(s)@ + iso_date(d),
{
    let ghost start = s@;
    push_year(s, d.year);
    push_char(s, '-');
    push_zero_padded(s, d.month as u64, 2);
    push_char(s, '-');
    push_zero_padded(s, d.day as u64, 2);
    assert(s@ == start + iso_date(d));
}

/// `d.to_string()`: the date as `YYYY-MM-DD`.
pub fn date_to_string(d: CalendarDate) -> (r: String)
    ensures
        r@ == iso_date(d),
{
    let mut r = String::new();
    push_iso_date(&mut r, d);
    assert(Seq::<char>::empty() + iso_date(d) == iso_date(d));
    r
}

/// Appends `iso_month(d)`.
pub fn push_iso_month(s: &mut String, d: CalendarDate)
    ensures
        final(s)@ == old(s)@ + iso_month(d),
{
    let ghost start = s@;
    push_year(s, d.year);
    push_char(s, '-');
    push_zero_padded(s, d.month as u64, 2);
    assert(s@ == start + iso_month(d));
}

/// The `(year, month, day)` of an optional date.
pub open spec fn ymd(d: Option<CalendarDate>) -> Option<(int, int, int)> {
    match d {
        Some(x) => Some((x.year as int, x.month as int, x.day as int)),
        None => None,
    }
}

/// What `chrono::NaiveDate::parse_from_str(s, "%Y-%m-%d")` returns for `s`:
/// the date's year, month and day, or the text of its parse error.
pub uninterp spec fn chrono_parse_ymd(s: Seq<char>) -> Result<(int, int, int), Seq<char>>;

/// The date `chrono` reads from `s` with the format `%Y-%m-%d`, if any.
pub open spec fn parsed_date(s: Seq<char>) -> Option<(int, int, int)> {
    match chrono_parse_ymd(s) {
        Ok(t) => Some(t),
        Err(_) => None,
    }
}

/// `chrono::NaiveDate::parse_from_str(s, "%Y-%m-%d")`. Returns the parsed
/// date, or the parse error's text. The contract only names the result (the
/// grammar chrono accepts, such as unpadded months or signed years, is
/// chrono's) and states that a parsed `NaiveDate` is a valid day.
#[verifier::external_body]
pub(crate) fn parse_date_ymd(s: &str) -> (r: Result<CalendarDate, String>)
    ensures
        match r {
            Ok(d) => chrono_parse_ymd(s@) == Ok::<(int, int, int), Seq<char>>(
                (d.year as int, d.month as int, d.day as int),
            ) && d.valid(),
            Err(e) => chrono_parse_ymd(s@) == Err::<(int, int, int), Seq<char>>(e@),
        },
{
    match chrono::NaiveDate::parse_from_str(s, "%Y-%m-%d") {
        Ok(d) => Ok(CalendarDate { year: d.year(), month: d.month(), day: d.day() }),
        Err(e) => Err(e.to_string()),
    }
}

/// `NaiveDate::checked_add_days(Days::new(days))`: the day `days` days
/// later, which exists exactly when it is not past the latest day `chrono`
/// holds (December 31 of [`MAX_YEAR`]); `None` otherwise.
#[verifier::external_body]
pub(crate) fn add_days(d: CalendarDate, days: u64) -> (r: Option<CalendarDate>)
    requires
        d.valid(),
    ensures
        r is Some <==> day_number(d.year as int, d.month as int, d.day as int) + days
            <= last_day_number(),
        r matches Some(x) ==> x.valid() && day_number(x.year as int, x.month as int, x.day as int)
            == day_number(d.year as int, d.month as int, d.day as int) + days,
{
    let date = chrono::NaiveDate::from_ymd_opt(d.year, d.month, d.day).unwrap();
    match date.checked_add_days(chrono::Days::new(days)) {
        Some(x) => Some(CalendarDate { year: x.year(), month: x.month(), day: x.day() }),
        None => None,
    }
}

/// The number of the day `(year, month, day)` in the proleptic Gregorian
/// calendar, counted so that consecutive days get consecutive numbers: the
/// year is taken to start in March, so that February's leap day comes
/// last; then 365 days a year, a leap day every fourth year except every
/// hundredth but every four hundredth, and the days of the months before.
pub open spec fn day_number(year: int, month: int, day: int) -> int {
    let y = if month <= 2 {
        year - 1
    } else {
        year
    };
    let mp = (month + 9) % 12;
    365 * y + y / 4 - y / 100 + y / 400 + (153 * mp + 2) / 5 + day
}

/// A `(year, month, day)` that is a day `chrono` can hold (see
/// [`CalendarDate::valid`]).
pub open spec fn valid_ymd(t: (int, int, int)) -> bool {
    &&& MIN_YEAR <= t.0 <= MAX_YEAR
    &&& 1 <= t.1 <= 12
    &&& 1 <= t.2 <= days_in_month(t.0, t.1)
}

/// The number of the latest day `chrono` can hold, December 31 of
/// [`MAX_YEAR`].
pub open spec fn last_day_number() -> int {
    day_number(MAX_YEAR as int, 12, 31)
}

/// The day `n` days after `(year, month, day)`, when it is not past the
/// latest day `chrono` can hold.
pub open spec fn days_later(year: int, month: int, day: int, n: int) -> Option<(int, int, int)> {
    if day_number(year, month, day) + n <= last_day_number() {
        Some(
            choose|t: (int, int, int)|
                valid_ymd(t) && day_number(t.0, t.1, t.2) == day_number(year, month, day) + n,
        )
    } else {
        None
    }
}

proof fn lemma_month_step(y: int, m: int)
    requires
        1 <= m <= 11,
    ensures
        day_number(y, m + 1, 1) == day_number(y, m, 1) + days_in_month(y, m),
{
    if m == 2 {
        let p = y - 1;
        assert(y / 4 - p / 4 == (if y % 4 == 0 { 1int } else { 0int }));
        assert(y / 100 - p / 100 == (if y % 100 == 0 { 1int } else { 0int }));
        assert(y / 400 - p / 400 == (if y % 400 == 0 { 1int } else { 0int }));
    }
}

proof fn lemma_year_step(y: int)
    ensures
        day_number(y + 1, 1, 1) == day_number(y, 12, 1) + 31,
{
}

proof fn lemma_months_rise(y: int, m1: int, m2: int)
    requires
        1 <= m1 < m2 <= 12,
    ensures
        day_number(y, m1, 1) + days_in_month(y, m1) <= day_number(y, m2, 1),
    decreases m2 - m1,
{
    lemma_month_step(y, m1);
    if m1 + 1 < m2 {
        lemma_months_rise(y, m1 + 1, m2);
    }
}

proof fn lemma_year_span(y: int, m: int, d: int)
    requires
        1 <= m <= 12,
        1 <= d <= days_in_month(y, m),
    ensures
        day_number(y, 1, 1) <= day_number(y, m, d) < day_number(y + 1, 1, 1),
{
    if m > 1 {
        lemma_months_rise(y, 1, m);
    }
    if m < 12 {
        lemma_months_rise(y, m, 12);
    }
    lemma_year_step(y);
}

proof fn lemma_years_rise(y1: int, y2: int)
    requires
        y1 < y2,
    ensures
        day_number(y1 + 1, 1, 1) <= day_number(y2, 1, 1),
    decreases y2 - y1,
{
    if y1 + 1 < y2 {
        lemma_year_span(y1 + 1, 1, 1);
        lemma_years_rise(y1 + 1, y2);
    }
}

/// Later days get larger numbers.
proof fn lemma_day_number_rises(a: (int, int, int), b: (int, int, int))
    requires
        valid_ymd(a),
        valid_ymd(b),
        a.0 < b.0 || (a.0 == b.0 && (a.1 < b.1 || (a.1 == b.1 && a.2 < b.2))),
    ensures
        day_number(a.0, a.1, a.2) < day_number(b.0, b.1, b.2),
{
    lemma_year_span(a.0, a.1, a.2);
    lemma_year_span(b.0, b.1, b.2);
    if a.0 < b.0 {
        lemma_years_rise(a.0, b.0);
    } else if a.1 < b.1 {
        lemma_months_rise(a.0, a.1, b.1);
    }
}

/// Two days with the same number are the same day.
pub proof fn lemma_day_number_injective(a: (int, int, int), b: (int, int, int))
    requires
        valid_ymd(a),
        valid_ymd(b),
        day_number(a.0, a.1, a.2) == day_number(b.0, b.1, b.2),
    ensures
        a == b,
{
    if a.0 < b.0 || (a.0 == b.0 && (a.1 < b.1 || (a.1 == b.1 && a.2 < b.2))) {
        lemma_day_number_rises(a, b);
    } else if b.0 < a.0 || (a.0 == b.0 && (b.1 < a.1 || (a.1 == b.1 && b.2 < a.2))) {
        lemma_day_number_rises(b, a);
    }
}

/// The signed number of days from one day to another.
pub open spec fn days_from_to(
    from_year: int,
    from_month: int,
    from_day: int,
    to_year: int,
    to_month: int,
    to_day: int,
) -> int {
    day_number(to_year, to_month, to_day) - day_number(from_year, from_month, from_day)
}

/// `(to - from).num_days()` on `chrono::NaiveDate`: the signed number of
/// days between two days of the proleptic Gregorian calendar.
#[verifier::external_body]
pub(crate) fn days_between(from: CalendarDate, to: CalendarDate) -> (r: i64)
    requires
        from.valid(),
        to.valid(),
    ensures
        r == days_from_to(
            from.year as int,
            from.month as int,
            from.day as int,
            to.year as int,
            to.month as int,
            to.day as int,
        ),
{
    let a = chrono::NaiveDate::from_ymd_opt(from.year, from.month, from.day).unwrap();
    let b = chrono::NaiveDate::from_ymd_opt(to.year, to.month, to.day).unwrap();
    (b - a).num_days()
}

/// Today's date on the local clock (`chrono::Local::now().date_naive()`).
/// It depends on the clock: the contract only states that it is a valid day.
#[verifier::external_body]
pub(crate) fn local_today() -> (d: CalendarDate)
    ensures
        d.valid(),
{
    let x = chrono::Local::now().date_naive();
    CalendarDate { year: x.year(), month: x.month(), day: x.day() }
}

/// The local time now as RFC 3339 (`chrono::Local::now().to_rfc3339()`).
/// It depends on the clock; nothing is stated of it.
#[verifier::external_body]
pub(crate) fn local_now_rfc3339() -> String {
    chrono::Local::now().to_rfc3339()
}

/// The local time now as `YYYYMMDDHHMMSS`
/// (`chrono::Local::now().format("%Y%m%d%H%M%S")`). It depends on the
/// clock; nothing is stated of it.
#[verifier::external_body]
pub(crate) fn local_now_compact() -> String {
    chrono::Local::now().format("%Y%m%d%H%M%S").to_string()
}

/// What [`add_days`] returns is [`days_later`].
pub(crate) proof fn lemma_add_days_is_days_later(d: CalendarDate, n: int, r: Option<CalendarDate>)
    requires
        d.valid(),
        r is Some <==> day_number(d.year as int, d.month as int, d.day as int) + n
            <= last_day_number(),
        r matches Some(x) ==> x.valid() && day_number(x.year as int, x.month as int, x.day as int)
            == day_number(d.year as int, d.month as int, d.day as int) + n,
    ensures
        ymd(r) == days_later(d.year as int, d.month as int, d.day as int, n),
{
    if let Some(x) = r {
        let xt = (x.year as int, x.month as int, x.day as int);
        let target = day_number(d.year as int, d.month as int, d.day as int) + n;
        assert(valid_ymd(xt) && day_number(xt.0, xt.1, xt.2) == target);
        let t = choose|t: (int, int, int)| valid_ymd(t) && day_number(t.0, t.1, t.2) == target;
        lemma_day_number_injective(t, xt);
    }
}

} // verus!
