use vstd::prelude::*;
use vstd::string::{StrSliceExecFns, StringExecFns};
use chrono::{Datelike, Timelike};
use std::fmt::Write;

verus! {

/// Years this library can represent: exactly the range that chrono's
/// `NaiveDate` supports, so dates read from the clock always fit.
pub const YEAR_MIN: i32 = -262143;

pub const YEAR_MAX: i32 = 262142;

pub open spec fn is_leap_year(y: int) -> bool {
    y % 4 == 0 && (y % 100 != 0 || y % 400 == 0)
}

pub open spec fn days_in_month(y: int, m: int) -> int {
    if m == 2 {
        if is_leap_year(y) {
            29
        } else {
            28
        }
    } else if m == 4 || m == 6 || m == 9 || m == 11 {
        30
    } else {
        31
    }
}

pub open spec fn valid_ymd(y: int, m: int, d: int) -> bool {
    &&& YEAR_MIN as int <= y <= YEAR_MAX as int
    &&& 1 <= m <= 12
    &&& 1 <= d <= days_in_month(y, m)
}

/// A proleptic Gregorian calendar date, the library's own stand-in for
/// chrono's `NaiveDate`: the engine only ever reads year, month and day.
#[derive(Clone, Copy, PartialEq, Eq, Structural, Debug)]
pub struct Date {
    pub year: i32,
    pub month: u8,
    pub day: u8,
}

impl Date {
    pub open spec fn valid(self) -> bool {
        valid_ymd(self.year as int, self.month as int, self.day as int)
    }

    /// Builds a date after checking that year, month and day form a real
    /// calendar date in the supported year range.
    pub fn new(year: i32, month: u32, day: u32) -> (r: Option<Date>)
        ensures
            r is Some <==> valid_ymd(year as int, month as int, day as int),
            r is Some ==> r->0 == (Date { year, month: month as u8, day: day as u8 }),
            r is Some ==> r->0.valid(),
    {
        if YEAR_MIN <= year && year <= YEAR_MAX && 1 <= month && month <= 12 {
            let m = month as u8;
            if 1 <= day && day <= month_length(year, m) as u32 {
                Some(Date { year, month: m, day: day as u8 })
            } else {
                None
            }
        } else {
            None
        }
    }
}

pub open spec fn year_length(y: int) -> int {
    if is_leap_year(y) {
        366
    } else {
        365
    }
}

/// Days strictly before the first day of year `y`, counted from the first
/// supported year.
pub open spec fn days_before_year(y: int) -> int
    decreases y - YEAR_MIN as int,
{
    if y <= YEAR_MIN as int {
        0
    } else {
        days_before_year(y - 1) + year_length(y - 1)
    }
}

/// Days of year `y` strictly before the first day of month `m`.
pub open spec fn days_before_month(y: int, m: int) -> int
    decreases m,
{
    if m <= 1 {
        0
    } else {
        days_before_month(y, m - 1) + days_in_month(y, m - 1)
    }
}

/// The date's ordinal position in the calendar: dates compare exactly as
/// their day numbers do.
pub open spec fn day_number(d: Date) -> int {
    days_before_year(d.year as int) + days_before_month(d.year as int, d.month as int)
        + d.day as int - 1
}

proof fn lemma_divides_neg_one_way(n: int, k: int)
    requires
        k > 0,
        n % k == 0,
    ensures
        (-n) % k == 0,
{
    vstd::arithmetic::div_mod::lemma_fundamental_div_mod(n, k);
    assert(n == k * (n / k));
    assert(-n == (-(n / k)) * k) by (nonlinear_arith)
        requires
            n == k * (n / k),
    ;
    vstd::arithmetic::div_mod::lemma_mod_multiples_basic(-(n / k), k);
}

proof fn lemma_divides_neg(n: int, k: int)
    requires
        k > 0,
    ensures
        (n % k == 0) <==> ((-n) % k == 0),
{
    if n % k == 0 {
        lemma_divides_neg_one_way(n, k);
    }
    if (-n) % k == 0 {
        lemma_divides_neg_one_way(-n, k);
    }
}

/// Whether year `y` is a leap year of the proleptic Gregorian calendar.
pub fn leap_year(y: i32) -> (r: bool)
    requires
        YEAR_MIN <= y <= YEAR_MAX,
    ensures
        r == is_leap_year(y as int),
{
    let a: u32 = if y >= 0 {
        y as u32
    } else {
        (-y) as u32
    };
    proof {
        if y < 0 {
            lemma_divides_neg(y as int, 4);
            lemma_divides_neg(y as int, 100);
            lemma_divides_neg(y as int, 400);
        }
    }
    a % 4 == 0 && (a % 100 != 0 || a % 400 == 0)
}

/// How many days month `m` of year `y` has.
pub fn month_length(y: i32, m: u8) -> (r: u8)
    requires
        YEAR_MIN <= y <= YEAR_MAX,
        1 <= m <= 12,
    ensures
        r == days_in_month(y as int, m as int),
{
    if m == 2 {
        if leap_year(y) {
            29
        } else {
            28
        }
    } else if m == 4 || m == 6 || m == 9 || m == 11 {
        30
    } else {
        31
    }
}

/// Computes the date's day number; it never exceeds two hundred million,
/// so sums with a retention length in days always fit an `i64`.
pub fn date_day_number(d: &Date) -> (n: i64)
    requires
        d.valid(),
    ensures
        n == day_number(*d),
        0 <= n < 200_000_000,
{
    let mut acc: i64 = 0;
    let mut y: i32 = YEAR_MIN;
    while y < d.year
        invariant
            YEAR_MIN <= y <= d.year,
            d.valid(),
            acc == days_before_year(y as int),
            0 <= acc <= 366 * (y - YEAR_MIN) as int,
        decreases d.year - y,
    {
        acc = acc + (if leap_year(y) {
            366
        } else {
            365
        });
        y = y + 1;
    }
    let mut m: u8 = 1;
    while m < d.month
        invariant
            1 <= m <= d.month,
            d.valid(),
            acc == days_before_year(d.year as int) + days_before_month(d.year as int, m as int),
            0 <= acc <= 366 * (d.year - YEAR_MIN) as int + 31 * (m as int),
        decreases d.month - m,
    {
        acc = acc + month_length(d.year, m) as i64;
        m = m + 1;
    }
    acc + (d.day as i64) - 1
}

/// Calendar order: an earlier year, or the same year and an earlier month,
/// or the same month and an earlier day.
pub open spec fn calendar_before(a: Date, b: Date) -> bool {
    ||| a.year < b.year
    ||| (a.year == b.year && a.month < b.month)
    ||| (a.year == b.year && a.month == b.month && a.day < b.day)
}

proof fn lemma_dbm_step(y: int, m: int)
    requires
        1 <= m,
    ensures
        days_before_month(y, m + 1) == days_before_month(y, m) + days_in_month(y, m),
{
}

proof fn lemma_dbm_monotone(y: int, m1: int, m2: int)
    requires
        1 <= m1 <= m2 <= 13,
    ensures
        days_before_month(y, m1) <= days_before_month(y, m2),
    decreases m2 - m1,
{
    if m1 < m2 {
        lemma_dbm_monotone(y, m1, m2 - 1);
        lemma_dbm_step(y, m2 - 1);
    }
}

proof fn lemma_dbm_full_year(y: int)
    ensures
        days_before_month(y, 13) == year_length(y),
{
    reveal_with_fuel(days_before_month, 14);
}

proof fn lemma_dby_next(y1: int, y2: int)
    requires
        YEAR_MIN as int <= y1 < y2,
    ensures
        days_before_year(y1) + year_length(y1) <= days_before_year(y2),
    decreases y2 - y1,
{
    if y2 > y1 + 1 {
        lemma_dby_next(y1, y2 - 1);
    }
}

proof fn lemma_calendar_lt(a: Date, b: Date)
    requires
        a.valid(),
        b.valid(),
    ensures
        calendar_before(a, b) ==> day_number(a) < day_number(b),
{
    if calendar_before(a, b) {
        let ya = a.year as int;
        let yb = b.year as int;
        if ya < yb {
            // within its year, a's day number stays below the year's length
            lemma_dbm_step(ya, a.month as int);
            lemma_dbm_monotone(ya, a.month as int + 1, 13);
            lemma_dbm_full_year(ya);
            // and b's day number starts at its year's first day
            lemma_dby_next(ya, yb);
            lemma_dbm_monotone(yb, 1, b.month as int);
        } else if a.month < b.month {
            lemma_dbm_step(ya, a.month as int);
            lemma_dbm_monotone(ya, a.month as int + 1, b.month as int);
        }
    }
}

/// Day numbers order dates exactly as the calendar does, so eligibility
/// stated over day numbers means eligibility in calendar order.
pub proof fn lemma_day_number_orders_dates(a: Date, b: Date)
    requires
        a.valid(),
        b.valid(),
    ensures
        calendar_before(a, b) <==> day_number(a) < day_number(b),
        a == b <==> day_number(a) == day_number(b),
{
    lemma_calendar_lt(a, b);
    lemma_calendar_lt(b, a);
}

/// An index is old enough to delete exactly when its date lies on or before
/// the deadline `today - duration_days`.
pub open spec fn spec_eligible(d: Date, today: Date, duration_days: u32) -> bool {
    day_number(d) + duration_days as int <= day_number(today)
}

/// Decides deletion eligibility: true exactly for dates on or before the
/// retention deadline (the boundary date itself is eligible).
pub fn index_date_eligible(d: &Date, today: &Date, duration_days: u32) -> (r: bool)
    requires
        d.valid(),
        today.valid(),
    ensures
        r == spec_eligible(*d, *today, duration_days),
        r == (day_number(*d) <= day_number(*today) - duration_days as int),
{
    date_day_number(d) + (duration_days as i64) <= date_day_number(today)
}

/// The retention deadline as a day number: the day number of
/// `today - duration_days`.
pub fn retention_deadline(today: &Date, duration_days: u32) -> (n: i64)
    requires
        today.valid(),
    ensures
        n == day_number(*today) - duration_days as int,
{
    date_day_number(today) - (duration_days as i64)
}

/// A wall-clock moment without a zone, the library's stand-in for chrono's
/// `NaiveDateTime`.
#[derive(Clone, Copy, PartialEq, Eq, Structural, Debug)]
pub struct DateTime {
    pub date: Date,
    pub hour: u8,
    pub minute: u8,
    pub second: u8,
}

impl DateTime {
    pub open spec fn valid(self) -> bool {
        &&& self.date.valid()
        &&& self.hour < 24
        &&& self.minute < 60
        &&& self.second < 60
    }
}

pub open spec fn is_digit_char(c: char) -> bool {
    '0' <= c && c <= '9'
}

pub open spec fn is_sep_char(c: char) -> bool {
    c == '-' || c == '_'
}

pub open spec fn digit_val(c: char) -> int {
    c as int - '0' as int
}

pub fn is_digit(c: char) -> (b: bool)
    ensures
        b == is_digit_char(c),
{
    '0' <= c && c <= '9'
}

pub fn is_sep(c: char) -> (b: bool)
    ensures
        b == is_sep_char(c),
{
    c == '-' || c == '_'
}

pub fn digit_value(c: char) -> (n: u32)
    requires
        is_digit_char(c),
    ensures
        n as int == digit_val(c),
        n <= 9,
{
    (c as u32) - ('0' as u32)
}

pub fn str_to_chars(s: &str) -> (v: Vec<char>)
    ensures
        v@ == s@,
{
    let n = s.unicode_len();
    let mut v: Vec<char> = Vec::new();
    let mut i: usize = 0;
    while i < n
        invariant
            i <= n,
            n == s@.len(),
            v@.len() == i as int,
            forall|j: int| 0 <= j < i as int ==> #[trigger] v@[j] == s@[j],
        decreases n - i,
    {
        v.push(s.get_char(i));
        i = i + 1;
    }
    proof {
        assert(v@ =~= s@);
    }
    v
}

/// Relies on chrono's `Utc::now`, `DateTime::date_naive` and the `Datelike`
/// accessors: a `NaiveDate` always holds a real proleptic Gregorian date,
/// and chrono bounds its year to the range this library's dates cover.
#[verifier::external_body]
fn now_utc_ymd() -> (r: (i32, u32, u32))
    ensures
        valid_ymd(r.0 as int, r.1 as int, r.2 as int),
{
    let d = chrono::Utc::now().date_naive();
    (d.year(), d.month(), d.day())
}

/// Relies on chrono's `Utc::now`, `DateTime::naive_local` (the plain UTC
/// moment) and the `Datelike`/`Timelike` accessors: the date is a real
/// calendar date in chrono's year range, the hour is below 24 and minute
/// and second below 60 (a leap second only raises the subsecond part).
#[verifier::external_body]
fn now_utc_ymdhms() -> (r: (i32, u32, u32, u32, u32, u32))
    ensures
        valid_ymd(r.0 as int, r.1 as int, r.2 as int),
        r.3 < 24 && r.4 < 60 && r.5 < 60,
{
    let t = chrono::Utc::now().naive_local();
    (t.year(), t.month(), t.day(), t.hour(), t.minute(), t.second())
}

/// Relies on chrono's `Utc::now`, `DateTime::with_timezone` with chrono-tz's
/// `Asia::Seoul` zone and `naive_local`, plus the `Datelike`/`Timelike`
/// accessors: the Korean wall-clock moment, with the same bounds as any
/// chrono date and time of day.
#[verifier::external_body]
fn now_seoul_ymdhms() -> (r: (i32, u32, u32, u32, u32, u32))
    ensures
        valid_ymd(r.0 as int, r.1 as int, r.2 as int),
        r.3 < 24 && r.4 < 60 && r.5 < 60,
{
    let t = chrono::Utc::now().with_timezone(&chrono_tz::Asia::Seoul).naive_local();
    (t.year(), t.month(), t.day(), t.hour(), t.minute(), t.second())
}

/// The current UTC calendar date; whatever the clock says, it is a real
/// date the library can compute with.
pub fn get_current_utc_naivedate() -> (d: Date)
    ensures
        d.valid(),
{
    let (y, m, dd) = now_utc_ymd();
    Date { year: y, month: m as u8, day: dd as u8 }
}

/// The current UTC date and time of day, seconds precision.
pub fn get_currnet_utc_naivedatetime() -> (t: DateTime)
    ensures
        t.valid(),
{
    let (y, m, dd, h, mi, s) = now_utc_ymdhms();
    DateTime {
        date: Date { year: y, month: m as u8, day: dd as u8 },
        hour: h as u8,
        minute: mi as u8,
        second: s as u8,
    }
}

/// The current Korean (Asia/Seoul) wall-clock date and time.
pub fn get_current_kor_naive_datetime() -> (t: DateTime)
    ensures
        t.valid(),
{
    let (y, m, dd, h, mi, s) = now_seoul_ymdhms();
    DateTime {
        date: Date { year: y, month: m as u8, day: dd as u8 },
        hour: h as u8,
        minute: mi as u8,
        second: s as u8,
    }
}

/// What a formatting or parsing helper can report.
#[derive(Clone, Copy, PartialEq, Eq, Structural, Debug)]
pub enum TimeError {
    /// The renderer cannot process this format string (an unknown or
    /// malformed directive).
    UnsupportedFormat,
    /// The input cannot be read under the format, or its fields do not
    /// form a real date or time of day.
    ParseFailure,
}

/// What chrono renders a date to under a format string: a function of the
/// date and the format alone; absent when the format cannot be rendered.
pub uninterp spec fn chrono_date_render(y: int, m: int, d: int, fmt: Seq<char>) -> Option<
    Seq<char>,
>;

/// What chrono renders a date and time to under a format string; absent
/// when the format cannot be rendered.
pub uninterp spec fn chrono_datetime_render(
    y: int,
    m: int,
    d: int,
    h: int,
    mi: int,
    s: int,
    fmt: Seq<char>,
) -> Option<Seq<char>>;

/// What chrono parses a string to as a calendar date under a format
/// string: a function of the text and the format alone; absent when the
/// text does not parse under that format.
pub uninterp spec fn chrono_date_parse(s: Seq<char>, fmt: Seq<char>) -> Option<Date>;

/// What chrono parses a string to as a date and time under a format
/// string; absent when the text does not parse under that format.
pub uninterp spec fn chrono_datetime_parse(s: Seq<char>, fmt: Seq<char>) -> Option<DateTime>;

/// Relies on chrono's `NaiveDate::from_ymd_opt` and `format`, rendered by
/// `write!`: the rendering depends on the date and format alone, and a
/// format string chrono cannot render surfaces as a write error, never a
/// panic.
#[verifier::external_body]
fn chrono_format_date(y: i32, m: u32, d: u32, fmt: &str) -> (r: Option<String>)
    requires
        valid_ymd(y as int, m as int, d as int),
    ensures
        match r {
            Some(s) => chrono_date_render(y as int, m as int, d as int, fmt@) == Some(s@),
            None => chrono_date_render(y as int, m as int, d as int, fmt@) is None,
        },
{
    let nd = match chrono::NaiveDate::from_ymd_opt(y, m, d) {
        Some(nd) => nd,
        None => return None,
    };
    let mut out = String::new();
    match write!(out, "{}", nd.format(fmt)) {
        Ok(()) => Some(out),
        Err(_) => None,
    }
}

/// Relies on chrono's `NaiveDate::from_ymd_opt`, `and_hms_opt` and
/// `format`, rendered by `write!`: as for the date renderer, but over a
/// date and time of day.
#[verifier::external_body]
fn chrono_format_datetime(y: i32, m: u32, d: u32, h: u32, mi: u32, s: u32, fmt: &str) -> (r: Option<
    String,
>)
    requires
        valid_ymd(y as int, m as int, d as int),
        h < 24 && mi < 60 && s < 60,
    ensures
        match r {
            Some(out) => chrono_datetime_render(
                y as int,
                m as int,
                d as int,
                h as int,
                mi as int,
                s as int,
                fmt@,
            ) == Some(out@),
            None => chrono_datetime_render(
                y as int,
                m as int,
                d as int,
                h as int,
                mi as int,
                s as int,
                fmt@,
            ) is None,
        },
{
    let nd = match chrono::NaiveDate::from_ymd_opt(y, m, d) {
        Some(nd) => nd,
        None => return None,
    };
    let ndt = match nd.and_hms_opt(h, mi, s) {
        Some(ndt) => ndt,
        None => return None,
    };
    let mut out = String::new();
    match write!(out, "{}", ndt.format(fmt)) {
        Ok(()) => Some(out),
        Err(_) => None,
    }
}

/// Relies on chrono's `NaiveDate::parse_from_str`: the outcome depends on
/// the text and format alone, and a parsed date is always a real calendar
/// date within chrono's year range, which is the library's.
#[verifier::external_body]
fn chrono_parse_date(s: &str, fmt: &str) -> (r: Option<Date>)
    ensures
        r == chrono_date_parse(s@, fmt@),
        r matches Some(d) ==> d.valid(),
{
    match chrono::NaiveDate::parse_from_str(s, fmt) {
        Ok(nd) => Some(Date { year: nd.year(), month: nd.month() as u8, day: nd.day() as u8 }),
        Err(_) => None,
    }
}

/// Relies on chrono's `NaiveDateTime::parse_from_str`: as for the date
/// parser, with an always-bounded time of day (a leap second only raises
/// the subsecond part).
#[verifier::external_body]
fn chrono_parse_datetime(s: &str, fmt: &str) -> (r: Option<DateTime>)
    ensures
        r == chrono_datetime_parse(s@, fmt@),
        r matches Some(t) ==> t.valid(),
{
    match chrono::NaiveDateTime::parse_from_str(s, fmt) {
        Ok(ndt) => Some(
            DateTime {
                date: Date {
                    year: ndt.year(),
                    month: ndt.month() as u8,
                    day: ndt.day() as u8,
                },
                hour: ndt.hour() as u8,
                minute: ndt.minute() as u8,
                second: ndt.second() as u8,
            },
        ),
        Err(_) => None,
    }
}

pub open spec fn spec_digit_char(n: int) -> char {
    if n == 0 {
        '0'
    } else if n == 1 {
        '1'
    } else if n == 2 {
        '2'
    } else if n == 3 {
        '3'
    } else if n == 4 {
        '4'
    } else if n == 5 {
        '5'
    } else if n == 6 {
        '6'
    } else if n == 7 {
        '7'
    } else if n == 8 {
        '8'
    } else {
        '9'
    }
}

pub open spec fn spec_two_digits(n: int) -> Seq<char> {
    seq![spec_digit_char(n / 10 % 10), spec_digit_char(n % 10)]
}

pub open spec fn spec_four_digits(n: int) -> Seq<char> {
    seq![
        spec_digit_char(n / 1000 % 10),
        spec_digit_char(n / 100 % 10),
        spec_digit_char(n / 10 % 10),
        spec_digit_char(n % 10),
    ]
}

/// The `YYYY-MM-DD` rendering of a date with a four-digit year.
pub open spec fn spec_date_dashed(d: Date) -> Seq<char> {
    spec_four_digits(d.year as int) + seq!['-'] + spec_two_digits(d.month as int) + seq!['-']
        + spec_two_digits(d.day as int)
}

/// The `YYYYMMDD` rendering of a date with a four-digit year.
pub open spec fn spec_date_compact(d: Date) -> Seq<char> {
    spec_four_digits(d.year as int) + spec_two_digits(d.month as int) + spec_two_digits(
        d.day as int,
    )
}

/// The `YYYY-MM-DD HH:MM:SS` rendering of a date and time.
pub open spec fn spec_datetime_dashed(t: DateTime) -> Seq<char> {
    spec_date_dashed(t.date) + seq![' '] + spec_two_digits(t.hour as int) + seq![':']
        + spec_two_digits(t.minute as int) + seq![':'] + spec_two_digits(t.second as int)
}

fn digit_str(n: u32) -> (s: &'static str)
    requires
        n <= 9,
    ensures
        s@ == seq![spec_digit_char(n as int)],
{
    match n {
        0 => {
            proof {
                reveal_strlit("0");
                assert("0"@ =~= seq![spec_digit_char(0int)]);
            }
            "0"
        },
        1 => {
            proof {
                reveal_strlit("1");
                assert("1"@ =~= seq![spec_digit_char(1int)]);
            }
            "1"
        },
        2 => {
            proof {
                reveal_strlit("2");
                assert("2"@ =~= seq![spec_digit_char(2int)]);
            }
            "2"
        },
        3 => {
            proof {
                reveal_strlit("3");
                assert("3"@ =~= seq![spec_digit_char(3int)]);
            }
            "3"
        },
        4 => {
            proof {
                reveal_strlit("4");
                assert("4"@ =~= seq![spec_digit_char(4int)]);
            }
            "4"
        },
        5 => {
            proof {
                reveal_strlit("5");
                assert("5"@ =~= seq![spec_digit_char(5int)]);
            }
            "5"
        },
        6 => {
            proof {
                reveal_strlit("6");
                assert("6"@ =~= seq![spec_digit_char(6int)]);
            }
            "6"
        },
        7 => {
            proof {
                reveal_strlit("7");
                assert("7"@ =~= seq![spec_digit_char(7int)]);
            }
            "7"
        },
        8 => {
            proof {
                reveal_strlit("8");
                assert("8"@ =~= seq![spec_digit_char(8int)]);
            }
            "8"
        },
        _ => {
            proof {
                reveal_strlit("9");
                assert("9"@ =~= seq![spec_digit_char(9int)]);
            }
            "9"
        },
    }
}

fn push_two_digits(out: &mut String, n: u32)
    requires
        n < 100,
    ensures
        final(out)@ == old(out)@ + spec_two_digits(n as int),
{
    let ghost start = out@;
    out.append(digit_str(n / 10 % 10));
    out.append(digit_str(n % 10));
    proof {
        assert(out@ =~= start + spec_two_digits(n as int));
    }
}

fn push_four_digits(out: &mut String, n: u32)
    requires
        n <= 9999,
    ensures
        final(out)@ == old(out)@ + spec_four_digits(n as int),
{
    let ghost start = out@;
    out.append(digit_str(n / 1000 % 10));
    out.append(digit_str(n / 100 % 10));
    out.append(digit_str(n / 10 % 10));
    out.append(digit_str(n % 10));
    proof {
        assert(out@ =~= start + spec_four_digits(n as int));
    }
}

fn str_equal(a: &str, b: &str) -> (r: bool)
    ensures
        r == (a@ == b@),
{
    let s1 = a.to_owned();
    let s2 = b.to_owned();
    s1.eq(&s2)
}

fn format_date_fields(d: &Date, dashed: bool) -> (r: String)
    requires
        d.valid(),
        0 <= d.year <= 9999,
    ensures
        dashed ==> r@ == spec_date_dashed(*d),
        !dashed ==> r@ == spec_date_compact(*d),
{
    let mut out = String::new();
    push_four_digits(&mut out, d.year as u32);
    if dashed {
        proof {
            reveal_strlit("-");
        }
        out.append("-");
    }
    push_two_digits(&mut out, d.month as u32);
    if dashed {
        proof {
            reveal_strlit("-");
        }
        out.append("-");
    }
    push_two_digits(&mut out, d.day as u32);
    proof {
        if dashed {
            reveal_strlit("-");
            assert("-"@ =~= seq!['-']);
            assert(out@ =~= spec_date_dashed(*d));
        } else {
            assert(out@ =~= spec_date_compact(*d));
        }
    }
    out
}

/// Renders a date under a format string. The two calendar formats this
/// system writes, `%Y-%m-%d` and `%Y%m%d` with four-digit years, are
/// rendered by verified code with an exact contract; every other format
/// (and wider years) is rendered by chrono, and a format string the
/// renderer cannot process is an error rather than a panic.
pub fn get_str_from_naivedate(naive_date: Date, fmt: &str) -> (r: Result<String, TimeError>)
    requires
        naive_date.valid(),
    ensures
        fmt@ == "%Y-%m-%d"@ && 0 <= naive_date.year <= 9999 ==> r is Ok && r->Ok_0@
            == spec_date_dashed(naive_date),
        fmt@ == "%Y%m%d"@ && 0 <= naive_date.year <= 9999 ==> r is Ok && r->Ok_0@
            == spec_date_compact(naive_date),
        !((fmt@ == "%Y-%m-%d"@ || fmt@ == "%Y%m%d"@) && 0 <= naive_date.year <= 9999) ==> (match
            chrono_date_render(
            naive_date.year as int,
            naive_date.month as int,
            naive_date.day as int,
            fmt@,
        ) {
            Some(t) => r is Ok && r->Ok_0@ == t,
            None => r == Err::<String, TimeError>(TimeError::UnsupportedFormat),
        }),
{
    let dashed = str_equal(fmt, "%Y-%m-%d");
    let compact = str_equal(fmt, "%Y%m%d");
    proof {
        reveal_strlit("%Y-%m-%d");
        reveal_strlit("%Y%m%d");
        assert("%Y-%m-%d"@.len() == 8);
        assert("%Y%m%d"@.len() == 6);
        assert("%Y-%m-%d"@ != "%Y%m%d"@);
    }
    if (dashed || compact) && 0 <= naive_date.year && naive_date.year <= 9999 {
        return Ok(format_date_fields(&naive_date, dashed));
    }
    match chrono_format_date(naive_date.year, naive_date.month as u32, naive_date.day as u32, fmt) {
        Some(s) => Ok(s),
        None => Err(TimeError::UnsupportedFormat),
    }
}

/// Renders a date and time under a format string. The one stamp format
/// this system writes, `%Y-%m-%d %H:%M:%S` with four-digit years, is
/// rendered by verified code with an exact contract; every other format is
/// rendered by chrono, and an unusable format string is an error.
pub fn get_str_from_naivedatetime(naive_date: DateTime, fmt: &str) -> (r: Result<String, TimeError>)
    requires
        naive_date.valid(),
    ensures
        fmt@ == "%Y-%m-%d %H:%M:%S"@ && 0 <= naive_date.date.year <= 9999 ==> r is Ok && r->Ok_0@
            == spec_datetime_dashed(naive_date),
        !(fmt@ == "%Y-%m-%d %H:%M:%S"@ && 0 <= naive_date.date.year <= 9999) ==> (match
            chrono_datetime_render(
            naive_date.date.year as int,
            naive_date.date.month as int,
            naive_date.date.day as int,
            naive_date.hour as int,
            naive_date.minute as int,
            naive_date.second as int,
            fmt@,
        ) {
            Some(t) => r is Ok && r->Ok_0@ == t,
            None => r == Err::<String, TimeError>(TimeError::UnsupportedFormat),
        }),
{
    let stamp = str_equal(fmt, "%Y-%m-%d %H:%M:%S");
    proof {
        reveal_strlit("%Y-%m-%d %H:%M:%S");
    }
    if !(stamp && 0 <= naive_date.date.year && naive_date.date.year <= 9999) {
        return match chrono_format_datetime(
            naive_date.date.year,
            naive_date.date.month as u32,
            naive_date.date.day as u32,
            naive_date.hour as u32,
            naive_date.minute as u32,
            naive_date.second as u32,
            fmt,
        ) {
            Some(s) => Ok(s),
            None => Err(TimeError::UnsupportedFormat),
        };
    }
    let mut out = format_date_fields(&naive_date.date, true);
    proof {
        reveal_strlit(" ");
        reveal_strlit(":");
    }
    out.append(" ");
    push_two_digits(&mut out, naive_date.hour as u32);
    out.append(":");
    push_two_digits(&mut out, naive_date.minute as u32);
    out.append(":");
    push_two_digits(&mut out, naive_date.second as u32);
    proof {
        assert(" "@ =~= seq![' ']);
        assert(":"@ =~= seq![':']);
        assert(out@ =~= spec_datetime_dashed(naive_date));
    }
    Ok(out)
}

/// The same rendering under the name some call sites use.
pub fn get_str_from_naive_datetime(naive_datetime: DateTime, fmt: &str) -> (r: Result<
    String,
    TimeError,
>)
    requires
        naive_datetime.valid(),
    ensures
        fmt@ == "%Y-%m-%d %H:%M:%S"@ && 0 <= naive_datetime.date.year <= 9999 ==> r is Ok
            && r->Ok_0@ == spec_datetime_dashed(naive_datetime),
        !(fmt@ == "%Y-%m-%d %H:%M:%S"@ && 0 <= naive_datetime.date.year <= 9999) ==> (match
            chrono_datetime_render(
            naive_datetime.date.year as int,
            naive_datetime.date.month as int,
            naive_datetime.date.day as int,
            naive_datetime.hour as int,
            naive_datetime.minute as int,
            naive_datetime.second as int,
            fmt@,
        ) {
            Some(t) => r is Ok && r->Ok_0@ == t,
            None => r == Err::<String, TimeError>(TimeError::UnsupportedFormat),
        }),
{
    get_str_from_naivedatetime(naive_datetime, fmt)
}

pub open spec fn spec_num2(s: Seq<char>, i: int) -> int {
    10 * digit_val(s[i]) + digit_val(s[i + 1])
}

pub open spec fn spec_num4(s: Seq<char>, i: int) -> int {
    1000 * digit_val(s[i]) + 100 * digit_val(s[i + 1]) + 10 * digit_val(s[i + 2]) + digit_val(
        s[i + 3],
    )
}

pub open spec fn digits_at(s: Seq<char>, i: int, k: int) -> bool {
    forall|j: int| i <= j < i + k ==> is_digit_char(#[trigger] s[j])
}

/// What parsing `YYYY-MM-DD` accepts: exactly ten characters in that shape
/// naming a real calendar date.
pub open spec fn spec_parse_dashed_date(s: Seq<char>) -> Option<Date> {
    if s.len() == 10 && digits_at(s, 0, 4) && s[4] == '-' && digits_at(s, 5, 2) && s[7] == '-'
        && digits_at(s, 8, 2) && valid_ymd(spec_num4(s, 0), spec_num2(s, 5), spec_num2(s, 8)) {
        Some(
            Date {
                year: spec_num4(s, 0) as i32,
                month: spec_num2(s, 5) as u8,
                day: spec_num2(s, 8) as u8,
            },
        )
    } else {
        None
    }
}

/// What parsing `YYYYMMDD` accepts: exactly eight digits naming a real
/// calendar date.
pub open spec fn spec_parse_compact_date(s: Seq<char>) -> Option<Date> {
    if s.len() == 8 && digits_at(s, 0, 8) && valid_ymd(
        spec_num4(s, 0),
        spec_num2(s, 4),
        spec_num2(s, 6),
    ) {
        Some(
            Date {
                year: spec_num4(s, 0) as i32,
                month: spec_num2(s, 4) as u8,
                day: spec_num2(s, 6) as u8,
            },
        )
    } else {
        None
    }
}

fn all_digits(v: &Vec<char>, i: usize, k: usize) -> (b: bool)
    requires
        i + k <= v@.len(),
    ensures
        b == digits_at(v@, i as int, k as int),
{
    let n = v.len();
    let end = i + k;
    let mut j: usize = i;
    while j < end
        invariant
            i <= j <= end,
            end == i + k <= v@.len(),
            forall|t: int| i as int <= t < j as int ==> is_digit_char(#[trigger] v@[t]),
        decreases end - j,
    {
        if !is_digit(v[j]) {
            return false;
        }
        j = j + 1;
    }
    true
}

fn num2(v: &Vec<char>, i: usize) -> (n: u32)
    requires
        i + 2 <= v@.len(),
        digits_at(v@, i as int, 2),
    ensures
        n as int == spec_num2(v@, i as int),
        n <= 99,
{
    // the length call bounds the view by usize, so the index sums fit
    let _len = v.len();
    10 * digit_value(v[i]) + digit_value(v[i + 1])
}

fn num4(v: &Vec<char>, i: usize) -> (n: u32)
    requires
        i + 4 <= v@.len(),
        digits_at(v@, i as int, 4),
    ensures
        n as int == spec_num4(v@, i as int),
        n <= 9999,
{
    // the length call bounds the view by usize, so the index sums fit
    let _len = v.len();
    1000 * digit_value(v[i]) + 100 * digit_value(v[i + 1]) + 10 * digit_value(v[i + 2])
        + digit_value(v[i + 3])
}

/// Parses a date string under a format string. The canonical fixed-width
/// forms of this system's two calendar formats are parsed by verified code
/// with an exact contract; everything else — other format strings, and the
/// lenient shapes chrono also accepts (unpadded fields, a signed year,
/// leading whitespace) — is decided by chrono's parser.
pub fn get_naive_date_from_str(date: &str, format: &str) -> (r: Result<Date, TimeError>)
    ensures
        format@ == "%Y-%m-%d"@ && spec_parse_dashed_date(date@) is Some ==> r == Ok::<
            Date,
            TimeError,
        >(spec_parse_dashed_date(date@)->0),
        format@ == "%Y%m%d"@ && spec_parse_compact_date(date@) is Some ==> r == Ok::<
            Date,
            TimeError,
        >(spec_parse_compact_date(date@)->0),
        !(format@ == "%Y-%m-%d"@ && spec_parse_dashed_date(date@) is Some) && !(format@
            == "%Y%m%d"@ && spec_parse_compact_date(date@) is Some) ==> r == (match
            chrono_date_parse(date@, format@) {
            Some(d) => Ok::<Date, TimeError>(d),
            None => Err::<Date, TimeError>(TimeError::ParseFailure),
        }),
        r is Ok ==> r->Ok_0.valid(),
{
    let dashed = str_equal(format, "%Y-%m-%d");
    let compact = str_equal(format, "%Y%m%d");
    proof {
        reveal_strlit("%Y-%m-%d");
        reveal_strlit("%Y%m%d");
        assert("%Y-%m-%d"@.len() == 8);
        assert("%Y%m%d"@.len() == 6);
        assert("%Y-%m-%d"@ != "%Y%m%d"@);
    }
    let v = str_to_chars(date);
    if dashed {
        if v.len() == 10 && all_digits(&v, 0, 4) && v[4] == '-' && all_digits(&v, 5, 2) && v[7]
            == '-' && all_digits(&v, 8, 2) {
            match Date::new(num4(&v, 0) as i32, num2(&v, 5), num2(&v, 8)) {
                Some(d) => {
                    return Ok(d);
                },
                None => {},
            }
        }
        proof {
            assert(spec_parse_dashed_date(date@) is None);
        }
    } else if compact {
        if v.len() == 8 && all_digits(&v, 0, 8) {
            match Date::new(num4(&v, 0) as i32, num2(&v, 4), num2(&v, 6)) {
                Some(d) => {
                    return Ok(d);
                },
                None => {},
            }
        }
        proof {
            assert(spec_parse_compact_date(date@) is None);
        }
    }
    match chrono_parse_date(date, format) {
        Some(d) => Ok(d),
        None => Err(TimeError::ParseFailure),
    }
}

/// What parsing `YYYY-MM-DD HH:MM:SS` accepts: exactly nineteen characters
/// in that shape naming a real date and time of day.
pub open spec fn spec_parse_dashed_datetime(s: Seq<char>) -> Option<DateTime> {
    match spec_parse_dashed_date(s.take(10)) {
        None => None,
        Some(d) => {
            if s.len() == 19 && s[10] == ' ' && digits_at(s, 11, 2) && s[13] == ':' && digits_at(
                s,
                14,
                2,
            ) && s[16] == ':' && digits_at(s, 17, 2) && spec_num2(s, 11) < 24 && spec_num2(s, 14)
                < 60 && spec_num2(s, 17) < 60 {
                Some(
                    DateTime {
                        date: d,
                        hour: spec_num2(s, 11) as u8,
                        minute: spec_num2(s, 14) as u8,
                        second: spec_num2(s, 17) as u8,
                    },
                )
            } else {
                None
            }
        },
    }
}

/// The canonical fixed-width reading of `YYYY-MM-DD HH:MM:SS`; the body
/// does exactly what `spec_parse_dashed_datetime` describes.
#[verifier::loop_isolation(false)]
fn parse_stamp_strict(date: &str) -> (r: Option<DateTime>)
    ensures
        r == spec_parse_dashed_datetime(date@),
        r matches Some(t) ==> t.valid(),
{
    let v = str_to_chars(date);
    if v.len() != 19 {
        proof {
            if spec_parse_dashed_datetime(date@) is Some {
                assert(date@.len() == 19);
            }
        }
        return None;
    }
    let ghost prefix = date@.take(10);
    proof {
        assert(prefix.len() == 10);
        assert(forall|j: int| 0 <= j < 10 ==> prefix[j] == date@[j]);
    }
    let date_ok = all_digits(&v, 0, 4) && v[4] == '-' && all_digits(&v, 5, 2) && v[7] == '-'
        && all_digits(&v, 8, 2);
    if !date_ok {
        proof {
            assert(spec_parse_dashed_date(prefix) is None);
        }
        return None;
    }
    let time_ok = v[10] == ' ' && all_digits(&v, 11, 2) && v[13] == ':' && all_digits(&v, 14, 2)
        && v[16] == ':' && all_digits(&v, 17, 2);
    if !time_ok {
        return None;
    }
    let d = match Date::new(num4(&v, 0) as i32, num2(&v, 5), num2(&v, 8)) {
        Some(d) => d,
        None => {
            proof {
                assert(spec_parse_dashed_date(prefix) is None);
            }
            return None;
        },
    };
    proof {
        assert(spec_parse_dashed_date(prefix) == Some(d));
    }
    let h = num2(&v, 11);
    let mi = num2(&v, 14);
    let s = num2(&v, 17);
    if h < 24 && mi < 60 && s < 60 {
        Some(DateTime { date: d, hour: h as u8, minute: mi as u8, second: s as u8 })
    } else {
        None
    }
}

/// Parses a stamp under a format string. The canonical fixed-width form of
/// this system's one stamp format is parsed by verified code with an exact
/// contract; everything else — other format strings, and the lenient
/// shapes chrono also accepts — is decided by chrono's parser.
pub fn get_naive_datetime_from_str(date: &str, format: &str) -> (r: Result<DateTime, TimeError>)
    ensures
        format@ == "%Y-%m-%d %H:%M:%S"@ && spec_parse_dashed_datetime(date@) is Some ==> r == Ok::<
            DateTime,
            TimeError,
        >(spec_parse_dashed_datetime(date@)->0),
        !(format@ == "%Y-%m-%d %H:%M:%S"@ && spec_parse_dashed_datetime(date@) is Some) ==> r == (
        match chrono_datetime_parse(date@, format@) {
            Some(t) => Ok::<DateTime, TimeError>(t),
            None => Err::<DateTime, TimeError>(TimeError::ParseFailure),
        }),
        r is Ok ==> r->Ok_0.valid(),
{
    let stamp = str_equal(format, "%Y-%m-%d %H:%M:%S");
    proof {
        reveal_strlit("%Y-%m-%d %H:%M:%S");
    }
    if stamp {
        match parse_stamp_strict(date) {
            Some(t) => {
                return Ok(t);
            },
            None => {},
        }
    }
    match chrono_parse_datetime(date, format) {
        Some(t) => Ok(t),
        None => Err(TimeError::ParseFailure),
    }
}

} // verus!
