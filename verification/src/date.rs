//! Calendar dates of the proleptic Gregorian calendar: validity, day
//! numbers counted from 1970-01-01, and the strict `YYYY-MM-DD` form.
use vstd::prelude::*;
use vstd::string::*;
use crate::text::{digits_value, is_digit, padded_decimal_text, padded_digits, pow10};

verus! {

/// A day of the proleptic Gregorian calendar.
#[derive(Debug, Clone, Copy, PartialEq, Eq, Structural)]
pub struct CalendarDate {
    pub year: i32,
    pub month: u32,
    pub day: u32,
}

pub open spec fn is_leap_year(y: int) -> bool {
    (y % 4 == 0 && y % 100 != 0) || y % 400 == 0
}

pub open spec fn days_in_month(y: int, m: int) -> int {
    if m == 2 {
        if is_leap_year(y) { 29 } else { 28 }
    } else if m == 4 || m == 6 || m == 9 || m == 11 {
        30
    } else {
        31
    }
}

/// A month of the year and a day of that month.
pub open spec fn valid_date(y: int, m: int, d: int) -> bool {
    1 <= m <= 12 && 1 <= d <= days_in_month(y, m)
}

impl CalendarDate {
    pub open spec fn is_valid(self) -> bool {
        valid_date(self.year as int, self.month as int, self.day as int)
    }
}

/// The day number of a date, counted from 1970-01-01 (day 0).  The year is
/// taken to start in March, so that the leap day ends it; `era` counts the
/// 400-year cycles of 146097 days, and `doe` the day within the cycle.
pub open spec fn epoch_day(y: int, m: int, d: int) -> int {
    let y1 = if m <= 2 { y - 1 } else { y };
    let era = y1 / 400;
    let yoe = y1 - era * 400;
    let mp = if m > 2 { m - 3 } else { m + 9 };
    let doy = (153 * mp + 2) / 5 + d - 1;
    let doe = yoe * 365 + yoe / 4 - yoe / 100 + doy;
    era * 146097 + doe - 719468
}

/// The 400-year cycles added to a year so that it is never negative.
const YEAR_SHIFT_CYCLES: i64 = 5368710;

/// The day number of a date, counted from 1970-01-01.
pub fn days_from_civil(year: i32, month: u32, day: u32) -> (r: i64)
    requires
        1 <= month <= 12,
        day <= 31,
    ensures
        r == epoch_day(year as int, month as int, day as int),
        -1_000_000_000_000 <= r <= 1_000_000_000_000,
{
    let y1: i64 = if month <= 2 { year as i64 - 1 } else { year as i64 };
    let shifted: i64 = y1 + 400 * YEAR_SHIFT_CYCLES;
    let shifted_era: i64 = shifted / 400;
    let yoe: i64 = shifted % 400;
    let era: i64 = shifted_era - YEAR_SHIFT_CYCLES;
    proof {
        assert(shifted == shifted_era * 400 + yoe);
        assert(y1 == era * 400 + yoe);
        vstd::arithmetic::div_mod::lemma_fundamental_div_mod_converse_div(y1 as int, 400, era as int, yoe as int);
        assert(era as int == (y1 as int) / 400);
    }
    let mp: i64 = if month > 2 { month as i64 - 3 } else { month as i64 + 9 };
    let doy: i64 = (153 * mp + 2) / 5 + day as i64 - 1;
    let doe: i64 = yoe * 365 + yoe / 4 - yoe / 100 + doy;
    era * 146097 + doe - 719468
}

/// The strict `YYYY-MM-DD` form: four, two and two decimal digits separated
/// by hyphens, naming a valid date.
pub open spec fn parse_date_spec(s: Seq<char>) -> Option<(int, int, int)> {
    if s.len() == 10
        && (forall|i: int| 0 <= i < 10 && i != 4 && i != 7 ==> #[trigger] is_digit(s[i]))
        && s[4] == '-' && s[7] == '-'
        && valid_date(digits_value(s, 0, 4), digits_value(s, 5, 7), digits_value(s, 8, 10))
    {
        Some((digits_value(s, 0, 4), digits_value(s, 5, 7), digits_value(s, 8, 10)))
    } else {
        None
    }
}

/// The number written by the digits `s[from..to]`, if they are all digits.
fn read_digits(s: &str, from: usize, to: usize) -> (r: Option<u32>)
    requires
        from <= to <= s@.len(),
        to - from <= 4,
    ensures
        r matches Some(v) ==> v == digits_value(s@, from as int, to as int) && v < 10000
            && forall|i: int| from <= i < to ==> #[trigger] is_digit(s@[i]),
        r is None ==> exists|i: int| from <= i < to && !#[trigger] is_digit(s@[i]),
{
    let mut value: u32 = 0;
    let mut k: usize = from;
    while k < to
        invariant
            from <= k <= to,
            to <= s@.len(),
            to - from <= 4,
            value == digits_value(s@, from as int, k as int),
            value < pow10(k - from),
            forall|i: int| from <= i < k ==> #[trigger] is_digit(s@[i]),
        decreases to - k,
    {
        let c = s.get_char(k);
        if !('0' <= c && c <= '9') {
            assert(!is_digit(s@[k as int]));
            return None;
        }
        proof {
            reveal_with_fuel(pow10, 5);
            assert(pow10((k + 1 - from) as int) == pow10((k - from) as int) * 10);
            assert(pow10((k - from) as int) <= 1000);
        }
        value = value * 10 + (c as u32 - '0' as u32);
        k = k + 1;
    }
    proof {
        reveal_with_fuel(pow10, 5);
        assert(pow10((to - from) as int) <= 10000);
    }
    Some(value)
}


/// A number and its negation have the same divisors.
proof fn lemma_divisible_either_sign(y: int, d: int)
    requires
        d > 0,
    ensures
        (y % d == 0) == ((-y) % d == 0),
{
    if y % d == 0 {
        vstd::arithmetic::div_mod::lemma_fundamental_div_mod(y, d);
        let q = y / d;
        assert(-y == (-q) * d) by (nonlinear_arith)
            requires
                y == d * q + 0;
        vstd::arithmetic::div_mod::lemma_fundamental_div_mod_converse_mod(-y, d, -q, 0);
    }
    if (-y) % d == 0 {
        vstd::arithmetic::div_mod::lemma_fundamental_div_mod(-y, d);
        let q = (-y) / d;
        assert(y == (-q) * d) by (nonlinear_arith)
            requires
                -y == d * q + 0;
        vstd::arithmetic::div_mod::lemma_fundamental_div_mod_converse_mod(y, d, -q, 0);
    }
}

/// Whether `day` is a day of `month` in `year`.
pub fn is_valid_date(year: i32, month: u32, day: u32) -> (r: bool)
    ensures
        r == valid_date(year as int, month as int, day as int),
{
    if month < 1 || month > 12 || day < 1 {
        return false;
    }
    let magnitude: u64 = if year < 0 { (-(year as i64)) as u64 } else { year as u64 };
    let leap = (magnitude % 4 == 0 && magnitude % 100 != 0) || magnitude % 400 == 0;
    proof {
        lemma_divisible_either_sign(year as int, 4);
        lemma_divisible_either_sign(year as int, 100);
        lemma_divisible_either_sign(year as int, 400);
    }
    let last: u32 = if month == 2 {
        if leap { 29 } else { 28 }
    } else if month == 4 || month == 6 || month == 9 || month == 11 {
        30
    } else {
        31
    };
    day <= last
}

/// Read a date in the strict `YYYY-MM-DD` form.
pub fn parse_date(s: &str) -> (r: Option<CalendarDate>)
    ensures
        match parse_date_spec(s@) {
            Some((y, m, d)) => r == Some(CalendarDate { year: y as i32, month: m as u32, day: d as u32 })
                && y == r.unwrap().year && m == r.unwrap().month && d == r.unwrap().day,
            None => r is None,
        },
{
    let n = s.unicode_len();
    if n != 10 {
        return None;
    }
    if s.get_char(4) != '-' || s.get_char(7) != '-' {
        return None;
    }
    let year = match read_digits(s, 0, 4) {
        Some(v) => v,
        None => return None,
    };
    let month = match read_digits(s, 5, 7) {
        Some(v) => v,
        None => return None,
    };
    let day = match read_digits(s, 8, 10) {
        Some(v) => v,
        None => return None,
    };
    if !is_valid_date(year as i32, month, day) {
        return None;
    }
    Some(CalendarDate { year: year as i32, month, day })
}

/// What `chrono::NaiveDate::parse_from_str` reads from `text` with the
/// format `%Y-%m-%d`: the year, month and day, or nothing.
pub uninterp spec fn chrono_ymd(text: Seq<char>) -> Option<(i32, u32, u32)>;

/// Read a date with `chrono::NaiveDate::parse_from_str` and the format
/// `%Y-%m-%d`.  The contract names the result, and states what chrono's
/// documentation gives of every `NaiveDate`: it is a valid calendar date.
#[verifier::external_body]
pub(crate) fn parse_ymd_date(text: &str) -> (r: Option<CalendarDate>)
    ensures
        match chrono_ymd(text@) {
            Some((y, m, d)) => r == Some(CalendarDate { year: y, month: m, day: d }),
            None => r is None,
        },
        r matches Some(d) ==> d.is_valid(),
{
    match chrono::NaiveDate::parse_from_str(text, "%Y-%m-%d") {
        Ok(d) => Some(CalendarDate {
            year: chrono::Datelike::year(&d),
            month: chrono::Datelike::month(&d),
            day: chrono::Datelike::day(&d),
        }),
        Err(_) => None,
    }
}

/// The year as chrono's `%Y` writes it: four digits for years 0 to 9999,
/// otherwise a sign and at least four digits.
pub open spec fn year_text(y: int) -> Seq<char> {
    if 0 <= y < 10000 {
        padded_digits(y as nat, 4)
    } else if y < 0 {
        "-"@ + padded_digits((-y) as nat, 4)
    } else {
        "+"@ + padded_digits(y as nat, 4)
    }
}

/// A date as chrono's `%Y-%m-%d` writes it.
pub open spec fn iso_date_spec(y: int, m: int, d: int) -> Seq<char> {
    year_text(y) + "-"@ + padded_digits(m as nat, 2) + "-"@ + padded_digits(d as nat, 2)
}

/// The `%Y-%m-%d` text of a date.
pub fn iso_date_text(date: CalendarDate) -> (r: String)
    ensures
        r@ == iso_date_spec(date.year as int, date.month as int, date.day as int),
{
    let year = date.year;
    let mut s = if 0 <= year && year < 10000 {
        padded_decimal_text(year as u64, 4)
    } else if year < 0 {
        let mut t = String::from_str("-");
        let digits = padded_decimal_text((-(year as i64)) as u64, 4);
        t.append(digits.as_str());
        t
    } else {
        let mut t = String::from_str("+");
        let digits = padded_decimal_text(year as u64, 4);
        t.append(digits.as_str());
        t
    };
    s.append("-");
    let month = padded_decimal_text(date.month as u64, 2);
    s.append(month.as_str());
    s.append("-");
    let day = padded_decimal_text(date.day as u64, 2);
    s.append(day.as_str());
    s
}

/// The day number of the first of March of year `y1 + 1`, less that of
/// year `y1`, counts the days of the March-based year `y1`.
pub open spec fn march_base(y1: int) -> int {
    let era = y1 / 400;
    let yoe = y1 - era * 400;
    era * 146097 + yoe * 365 + yoe / 4 - yoe / 100
}

pub open spec fn year_length(y: int) -> int {
    if is_leap_year(y) { 366 } else { 365 }
}

/// Counting multiples of `d` up to `x` and up to `x - 1` differs exactly
/// when `x` is one.
proof fn lemma_div_step_4(x: int)
    requires
        x > 0,
    ensures
        x / 4 - (x - 1) / 4 == (if x % 4 == 0 { 1int } else { 0int }),
{
    let q = x / 4;
    let r = x % 4;
    vstd::arithmetic::div_mod::lemma_fundamental_div_mod(x, 4);
    if r == 0 {
        vstd::arithmetic::div_mod::lemma_fundamental_div_mod_converse_div(x - 1, 4, q - 1, 3);
    } else {
        vstd::arithmetic::div_mod::lemma_fundamental_div_mod_converse_div(x - 1, 4, q, r - 1);
    }
}

proof fn lemma_div_step_100(x: int)
    requires
        x > 0,
    ensures
        x / 100 - (x - 1) / 100 == (if x % 100 == 0 { 1int } else { 0int }),
{
    let q = x / 100;
    let r = x % 100;
    vstd::arithmetic::div_mod::lemma_fundamental_div_mod(x, 100);
    if r == 0 {
        vstd::arithmetic::div_mod::lemma_fundamental_div_mod_converse_div(x - 1, 100, q - 1, 99);
    } else {
        vstd::arithmetic::div_mod::lemma_fundamental_div_mod_converse_div(x - 1, 100, q, r - 1);
    }
}

/// A year and its position in its 400-year cycle agree modulo 4 and 100.
proof fn lemma_cycle_residues(y: int, era: int, yoe: int)
    requires
        y == era * 400 + yoe,
        0 <= yoe < 400,
    ensures
        y % 4 == yoe % 4,
        y % 100 == yoe % 100,
        y % 400 == yoe,
{
    vstd::arithmetic::div_mod::lemma_fundamental_div_mod(yoe, 4);
    vstd::arithmetic::div_mod::lemma_fundamental_div_mod_converse_mod(y, 4, era * 100 + yoe / 4, yoe % 4);
    vstd::arithmetic::div_mod::lemma_fundamental_div_mod(yoe, 100);
    vstd::arithmetic::div_mod::lemma_fundamental_div_mod_converse_mod(y, 100, era * 4 + yoe / 100, yoe % 100);
    vstd::arithmetic::div_mod::lemma_fundamental_div_mod_converse_mod(y, 400, era, yoe);
}

proof fn lemma_march_base_step(y: int)
    ensures
        march_base(y) - march_base(y - 1) == year_length(y),
{
    let era = y / 400;
    let yoe = y - era * 400;
    let era0 = (y - 1) / 400;
    let yoe0 = (y - 1) - era0 * 400;
    vstd::arithmetic::div_mod::lemma_fundamental_div_mod(y, 400);
    assert(0 <= yoe < 400);
    lemma_cycle_residues(y, era, yoe);
    if yoe == 0 {
        vstd::arithmetic::div_mod::lemma_fundamental_div_mod_converse_div(y - 1, 400, era - 1, 399);
        assert(era0 == era - 1);
        assert(yoe0 == 399);
        assert(march_base(y) == era * 146097);
        assert(march_base(y - 1) == (era - 1) * 146097 + 399 * 365 + 99 - 3);
    } else {
        vstd::arithmetic::div_mod::lemma_fundamental_div_mod_converse_div(y - 1, 400, era, yoe - 1);
        assert(era0 == era);
        assert(yoe0 == yoe - 1);
        lemma_div_step_4(yoe);
        lemma_div_step_100(yoe);
    }
}

/// The first days of consecutive years are a year's length apart.
pub proof fn lemma_epoch_day_next_year(y: int)
    ensures
        epoch_day(y + 1, 1, 1) == epoch_day(y, 1, 1) + year_length(y),
{
    lemma_march_base_step(y);
}

/// The first days of consecutive months are a month's length apart.
pub proof fn lemma_epoch_day_next_month(y: int, m: int)
    requires
        1 <= m < 12,
    ensures
        epoch_day(y, m + 1, 1) == epoch_day(y, m, 1) + days_in_month(y, m),
{
    if m == 2 {
        lemma_march_base_step(y);
    }
}

/// The date of a day number, counted from
/// 1970-01-01.
pub fn civil_from_epoch_days(days: u64) -> (r: (i64, u32, u32))
    ensures
        valid_date(r.0 as int, r.1 as int, r.2 as int),
        epoch_day(r.0 as int, r.1 as int, r.2 as int) == days as int,
        r.0 >= 1970,
        r.0 <= 1970 + days,
{
    assert(epoch_day(1970, 1, 1) == 0);
    let mut year: i64 = 1970;
    let mut rest: u64 = days;
    loop
        invariant
            1970 <= year <= 1970 + days,
            rest <= days,
            epoch_day(year as int, 1, 1) + rest == days as int,
        ensures
            1970 <= year <= 1970 + days,
            epoch_day(year as int, 1, 1) + rest == days as int,
            rest < year_length(year as int),
        decreases rest,
    {
        let magnitude: u64 = year as u64;
        let leap = (magnitude % 4 == 0 && magnitude % 100 != 0) || magnitude % 400 == 0;
        let length: u64 = if leap { 366 } else { 365 };
        assert(length == year_length(year as int));
        if rest < length {
            break;
        }
        proof { lemma_epoch_day_next_year(year as int); }
        rest = rest - length;
        year = year + 1;
    }
    let mut month: u32 = 1;
    loop
        invariant
            1 <= month <= 12,
            1970 <= year <= 1970 + days,
            epoch_day(year as int, month as int, 1) + rest == days as int,
            rest < year_length(year as int) - (epoch_day(year as int, month as int, 1) - epoch_day(year as int, 1, 1)),
            epoch_day(year as int, month as int, 1) >= epoch_day(year as int, 1, 1),
        ensures
            1 <= month <= 12,
            1970 <= year <= 1970 + days,
            epoch_day(year as int, month as int, 1) + rest == days as int,
            rest < days_in_month(year as int, month as int),
        decreases 12 - month,
    {
        let length: u64 = if month == 2 {
            let magnitude: u64 = year as u64;
            if (magnitude % 4 == 0 && magnitude % 100 != 0) || magnitude % 400 == 0 { 29 } else { 28 }
        } else if month == 4 || month == 6 || month == 9 || month == 11 {
            30
        } else {
            31
        };
        assert(length == days_in_month(year as int, month as int));
        if rest < length {
            break;
        }
        if month == 12 {
            proof { lemma_year_through_november(year as int); }
            break;
        }
        proof { lemma_epoch_day_next_month(year as int, month as int); }
        rest = rest - length;
        month = month + 1;
    }
    proof {
        assert(epoch_day(year as int, month as int, 1 + rest) == epoch_day(year as int, month as int, 1) + rest);
    }
    (year, month, (rest + 1) as u32)
}

/// From the first of January to the first of December.
proof fn lemma_year_through_november(y: int)
    ensures
        epoch_day(y, 12, 1) - epoch_day(y, 1, 1) == year_length(y) - 31,
{
    lemma_march_base_step(y);
}

/// The days of the months before month `m`.
pub open spec fn sum_months(y: int, m: int) -> int
    decreases m,
{
    if m <= 1 { 0 } else { sum_months(y, m - 1) + days_in_month(y, m - 1) }
}

proof fn lemma_month_start(y: int, m: int)
    requires
        1 <= m <= 12,
    ensures
        epoch_day(y, m, 1) == epoch_day(y, 1, 1) + sum_months(y, m),
    decreases m,
{
    if m > 1 {
        lemma_month_start(y, m - 1);
        lemma_epoch_day_next_month(y, m - 1);
    }
}

proof fn lemma_sum_months_grows(y: int, m1: int, m2: int)
    requires
        1 <= m1 < m2 <= 12,
    ensures
        sum_months(y, m2) >= sum_months(y, m1) + days_in_month(y, m1),
    decreases m2 - m1,
{
    if m2 > m1 + 1 {
        lemma_sum_months_grows(y, m1, m2 - 1);
    }
}

/// A valid date's day number lies within its year.
proof fn lemma_day_of_year(y: int, m: int, d: int)
    requires
        valid_date(y, m, d),
    ensures
        epoch_day(y, 1, 1) <= epoch_day(y, m, d) < epoch_day(y, 1, 1) + year_length(y),
        epoch_day(y, m, d) == epoch_day(y, 1, 1) + sum_months(y, m) + d - 1,
{
    lemma_month_start(y, m);
    lemma_month_start(y, 12);
    lemma_year_through_november(y);
    if m < 12 {
        lemma_sum_months_grows(y, m, 12);
    }
    lemma_sum_months_nonneg(y, m);
}

proof fn lemma_sum_months_nonneg(y: int, m: int)
    ensures
        sum_months(y, m) >= 0,
    decreases m,
{
    if m > 1 {
        lemma_sum_months_nonneg(y, m - 1);
    }
}

proof fn lemma_year_starts_grow(y1: int, y2: int)
    requires
        y1 < y2,
    ensures
        epoch_day(y2, 1, 1) >= epoch_day(y1, 1, 1) + year_length(y1),
    decreases y2 - y1,
{
    lemma_epoch_day_next_year(y1);
    if y2 > y1 + 1 {
        lemma_year_starts_grow(y1 + 1, y2);
        lemma_epoch_day_next_year(y1 + 1);
    }
}

/// Different valid dates have different day numbers.
pub proof fn law_day_numbers_are_one_to_one(y1: int, m1: int, d1: int, y2: int, m2: int, d2: int)
    requires
        valid_date(y1, m1, d1),
        valid_date(y2, m2, d2),
        epoch_day(y1, m1, d1) == epoch_day(y2, m2, d2),
    ensures
        y1 == y2 && m1 == m2 && d1 == d2,
{
    lemma_day_of_year(y1, m1, d1);
    lemma_day_of_year(y2, m2, d2);
    if y1 < y2 {
        lemma_year_starts_grow(y1, y2);
    } else if y2 < y1 {
        lemma_year_starts_grow(y2, y1);
    } else {
        if m1 < m2 {
            lemma_sum_months_grows(y1, m1, m2);
        } else if m2 < m1 {
            lemma_sum_months_grows(y1, m2, m1);
        }
    }
}

/// Reading a date back from its day number gives the date.
pub proof fn law_civil_date_round_trip(y: int, m: int, d: int, r: (i64, u32, u32))
    requires
        valid_date(y, m, d),
        valid_date(r.0 as int, r.1 as int, r.2 as int),
        epoch_day(r.0 as int, r.1 as int, r.2 as int) == epoch_day(y, m, d),
    ensures
        r.0 == y && r.1 == m && r.2 == d,
{
    law_day_numbers_are_one_to_one(r.0 as int, r.1 as int, r.2 as int, y, m, d);
}

/// The date whose day number is `days`: the one valid date with that
/// number.
pub open spec fn civil_of(days: int) -> (int, int, int) {
    choose|t: (int, int, int)| valid_date(t.0, t.1, t.2) && epoch_day(t.0, t.1, t.2) == days
}

/// The last millisecond of the year 9999 after 1970-01-01 00:00 UTC.
pub const LAST_MILLISECOND_OF_9999: u64 = 253402300799999;

/// An instant, as milliseconds after 1970-01-01 00:00 UTC, in RFC 3339 form
/// with milliseconds and a `Z` suffix: `YYYY-MM-DDTHH:MM:SS.mmmZ`.
pub open spec fn rfc3339_millis_spec(ms: int) -> Seq<char> {
    let date = civil_of(ms / 86400000);
    let t = ms % 86400000;
    padded_digits(date.0 as nat, 4) + "-"@ + padded_digits(date.1 as nat, 2) + "-"@
        + padded_digits(date.2 as nat, 2) + "T"@ + padded_digits((t / 3600000) as nat, 2) + ":"@
        + padded_digits((t / 60000 % 60) as nat, 2) + ":"@ + padded_digits((t / 1000 % 60) as nat, 2)
        + "."@ + padded_digits((t % 1000) as nat, 3) + "Z"@
}

/// The calendar date `civil_from_epoch_days` finds is the date of the day
/// number.
pub proof fn lemma_civil_of(days: int, r: (i64, u32, u32))
    requires
        valid_date(r.0 as int, r.1 as int, r.2 as int),
        epoch_day(r.0 as int, r.1 as int, r.2 as int) == days,
    ensures
        civil_of(days) == (r.0 as int, r.1 as int, r.2 as int),
{
    let w = (r.0 as int, r.1 as int, r.2 as int);
    assert(valid_date(w.0, w.1, w.2) && epoch_day(w.0, w.1, w.2) == days);
    let t = civil_of(days);
    law_day_numbers_are_one_to_one(t.0, t.1, t.2, w.0, w.1, w.2);
}

/// An instant in RFC 3339 form with milliseconds and a `Z` suffix.
pub fn rfc3339_millis_text(ms: u64) -> (r: String)
    ensures
        r@ == rfc3339_millis_spec(ms as int),
{
    let days = ms / 86400000;
    let t = ms % 86400000;
    let (y, mo, d) = civil_from_epoch_days(days);
    proof { lemma_civil_of(days as int, (y, mo, d)); }
    let mut out = padded_decimal_text(y as u64, 4);
    out.append("-");
    out.append(padded_decimal_text(mo as u64, 2).as_str());
    out.append("-");
    out.append(padded_decimal_text(d as u64, 2).as_str());
    out.append("T");
    out.append(padded_decimal_text(t / 3600000, 2).as_str());
    out.append(":");
    out.append(padded_decimal_text(t / 60000 % 60, 2).as_str());
    out.append(":");
    out.append(padded_decimal_text(t / 1000 % 60, 2).as_str());
    out.append(".");
    out.append(padded_decimal_text(t % 1000, 3).as_str());
    out.append("Z");
    out
}

/// The date of the day `secs` seconds after 1970-01-01 00:00 UTC falls on,
/// in UTC.
pub fn utc_date_of(secs: u64) -> (r: CalendarDate)
    requires
        secs <= LAST_MILLISECOND_OF_9999 / 1000,
    ensures
        r.is_valid(),
        r.year >= 1970,
        epoch_day(r.year as int, r.month as int, r.day as int) == secs as int / 86400,
{
    let (y, mo, d) = civil_from_epoch_days(secs / 86400);
    CalendarDate { year: y as i32, month: mo, day: d }
}

} // verus!
