//! Calendar dates of the proleptic Gregorian calendar, counted in days since
//! 1970-01-01, and the `YYYY-MM-DD` text the index stores in `agregado`.
use vstd::prelude::*;
use crate::text::{padded_decimal, push_char, push_padded};

verus! {

/// Whether `y` is a leap year.
pub open spec fn is_leap(y: int) -> bool {
    y % 4 == 0 && (y % 100 != 0 || y % 400 == 0)
}

/// The number of days of year `y`.
pub open spec fn year_len(y: int) -> int {
    if is_leap(y) {
        366
    } else {
        365
    }
}

/// The number of days from 1970-01-01 to the first day of year `y`.
pub open spec fn days_before_year(y: int) -> int
    decreases y - 1970,
{
    if y <= 1970 {
        0
    } else {
        days_before_year(y - 1) + year_len(y - 1)
    }
}

/// The number of days of month `m` (1 to 12) of year `y`.
pub open spec fn month_len(y: int, m: int) -> int {
    if m == 2 {
        if is_leap(y) {
            29
        } else {
            28
        }
    } else if m == 4 || m == 6 || m == 9 || m == 11 {
        30
    } else {
        31
    }
}

/// The number of days of year `y` before the first day of month `m`.
pub open spec fn days_before_month(y: int, m: int) -> int
    decreases m,
{
    if m <= 1 {
        0
    } else {
        days_before_month(y, m - 1) + month_len(y, m - 1)
    }
}

/// `(y, m, d)` is the calendar date that lies `days` days after 1970-01-01.
pub open spec fn is_civil_date(days: int, y: int, m: int, d: int) -> bool {
    &&& 1970 <= y
    &&& 1 <= m <= 12
    &&& 1 <= d <= month_len(y, m)
    &&& days == days_before_year(y) + days_before_month(y, m) + d - 1
}

/// The `YYYY-MM-DD` text of a date, each part padded with zeros.
pub open spec fn date_text(y: nat, m: nat, d: nat) -> Seq<char> {
    padded_decimal(y, 4) + seq!['-'] + padded_decimal(m, 2) + seq!['-'] + padded_decimal(d, 2)
}

/// The day count of a Unix time, as the program keeps it: whole days, cut to 32 bits.
pub open spec fn day_count(secs: u64) -> int {
    ((secs / 86400) as u32) as int
}

/// `t` is the text of the date of the Unix time `secs`.
pub open spec fn is_date_text_of(t: Seq<char>, secs: u64) -> bool {
    exists|y: nat, m: nat, d: nat| is_civil_date(day_count(secs), y as int, m as int, d as int) && t
        == date_text(y, m, d)
}

/// The months of a year add up to its length, and each month starts after
/// the previous one ends.
pub proof fn lemma_months(y: int)
    ensures
        days_before_month(y, 13) == year_len(y),
        forall|m: int| 1 <= m <= 12 ==> #[trigger] days_before_month(y, m) + month_len(y, m)
            == days_before_month(y, m + 1),
        forall|m: int| 1 <= m <= 13 ==> #[trigger] days_before_month(y, m) >= 0,
{
    reveal_with_fuel(days_before_month, 13);
}

/// Later months start later.
pub proof fn lemma_month_mono(y: int, m1: int, m2: int)
    requires
        1 <= m1 < m2 <= 13,
    ensures
        days_before_month(y, m1) + month_len(y, m1) <= days_before_month(y, m2),
    decreases m2 - m1,
{
    lemma_months(y);
    if m1 + 1 < m2 {
        lemma_month_mono(y, m1 + 1, m2);
    }
}

/// Later years start later.
pub proof fn lemma_year_mono(y1: int, y2: int)
    requires
        1970 <= y1 < y2,
    ensures
        days_before_year(y1) + year_len(y1) <= days_before_year(y2),
    decreases y2 - y1,
{
    if y1 + 1 < y2 {
        lemma_year_mono(y1 + 1, y2);
    }
}

/// A day count has a single calendar date.
pub proof fn lemma_civil_date_unique(days: int, y1: int, m1: int, d1: int, y2: int, m2: int, d2: int)
    requires
        is_civil_date(days, y1, m1, d1),
        is_civil_date(days, y2, m2, d2),
    ensures
        y1 == y2 && m1 == m2 && d1 == d2,
{
    lemma_months(y1);
    lemma_months(y2);
    if m1 < 12 {
        lemma_month_mono(y1, m1, 13);
    }
    if m2 < 12 {
        lemma_month_mono(y2, m2, 13);
    }
    if y1 < y2 {
        lemma_year_mono(y1, y2);
    } else if y2 < y1 {
        lemma_year_mono(y2, y1);
    } else if m1 < m2 {
        lemma_month_mono(y1, m1, m2);
    } else if m2 < m1 {
        lemma_month_mono(y1, m2, m1);
    }
}

/// Whether `year` is a leap year.
fn leap(year: u32) -> (r: bool)
    ensures
        r == is_leap(year as int),
{
    year % 4 == 0 && (year % 100 != 0 || year % 400 == 0)
}

/// The calendar date `days` days after 1970-01-01, as (year, month, day).
pub fn civil_from_days(days: u32) -> (r: (u32, u32, u32))
    ensures
        is_civil_date(days as int, r.0 as int, r.1 as int, r.2 as int),
{
    let mut left = days;
    let mut year: u32 = 1970;
    loop
        invariant
            1970 <= year,
            left <= days,
            (year - 1970) * 365 <= days - left,
            days == days_before_year(year as int) + left,
        ensures
            1970 <= year,
            left <= days,
            days == days_before_year(year as int) + left,
            left < year_len(year as int),
        decreases left,
    {
        let diy: u32 = if leap(year) {
            366
        } else {
            365
        };
        if left < diy {
            break ;
        }
        left = left - diy;
        year = year + 1;
    }
    let is_leap_year = leap(year);
    let months: [u32; 12] = [
        31,
        if is_leap_year {
            29
        } else {
            28
        },
        31,
        30,
        31,
        30,
        31,
        31,
        30,
        31,
        30,
        31,
    ];
    proof {
        lemma_months(year as int);
    }
    let mut month: u32 = 1;
    let mut day = left;
    while month <= 12 && day >= months[(month - 1) as usize]
        invariant
            1 <= month <= 13,
            day <= left,
            left < year_len(year as int),
            is_leap_year == is_leap(year as int),
            forall|i: int| 0 <= i < 12 ==> months@[i] == month_len(year as int, i + 1),
            left == days_before_month(year as int, month as int) + day,
            days_before_month(year as int, 13) == year_len(year as int),
            forall|m: int| 1 <= m <= 12 ==> #[trigger] days_before_month(year as int, m) + month_len(
                year as int,
                m,
            ) == days_before_month(year as int, m + 1),
        decreases 13 - month,
    {
        day = day - months[(month - 1) as usize];
        month = month + 1;
    }
    (year, month, day + 1)
}

/// Reads the system clock as whole seconds since the Unix epoch (std's
/// `SystemTime::now`, with a clock set before 1970 read as 0). Nothing is
/// claimed of the value: it is whatever the clock says.
#[verifier::external_body]
fn unix_now_secs() -> u64 {
    std::time::SystemTime::now().duration_since(std::time::UNIX_EPOCH).unwrap_or_default().as_secs()
}

/// The `YYYY-MM-DD` text of the day of the Unix time `secs`.
pub fn date_from_unix_secs(secs: u64) -> (r: String)
    ensures
        is_date_text_of(r@, secs),
{
    let days = (secs / 86400) as u32;
    let (y, m, d) = civil_from_days(days);
    let mut r = String::new();
    push_padded(&mut r, y as u64, 4);
    push_char(&mut r, '-');
    push_padded(&mut r, m as u64, 2);
    push_char(&mut r, '-');
    push_padded(&mut r, d as u64, 2);
    assert(r@ =~= date_text(y as nat, m as nat, d as nat));
    assert(is_civil_date(day_count(secs), (y as nat) as int, (m as nat) as int, (d as nat) as int));
    r
}

/// Today's date as `YYYY-MM-DD`, by the system clock.
pub fn today() -> (r: String)
    ensures
        exists|secs: u64| is_date_text_of(r@, secs),
{
    let secs = unix_now_secs();
    date_from_unix_secs(secs)
}

} // verus!
