//! Trusted bridges to the `parsidate` and `hijri_date` crates.
//!
//! Dates cross the bridge as plain numbers; the Persian calendar rules that
//! `parsidate` documents (33-year leap cycle, epoch 622-03-21, day counting)
//! are stated here exactly, the Umm al-Qura tables of `hijri_date` are named.
use vstd::prelude::*;

use chrono::Datelike;

use crate::gregorian::{days_from_ce, is_valid_gregorian, GregorianDate};

verus! {

/// `ParsiDate::is_persian_leap_year`: years 1, 5, 9, 13, 17, 22, 26, 30 of each 33-year cycle.
pub open spec fn persian_leap(y: int) -> bool {
    y > 0 && {
        let r = y % 33;
        r == 1 || r == 5 || r == 9 || r == 13 || r == 17 || r == 22 || r == 26 || r == 30
    }
}

/// `ParsiDate::days_in_month` (0 for a month outside 1..=12).
pub open spec fn persian_month_days(y: int, m: int) -> int {
    if 1 <= m <= 6 {
        31
    } else if 7 <= m <= 11 {
        30
    } else if m == 12 {
        if persian_leap(y) {
            30
        } else {
            29
        }
    } else {
        0
    }
}

/// `ParsiDate::new(y, m, d).is_ok()`: years 1..=9999.
pub open spec fn persian_valid(y: int, m: int, d: int) -> bool {
    &&& 1 <= y <= 9999
    &&& 1 <= m <= 12
    &&& 1 <= d <= persian_month_days(y, m)
}

pub open spec fn persian_year_days(y: int) -> int {
    if persian_leap(y) {
        366
    } else {
        365
    }
}

/// Days from 1/1/1 to the first day of Persian year `y`.
pub open spec fn persian_days_before_year(y: int) -> int
    decreases y,
{
    if y <= 1 {
        0
    } else {
        persian_days_before_year(y - 1) + persian_year_days(y - 1)
    }
}

/// Days of the Persian year before the first day of month `m`.
pub open spec fn persian_days_before_month(m: int) -> int {
    if m <= 7 {
        31 * (m - 1)
    } else {
        186 + 30 * (m - 7)
    }
}

/// Days from 1/1/1 to the Persian date `y/m/d`.
pub open spec fn persian_offset(y: int, m: int, d: int) -> int {
    persian_days_before_year(y) + persian_days_before_month(m) + d - 1
}

/// Day number of 622-03-21, the Gregorian date of 1/1/1.
pub open spec fn persian_epoch_day() -> int {
    days_from_ce(622, 3, 21)
}

/// First day number past the supported range (1/1/10000).
pub open spec fn persian_limit_day() -> int {
    persian_epoch_day() + persian_offset(10000, 1, 1)
}

/// Text of the outside error for a date that `ParsiDate::from_gregorian` refuses.
pub uninterp spec fn persian_from_gregorian_error(y: int, m: int, d: int) -> Seq<char>;

/// `ParsiDate::new(year, month, day)?.to_gregorian()`.
///
/// The contract states what `parsidate` documents: the date is valid exactly
/// when the year is 1..=9999, the month 1..=12 and the day within the month
/// (Esfand has 30 days in leap years of the 33-year cycle), and the Gregorian
/// date lies `persian_offset` days after 622-03-21. The error is then
/// `DateError::InvalidDate`, whose text is given.
#[verifier::external_body]
pub(crate) fn persian_to_gregorian(year: i32, month: u32, day: u32) -> (r: Result<GregorianDate, String>)
    ensures
        r is Ok <==> persian_valid(year as int, month as int, day as int),
        r matches Ok(g) ==> g.wf() && g.day_number() == persian_epoch_day() + persian_offset(
            year as int,
            month as int,
            day as int,
        ),
        r matches Err(e) ==> e@
            == "Invalid Persian date: year, month, or day is out of range or inconsistent"@,
{
    let g = parsidate::ParsiDate::new(year, month, day).and_then(|p| p.to_gregorian()).map_err(
        |e| e.to_string(),
    )?;
    Ok(GregorianDate { year: g.year(), month: g.month(), day: g.day() })
}

/// `ParsiDate::from_gregorian`, as (year, month, day).
///
/// Stated: a date before 622-03-21 is refused; a date from then up to the end
/// of Persian year 9999 gives the valid Persian date whose day count from
/// 622-03-21 is the same; every success is a valid Persian date. A date
/// before 622-03-21 gets the `GregorianConversionError` text; every refusal
/// carries that text or the `InvalidDate` text, and which of the two a later
/// refusal carries is named, not stated.
#[verifier::external_body]
pub(crate) fn persian_from_gregorian(date: GregorianDate) -> (r: Result<(i32, u32, u32), String>)
    requires
        date.wf(),
    ensures
        date.day_number() < persian_epoch_day() ==> r is Err,
        r matches Err(e) ==> (date.day_number() < persian_epoch_day() ==> e@ == "Failed to convert to or from the Gregorian calendar"@),
        r matches Err(e) ==> (e@ == "Failed to convert to or from the Gregorian calendar"@ || e@ == "Invalid Persian date: year, month, or day is out of range or inconsistent"@),
        persian_epoch_day() <= date.day_number() < persian_limit_day() ==> r is Ok,
        r matches Ok(p) ==> persian_valid(p.0 as int, p.1 as int, p.2 as int),
        r matches Ok(p) ==> (date.day_number() < persian_limit_day() ==> persian_epoch_day()
            + persian_offset(p.0 as int, p.1 as int, p.2 as int) == date.day_number()),
        r matches Err(e) ==> e@ == persian_from_gregorian_error(
            date.year as int,
            date.month as int,
            date.day as int,
        ),
{
    let g = chrono::NaiveDate::from_ymd_opt(date.year, date.month, date.day).unwrap();
    let p = parsidate::ParsiDate::from_gregorian(g).map_err(|e| e.to_string())?;
    Ok((p.year(), p.month(), p.day()))
}

/// Whether `HijriDate::from_hijri(y, m, d)` panics: month 0 passes its range
/// checks and then fails a table lookup.
pub open spec fn hijri_lookup_panics(y: int, m: int, d: int) -> bool {
    m == 0 && 1357 <= y <= 1499 && d <= 30
}

/// `HijriDate::from_gr(y, m, d)` as (year, month, day, month length), or the error text.
pub uninterp spec fn hijri_of_gregorian(y: usize, m: usize, d: usize) -> Result<
    (usize, usize, usize, usize),
    Seq<char>,
>;

/// `HijriDate::from_hijri(y, m, d)` as (Gregorian year, month, day, month length), or the error text.
pub uninterp spec fn gregorian_of_hijri(y: usize, m: usize, d: usize) -> Result<
    (usize, usize, usize, usize),
    Seq<char>,
>;

pub open spec fn result_text<T>(r: Result<T, String>) -> Result<T, Seq<char>> {
    match r {
        Ok(t) => Ok(t),
        Err(e) => Err(e@),
    }
}

/// `HijriDate::from_gr`: the Umm al-Qura date of a Gregorian date.
///
/// The result is named. Stated from the crate's source: Gregorian years
/// outside 1938..=2076, months above 12 and days above 31 are refused, and
/// every valid date of 1938..=2076 is accepted (its table covers them); a
/// success has a month in 1..=12, a day from 1 to the month length, and a
/// month length of 28 to 30 days (the differences of consecutive entries of
/// its table).
#[verifier::external_body]
pub(crate) fn hijri_from_gregorian(year: usize, month: usize, day: usize) -> (r: Result<
    (usize, usize, usize, usize),
    String,
>)
    ensures
        result_text(r) == hijri_of_gregorian(year, month, day),
        (year < 1938 || year > 2076 || month > 12 || day > 31) ==> r is Err,
        is_valid_gregorian(year as int, month as int, day as int) && 1938 <= year <= 2076 ==> r is Ok,
        r matches Ok(h) ==> 1 <= h.1 <= 12 && 1 <= h.2 <= h.3 && 28 <= h.3 <= 30 && h.0 <= 1500,
{
    let h = hijri_date::HijriDate::from_gr(year, month, day)?;
    Ok((h.year(), h.month(), h.day(), h.month_len()))
}

/// `HijriDate::from_hijri`: the Gregorian date of an Umm al-Qura date.
///
/// The result is named. Stated from the crate's source: years outside
/// 1357..=1499, months above 12 and days above 30 are refused, and every
/// year of 1357..=1499, month 1..=12 and day 1..=30 is accepted; a success
/// carries a Gregorian date that `chrono` parsed (so a valid one) and a month
/// length of 28 to 30 days.
#[verifier::external_body]
pub(crate) fn hijri_to_gregorian_parts(year: usize, month: usize, day: usize) -> (r: Result<
    (usize, usize, usize, usize),
    String,
>)
    requires
        !hijri_lookup_panics(year as int, month as int, day as int),
    ensures
        result_text(r) == gregorian_of_hijri(year, month, day),
        (year < 1357 || year > 1499 || month > 12 || day > 30) ==> r is Err,
        1357 <= year <= 1499 && 1 <= month <= 12 && 1 <= day <= 30 ==> r is Ok,
        r matches Ok(g) ==> is_valid_gregorian(g.0 as int, g.1 as int, g.2 as int) && 28 <= g.3
            <= 30,
{
    let h = hijri_date::HijriDate::from_hijri(year, month, day)?;
    Ok((h.year_gr(), h.month_gr(), h.day_gr(), h.month_len()))
}

} // verus!
