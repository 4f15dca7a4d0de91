//! Proleptic Gregorian dates: validity, day numbers, weekdays and ISO text.
//!
//! The rules are those of `chrono::NaiveDate` (years -262143 ..= 262142,
//! day 1 is January 1 of year 1, which was a Monday).
use vstd::prelude::*;

use crate::locale::{weekday_from_index, weekday_of_index, Weekday};
use crate::text::{padded_decimal, padded_to_string, push_char};

verus! {

pub const MIN_YEAR: i32 = -262143;

pub const MAX_YEAR: i32 = 262142;

pub open spec fn is_leap_year(y: int) -> bool {
    (y % 4 == 0 && y % 100 != 0) || y % 400 == 0
}

pub open spec fn days_in_month(y: int, m: int) -> int {
    if m == 2 {
        if is_leap_year(y) {
            29
        } else {
            28
        }
    } else if m == 4 || m == 6 || m == 9 || m == 11 {
        30
    } else {
        31
    }
}

/// `NaiveDate::from_ymd_opt(y, m, d).is_some()`.
pub open spec fn is_valid_gregorian(y: int, m: int, d: int) -> bool {
    &&& MIN_YEAR <= y <= MAX_YEAR
    &&& 1 <= m <= 12
    &&& 1 <= d <= days_in_month(y, m)
}

/// Days of the year before the first day of month `m`.
pub open spec fn days_before_month(y: int, m: int) -> int {
    let base: int = if m <= 1 {
        0
    } else if m == 2 {
        31
    } else if m == 3 {
        59
    } else if m == 4 {
        90
    } else if m == 5 {
        120
    } else if m == 6 {
        151
    } else if m == 7 {
        181
    } else if m == 8 {
        212
    } else if m == 9 {
        243
    } else if m == 10 {
        273
    } else if m == 11 {
        304
    } else {
        334
    };
    if m > 2 && is_leap_year(y) {
        base + 1
    } else {
        base
    }
}

/// `Datelike::num_days_from_ce`: 0001-01-01 is day 1.
pub open spec fn days_from_ce(y: int, m: int, d: int) -> int {
    let p = y - 1;
    365 * p + p / 4 - p / 100 + p / 400 + days_before_month(y, m) + d
}

/// Weekday index (Saturday = 0 .. Friday = 6) of a day number.
pub open spec fn weekday_index_of_day(n: int) -> int {
    (n + 1) % 7
}

/// A calendar date in the proleptic Gregorian calendar.
#[derive(Debug, Clone, Copy, PartialEq, Eq, Structural)]
pub struct GregorianDate {
    pub year: i32,
    pub month: u32,
    pub day: u32,
}

impl GregorianDate {
    pub open spec fn wf(self) -> bool {
        is_valid_gregorian(self.year as int, self.month as int, self.day as int)
    }

    pub open spec fn day_number(self) -> int {
        days_from_ce(self.year as int, self.month as int, self.day as int)
    }

    /// `NaiveDate::from_ymd_opt`.
    pub fn from_ymd_opt(year: i32, month: u32, day: u32) -> (r: Option<GregorianDate>)
        ensures
            r is Some <==> is_valid_gregorian(year as int, month as int, day as int),
            r matches Some(d) ==> d.year == year && d.month == month && d.day == day,
    {
        if year < MIN_YEAR || year > MAX_YEAR || month < 1 || month > 12 || day < 1 {
            return None;
        }
        if day > month_length(year, month) {
            return None;
        }
        Some(GregorianDate { year, month, day })
    }

    /// Number of days since 0000-12-31 (`num_days_from_ce`).
    pub fn num_days_from_ce(&self) -> (n: i64)
        requires
            self.wf(),
        ensures
            n as int == self.day_number(),
    {
        let p: i64 = self.year as i64 - 1;
        let q4 = floor_div(p, 4);
        let q100 = floor_div(p, 100);
        let q400 = floor_div(p, 400);
        365 * p + q4 - q100 + q400 + days_before(self.year, self.month) + self.day as i64
    }

    /// The day of the week.
    pub fn weekday(&self) -> (w: Weekday)
        requires
            self.wf(),
        ensures
            w.index() as int == weekday_index_of_day(self.day_number()),
            w == weekday_of_index(weekday_index_of_day(self.day_number())),
    {
        let n = self.num_days_from_ce();
        let r = floor_mod(n + 1, 7);
        weekday_from_index(r as u8)
    }

    /// Signed number of days from `other` to `self`.
    pub fn days_since(&self, other: &GregorianDate) -> (d: i64)
        requires
            self.wf(),
            other.wf(),
        ensures
            d as int == self.day_number() - other.day_number(),
    {
        self.num_days_from_ce() - other.num_days_from_ce()
    }

    /// The following day (`succ_opt`).
    pub fn succ_opt(&self) -> (r: Option<GregorianDate>)
        requires
            self.wf(),
        ensures
            r is None <==> (self.year == MAX_YEAR && self.month == 12 && self.day == 31),
            r matches Some(n) ==> n.wf() && n == next_day(*self),
    {
        if self.day < month_length(self.year, self.month) {
            Some(GregorianDate { year: self.year, month: self.month, day: self.day + 1 })
        } else if self.month < 12 {
            Some(GregorianDate { year: self.year, month: self.month + 1, day: 1 })
        } else if self.year < MAX_YEAR {
            Some(GregorianDate { year: self.year + 1, month: 1, day: 1 })
        } else {
            None
        }
    }

    /// `format("%Y-%m-%d")`.
    pub fn format_iso(&self) -> (s: String)
        requires
            self.wf(),
        ensures
            s@ == iso_text(*self),
    {
        let mut v: Vec<char> = Vec::new();
        let ys = if self.year < 0 {
            padded_to_string((0i64 - self.year as i64) as u64, 4)
        } else {
            padded_to_string(self.year as u64, 4)
        };
        let mut s = String::new();
        if self.year < 0 {
            push_char(&mut s, '-');
        } else if self.year > 9999 {
            push_char(&mut s, '+');
        }
        s.append(ys.as_str());
        push_char(&mut s, '-');
        let ms = padded_to_string(self.month as u64, 2);
        s.append(ms.as_str());
        push_char(&mut s, '-');
        let ds = padded_to_string(self.day as u64, 2);
        s.append(ds.as_str());
        assert(s@ =~= iso_text(*self));
        s
    }
}

/// The calendar day after `d` (rolling over months and years).
pub open spec fn next_day(d: GregorianDate) -> GregorianDate {
    if (d.day as int) < days_in_month(d.year as int, d.month as int) {
        GregorianDate { year: d.year, month: d.month, day: (d.day + 1) as u32 }
    } else if d.month < 12 {
        GregorianDate { year: d.year, month: (d.month + 1) as u32, day: 1 }
    } else {
        GregorianDate { year: (d.year + 1) as i32, month: 1, day: 1 }
    }
}

/// `%Y-%m-%d` as chrono writes it: the year zero-padded to four digits, with a
/// sign when it is negative or above 9999.
pub open spec fn iso_text(d: GregorianDate) -> Seq<char> {
    let y = d.year as int;
    let sign = if y < 0 {
        seq!['-']
    } else if y > 9999 {
        seq!['+']
    } else {
        Seq::<char>::empty()
    };
    let ya = if y < 0 {
        -y
    } else {
        y
    };
    sign + padded_decimal(ya as nat, 4) + seq!['-'] + padded_decimal(d.month as nat, 2) + seq!['-']
        + padded_decimal(d.day as nat, 2)
}

/// Floor division for a positive divisor (matches `/` in specifications).
fn floor_div(a: i64, b: i64) -> (q: i64)
    requires
        b > 0,
        -1000000000 <= a <= 1000000000,
        b <= 1000,
    ensures
        q as int == a as int / b as int,
{
    if a >= 0 {
        a / b
    } else {
        let n: i64 = 0 - a;
        let c: i64 = (n + b - 1) / b;
        proof {
            lemma_floor_div_neg(n as int, b as int, c as int);
        }
        0 - c
    }
}

proof fn lemma_floor_div_neg(n: int, b: int, c: int)
    requires
        b > 0,
        n > 0,
        c == (n + b - 1) / b,
    ensures
        (-n) / b == -c,
{
    vstd::arithmetic::div_mod::lemma_fundamental_div_mod(n + b - 1, b);
    let s = (n + b - 1) % b;
    assert(0 <= s < b);
    assert(-n == (-c) * b + (b - 1 - s)) by (nonlinear_arith)
        requires
            n + b - 1 == b * c + s,
    ;
    vstd::arithmetic::div_mod::lemma_fundamental_div_mod_converse(-n, b, -c, b - 1 - s);
}

/// Euclidean remainder for a positive divisor (matches `%` in specifications).
fn floor_mod(a: i64, b: i64) -> (r: i64)
    requires
        b > 0,
        -1000000000 <= a <= 1000000000,
        b <= 1000,
    ensures
        r as int == a as int % b as int,
        0 <= r < b,
{
    let q = floor_div(a, b);
    proof {
        vstd::arithmetic::div_mod::lemma_fundamental_div_mod(a as int, b as int);
        assert(q * b == b * q) by (nonlinear_arith);
        assert(q * b == a - a % b);
    }
    a - q * b
}

/// Whether `year` is a Gregorian leap year.
pub fn leap_year(year: i32) -> (r: bool)
    ensures
        r == is_leap_year(year as int),
{
    let a: u32 = if year < 0 {
        (0i64 - year as i64) as u32
    } else {
        year as u32
    };
    proof {
        lemma_divisible_neg(year as int, 4);
        lemma_divisible_neg(year as int, 100);
        lemma_divisible_neg(year as int, 400);
    }
    (a % 4 == 0 && a % 100 != 0) || a % 400 == 0
}

/// Number of days in a month of a year (`month` in 1..=12).
pub fn month_length(year: i32, month: u32) -> (n: u32)
    requires
        1 <= month <= 12,
    ensures
        n as int == days_in_month(year as int, month as int),
{
    if month == 2 {
        if leap_year(year) {
            29
        } else {
            28
        }
    } else if month == 4 || month == 6 || month == 9 || month == 11 {
        30
    } else {
        31
    }
}

/// Divisibility does not depend on the sign.
proof fn lemma_divisible_neg(a: int, b: int)
    requires
        b > 0,
    ensures
        (a % b == 0) <==> ((-a) % b == 0),
{
    vstd::arithmetic::div_mod::lemma_fundamental_div_mod(a, b);
    vstd::arithmetic::div_mod::lemma_fundamental_div_mod(-a, b);
    if a % b == 0 {
        let q = a / b;
        assert(-a == (-q) * b) by (nonlinear_arith)
            requires
                a == b * q,
        ;
        vstd::arithmetic::div_mod::lemma_fundamental_div_mod_converse(-a, b, -q, 0);
    }
    if (-a) % b == 0 {
        let q = (-a) / b;
        assert(a == (-q) * b) by (nonlinear_arith)
            requires
                -a == b * q,
        ;
        vstd::arithmetic::div_mod::lemma_fundamental_div_mod_converse(a, b, -q, 0);
    }
}

fn days_before(year: i32, month: u32) -> (n: i64)
    requires
        1 <= month <= 12,
    ensures
        n as int == days_before_month(year as int, month as int),
{
    let base: i64 = if month <= 1 {
        0
    } else if month == 2 {
        31
    } else if month == 3 {
        59
    } else if month == 4 {
        90
    } else if month == 5 {
        120
    } else if month == 6 {
        151
    } else if month == 7 {
        181
    } else if month == 8 {
        212
    } else if month == 9 {
        243
    } else if month == 10 {
        273
    } else if month == 11 {
        304
    } else {
        334
    };
    if month > 2 && month_length(year, 2) == 29 {
        base + 1
    } else {
        base
    }
}

/// `y / b` steps up by one exactly at multiples of `b`.
proof fn lemma_div_step(y: int, b: int)
    requires
        b > 0,
    ensures
        y / b - (y - 1) / b == (if y % b == 0 {
            1int
        } else {
            0int
        }),
{
    vstd::arithmetic::div_mod::lemma_fundamental_div_mod(y, b);
    let q = y / b;
    let r = y % b;
    assert(y == b * q + r);
    if r == 0 {
        assert(y - 1 == (q - 1) * b + (b - 1)) by (nonlinear_arith)
            requires
                y == b * q + r,
                r == 0,
        ;
        vstd::arithmetic::div_mod::lemma_fundamental_div_mod_converse(y - 1, b, q - 1, b - 1);
    } else {
        assert(y - 1 == q * b + (r - 1)) by (nonlinear_arith)
            requires
                y == b * q + r,
        ;
        vstd::arithmetic::div_mod::lemma_fundamental_div_mod_converse(y - 1, b, q, r - 1);
    }
}

proof fn lemma_divides_chain(y: int)
    ensures
        y % 400 == 0 ==> y % 100 == 0,
        y % 100 == 0 ==> y % 4 == 0,
{
    if y % 400 == 0 {
        vstd::arithmetic::div_mod::lemma_fundamental_div_mod(y, 400);
        let k = y / 400;
        assert(y == (4 * k) * 100) by (nonlinear_arith)
            requires
                y == 400 * k,
        ;
        vstd::arithmetic::div_mod::lemma_fundamental_div_mod_converse(y, 100, 4 * k, 0);
    }
    if y % 100 == 0 {
        vstd::arithmetic::div_mod::lemma_fundamental_div_mod(y, 100);
        let k = y / 100;
        assert(y == (25 * k) * 4) by (nonlinear_arith)
            requires
                y == 100 * k,
        ;
        vstd::arithmetic::div_mod::lemma_fundamental_div_mod_converse(y, 4, 25 * k, 0);
    }
}

pub open spec fn year_days(y: int) -> int {
    if is_leap_year(y) {
        366
    } else {
        365
    }
}

/// January 1 of the next year follows the last day of this one.
pub proof fn lemma_year_step(y: int)
    ensures
        days_from_ce(y + 1, 1, 1) == days_from_ce(y, 1, 1) + year_days(y),
{
    lemma_div_step(y, 4);
    lemma_div_step(y, 100);
    lemma_div_step(y, 400);
    lemma_divides_chain(y);
}

pub proof fn lemma_year_mono(a: int, b: int)
    requires
        a <= b,
    ensures
        days_from_ce(a, 1, 1) + 365 * (b - a) <= days_from_ce(b, 1, 1),
    decreases b - a,
{
    if a < b {
        lemma_year_mono(a, b - 1);
        lemma_year_step(b - 1);
    }
}

/// A valid date lies within its year.
pub proof fn lemma_date_in_year(y: int, m: int, d: int)
    requires
        1 <= m <= 12,
        1 <= d <= days_in_month(y, m),
    ensures
        days_from_ce(y, 1, 1) <= days_from_ce(y, m, d) < days_from_ce(y + 1, 1, 1),
        days_from_ce(y, m, d) == days_from_ce(y, 1, 1) - 1 + days_before_month(y, m) + d,
{
    lemma_year_step(y);
}

proof fn lemma_month_gap(y: int, a: int, b: int)
    requires
        1 <= a < b <= 12,
    ensures
        days_before_month(y, a) + days_in_month(y, a) <= days_before_month(y, b),
{
}

/// Distinct valid dates have distinct day numbers.
pub proof fn lemma_day_number_injective(g1: GregorianDate, g2: GregorianDate)
    requires
        g1.wf(),
        g2.wf(),
        g1.day_number() == g2.day_number(),
    ensures
        g1 == g2,
{
    let (y1, m1, d1) = (g1.year as int, g1.month as int, g1.day as int);
    let (y2, m2, d2) = (g2.year as int, g2.month as int, g2.day as int);
    lemma_date_in_year(y1, m1, d1);
    lemma_date_in_year(y2, m2, d2);
    if y1 < y2 {
        lemma_year_mono(y1 + 1, y2);
    } else if y2 < y1 {
        lemma_year_mono(y2 + 1, y1);
    }
    assert(y1 == y2);
    if m1 < m2 {
        lemma_month_gap(y1, m1, m2);
    } else if m2 < m1 {
        lemma_month_gap(y1, m2, m1);
    }
}

/// The next calendar day has the next day number.
pub proof fn lemma_next_day_number(g: GregorianDate)
    requires
        g.wf(),
        !(g.year == MAX_YEAR && g.month == 12 && g.day == 31),
    ensures
        next_day(g).wf(),
        next_day(g).day_number() == g.day_number() + 1,
{
    let (y, m, d) = (g.year as int, g.month as int, g.day as int);
    if m == 12 && d == days_in_month(y, m) {
        lemma_year_step(y);
    }
}

} // verus!
