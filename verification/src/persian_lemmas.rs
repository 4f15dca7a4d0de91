//! Facts about Persian day counting used by the calendar conversions.
use vstd::prelude::*;

use crate::backend::{
    persian_days_before_month, persian_days_before_year, persian_month_days, persian_offset,
    persian_valid, persian_year_days,
};

verus! {

pub proof fn lemma_year_days_bounds(y: int)
    ensures
        365 <= persian_year_days(y) <= 366,
{
}

/// Each Persian year adds 365 or 366 days.
pub proof fn lemma_days_before_year_step(y: int)
    requires
        y >= 1,
    ensures
        persian_days_before_year(y + 1) == persian_days_before_year(y) + persian_year_days(y),
{
}

/// Day counts of year starts grow with the year.
pub proof fn lemma_days_before_year_mono(a: int, b: int)
    requires
        1 <= a <= b,
    ensures
        persian_days_before_year(a) + 365 * (b - a) <= persian_days_before_year(b),
    decreases b - a,
{
    if a < b {
        lemma_days_before_year_mono(a, b - 1);
        lemma_days_before_year_step(b - 1);
    }
}

pub proof fn lemma_days_before_year_nonneg(y: int)
    ensures
        persian_days_before_year(y) >= 0,
    decreases y,
{
    if y > 1 {
        lemma_days_before_year_nonneg(y - 1);
    }
}

/// A valid date lies within its year.
pub proof fn lemma_offset_in_year(y: int, m: int, d: int)
    requires
        persian_valid(y, m, d),
    ensures
        persian_days_before_year(y) <= persian_offset(y, m, d) < persian_days_before_year(y + 1),
        persian_offset(y, m, d) - persian_days_before_year(y) == persian_days_before_month(m) + d
            - 1,
{
    lemma_days_before_year_step(y);
}

/// A valid date lies within its month.
pub proof fn lemma_offset_in_month(m: int, d: int, y: int)
    requires
        persian_valid(y, m, d),
    ensures
        persian_days_before_month(m) <= persian_days_before_month(m) + d - 1
            < persian_days_before_month(m) + persian_month_days(y, m),
        m < 12 ==> persian_days_before_month(m) + persian_month_days(y, m)
            == persian_days_before_month(m + 1),
{
}

/// Distinct valid Persian dates have distinct day counts.
pub proof fn lemma_offset_injective(y1: int, m1: int, d1: int, y2: int, m2: int, d2: int)
    requires
        persian_valid(y1, m1, d1),
        persian_valid(y2, m2, d2),
        persian_offset(y1, m1, d1) == persian_offset(y2, m2, d2),
    ensures
        y1 == y2 && m1 == m2 && d1 == d2,
{
    lemma_offset_in_year(y1, m1, d1);
    lemma_offset_in_year(y2, m2, d2);
    if y1 < y2 {
        lemma_days_before_year_mono(y1 + 1, y2);
    } else if y2 < y1 {
        lemma_days_before_year_mono(y2 + 1, y1);
    }
    assert(y1 == y2);
    lemma_month_injective(y1, m1, d1, m2, d2);
}

proof fn lemma_month_injective(y: int, m1: int, d1: int, m2: int, d2: int)
    requires
        persian_valid(y, m1, d1),
        persian_valid(y, m2, d2),
        persian_days_before_month(m1) + d1 == persian_days_before_month(m2) + d2,
    ensures
        m1 == m2 && d1 == d2,
{
    if m1 < m2 {
        lemma_before_month_gap(y, m1, m2);
    } else if m2 < m1 {
        lemma_before_month_gap(y, m2, m1);
    }
}

proof fn lemma_before_month_gap(y: int, a: int, b: int)
    requires
        1 <= a < b <= 12,
    ensures
        persian_days_before_month(a) + persian_month_days(y, a) <= persian_days_before_month(b),
{
}

/// Dates of years 1..=9999 lie before the end of the supported range.
pub proof fn lemma_offset_below_limit(y: int, m: int, d: int)
    requires
        persian_valid(y, m, d),
    ensures
        persian_offset(y, m, d) < persian_offset(10000, 1, 1),
{
    lemma_offset_in_year(y, m, d);
    lemma_days_before_year_mono(y + 1, 10000);
}

/// The supported range extends far beyond Gregorian year 3000.
pub proof fn lemma_limit_large()
    ensures
        persian_offset(10000, 1, 1) >= 365 * 9999,
{
    lemma_days_before_year_mono(1, 10000);
}

/// The first of the following month is one month length later.
pub proof fn lemma_next_month_offset(y: int, m: int)
    requires
        persian_valid(y, m, 1),
    ensures
        m < 12 ==> persian_offset(y, m + 1, 1) == persian_offset(y, m, 1) + persian_month_days(
            y,
            m,
        ),
        m == 12 ==> persian_offset(y + 1, 1, 1) == persian_offset(y, m, 1) + persian_month_days(
            y,
            m,
        ),
{
    lemma_days_before_year_step(y);
}

} // verus!
