//! Calendar systems, converted dates and the month grids.
use vstd::prelude::*;

use crate::backend::{gregorian_of_hijri, hijri_from_gregorian, hijri_lookup_panics, hijri_of_gregorian, hijri_to_gregorian_parts, persian_epoch_day, persian_from_gregorian, persian_limit_day, persian_month_days, persian_offset, persian_to_gregorian, persian_valid};
use crate::countries::CountryProfile;
use crate::error::BolootError;
use crate::gregorian::{days_from_ce, lemma_date_in_year, lemma_day_number_injective, lemma_year_mono, weekday_index_of_day, GregorianDate};
use crate::locale::{weekday_index_spec, weekday_of_index, LanguageVariant, LocaleProfile, Weekday};
use crate::persian_lemmas::{lemma_limit_large, lemma_next_month_offset, lemma_offset_injective};

verus! {

/// Which calendar the user reads dates in.
#[derive(Debug, Clone, Copy, PartialEq, Eq, Structural, Default)]
pub enum CalendarSystem {
    #[default]
    Jalali,
    Hijri,
    Gregorian,
    DualJalaliGregorian,
}

/// One day, in the Gregorian, Jalali and Hijri calendars.
#[derive(Debug, Clone, Copy, PartialEq, Eq, Structural)]
pub struct CalendarDate {
    pub gregorian: GregorianDate,
    pub jalali_year: i32,
    pub jalali_month: u8,
    pub jalali_day: u8,
    pub hijri_year: i32,
    pub hijri_month: u8,
    pub hijri_day: u8,
    pub weekday: Weekday,
}

/// A formatted day for the panel and the popup.
#[derive(Debug)]
pub struct CalendarView {
    pub primary: String,
    pub secondary: Option<String>,
    pub weekday: String,
    pub weekday_short: String,
    pub panel_day_label: String,
    pub panel_tooltip: String,
    pub is_holiday: bool,
    pub is_weekend: bool,
    pub holiday_names: Vec<String>,
    pub jalali: CalendarDate,
}

/// Weekday of a day number.
pub open spec fn weekday_of_day(n: int) -> Weekday {
    weekday_of_index(weekday_index_of_day(n))
}

/// The Umm al-Qura conversion of `g` succeeds.
pub open spec fn hijri_ok(g: GregorianDate) -> bool {
    hijri_of_gregorian(g.year as usize, g.month as usize, g.day as usize) is Ok
}

/// Every date with day number `n` has an Umm al-Qura date.
pub open spec fn hijri_ok_on_day(n: int) -> bool {
    forall|g: GregorianDate| #![trigger g.day_number()] g.wf() && g.day_number() == n ==> hijri_ok(g)
}

impl CalendarDate {
    pub open spec fn wf(self) -> bool {
        &&& self.gregorian.wf()
        &&& 1938 <= self.gregorian.year <= 2076
        &&& persian_valid(
            self.jalali_year as int,
            self.jalali_month as int,
            self.jalali_day as int,
        )
        &&& 1 <= self.hijri_month <= 12
        &&& 1 <= self.hijri_day
        &&& self.weekday == weekday_of_day(self.gregorian.day_number())
    }

    /// `self` is the conversion of the Gregorian date `g`: the Jalali date
    /// with the same day count from the Persian epoch, the Umm al-Qura date
    /// of `hijri_date`, and the weekday.
    pub open spec fn converts(self, g: GregorianDate) -> bool {
        &&& self.gregorian == g
        &&& persian_valid(
            self.jalali_year as int,
            self.jalali_month as int,
            self.jalali_day as int,
        )
        &&& persian_epoch_day() + persian_offset(
            self.jalali_year as int,
            self.jalali_month as int,
            self.jalali_day as int,
        ) == g.day_number()
        &&& hijri_of_gregorian(g.year as usize, g.month as usize, g.day as usize) matches Ok(h)
            && self.hijri_year == h.0 as i32 && self.hijri_month == h.1 as u8 && self.hijri_day
            == h.2 as u8
        &&& self.weekday == weekday_of_day(g.day_number())
    }

    /// `self` is the conversion of the Jalali date `y/m/d`.
    pub open spec fn is_jalali(self, y: int, m: int, d: int) -> bool {
        &&& self.converts(self.gregorian)
        &&& self.gregorian.wf()
        &&& self.jalali_year == y && self.jalali_month == m && self.jalali_day == d
        &&& self.gregorian.day_number() == persian_epoch_day() + persian_offset(y, m, d)
    }
}

/// Month before `y/m`.
pub open spec fn prev_month(y: int, m: int) -> (int, int) {
    if m == 1 {
        (y - 1, 12)
    } else {
        (y, m - 1)
    }
}

/// Month after `y/m`.
pub open spec fn next_month(y: int, m: int) -> (int, int) {
    if m == 12 {
        (y + 1, 1)
    } else {
        (y, m + 1)
    }
}

/// Rows of a padded grid: enough for `total` cells, at least six.
pub open spec fn padded_rows(total: int) -> int {
    let r = (total + 6) / 7;
    if r < 6 {
        6
    } else {
        r
    }
}

/// Day number of the first day of Jalali month `y/m`.
pub open spec fn jalali_first_day(y: int, m: int) -> int {
    persian_epoch_day() + persian_offset(y, m, 1)
}

/// Empty cells before day 1 when weeks start on `ws`.
pub open spec fn jalali_leading(y: int, m: int, ws: Weekday) -> int {
    (weekday_index_of_day(jalali_first_day(y, m)) + 7 - weekday_index_spec(ws)) % 7
}

/// Number of cells of the padded Jalali grid.
pub open spec fn jalali_padded_len(y: int, m: int, ws: Weekday) -> int {
    7 * padded_rows(jalali_leading(y, m, ws) + persian_month_days(y, m))
}

/// Jalali date shown in cell `k` of the padded grid of `y/m`.
pub open spec fn jalali_padded_cell(y: int, m: int, ws: Weekday, k: int) -> (int, int, int) {
    let lead = jalali_leading(y, m, ws);
    let days = persian_month_days(y, m);
    if k < lead {
        let p = prev_month(y, m);
        (p.0, p.1, persian_month_days(p.0, p.1) - lead + k + 1)
    } else if k < lead + days {
        (y, m, k - lead + 1)
    } else {
        let n = next_month(y, m);
        (n.0, n.1, k - lead - days + 1)
    }
}

/// Cell `k` of the padded grid has an Umm al-Qura date.
pub open spec fn padded_cell_ok(y: int, m: int, ws: Weekday, k: int) -> bool {
    let t = jalali_padded_cell(y, m, ws, k);
    jalali_day_ok(t.0, t.1, t.2)
}

/// The padded Jalali grid of `y/m` can be built: the month, its neighbours and
/// the Umm al-Qura dates of every cell exist.
pub open spec fn jalali_grid_ok(y: int, m: int, ws: Weekday) -> bool {
    let p = prev_month(y, m);
    &&& persian_valid(y, m, 1)
    &&& !(y == 9999 && m == 12)
    &&& persian_valid(p.0, p.1, 1)
    &&& forall|k: int|
        0 <= k < jalali_padded_len(y, m, ws) ==> #[trigger] padded_cell_ok(y, m, ws, k)
}

/// Number of cells of the unpadded Jalali grid (whole weeks).
pub open spec fn jalali_grid_len(y: int, m: int, ws: Weekday) -> int {
    7 * ((jalali_leading(y, m, ws) + persian_month_days(y, m) + 6) / 7)
}

/// The Jalali date `y/m/d` has an Umm al-Qura date.
pub open spec fn jalali_day_ok(y: int, m: int, d: int) -> bool {
    hijri_ok_on_day(persian_epoch_day() + persian_offset(y, m, d))
}

/// The unpadded Jalali grid of `y/m` can be built.
pub open spec fn jalali_month_grid_ok(y: int, m: int, ws: Weekday) -> bool {
    &&& persian_valid(y, m, 1)
    &&& !(y == 9999 && m == 12)
    &&& forall|d: int| 1 <= d <= persian_month_days(y, m) ==> #[trigger] jalali_day_ok(y, m, d)
}

/// Length of Umm al-Qura month `y/m` (0 when it cannot be converted).
pub open spec fn hijri_len(y: int, m: int) -> int {
    match gregorian_of_hijri(y as usize, m as usize, 1) {
        Ok(t) => t.3 as int,
        Err(_) => 0,
    }
}

/// Gregorian date of the Umm al-Qura date `y/m/d` (as `hijri_date` gives it).
pub open spec fn hijri_date_of(y: int, m: int, d: int) -> GregorianDate {
    match gregorian_of_hijri(y as usize, m as usize, d as usize) {
        Ok(t) => GregorianDate { year: t.0 as i32, month: t.1 as u32, day: t.2 as u32 },
        Err(_) => GregorianDate { year: 0, month: 0, day: 0 },
    }
}

/// Empty cells before day 1 of Hijri month `y/m`.
pub open spec fn hijri_leading(y: int, m: int, ws: Weekday) -> int {
    (weekday_index_of_day(hijri_date_of(y, m, 1).day_number()) + 7 - weekday_index_spec(ws)) % 7
}

pub open spec fn hijri_padded_len(y: int, m: int, ws: Weekday) -> int {
    7 * padded_rows(hijri_leading(y, m, ws) + hijri_len(y, m))
}

/// Hijri date shown in cell `k` of the padded grid of `y/m`.
pub open spec fn hijri_padded_cell(y: int, m: int, ws: Weekday, k: int) -> (int, int, int) {
    let lead = hijri_leading(y, m, ws);
    let days = hijri_len(y, m);
    if k < lead {
        let p = prev_month(y, m);
        (p.0, p.1, hijri_len(p.0, p.1) - lead + k + 1)
    } else if k < lead + days {
        (y, m, k - lead + 1)
    } else {
        let n = next_month(y, m);
        (n.0, n.1, k - lead - days + 1)
    }
}

/// The Hijri date `y/m/d` converts to a Gregorian date that converts back.
pub open spec fn hijri_day_ok(y: int, m: int, d: int) -> bool {
    &&& gregorian_of_hijri(y as usize, m as usize, d as usize) is Ok
    &&& hijri_ok(hijri_date_of(y, m, d))
}

pub open spec fn hijri_cell_ok(y: int, m: int, ws: Weekday, k: int) -> bool {
    let t = hijri_padded_cell(y, m, ws, k);
    hijri_day_ok(t.0, t.1, t.2)
}

/// The padded Hijri grid of `y/m` can be built.
pub open spec fn hijri_grid_ok(y: int, m: int, ws: Weekday) -> bool {
    let p = prev_month(y, m);
    &&& gregorian_of_hijri(y as usize, m as usize, 1) is Ok
    &&& gregorian_of_hijri(p.0 as usize, p.1 as usize, 1) is Ok
    &&& forall|k: int| 0 <= k < hijri_padded_len(y, m, ws) ==> #[trigger] hijri_cell_ok(y, m, ws, k)
}

/// Converts between calendars for one locale.
pub struct CalendarEngine {
    locale: LocaleProfile,
}

impl CalendarEngine {
    pub closed spec fn spec_locale(&self) -> LocaleProfile {
        self.locale
    }

    /// An engine with the built-in profile of a country and language.
    pub fn new(country: CountryProfile, language: LanguageVariant) -> (e: Self)
        ensures
            e.spec_locale().is_profile(crate::locale::profile_kind(country@, language)),
    {
        CalendarEngine { locale: LocaleProfile::resolve(country, language) }
    }

    pub fn with_locale(locale: LocaleProfile) -> (e: Self)
        ensures
            e.spec_locale() == locale,
    {
        CalendarEngine { locale }
    }

    pub fn locale(&self) -> (l: &LocaleProfile)
        ensures
            *l == self.spec_locale(),
    {
        &self.locale
    }

    /// The Jalali, Hijri and weekday view of a Gregorian date.
    ///
    /// Succeeds exactly when `hijri_date` can convert the date (Gregorian
    /// years 1938..=2076); the Jalali part always exists for those years.
    pub fn on_date(&self, date: GregorianDate) -> (r: Result<CalendarDate, BolootError>)
        requires
            date.wf(),
        ensures
            r is Ok <==> hijri_ok(date),
            r is Ok <==> 1938 <= date.year <= 2076,
            r matches Ok(c) ==> c.converts(date) && c.wf(),
            r matches Err(e) ==> e is InvalidDate,
    {
        let hijri_result = hijri_from_gregorian(
            date.year as usize,
            date.month as usize,
            date.day as usize,
        );
        proof {
            if hijri_result is Ok {
                let y = date.year;
                assert(y < 0 ==> (y as usize) > 2076) by (bit_vector);
                assert(1938 <= date.year <= 2076);
                lemma_hijri_range_is_persian(date);
            }
        }
        let parsi = match persian_from_gregorian(date) {
            Ok(p) => p,
            Err(e) => {
                return Err(BolootError::InvalidDate(e));
            },
        };
        let hijri = match hijri_result {
            Ok(h) => h,
            Err(e) => {
                return Err(BolootError::InvalidDate(e));
            },
        };
        let c = CalendarDate {
            gregorian: date,
            jalali_year: parsi.0,
            jalali_month: parsi.1 as u8,
            jalali_day: parsi.2 as u8,
            hijri_year: hijri.0 as i32,
            hijri_month: hijri.1 as u8,
            hijri_day: hijri.2 as u8,
            weekday: date.weekday(),
        };
        Ok(c)
    }

    /// The Gregorian date of a Jalali date.
    pub fn jalali_to_gregorian(&self, year: i32, month: u8, day: u8) -> (r: Result<
        GregorianDate,
        BolootError,
    >)
        ensures
            r is Ok <==> persian_valid(year as int, month as int, day as int),
            r matches Ok(g) ==> g.wf() && g.day_number() == persian_epoch_day() + persian_offset(
                year as int,
                month as int,
                day as int,
            ),
            r matches Err(e) ==> e is InvalidDate,
    {
        match persian_to_gregorian(year, month as u32, day as u32) {
            Ok(g) => Ok(g),
            Err(e) => Err(BolootError::InvalidDate(e)),
        }
    }

    /// Length of a Jalali month, from the distance to the next month's first day.
    pub fn days_in_jalali_month(&self, year: i32, month: u8) -> (r: Result<u8, BolootError>)
        ensures
            r is Ok <==> persian_valid(year as int, month as int, 1) && !(year == 9999 && month
                == 12),
            r matches Ok(n) ==> n as int == persian_month_days(year as int, month as int),
            r matches Err(e) ==> e is InvalidDate,
    {
        let first = self.jalali_to_gregorian(year, month, 1)?;
        let next = if month == 12 {
            self.jalali_to_gregorian(year + 1, 1, 1)?
        } else {
            self.jalali_to_gregorian(year, month + 1, 1)?
        };
        proof {
            lemma_next_month_offset(year as int, month as int);
        }
        Ok(next.days_since(&first) as u8)
    }

    /// The Gregorian date of an Umm al-Qura date.
    pub fn hijri_to_gregorian(&self, year: i32, month: u8, day: u8) -> (r: Result<
        GregorianDate,
        BolootError,
    >)
        requires
            !hijri_lookup_panics(year as usize as int, month as int, day as int),
        ensures
            r is Ok <==> gregorian_of_hijri(year as usize, month as usize, day as usize) is Ok,
            1357 <= year <= 1499 && 1 <= month <= 12 && 1 <= day <= 30 ==> r is Ok,
            r matches Ok(g) ==> g.wf() && (gregorian_of_hijri(
                year as usize,
                month as usize,
                day as usize,
            ) matches Ok(t) && g.year == t.0 as i32 && g.month == t.1 as u32 && g.day == t.2 as u32),
            r matches Err(e) ==> e is InvalidDate,
    {
        let t = match hijri_to_gregorian_parts(year as usize, month as usize, day as usize) {
            Ok(t) => t,
            Err(e) => {
                return Err(BolootError::InvalidDate(e));
            },
        };
        match GregorianDate::from_ymd_opt(t.0 as i32, t.1 as u32, t.2 as u32) {
            Some(g) => Ok(g),
            None => Err(BolootError::InvalidDate(String::from_str("invalid gregorian date from hijri"))),
        }
    }

    /// Length of an Umm al-Qura month.
    pub fn days_in_hijri_month(&self, year: i32, month: u8) -> (r: Result<u8, BolootError>)
        requires
            !hijri_lookup_panics(year as usize as int, month as int, 1),
        ensures
            r is Ok <==> gregorian_of_hijri(year as usize, month as usize, 1) is Ok,
            1357 <= year <= 1499 && 1 <= month <= 12 ==> r is Ok,
            r matches Ok(n) ==> (gregorian_of_hijri(year as usize, month as usize, 1) matches Ok(
                t,
            ) && n == t.3 as u8) && 28 <= n <= 30 && n as int == hijri_len(year as int, month as int)
                && 1357 <= year <= 1499 && 1 <= month <= 12,
            r matches Err(e) ==> e is InvalidDate,
    {
        match hijri_to_gregorian_parts(year as usize, month as usize, 1) {
            Ok(t) => {
                proof {
                    let y = year;
                    assert(y < 0 ==> (y as usize) > 1499) by (bit_vector);
                    assert((year as int) as usize == year as usize);
                    assert(((month as int) as usize) == month as usize);
                }
                Ok(t.3 as u8)
            },
            Err(e) => Err(BolootError::InvalidDate(e)),
        }
    }
}

impl CalendarEngine {
    /// The converted date of the Jalali date `y/m/d`.
    fn jalali_date(&self, y: i32, m: u8, d: u8) -> (r: Result<CalendarDate, BolootError>)
        requires
            persian_valid(y as int, m as int, d as int),
        ensures
            r is Ok <==> hijri_ok_on_day(persian_epoch_day() + persian_offset(y as int, m as int, d as int)),
            r matches Ok(c) ==> c.is_jalali(y as int, m as int, d as int) && c.wf(),
            r matches Err(e) ==> e is InvalidDate,
    {
        let g = match self.jalali_to_gregorian(y, m, d) {
            Ok(g) => g,
            Err(e) => {
                return Err(e);
            },
        };
        let ghost n = persian_epoch_day() + persian_offset(y as int, m as int, d as int);
        proof {
            assert forall|g2: GregorianDate| #![trigger g2.day_number()] g2.wf() && g2.day_number() == n implies g2 == g by {
                lemma_day_number_injective(g2, g);
            }
        }
        match self.on_date(g) {
            Ok(c) => {
                proof {
                    lemma_offset_injective(
                        c.jalali_year as int,
                        c.jalali_month as int,
                        c.jalali_day as int,
                        y as int,
                        m as int,
                        d as int,
                    );
                }
                Ok(c)
            },
            Err(e) => {
                proof {
                    assert(!hijri_ok(g));
                    assert(g.day_number() == n);
                }
                Err(e)
            },
        }
    }

    /// Whole weeks of a Jalali month; cells outside the month are `None`.
    pub fn month_grid(&self, jalali_year: i32, jalali_month: u8, week_start: Weekday) -> (r: Result<
        Vec<Option<CalendarDate>>,
        BolootError,
    >)
        ensures
            r is Ok <==> jalali_month_grid_ok(jalali_year as int, jalali_month as int, week_start),
            r matches Ok(grid) ==> grid@.len() == jalali_grid_len(
                jalali_year as int,
                jalali_month as int,
                week_start,
            ) && forall|k: int|
                #![trigger grid@[k]]
                0 <= k < grid@.len() ==> {
                    let lead = jalali_leading(jalali_year as int, jalali_month as int, week_start);
                    let days = persian_month_days(jalali_year as int, jalali_month as int);
                    if lead <= k < lead + days {
                        grid@[k] matches Some(c) && c.is_jalali(
                            jalali_year as int,
                            jalali_month as int,
                            k - lead + 1,
                        )
                    } else {
                        grid@[k] is None
                    }
                },
            r matches Err(e) ==> e is InvalidDate,
    {
        let y = jalali_year;
        let m = jalali_month;
        let days = match self.days_in_jalali_month(y, m) {
            Ok(d) => d,
            Err(e) => {
                return Err(e);
            },
        };
        let ghost lead_s = jalali_leading(y as int, m as int, week_start);
        let first = match self.jalali_date(y, m, 1) {
            Ok(c) => c,
            Err(e) => {
                proof {
                    assert(!jalali_day_ok(y as int, m as int, 1));
                }
                return Err(e);
            },
        };
        let leading = first.weekday.index_from(week_start) as usize;
        proof {
            lemma_weekday_round_trip(first.gregorian.day_number());
        }
        assert(leading as int == lead_s);
        let total = leading + days as usize;
        let rows = (total + 6) / 7;
        let mut grid: Vec<Option<CalendarDate>> = Vec::new();
        let mut k: usize = 0;
        while k < rows * 7
            invariant
                k <= rows * 7,
                rows * 7 == jalali_grid_len(y as int, m as int, week_start),
                grid@.len() == k,
                forall|j: int| 0 <= j < k ==> #[trigger] grid@[j] is None,
            decreases rows * 7 - k,
        {
            grid.push(None);
            k = k + 1;
        }
        let mut day: u8 = 1;
        while day <= days
            invariant
                y == jalali_year,
                m == jalali_month,
                1 <= day <= days + 1,
                days as int == persian_month_days(y as int, m as int),
                persian_valid(y as int, m as int, 1),
                !(y == 9999 && m == 12),
                leading as int == lead_s,
                lead_s == jalali_leading(y as int, m as int, week_start),
                0 <= lead_s < 7,
                grid@.len() == jalali_grid_len(y as int, m as int, week_start),
                forall|d: int| 1 <= d < day ==> #[trigger] jalali_day_ok(y as int, m as int, d),
                forall|j: int|
                    #![trigger grid@[j]]
                    0 <= j < grid@.len() ==> if lead_s <= j < lead_s + day - 1 {
                        grid@[j] matches Some(c) && c.is_jalali(y as int, m as int, j - lead_s + 1)
                    } else {
                        grid@[j] is None
                    },
            decreases days + 1 - day,
        {
            let c = match self.jalali_date(y, m, day) {
                Ok(c) => c,
                Err(e) => {
                    proof {
                        assert(!jalali_day_ok(y as int, m as int, day as int));
                    }
                    return Err(e);
                },
            };
            let index = leading + (day as usize - 1);
            grid.set(index, Some(c));
            day = day + 1;
        }
        Ok(grid)
    }
}

impl CalendarEngine {
    /// Full month grid with leading and trailing days of the adjacent months:
    /// whole weeks, at least six of them, as consecutive days.
    pub fn month_grid_padded(&self, jalali_year: i32, jalali_month: u8, week_start: Weekday) -> (r:
        Result<Vec<CalendarDate>, BolootError>)
        ensures
            r is Ok <==> jalali_grid_ok(jalali_year as int, jalali_month as int, week_start),
            r matches Ok(grid) ==> {
                let y = jalali_year as int;
                let m = jalali_month as int;
                &&& grid@.len() == jalali_padded_len(y, m, week_start)
                &&& forall|k: int|
                    #![trigger grid@[k]]
                    0 <= k < grid@.len() ==> {
                        let t = jalali_padded_cell(y, m, week_start, k);
                        &&& grid@[k].is_jalali(t.0, t.1, t.2)
                        &&& grid@[k].wf()
                        &&& grid@[k].gregorian.day_number() == jalali_first_day(y, m)
                            - jalali_leading(y, m, week_start) + k
                    }
            },
            r matches Err(e) ==> e is InvalidDate,
    {
        let y = jalali_year;
        let m = jalali_month;
        let days = match self.days_in_jalali_month(y, m) {
            Ok(d) => d,
            Err(e) => {
                return Err(e);
            },
        };
        let ghost lead_s = jalali_leading(y as int, m as int, week_start);
        let first = match self.jalali_date(y, m, 1) {
            Ok(c) => c,
            Err(e) => {
                proof {
                    lemma_weekday_round_trip(jalali_first_day(y as int, m as int));
                    assert(padded_cell_ok(y as int, m as int, week_start, lead_s) == jalali_day_ok(
                        y as int,
                        m as int,
                        1,
                    ));
                }
                return Err(e);
            },
        };
        let leading = first.weekday.index_from(week_start) as usize;
        proof {
            lemma_weekday_round_trip(first.gregorian.day_number());
        }
        assert(leading as int == lead_s);
        let total = leading + days as usize;
        let r0 = (total + 6) / 7;
        let rows = if r0 < 6 {
            6
        } else {
            r0
        };
        let padded_len = rows * 7;
        let trailing = padded_len - total;
        let (prev_year, prev_m) = if m == 1 {
            (y - 1, 12u8)
        } else {
            (y, m - 1)
        };
        let prev_days = match self.days_in_jalali_month(prev_year, prev_m) {
            Ok(d) => d,
            Err(e) => {
                return Err(e);
            },
        };
        proof {
            lemma_next_month_offset(prev_year as int, prev_m as int);
        }
        let mut grid: Vec<CalendarDate> = Vec::new();
        let mut i: usize = 0;
        while i < leading
            invariant
                y == jalali_year,
                m == jalali_month,
                persian_valid(y as int, m as int, 1),
                !(y == 9999 && m == 12),
                persian_valid(prev_year as int, prev_m as int, 1),
                (prev_year as int, prev_m as int) == prev_month(y as int, m as int),
                prev_days as int == persian_month_days(prev_year as int, prev_m as int),
                days as int == persian_month_days(y as int, m as int),
                leading as int == lead_s,
                lead_s == jalali_leading(y as int, m as int, week_start),
                0 <= lead_s < 7,
                padded_len as int == jalali_padded_len(y as int, m as int, week_start),
                i <= leading,
                grid@.len() == i,
                forall|k: int| 0 <= k < i ==> #[trigger] padded_cell_ok(y as int, m as int, week_start, k),
                forall|k: int|
                    #![trigger grid@[k]]
                    0 <= k < grid@.len() ==> {
                        let t = jalali_padded_cell(y as int, m as int, week_start, k);
                        &&& grid@[k].is_jalali(t.0, t.1, t.2)
                        &&& grid@[k].wf()
                    },
            decreases leading - i,
        {
            let day = prev_days - leading as u8 + i as u8 + 1;
            let c = match self.jalali_date(prev_year, prev_m, day) {
                Ok(c) => c,
                Err(e) => {
                    proof {
                        assert(!padded_cell_ok(y as int, m as int, week_start, i as int));
                    }
                    return Err(e);
                },
            };
            grid.push(c);
            i = i + 1;
        }
        let mut day: u8 = 1;
        while day <= days
            invariant
                y == jalali_year,
                m == jalali_month,
                persian_valid(y as int, m as int, 1),
                !(y == 9999 && m == 12),
                persian_valid(prev_year as int, prev_m as int, 1),
                days as int == persian_month_days(y as int, m as int),
                leading as int == lead_s,
                lead_s == jalali_leading(y as int, m as int, week_start),
                0 <= lead_s < 7,
                padded_len as int == jalali_padded_len(y as int, m as int, week_start),
                1 <= day <= days + 1,
                grid@.len() == leading + day - 1,
                forall|k: int| 0 <= k < grid@.len() ==> #[trigger] padded_cell_ok(y as int, m as int, week_start, k),
                forall|k: int|
                    #![trigger grid@[k]]
                    0 <= k < grid@.len() ==> {
                        let t = jalali_padded_cell(y as int, m as int, week_start, k);
                        &&& grid@[k].is_jalali(t.0, t.1, t.2)
                        &&& grid@[k].wf()
                    },
            decreases days + 1 - day,
        {
            let c = match self.jalali_date(y, m, day) {
                Ok(c) => c,
                Err(e) => {
                    proof {
                        assert(!padded_cell_ok(y as int, m as int, week_start, leading + day - 1));
                    }
                    return Err(e);
                },
            };
            grid.push(c);
            day = day + 1;
        }
        let (next_year, next_m) = if m == 12 {
            (y + 1, 1u8)
        } else {
            (y, m + 1)
        };
        let mut day: u8 = 1;
        while day as usize <= trailing
            invariant
                y == jalali_year,
                m == jalali_month,
                persian_valid(y as int, m as int, 1),
                !(y == 9999 && m == 12),
                persian_valid(prev_year as int, prev_m as int, 1),
                (next_year as int, next_m as int) == next_month(y as int, m as int),
                days as int == persian_month_days(y as int, m as int),
                leading as int == lead_s,
                lead_s == jalali_leading(y as int, m as int, week_start),
                0 <= lead_s < 7,
                padded_len as int == jalali_padded_len(y as int, m as int, week_start),
                total == leading + days,
                trailing == padded_len - total,
                trailing <= 13,
                1 <= day <= trailing + 1,
                grid@.len() == total + day - 1,
                forall|k: int| 0 <= k < grid@.len() ==> #[trigger] padded_cell_ok(y as int, m as int, week_start, k),
                forall|k: int|
                    #![trigger grid@[k]]
                    0 <= k < grid@.len() ==> {
                        let t = jalali_padded_cell(y as int, m as int, week_start, k);
                        &&& grid@[k].is_jalali(t.0, t.1, t.2)
                        &&& grid@[k].wf()
                    },
            decreases trailing + 1 - day as usize,
        {
            let c = match self.jalali_date(next_year, next_m, day) {
                Ok(c) => c,
                Err(e) => {
                    proof {
                        assert(!padded_cell_ok(y as int, m as int, week_start, total + day - 1));
                    }
                    return Err(e);
                },
            };
            grid.push(c);
            day = day + 1;
        }
        proof {
            assert forall|k: int|
                #![trigger grid@[k]]
                0 <= k < grid@.len() implies grid@[k].gregorian.day_number() == jalali_first_day(
                y as int,
                m as int,
            ) - jalali_leading(y as int, m as int, week_start) + k by {
                lemma_padded_cell_day(y as int, m as int, week_start, k);
            }
        }
        Ok(grid)
    }
}

impl CalendarEngine {
    /// The converted date of the Umm al-Qura date `y/m/d`.
    fn hijri_date(&self, y: i32, m: u8, d: u8) -> (r: Result<CalendarDate, BolootError>)
        requires
            1 <= m <= 12,
        ensures
            r is Ok <==> hijri_day_ok(y as int, m as int, d as int),
            r matches Ok(c) ==> c.converts(hijri_date_of(y as int, m as int, d as int)) && c.wf(),
            r matches Err(e) ==> e is InvalidDate,
    {
        let g = match self.hijri_to_gregorian(y, m, d) {
            Ok(g) => g,
            Err(e) => {
                return Err(e);
            },
        };
        self.on_date(g)
    }

    /// Full Umm al-Qura month grid with days of the adjacent months: whole
    /// weeks, at least six of them.
    pub fn hijri_month_grid_padded(&self, hijri_year: i32, hijri_month: u8, week_start: Weekday) -> (r:
        Result<Vec<CalendarDate>, BolootError>)
        requires
            !hijri_lookup_panics(hijri_year as usize as int, hijri_month as int, 1),
        ensures
            r is Ok <==> hijri_grid_ok(hijri_year as int, hijri_month as int, week_start),
            r matches Ok(grid) ==> {
                let y = hijri_year as int;
                let m = hijri_month as int;
                &&& grid@.len() == hijri_padded_len(y, m, week_start)
                &&& forall|k: int|
                    #![trigger grid@[k]]
                    0 <= k < grid@.len() ==> {
                        let t = hijri_padded_cell(y, m, week_start, k);
                        &&& grid@[k].converts(hijri_date_of(t.0, t.1, t.2))
                        &&& grid@[k].wf()
                    }
            },
            r matches Err(e) ==> e is InvalidDate,
    {
        let y = hijri_year;
        let m = hijri_month;
        let days = match self.days_in_hijri_month(y, m) {
            Ok(d) => d,
            Err(e) => {
                return Err(e);
            },
        };
        let ghost lead_s = hijri_leading(y as int, m as int, week_start);
        let first = match self.hijri_date(y, m, 1) {
            Ok(c) => c,
            Err(e) => {
                proof {
                    lemma_weekday_round_trip(hijri_date_of(y as int, m as int, 1).day_number());
                    assert(hijri_cell_ok(y as int, m as int, week_start, lead_s) == hijri_day_ok(
                        y as int,
                        m as int,
                        1,
                    ));
                }
                return Err(e);
            },
        };
        let leading = first.weekday.index_from(week_start) as usize;
        proof {
            lemma_weekday_round_trip(first.gregorian.day_number());
        }
        assert(leading as int == lead_s);
        let total = leading + days as usize;
        let r0 = (total + 6) / 7;
        let rows = if r0 < 6 {
            6
        } else {
            r0
        };
        let padded_len = rows * 7;
        let trailing = padded_len - total;
        let (prev_year, prev_m) = if m == 1 {
            (y - 1, 12u8)
        } else {
            (y, m - 1)
        };
        let prev_days = match self.days_in_hijri_month(prev_year, prev_m) {
            Ok(d) => d,
            Err(e) => {
                return Err(e);
            },
        };
        let mut grid: Vec<CalendarDate> = Vec::new();
        let mut i: usize = 0;
        while i < leading
            invariant
                y == hijri_year,
                m == hijri_month,
                1 <= m <= 12,
                1357 <= y <= 1499,
                gregorian_of_hijri(y as usize, m as usize, 1) is Ok,
                gregorian_of_hijri(prev_year as usize, prev_m as usize, 1) is Ok,
                (prev_year as int, prev_m as int) == prev_month(y as int, m as int),
                1 <= prev_m <= 12,
                prev_days as int == hijri_len(prev_year as int, prev_m as int),
                28 <= prev_days <= 30,
                days as int == hijri_len(y as int, m as int),
                28 <= days <= 30,
                leading as int == lead_s,
                lead_s == hijri_leading(y as int, m as int, week_start),
                0 <= lead_s < 7,
                padded_len as int == hijri_padded_len(y as int, m as int, week_start),
                i <= leading,
                grid@.len() == i,
                forall|k: int| 0 <= k < i ==> #[trigger] hijri_cell_ok(y as int, m as int, week_start, k),
                forall|k: int|
                    #![trigger grid@[k]]
                    0 <= k < grid@.len() ==> {
                        let t = hijri_padded_cell(y as int, m as int, week_start, k);
                        &&& grid@[k].converts(hijri_date_of(t.0, t.1, t.2))
                        &&& grid@[k].wf()
                    },
            decreases leading - i,
        {
            let day = prev_days - leading as u8 + i as u8 + 1;
            let c = match self.hijri_date(prev_year, prev_m, day) {
                Ok(c) => c,
                Err(e) => {
                    proof {
                        assert(!hijri_cell_ok(y as int, m as int, week_start, i as int));
                    }
                    return Err(e);
                },
            };
            grid.push(c);
            i = i + 1;
        }
        let mut day: u8 = 1;
        while day <= days
            invariant
                y == hijri_year,
                m == hijri_month,
                1 <= m <= 12,
                1357 <= y <= 1499,
                gregorian_of_hijri(y as usize, m as usize, 1) is Ok,
                gregorian_of_hijri(prev_year as usize, prev_m as usize, 1) is Ok,
                days as int == hijri_len(y as int, m as int),
                28 <= days <= 30,
                leading as int == lead_s,
                lead_s == hijri_leading(y as int, m as int, week_start),
                0 <= lead_s < 7,
                padded_len as int == hijri_padded_len(y as int, m as int, week_start),
                1 <= day <= days + 1,
                grid@.len() == leading + day - 1,
                forall|k: int| 0 <= k < grid@.len() ==> #[trigger] hijri_cell_ok(y as int, m as int, week_start, k),
                forall|k: int|
                    #![trigger grid@[k]]
                    0 <= k < grid@.len() ==> {
                        let t = hijri_padded_cell(y as int, m as int, week_start, k);
                        &&& grid@[k].converts(hijri_date_of(t.0, t.1, t.2))
                        &&& grid@[k].wf()
                    },
            decreases days + 1 - day,
        {
            let c = match self.hijri_date(y, m, day) {
                Ok(c) => c,
                Err(e) => {
                    proof {
                        assert(!hijri_cell_ok(y as int, m as int, week_start, leading + day - 1));
                    }
                    return Err(e);
                },
            };
            grid.push(c);
            day = day + 1;
        }
        let (next_year, next_m) = if m == 12 {
            (y + 1, 1u8)
        } else {
            (y, m + 1)
        };
        let mut day: u8 = 1;
        while day as usize <= trailing
            invariant
                y == hijri_year,
                m == hijri_month,
                1 <= m <= 12,
                1357 <= y <= 1499,
                gregorian_of_hijri(y as usize, m as usize, 1) is Ok,
                gregorian_of_hijri(prev_year as usize, prev_m as usize, 1) is Ok,
                (next_year as int, next_m as int) == next_month(y as int, m as int),
                1 <= next_m <= 12,
                days as int == hijri_len(y as int, m as int),
                28 <= days <= 30,
                leading as int == lead_s,
                lead_s == hijri_leading(y as int, m as int, week_start),
                0 <= lead_s < 7,
                padded_len as int == hijri_padded_len(y as int, m as int, week_start),
                total == leading + days,
                trailing == padded_len - total,
                trailing <= 14,
                1 <= day <= trailing + 1,
                grid@.len() == total + day - 1,
                forall|k: int| 0 <= k < grid@.len() ==> #[trigger] hijri_cell_ok(y as int, m as int, week_start, k),
                forall|k: int|
                    #![trigger grid@[k]]
                    0 <= k < grid@.len() ==> {
                        let t = hijri_padded_cell(y as int, m as int, week_start, k);
                        &&& grid@[k].converts(hijri_date_of(t.0, t.1, t.2))
                        &&& grid@[k].wf()
                    },
            decreases trailing + 1 - day as usize,
        {
            let c = match self.hijri_date(next_year, next_m, day) {
                Ok(c) => c,
                Err(e) => {
                    proof {
                        assert(!hijri_cell_ok(y as int, m as int, week_start, total + day - 1));
                    }
                    return Err(e);
                },
            };
            grid.push(c);
            day = day + 1;
        }
        Ok(grid)
    }
}

/// Cells of the padded grid are consecutive days.
proof fn lemma_padded_cell_day(y: int, m: int, ws: Weekday, k: int)
    requires
        persian_valid(y, m, 1),
        !(y == 9999 && m == 12),
        persian_valid(prev_month(y, m).0, prev_month(y, m).1, 1),
        0 <= k < jalali_padded_len(y, m, ws),
    ensures
        ({
            let t = jalali_padded_cell(y, m, ws, k);
            persian_epoch_day() + persian_offset(t.0, t.1, t.2) == jalali_first_day(y, m)
                - jalali_leading(y, m, ws) + k
        }),
{
    let p = prev_month(y, m);
    lemma_next_month_offset(p.0, p.1);
    lemma_next_month_offset(y, m);
}

/// The weekday index of a day number names the weekday of that day.
pub proof fn lemma_weekday_round_trip(n: int)
    ensures
        0 <= weekday_index_of_day(n) < 7,
        weekday_index_spec(weekday_of_day(n)) == weekday_index_of_day(n),
{
}

/// Gregorian years 1938..=2076 lie inside the Persian range of `parsidate`.
proof fn lemma_hijri_range_is_persian(g: GregorianDate)
    requires
        g.wf(),
        1938 <= g.year <= 2076,
    ensures
        persian_epoch_day() <= g.day_number() < persian_limit_day(),
{
    let y = g.year as int;
    lemma_date_in_year(y, g.month as int, g.day as int);
    lemma_year_mono(1938, y);
    lemma_year_mono(y + 1, 2077);
    lemma_limit_large();
    assert(days_from_ce(1938, 1, 1) == 707475);
    assert(days_from_ce(2077, 1, 1) == 758245);
    assert(persian_epoch_day() == 226895);
}

} // verus!
