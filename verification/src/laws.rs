//! Properties that hold across the library's functions.
use vstd::prelude::*;

use crate::backend::{hijri_of_gregorian, gregorian_of_hijri, persian_epoch_day, persian_leap, persian_month_days, persian_offset, persian_valid, persian_year_days};
use crate::calendar::{CalendarSystem, hijri_leading, hijri_len, hijri_padded_cell, hijri_padded_len, prev_month, hijri_ok, CalendarView, jalali_first_day, jalali_leading, jalali_padded_cell, jalali_padded_len, next_month, padded_rows, weekday_of_day, CalendarDate};
use crate::config::{factory_colors, timezone_after, with_country_defaults, AppearanceSettings, BolootConfig};
use crate::countries::{CountryRecord, lemma_seq_le_antisym, dash_to_underscore, normalized_id, CountryRegistry};
use crate::format::{NumeralStyle, effective_numerals_spec, persian_digits, styled};
use crate::gregorian::{iso_text, lemma_day_number_injective, weekday_index_of_day, GregorianDate};
use crate::holidays::{lemma_jalali_of_day, hijri_years_of_jalali, jalali_of_day, lunar_scan, resolved, holiday_le, same_entry, day_holidays, month_holidays, on_day, Holiday, HolidayTemplate};
use crate::locale::{kind_timezone, profile_kind, LanguageVariant, weekday_index_spec, weekday_of_index, Weekday};
use crate::month_view::{jalali_grid_date, jalali_view_ok, lemma_jalali_grid_date, MonthView, column_day, holiday_names_of, shown, tooltip_name, weekend_column};
use crate::locale::LocaleProfile;
use crate::service::view_ok;
use crate::text::{decimal, lemma_decimal_len, padded_decimal, ascii_lower, is_space, lemma_trimmed_ends, lemma_trimmed_unchanged, lower_seq, trimmed, views};
use crate::persian_lemmas::{lemma_next_month_offset, lemma_offset_injective};
use crate::system_locale::{country_of_locale, index_or_len, locale_choice};
use crate::prayer::{scan_prayers, PrayerDayStatus, PrayerTimeEntry};

verus! {

/// Converting a valid Jalali date to Gregorian and back gives the same Jalali date.
pub proof fn law_jalali_gregorian_round_trip(y: int, m: int, d: int, g: GregorianDate, c: CalendarDate)
    requires
        persian_valid(y, m, d),
        g.wf(),
        g.day_number() == persian_epoch_day() + persian_offset(y, m, d),
        c.converts(g),
    ensures
        c.jalali_year == y && c.jalali_month == m && c.jalali_day == d,
{
    lemma_offset_injective(c.jalali_year as int, c.jalali_month as int, c.jalali_day as int, y, m, d);
}

/// Converting a Gregorian date to Jalali and back gives the same Gregorian date.
pub proof fn law_gregorian_jalali_round_trip(g: GregorianDate, c: CalendarDate, g2: GregorianDate)
    requires
        g.wf(),
        c.converts(g),
        g2.wf(),
        g2.day_number() == persian_epoch_day() + persian_offset(
            c.jalali_year as int,
            c.jalali_month as int,
            c.jalali_day as int,
        ),
    ensures
        g2 == g,
{
    lemma_day_number_injective(g2, g);
}

/// The first six Jalali months have 31 days, the next five 30, and Esfand
/// 30 in leap years and 29 otherwise.
pub proof fn law_month_lengths(y: int, m: int)
    requires
        1 <= m <= 12,
    ensures
        29 <= persian_month_days(y, m) <= 31,
        m <= 6 ==> persian_month_days(y, m) == 31,
        7 <= m <= 11 ==> persian_month_days(y, m) == 30,
        m == 12 ==> persian_month_days(y, m) == (if persian_leap(y) {
            30int
        } else {
            29int
        }),
{
}

/// A Jalali year's months add up to its 365 or 366 days.
pub proof fn law_year_length(y: int)
    ensures
        persian_month_days(y, 1) + persian_month_days(y, 2) + persian_month_days(y, 3)
            + persian_month_days(y, 4) + persian_month_days(y, 5) + persian_month_days(y, 6)
            + persian_month_days(y, 7) + persian_month_days(y, 8) + persian_month_days(y, 9)
            + persian_month_days(y, 10) + persian_month_days(y, 11) + persian_month_days(y, 12)
            == persian_year_days(y),
{
}

/// The day after the last day of a Jalali month is the first day of the next month.
pub proof fn law_months_are_consecutive(y: int, m: int)
    requires
        persian_valid(y, m, 1),
    ensures
        persian_offset(y, m, persian_month_days(y, m)) + 1 == persian_offset(
            next_month(y, m).0,
            next_month(y, m).1,
            1,
        ),
{
    lemma_next_month_offset(y, m);
}

/// The padded month grid has whole weeks, at least six of them, and its
/// first cell falls on the week's first day.
pub proof fn law_padded_grid_shape(y: int, m: int, ws: Weekday)
    ensures
        jalali_padded_len(y, m, ws) % 7 == 0,
        jalali_padded_len(y, m, ws) >= 42,
        0 <= jalali_leading(y, m, ws) < 7,
        weekday_of_day(jalali_first_day(y, m) - jalali_leading(y, m, ws)) == ws,
{
    let n = jalali_first_day(y, m);
    let a = weekday_index_of_day(n);
    let w = weekday_index_spec(ws);
    let lead = jalali_leading(y, m, ws);
    assert(a == (n + 1) % 7);
    assert(lead == (a + 7 - w) % 7);
    assert(0 <= w < 7);
    assert((n - lead + 1) % 7 == w) by (nonlinear_arith)
        requires
            a == (n + 1) % 7,
            lead == (a + 7 - w) % 7,
            0 <= w < 7,
    ;
    let r = padded_rows(lead + persian_month_days(y, m));
    assert(jalali_padded_len(y, m, ws) == 7 * r);
    assert((7 * r) % 7 == 0) by (nonlinear_arith);
}

/// Cells before and after the month's days show days of the neighbouring
/// months; the cells between show the month's days in order.
pub proof fn law_padding_outside_month(y: int, m: int, ws: Weekday, k: int)
    requires
        1 <= m <= 12,
    ensures
        ({
            let t = jalali_padded_cell(y, m, ws, k);
            let lead = jalali_leading(y, m, ws);
            let days = persian_month_days(y, m);
            &&& (k < lead || k >= lead + days) ==> !(t.0 == y && t.1 == m)
            &&& (lead <= k < lead + days) ==> t == (y, m, k - lead + 1)
        }),
{
}

/// Every holiday listed for a Jalali month lies in that month and year.
pub proof fn law_month_holidays_in_month(ts: Seq<HolidayTemplate>, y: int, m: int)
    ensures
        forall|i: int|
            0 <= i < month_holidays(ts, y, m).len() ==> (#[trigger] month_holidays(ts, y, m)[i]).jalali_month == m as u8
                && month_holidays(ts, y, m)[i].jalali_year == y as i32,
    decreases ts.len(),
{
    if ts.len() > 0 {
        law_month_holidays_in_month(ts.drop_last(), y, m);
    }
}

/// Every holiday listed for a date is one of its month's holidays, on that day.
pub proof fn law_day_holidays_of_month(ts: Seq<HolidayTemplate>, y: int, m: int, d: int)
    ensures
        forall|i: int|
            0 <= i < day_holidays(ts, y, m, d).len() ==> month_holidays(ts, y, m).contains(
                #[trigger] day_holidays(ts, y, m, d)[i],
            ) && day_holidays(ts, y, m, d)[i].jalali_day == d,
{
    lemma_on_day(month_holidays(ts, y, m), d);
}

proof fn lemma_on_day(hs: Seq<Holiday>, d: int)
    ensures
        forall|i: int|
            0 <= i < on_day(hs, d).len() ==> hs.contains(#[trigger] on_day(hs, d)[i]) && on_day(hs, d)[i].jalali_day == d,
    decreases hs.len(),
{
    if hs.len() > 0 {
        let rest = on_day(hs.drop_last(), d);
        lemma_on_day(hs.drop_last(), d);
        assert forall|i: int| 0 <= i < on_day(hs, d).len() implies hs.contains(#[trigger] on_day(hs, d)[i]) && on_day(hs, d)[i].jalali_day == d by {
            let x = on_day(hs, d)[i];
            if i < rest.len() {
                assert(x == rest[i]);
                let j = choose|j: int| 0 <= j < hs.drop_last().len() && hs.drop_last()[j] == x;
                assert(hs[j] == x);
            } else {
                assert(x == hs.last());
                assert(hs[hs.len() - 1] == x);
            }
        }
    }
}

/// A lunar holiday's tooltip entry starts with the approximation sign.
pub proof fn law_lunar_tooltip_prefix(h: Holiday)
    requires
        h.is_lunar,
    ensures
        tooltip_name(h).len() >= 2,
        tooltip_name(h)[0] == '≈',
{
    reveal_strlit("≈ ");
}

/// Persian digits keep the length and every character but the ASCII digits,
/// which become Persian digits.
pub proof fn law_persian_digits(s: Seq<char>)
    ensures
        persian_digits(s).len() == s.len(),
        forall|i: int|
            0 <= i < s.len() ==> {
                &&& !('0' <= s[i] <= '9') ==> #[trigger] persian_digits(s)[i] == s[i]
                &&& ('0' <= s[i] <= '9') ==> !('0' <= persian_digits(s)[i] <= '9')
            },
{
}

/// The prayer chosen as next from the day's entries is after the current instant.
pub proof fn law_next_prayer_is_future(entries: Seq<PrayerTimeEntry>, instants: Seq<Option<i64>>, now: int)
    requires
        instants.len() == entries.len(),
    ensures
        scan_prayers(entries, instants, now, 0, None).1 matches Some(i) ==> (instants[i] matches Some(t) && t > now),
{
    lemma_scan_future(entries, instants, now, 0, None);
}

proof fn lemma_scan_future(entries: Seq<PrayerTimeEntry>, instants: Seq<Option<i64>>, now: int, j: int, cur: Option<crate::prayer::PrayerName>)
    ensures
        scan_prayers(entries, instants, now, j, cur).1 matches Some(i) ==> (instants[i] matches Some(t) && t > now),
    decreases 5 - j,
{
    if j < 5 {
        lemma_scan_future(entries, instants, now, j + 1, cur);
        lemma_scan_future(entries, instants, now, j + 1, Some(crate::prayer::tracked_at(j)));
    }
}

/// The weekend columns of the header row hold the weekend days.
pub proof fn law_weekend_columns_match_headers(d: Weekday, ws: Weekday)
    ensures
        0 <= weekend_column(d, ws) < 7,
        column_day(ws, weekend_column(d, ws)) == d,
{
    let a = weekday_index_spec(d);
    let w = weekday_index_spec(ws);
    assert(0 <= a < 7 && 0 <= w < 7);
    let c = (a + 7 - w) % 7;
    assert((w + c) % 7 == a) by (nonlinear_arith)
        requires
            c == (a + 7 - w) % 7,
            0 <= a < 7,
            0 <= w < 7,
    ;
    assert(weekday_of_index(a) == d) by {
        match d {
            Weekday::Saturday => {},
            Weekday::Sunday => {},
            Weekday::Monday => {},
            Weekday::Tuesday => {},
            Weekday::Wednesday => {},
            Weekday::Thursday => {},
            Weekday::Friday => {},
        }
    }
}

/// Migrating the appearance twice changes nothing the second time.
pub proof fn law_migration_is_idempotent(before: AppearanceSettings, after: AppearanceSettings)
    requires
        after == (AppearanceSettings {
            use_system_theme: before.use_system_theme || (!before.use_system_theme && factory_colors(before)),
            ..before
        }),
    ensures
        !(!after.use_system_theme && factory_colors(after)),
{
}

/// With the same country and language, only an empty timezone is filled in.
pub proof fn law_unchanged_country_keeps_settings(c: BolootConfig, registry: CountryRegistry)
    ensures
        with_country_defaults(c, c.calendar.country@, c.calendar.language, registry) == c,
        c.calendar.timezone@.len() > 0 ==> timezone_after(c, c.calendar.country@, c.calendar.language) == c.calendar.timezone@,
{
}

/// With holidays shown, the view of a day is marked a holiday exactly when
/// the day's holiday list is not empty, and it names the listed holidays.
pub proof fn law_view_holiday_flag(
    v: CalendarView,
    c: CalendarDate,
    g: GregorianDate,
    config: BolootConfig,
    locale: LocaleProfile,
    ts: Seq<HolidayTemplate>,
)
    requires
        config.calendar.show_holidays,
        v.jalali.converts(g),
        c.converts(g),
        view_ok(v, v.jalali, config, locale, shown(config.calendar.show_holidays, day_holidays(ts, v.jalali.jalali_year as int, v.jalali.jalali_month as int, v.jalali.jalali_day as int))),
    ensures
        v.is_holiday == (day_holidays(ts, c.jalali_year as int, c.jalali_month as int, c.jalali_day as int).len() > 0),
        views(v.holiday_names@) == holiday_names_of(day_holidays(ts, c.jalali_year as int, c.jalali_month as int, c.jalali_day as int)),
{
    lemma_offset_injective(
        c.jalali_year as int,
        c.jalali_month as int,
        c.jalali_day as int,
        v.jalali.jalali_year as int,
        v.jalali.jalali_month as int,
        v.jalali.jalali_day as int,
    );
}

/// Normalizing a country identifier twice gives the same identifier as once.
pub proof fn law_normalize_id_idempotent(raw: Seq<char>)
    ensures
        normalized_id(normalized_id(raw)) == normalized_id(raw),
{
    let t = trimmed(raw);
    let id = dash_to_underscore(lower_seq(t));
    lemma_trimmed_ends(raw);
    assert forall|i: int| 0 <= i < id.len() implies !is_space(#[trigger] id[i]) || is_space(t[i]) by {}
    assert forall|i: int| 0 <= i < id.len() implies ascii_lower(#[trigger] id[i]) == id[i] && id[i] != '-' by {}
    if id.len() == 0 {
        reveal_strlit("iran");
        let n = "iran"@;
        lemma_trimmed_unchanged(n);
        assert(lower_seq(n) =~= n);
        assert(dash_to_underscore(lower_seq(n)) =~= n);
    } else {
        assert(id[0] == dash_to_underscore(lower_seq(t))[0]);
        lemma_trimmed_unchanged(id);
        assert(lower_seq(id) =~= id);
        assert(dash_to_underscore(lower_seq(id)) =~= id);
    }
}

/// The holidays listed for a Hijri month, ordered by Jalali date and name
/// with no entry equal by name and date to the one before it, hold no two
/// entries equal by name and date, provided every month and day that occurs
/// in the list occurs in one Jalali year only.
pub proof fn law_hijri_month_entries_distinct(r: Seq<Holiday>)
    requires
        forall|i: int, j: int| 0 <= i < j < r.len() ==> holiday_le(r[i], r[j]),
        forall|i: int, j: int| 0 <= i && j == i + 1 && j < r.len() ==> !same_entry(r[i], r[j]),
        forall|i: int, j: int|
            0 <= i < r.len() && 0 <= j < r.len() && r[i].jalali_month == r[j].jalali_month
                && r[i].jalali_day == r[j].jalali_day ==> r[i].jalali_year == r[j].jalali_year,
    ensures
        forall|i: int, j: int| 0 <= i < j < r.len() ==> !same_entry(r[i], r[j]),
{
    assert forall|i: int, j: int| 0 <= i < j < r.len() implies !same_entry(r[i], r[j]) by {
        if same_entry(r[i], r[j]) {
            let k = i + 1;
            assert(holiday_le(r[i], r[k]));
            if k < j {
                assert(holiday_le(r[k], r[j]));
            }
            assert(r[k].jalali_month == r[i].jalali_month);
            assert(r[k].jalali_day == r[i].jalali_day);
            lemma_seq_le_antisym(r[i].name@, r[k].name@);
            assert(same_entry(r[i], r[k]));
        }
    }
}

/// The Gregorian date text of a calendar day (`%Y-%m-%d`) has ten characters:
/// four of year, `-`, two of month, `-`, two of day.
pub proof fn law_calendar_day_iso_form(c: CalendarDate)
    requires
        c.wf(),
    ensures
        iso_text(c.gregorian).len() == 10,
        iso_text(c.gregorian)[4] == '-',
        iso_text(c.gregorian)[7] == '-',
        iso_text(c.gregorian).subrange(0, 4) == decimal(c.gregorian.year as nat),
{
    let g = c.gregorian;
    lemma_decimal_len(g.year as nat);
    lemma_decimal_len(g.month as nat);
    lemma_decimal_len(g.day as nat);
    let y = padded_decimal(g.year as nat, 4);
    let m = padded_decimal(g.month as nat, 2);
    let d = padded_decimal(g.day as nat, 2);
    assert(y == decimal(g.year as nat));
    assert(y.len() == 4 && m.len() == 2 && d.len() == 2);
    let t = iso_text(g);
    assert(t =~= y + seq!['-'] + m + seq!['-'] + d);
    assert(t.subrange(0, 4) =~= y);
}

/// The Gregorian date `hijri_date` gives for the Hijri date `k/m/d`, when it
/// is a valid date that converts back.
pub open spec fn hijri_day_date(k: int, m: int, d: int) -> Option<GregorianDate> {
    match gregorian_of_hijri(k as usize, m as usize, d as usize) {
        Ok(t) => {
            let g = GregorianDate { year: t.0 as i32, month: t.1 as u32, day: t.2 as u32 };
            if g.wf() && hijri_ok(g) {
                Some(g)
            } else {
                None
            }
        },
        Err(_) => None,
    }
}

/// Some Hijri year from `lo` to `hi` puts Hijri day `m/d` on the Jalali date `y/jm/jd`.
pub open spec fn lunar_source(m: int, d: int, y: int, lo: int, hi: int, jm: int, jd: int) -> bool {
    exists|k: int|
        #![trigger hijri_day_date(k, m, d)]
        lo <= k <= hi && (hijri_day_date(k, m, d) matches Some(g) && jalali_of_day(g.day_number()) == (y, jm, jd))
}

proof fn lemma_scan_finds(m: int, d: int, y: int, k: int, e: int, hy: int)
    requires
        k <= hy <= e,
        forall|j: int| k <= j <= hy ==> (#[trigger] hijri_day_date(j, m, d)) is Some,
        jalali_of_day(hijri_day_date(hy, m, d)->0.day_number()).0 == y,
    ensures
        lunar_scan(m, d, y, k, e) matches Some(md) && lunar_source(m, d, y, k, hy, md.0, md.1),
    decreases hy - k,
{
    assert(hijri_day_date(k, m, d) is Some);
    let g = hijri_day_date(k, m, d)->0;
    if jalali_of_day(g.day_number()).0 == y {
        let md = lunar_scan(m, d, y, k, e)->0;
        assert(jalali_of_day(g.day_number()) == (y, md.0, md.1));
    } else {
        lemma_scan_finds(m, d, y, k + 1, e, hy);
        let md = lunar_scan(m, d, y, k + 1, e)->0;
        let j = choose|j: int|
            #![trigger hijri_day_date(j, m, d)]
            k + 1 <= j <= hy && (hijri_day_date(j, m, d) matches Some(g) && jalali_of_day(g.day_number()) == (y, md.0, md.1));
        assert(hijri_day_date(j, m, d) is Some);
    }
}

proof fn lemma_scan_sound(m: int, d: int, y: int, k: int, e: int)
    ensures
        lunar_scan(m, d, y, k, e) matches Some(md) ==> lunar_source(m, d, y, k, e, md.0, md.1),
    decreases e + 1 - k,
{
    if k <= e {
        lemma_scan_sound(m, d, y, k + 1, e);
        if let Some(md) = lunar_scan(m, d, y, k, e) {
            assert(hijri_day_date(k, m, d) is Some);
            let g = hijri_day_date(k, m, d)->0;
            if jalali_of_day(g.day_number()).0 != y {
                let j = choose|j: int|
                    #![trigger hijri_day_date(j, m, d)]
                    k + 1 <= j <= e && (hijri_day_date(j, m, d) matches Some(g) && jalali_of_day(g.day_number()) == (y, md.0, md.1));
                assert(hijri_day_date(j, m, d) is Some);
            }
        }
    }
}

/// A lunar holiday (Hijri month `m`, day `d`) is placed in Jalali year `y`
/// whenever one of the Hijri years from the one `y` starts in to the one it
/// ends in (the last included) puts its date in `y`, the earlier of those
/// years converting; it is then placed on the Jalali date of one of them.
pub proof fn law_lunar_holiday_found(t: HolidayTemplate, y: int, hy: int)
    requires
        t.lunar,
        hijri_years_of_jalali(y) matches Some(r) && r.0 <= hy <= r.1 && forall|k: int|
            r.0 <= k <= hy ==> (#[trigger] hijri_day_date(k, t.month as int, t.day as int)) is Some,
        jalali_of_day(hijri_day_date(hy, t.month as int, t.day as int)->0.day_number()).0 == y,
    ensures
        ({
            let r = hijri_years_of_jalali(y)->0;
            resolved(t, y) matches Some(md) && lunar_source(t.month as int, t.day as int, y, r.0, hy, md.0, md.1)
        }),
{
    let r = hijri_years_of_jalali(y)->0;
    lemma_scan_finds(t.month as int, t.day as int, y, r.0, r.1, hy);
}

/// A lunar holiday placed in Jalali year `y` lies on the Jalali date of its
/// Hijri day in one of the Hijri years that `y` spans.
pub proof fn law_lunar_holiday_source(t: HolidayTemplate, y: int)
    requires
        t.lunar,
    ensures
        resolved(t, y) matches Some(md) ==> (hijri_years_of_jalali(y) matches Some(r) && lunar_source(
            t.month as int,
            t.day as int,
            y,
            r.0,
            r.1,
            md.0,
            md.1,
        )),
{
    if let Some(r) = hijri_years_of_jalali(y) {
        lemma_scan_sound(t.month as int, t.day as int, y, r.0, r.1);
    }
}

/// The Hijri day after `t`: the next day of the month, or the first day of
/// the next month after the month's last day.
pub open spec fn hijri_next_day(t: (int, int, int)) -> (int, int, int) {
    if t.2 < hijri_len(t.0, t.1) {
        (t.0, t.1, t.2 + 1)
    } else {
        let n = next_month(t.0, t.1);
        (n.0, n.1, 1)
    }
}

/// The padded Hijri grid runs through consecutive Hijri days: each cell
/// holds the day after the cell before it (so the days after the month's
/// last day are the next month's), for months of at least 28 days.
pub proof fn law_hijri_grid_consecutive(y: int, m: int, ws: Weekday, k: int)
    requires
        1 <= m <= 12,
        hijri_len(y, m) >= 28,
        hijri_len(prev_month(y, m).0, prev_month(y, m).1) >= 28,
        ({
            let n = next_month(y, m);
            hijri_len(n.0, n.1) >= 28
        }),
        0 <= k,
        k + 1 < hijri_padded_len(y, m, ws),
    ensures
        hijri_padded_cell(y, m, ws, k + 1) == hijri_next_day(hijri_padded_cell(y, m, ws, k)),
{
    let lead = hijri_leading(y, m, ws);
    let days = hijri_len(y, m);
    let p = prev_month(y, m);
    assert(0 <= lead < 7);
    if k + 1 < lead {
    } else if k + 1 == lead {
        assert(next_month(p.0, p.1) == (y, m));
    } else if k + 1 < lead + days {
    } else if k + 1 == lead + days {
    } else {
        let n = next_month(y, m);
        assert(padded_rows(lead + days) >= 6);
        assert(k - lead - days + 1 < hijri_len(n.0, n.1)) by {
            assert(hijri_padded_len(y, m, ws) == 7 * padded_rows(lead + days));
        }
    }
}

/// In a Jalali month view, a cell is marked today exactly when its day is
/// today's day (the same Gregorian date).
pub proof fn law_month_view_today(
    v: MonthView,
    config: BolootConfig,
    locale: LocaleProfile,
    ts: Seq<HolidayTemplate>,
    prayer: Option<PrayerDayStatus>,
    y: int,
    m: int,
    today: CalendarDate,
    k: int,
    c: CalendarDate,
)
    requires
        jalali_view_ok(v, config, locale, ts, prayer, y, m, today),
        today.converts(today.gregorian),
        today.wf(),
        0 <= k < v.cells@.len(),
        ({
            let t = jalali_padded_cell(y, m, config.calendar.week_start, k);
            c.is_jalali(t.0, t.1, t.2)
        }),
        c.wf(),
    ensures
        v.cells@[k].is_today <==> c.gregorian == today.gregorian,
{
    let ws = config.calendar.week_start;
    lemma_jalali_grid_date(c, y, m, ws, k);
    assert(jalali_grid_date(y, m, ws, k) == c);
    if c.gregorian == today.gregorian {
        lemma_offset_injective(
            c.jalali_year as int,
            c.jalali_month as int,
            c.jalali_day as int,
            today.jalali_year as int,
            today.jalali_month as int,
            today.jalali_day as int,
        );
    }
    if c.jalali_year == today.jalali_year && c.jalali_month == today.jalali_month && c.jalali_day == today.jalali_day {
        lemma_day_number_injective(c.gregorian, today.gregorian);
    }
}

/// The number on the panel is the day of the date in the chosen calendar:
/// the Umm al-Qura day for Hijri, the Gregorian day for Gregorian, and the
/// day of the Jalali date with the same day count otherwise.
pub proof fn law_panel_day_label(
    v: CalendarView,
    config: BolootConfig,
    locale: LocaleProfile,
    hs: Seq<Holiday>,
    g: GregorianDate,
)
    requires
        view_ok(v, v.jalali, config, locale, hs),
        v.jalali.converts(g),
    ensures
        ({
            let ct = config.calendar.calendar_type;
            let numerals = effective_numerals_spec(ct, config.calendar.numerals);
            &&& ct == CalendarSystem::Hijri ==> (hijri_of_gregorian(g.year as usize, g.month as usize, g.day as usize) matches Ok(h)
                && v.panel_day_label@ == styled(decimal((h.2 as u8) as nat), numerals))
            &&& ct == CalendarSystem::Gregorian ==> v.panel_day_label@ == styled(decimal((g.day as u8) as nat), numerals)
            &&& (ct != CalendarSystem::Hijri && ct != CalendarSystem::Gregorian) ==> v.panel_day_label@ == styled(
                decimal(jalali_of_day(g.day_number()).2 as nat),
                numerals,
            )
        }),
{
    let c = v.jalali;
    lemma_jalali_of_day(c.jalali_year as int, c.jalali_month as int, c.jalali_day as int);
}

/// The country a locale name selects agrees with the language it selects:
/// Dari and Pashto come with Afghanistan (and its timezone), Tajik with
/// Tajikistan, Persian with Iran; Persian digits come with one of the
/// Persian-script languages.
pub proof fn law_locale_country_matches_language(code: Seq<char>, records: Seq<CountryRecord>)
    ensures
        ({
            let t = locale_choice(code, records);
            let tz = kind_timezone(profile_kind(t.0, t.1));
            &&& (t.1 == LanguageVariant::Dari || t.1 == LanguageVariant::Pashto) ==> t.0 == "afghanistan"@ && tz == "Asia/Kabul"@
            &&& t.1 == LanguageVariant::Tajik ==> t.0 == "tajikistan"@ && tz == "Asia/Dushanbe"@
            &&& t.1 == LanguageVariant::Persian ==> t.0 == "iran"@ && tz == "Asia/Tehran"@
            &&& t.2 == NumeralStyle::Persian ==> (t.1 == LanguageVariant::Persian || t.1 == LanguageVariant::Dari
                || t.1 == LanguageVariant::Pashto)
        }),
{
    reveal_strlit("afghanistan");
    reveal_strlit("tajikistan");
    reveal_strlit("iran");
    assert("tajikistan"@.len() != "afghanistan"@.len());
    assert("iran"@.len() != "afghanistan"@.len() && "iran"@.len() != "tajikistan"@.len());
}

/// A locale name with a region (`xx_RR`) selects the registry's country of
/// that region, for every registry that places the regions IR, AF and TJ on
/// Iran, Afghanistan and Tajikistan.
pub proof fn law_locale_region_selects_country(code: Seq<char>, records: Seq<CountryRecord>)
    requires
        index_or_len(code, '_') < code.len(),
        country_of_locale("fa_IR"@, records) == "iran"@,
        country_of_locale("fa_AF"@, records) == "afghanistan"@,
        country_of_locale("tg_TJ"@, records) == "tajikistan"@,
    ensures
        locale_choice(code, records).0 == country_of_locale(code, records),
{
    reveal_strlit("ps_AF");
    reveal_strlit("fa_AF");
    reveal_strlit("ps");
    reveal_strlit("tg");
    reveal_strlit("fa");
    if code == "ps_AF"@ {
        let a = "ps_AF"@;
        let b = "fa_AF"@;
        assert(a.drop_first().drop_first()[0] == '_');
        assert(index_or_len(a.drop_first().drop_first(), '_') == 0);
        assert(index_or_len(a.drop_first(), '_') == 1);
        assert(index_or_len(a, '_') == 2);
        assert(index_or_len(b.drop_first().drop_first(), '_') == 0);
        assert(index_or_len(b.drop_first(), '_') == 1);
        assert(index_or_len(b, '_') == 2);
        assert(a.skip(3) =~= b.skip(3));
    }
    if code == "ps"@ || code == "tg"@ || code == "fa"@ {
        assert(index_or_len(code.drop_first().drop_first(), '_') == 0);
        assert(index_or_len(code.drop_first(), '_') == 1);
    }
}

} // verus!
