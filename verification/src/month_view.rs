//! The month popup: a padded grid of labelled day cells with holidays,
//! weekday headers, title and appearance.
use vstd::prelude::*;

use crate::backend::hijri_lookup_panics;
use crate::calendar::{hijri_date_of, hijri_grid_ok, hijri_padded_cell, hijri_padded_len, jalali_grid_ok, jalali_padded_cell, jalali_padded_len, CalendarDate, CalendarEngine, CalendarSystem};
use crate::colors::{appearance_tints, holiday_tint, today_tint};
use crate::config::BolootConfig;
use crate::error::BolootError;
use crate::format::{effective_numerals_spec, styled, to_persian_digits, NumeralStyle};
use crate::gregorian::{iso_text, lemma_day_number_injective, GregorianDate};
use crate::holidays::{day_holidays, drawn_from, hijri_month_collected, holiday_le, month_holidays, represents, same_entry, Holiday, HolidayStore, HolidayTemplate};
use crate::locale::{weekday_index_spec, weekday_of_index, weekday_from_index, LanguageVariant, LocaleProfile, Weekday};
use crate::persian_lemmas::lemma_offset_injective;
use crate::prayer::PrayerDayStatus;
use crate::text::{concat2, decimal, i64_to_string, int_decimal, join, join_seq, owned, u64_to_string, views};
use crate::ui_strings::{ui_table, UiStrings};

verus! {

/// One day of the month grid.
#[derive(Debug)]
pub struct MonthCell {
    pub day: Option<u8>,
    pub day_label: Option<String>,
    pub secondary_label: Option<String>,
    pub jalali_year: i32,
    pub jalali_month: u8,
    pub is_current_month: bool,
    pub is_today: bool,
    pub is_holiday: bool,
    pub is_weekend: bool,
    pub holiday_names: Vec<String>,
    pub tooltip: Option<String>,
    /// Gregorian date in ISO 8601 form (`YYYY-MM-DD`) for UI day selection.
    pub gregorian_date: String,
}

/// Fonts and colors of the popup.
#[derive(Debug)]
pub struct MonthAppearance {
    pub font_family: String,
    pub font_size_pt: u8,
    pub text_color: String,
    pub background_color: String,
    pub holiday_color: String,
    pub today_color: String,
    pub prayer_color: String,
    pub today_background_color: String,
    pub holiday_background_color: String,
    pub use_system_theme: bool,
    pub apply_custom_appearance: bool,
}

/// Everything the popup shows for one month.
#[derive(Debug)]
pub struct MonthView {
    pub jalali_year: i32,
    pub jalali_month: u8,
    pub display_year: i32,
    pub display_month: u8,
    pub calendar_type: CalendarSystem,
    pub month_name: String,
    pub year_label: String,
    pub title: String,
    pub weekday_headers: Vec<String>,
    /// Column indices (0–6) for weekend weekday headers, relative to `weekday_headers`.
    pub weekend_header_indices: Vec<u8>,
    pub cells: Vec<MonthCell>,
    pub holidays: Vec<Holiday>,
    pub prayer: Option<PrayerDayStatus>,
    pub appearance: MonthAppearance,
    pub ui: UiStrings,
    /// `"rtl"` for Persian/Dari/Pashto; `"ltr"` for Tajik, English and the Gregorian calendar.
    pub text_direction: String,
}

pub open spec fn opt_text(o: Option<String>) -> Option<Seq<char>> {
    match o {
        Some(s) => Some(s@),
        None => None,
    }
}

/// Day number in a numeral style.
pub fn format_day(day: u8, numerals: NumeralStyle) -> (r: String)
    ensures
        r@ == styled(decimal(day as nat), numerals),
{
    let s = u64_to_string(day as u64);
    match numerals {
        NumeralStyle::Persian => to_persian_digits(s.as_str()),
        NumeralStyle::Latin => s,
    }
}

/// Year number in a numeral style.
pub open spec fn year_label_text(year: int, numerals: NumeralStyle) -> Seq<char> {
    styled(int_decimal(year), numerals)
}

fn format_year_label(year: i32, numerals: NumeralStyle) -> (r: String)
    ensures
        r@ == year_label_text(year as int, numerals),
{
    let s = i64_to_string(year as i64);
    match numerals {
        NumeralStyle::Persian => to_persian_digits(s.as_str()),
        NumeralStyle::Latin => s,
    }
}

/// `"{month_name} {year}"`.
fn format_month_title(month_name: &str, year: i32, numerals: NumeralStyle) -> (r: String)
    ensures
        r@ == month_name@ + " "@ + year_label_text(year as int, numerals),
{
    let y = format_year_label(year, numerals);
    let mut s = concat2(month_name, " ");
    s.append(y.as_str());
    s
}

/// A holiday's name in a tooltip: lunar holidays are marked approximate.
pub open spec fn tooltip_name(h: Holiday) -> Seq<char> {
    if h.is_lunar {
        "≈ "@ + h.name@
    } else {
        h.name@
    }
}

/// Tooltip of a day: its holidays' names joined by `"، "`; none without holidays.
pub open spec fn tooltip_text(hs: Seq<Holiday>) -> Option<Seq<char>> {
    if hs.len() == 0 {
        None
    } else {
        Some(join_seq(hs.map_values(|h: Holiday| tooltip_name(h)), "، "@))
    }
}

pub fn build_tooltip(holidays: &Vec<Holiday>) -> (r: Option<String>)
    ensures
        opt_text(r) == tooltip_text(holidays@),
{
    if holidays.len() == 0 {
        return None;
    }
    let mut names: Vec<String> = Vec::new();
    let mut i: usize = 0;
    while i < holidays.len()
        invariant
            i <= holidays@.len(),
            views(names@) == holidays@.take(i as int).map_values(|h: Holiday| tooltip_name(h)),
        decreases holidays.len() - i,
    {
        let h = &holidays[i];
        let n = if h.is_lunar {
            concat2("≈ ", h.name.as_str())
        } else {
            h.name.clone()
        };
        let ghost before = names@;
        names.push(n);
        proof {
            assert(views(names@) =~= views(before).push(tooltip_name(holidays@[i as int])));
            assert(holidays@.take(i + 1).map_values(|h: Holiday| tooltip_name(h)) =~= holidays@.take(
                i as int,
            ).map_values(|h: Holiday| tooltip_name(h)).push(tooltip_name(holidays@[i as int])));
        }
        i = i + 1;
    }
    assert(holidays@.take(holidays@.len() as int) =~= holidays@);
    Some(join(&names, "، "))
}

/// Names of holidays, in order.
pub open spec fn holiday_names_of(hs: Seq<Holiday>) -> Seq<Seq<char>> {
    hs.map_values(|h: Holiday| h.name@)
}

fn names_of(holidays: &Vec<Holiday>) -> (r: Vec<String>)
    ensures
        views(r@) == holiday_names_of(holidays@),
{
    let mut names: Vec<String> = Vec::new();
    let mut i: usize = 0;
    while i < holidays.len()
        invariant
            i <= holidays@.len(),
            views(names@) == holiday_names_of(holidays@.take(i as int)),
        decreases holidays.len() - i,
    {
        let ghost before = names@;
        names.push(holidays[i].name.clone());
        proof {
            assert(views(names@) =~= views(before).push(holidays@[i as int].name@));
            assert(holiday_names_of(holidays@.take(i + 1)) =~= holiday_names_of(holidays@.take(i as int)).push(holidays@[i as int].name@));
        }
        i = i + 1;
    }
    assert(holidays@.take(holidays@.len() as int) =~= holidays@);
    names
}

/// Header label of a weekday: the locale's short name, `-` when it has none.
pub open spec fn header_label(locale: LocaleProfile, day: Weekday, calendar: CalendarSystem) -> Seq<char> {
    let names = if calendar == CalendarSystem::Hijri {
        locale.hijri_weekday_short@
    } else {
        locale.weekday_short@
    };
    if weekday_index_spec(day) < names.len() {
        names[weekday_index_spec(day)]@
    } else {
        "-"@
    }
}

/// Weekday of column `k` in a week starting on `week_start`.
pub open spec fn column_day(week_start: Weekday, k: int) -> Weekday {
    weekday_of_index((weekday_index_spec(week_start) + k) % 7)
}

/// The seven header labels from `week_start` on.
pub fn weekday_headers(locale: &LocaleProfile, week_start: Weekday, numerals: NumeralStyle, calendar_type: CalendarSystem) -> (r: Vec<String>)
    ensures
        r@.len() == 7,
        forall|k: int| 0 <= k < 7 ==> (#[trigger] r@[k])@ == header_label(*locale, column_day(week_start, k), calendar_type),
{
    let start = week_start.index();
    let mut out: Vec<String> = Vec::new();
    let mut k: u8 = 0;
    while k < 7
        invariant
            start as int == weekday_index_spec(week_start),
            start < 7,
            k <= 7,
            out@.len() == k,
            forall|j: int| 0 <= j < k ==> (#[trigger] out@[j])@ == header_label(*locale, column_day(week_start, j), calendar_type),
        decreases 7 - k,
    {
        let day = weekday_from_index((start + k) % 7);
        let label = match locale.weekday_short(day, calendar_type) {
            Some(s) => owned(s),
            None => owned("-"),
        };
        let s = match numerals {
            NumeralStyle::Persian => label,
            NumeralStyle::Latin => label,
        };
        out.push(s);
        k = k + 1;
    }
    out
}

/// Column of a weekend day in a week starting on `week_start`.
pub open spec fn weekend_column(day: Weekday, week_start: Weekday) -> int {
    (weekday_index_spec(day) + 7 - weekday_index_spec(week_start)) % 7
}

/// Columns of the locale's weekend days, ascending, each once.
pub fn weekend_header_indices(locale: &LocaleProfile, week_start: Weekday) -> (r: Vec<u8>)
    ensures
        forall|i: int, j: int| 0 <= i < j < r@.len() ==> r@[i] < r@[j],
        forall|c: u8| #[trigger] r@.contains(c) <==> exists|d: int| 0 <= d < locale.weekend_days@.len() && c as int == weekend_column(#[trigger] locale.weekend_days@[d], week_start),
{
    let mut marked: Vec<bool> = Vec::new();
    let mut c: usize = 0;
    while c < 7
        invariant
            c <= 7,
            marked@.len() == c,
            forall|j: int| 0 <= j < c ==> !marked@[j],
        decreases 7 - c,
    {
        marked.push(false);
        c = c + 1;
    }
    let mut d: usize = 0;
    while d < locale.weekend_days.len()
        invariant
            d <= locale.weekend_days@.len(),
            marked@.len() == 7,
            forall|j: int| 0 <= j < 7 ==> (marked@[j] <==> exists|e: int| 0 <= e < d && j == weekend_column(#[trigger] locale.weekend_days@[e], week_start)),
        decreases locale.weekend_days.len() - d,
    {
        let col = locale.weekend_days[d].index_from(week_start);
        marked.set(col as usize, true);
        proof {
            assert forall|j: int| 0 <= j < 7 implies (marked@[j] <==> exists|e: int| 0 <= e < d + 1 && j == weekend_column(#[trigger] locale.weekend_days@[e], week_start)) by {
                if j == col as int {
                    assert(j == weekend_column(locale.weekend_days@[d as int], week_start));
                } else {
                    if exists|e: int| 0 <= e < d + 1 && j == weekend_column(#[trigger] locale.weekend_days@[e], week_start) {
                        let e = choose|e: int| 0 <= e < d + 1 && j == weekend_column(#[trigger] locale.weekend_days@[e], week_start);
                        assert(e != d as int);
                    }
                }
            }
        }
        d = d + 1;
    }
    let mut out: Vec<u8> = Vec::new();
    let mut k: u8 = 0;
    while k < 7
        invariant
            k <= 7,
            marked@.len() == 7,
            forall|i: int, j: int| 0 <= i < j < out@.len() ==> out@[i] < out@[j],
            forall|i: int| 0 <= i < out@.len() ==> out@[i] < k,
            forall|c: u8| #[trigger] out@.contains(c) <==> (c < k && marked@[c as int]),
        decreases 7 - k,
    {
        if marked[k as usize] {
            let ghost before = out@;
            out.push(k);
            proof {
                assert forall|c: u8| #[trigger] out@.contains(c) <==> (c < k + 1 && marked@[c as int]) by {
                    if c == k {
                        assert(out@[before.len() as int] == c);
                    }
                    if out@.contains(c) && c != k {
                        let i = choose|i: int| 0 <= i < out@.len() && out@[i] == c;
                        assert(i < before.len());
                        assert(before.contains(c));
                    }
                    if c < k && marked@[c as int] {
                        assert(before.contains(c));
                        let i = choose|i: int| 0 <= i < before.len() && before[i] == c;
                        assert(out@[i] == c);
                    }
                }
            }
        } else {
            proof {
                assert forall|c: u8| #[trigger] out@.contains(c) <==> (c < k + 1 && marked@[c as int]) by {
                    if out@.contains(c) {
                        let i = choose|i: int| 0 <= i < out@.len() && out@[i] == c;
                        assert(out@[i] < k);
                    }
                }
            }
        }
        k = k + 1;
    }
    out
}

/// `"rtl"` for the right-to-left languages unless the Gregorian calendar is shown.
pub open spec fn text_direction_text(calendar: CalendarSystem, language: LanguageVariant) -> Seq<char> {
    if calendar == CalendarSystem::Gregorian {
        "ltr"@
    } else {
        match language {
            LanguageVariant::Tajik | LanguageVariant::English => "ltr"@,
            LanguageVariant::Persian | LanguageVariant::Dari | LanguageVariant::Pashto => "rtl"@,
        }
    }
}

fn text_direction_for_config(config: &BolootConfig) -> (r: String)
    ensures
        r@ == text_direction_text(config.calendar.calendar_type, config.calendar.language),
{
    if config.calendar.calendar_type == CalendarSystem::Gregorian {
        return owned("ltr");
    }
    match config.calendar.language {
        LanguageVariant::Tajik | LanguageVariant::English => owned("ltr"),
        LanguageVariant::Persian | LanguageVariant::Dari | LanguageVariant::Pashto => owned("rtl"),
    }
}

/// Interface texts of a configuration: English navigation labels for the Gregorian calendar.
pub open spec fn ui_fields_for(calendar: CalendarSystem, language: LanguageVariant) -> Seq<Seq<char>> {
    if calendar == CalendarSystem::Gregorian {
        ui_table(language).update(7, "Previous month"@).update(8, "Next month"@).update(9, "Previous year"@).update(10, "Next year"@)
    } else {
        ui_table(language)
    }
}

fn ui_strings_for_config(config: &BolootConfig) -> (u: UiStrings)
    ensures
        u.fields() == ui_fields_for(config.calendar.calendar_type, config.calendar.language),
{
    let mut ui = UiStrings::for_language(config.calendar.language);
    if config.calendar.calendar_type == CalendarSystem::Gregorian {
        ui.apply_english_nav_labels();
    }
    ui
}

/// The popup appearance of a configuration.
pub open spec fn appearance_ok(a: MonthAppearance, config: BolootConfig) -> bool {
    &&& a.font_family@ == config.appearance.font_family@
    &&& a.font_size_pt == config.appearance.font_size_pt
    &&& a.text_color@ == config.appearance.text_color@
    &&& a.background_color@ == config.appearance.background_color@
    &&& a.holiday_color@ == config.appearance.holiday_color@
    &&& a.today_color@ == config.appearance.today_color@
    &&& a.prayer_color@ == config.appearance.prayer_color@
    &&& a.today_background_color@ == today_tint(config.appearance.today_color@)
    &&& a.holiday_background_color@ == holiday_tint(config.appearance.holiday_color@)
    &&& a.use_system_theme == config.appearance.use_system_theme
    &&& a.apply_custom_appearance == !config.appearance.use_system_theme
}

fn month_appearance(config: &BolootConfig) -> (a: MonthAppearance)
    ensures
        appearance_ok(a, *config),
{
    let tints = appearance_tints(config.appearance.today_color.as_str(), config.appearance.holiday_color.as_str());
    MonthAppearance {
        font_family: config.appearance.font_family.clone(),
        font_size_pt: config.appearance.font_size_pt,
        text_color: config.appearance.text_color.clone(),
        background_color: config.appearance.background_color.clone(),
        holiday_color: config.appearance.holiday_color.clone(),
        today_color: config.appearance.today_color.clone(),
        prayer_color: config.appearance.prayer_color.clone(),
        today_background_color: tints.today_background,
        holiday_background_color: tints.holiday_background,
        use_system_theme: config.appearance.use_system_theme,
        apply_custom_appearance: !config.appearance.use_system_theme,
    }
}


/// Cell `cell` shows `date` as day `day` with the given flags, secondary
/// label and holidays, in the given digits and weekend.
pub open spec fn cell_ok(
    cell: MonthCell,
    date: CalendarDate,
    day: u8,
    is_current_month: bool,
    is_today: bool,
    secondary: Option<Seq<char>>,
    hs: Seq<Holiday>,
    weekend: Seq<Weekday>,
    numerals: NumeralStyle,
) -> bool {
    &&& cell.day == Some(day)
    &&& opt_text(cell.day_label) == Some(styled(decimal(day as nat), numerals))
    &&& opt_text(cell.secondary_label) == secondary
    &&& cell.jalali_year == date.jalali_year
    &&& cell.jalali_month == date.jalali_month
    &&& cell.is_current_month == is_current_month
    &&& cell.is_today == is_today
    &&& views(cell.holiday_names@) == holiday_names_of(hs)
    &&& cell.is_holiday == (hs.len() > 0)
    &&& cell.is_weekend == weekend.contains(date.weekday)
    &&& opt_text(cell.tooltip) == tooltip_text(hs)
    &&& cell.gregorian_date@ == iso_text(date.gregorian)
}

fn make_cell(
    date: &CalendarDate,
    day: u8,
    is_current_month: bool,
    is_today: bool,
    secondary: Option<String>,
    day_holidays: &Vec<Holiday>,
    locale: &LocaleProfile,
    numerals: NumeralStyle,
) -> (c: MonthCell)
    requires
        date.gregorian.wf(),
    ensures
        cell_ok(c, *date, day, is_current_month, is_today, opt_text(secondary), day_holidays@, locale.weekend_days@, numerals),
{
    let holiday_names = names_of(day_holidays);
    let mut is_weekend = false;
    let mut i: usize = 0;
    while i < locale.weekend_days.len()
        invariant
            i <= locale.weekend_days@.len(),
            is_weekend == locale.weekend_days@.take(i as int).contains(date.weekday),
        decreases locale.weekend_days.len() - i,
    {
        proof {
            assert(locale.weekend_days@.take(i + 1) =~= locale.weekend_days@.take(i as int).push(locale.weekend_days@[i as int]));
        }
        if locale.weekend_days[i] == date.weekday {
            is_weekend = true;
        }
        proof {
            lemma_contains_push(locale.weekend_days@.take(i as int), locale.weekend_days@[i as int], date.weekday);
        }
        i = i + 1;
    }
    assert(locale.weekend_days@.take(locale.weekend_days@.len() as int) =~= locale.weekend_days@);
    MonthCell {
        day: Some(day),
        day_label: Some(format_day(day, numerals)),
        secondary_label: secondary,
        jalali_year: date.jalali_year,
        jalali_month: date.jalali_month,
        is_current_month,
        is_today,
        is_holiday: day_holidays.len() > 0,
        is_weekend,
        holiday_names,
        tooltip: build_tooltip(day_holidays),
        gregorian_date: date.gregorian.format_iso(),
    }
}

proof fn lemma_contains_push<A>(s: Seq<A>, x: A, y: A)
    ensures
        s.push(x).contains(y) <==> (s.contains(y) || x == y),
{
    let t = s.push(x);
    if t.contains(y) {
        let j = choose|j: int| 0 <= j < t.len() && t[j] == y;
        if j < s.len() {
            assert(s[j] == y);
        }
    }
    if s.contains(y) {
        let j = choose|j: int| 0 <= j < s.len() && s[j] == y;
        assert(t[j] == y);
    }
    if x == y {
        assert(t[s.len() as int] == y);
    }
}

/// The converted date shown in cell `k` of the padded Jalali grid of `y/m`.
pub open spec fn jalali_grid_date(y: int, m: int, ws: Weekday, k: int) -> CalendarDate {
    let t = jalali_padded_cell(y, m, ws, k);
    choose|c: CalendarDate| #[trigger] c.is_jalali(t.0, t.1, t.2) && c.wf()
}

/// The converted date shown in cell `k` of the padded Hijri grid of `y/m`.
pub open spec fn hijri_grid_date(y: int, m: int, ws: Weekday, k: int) -> CalendarDate {
    let t = hijri_padded_cell(y, m, ws, k);
    choose|c: CalendarDate| #[trigger] c.converts(hijri_date_of(t.0, t.1, t.2)) && c.wf()
}

proof fn lemma_converts_unique(c1: CalendarDate, c2: CalendarDate, g: GregorianDate)
    requires
        c1.converts(g),
        c2.converts(g),
    ensures
        c1 == c2,
{
    lemma_offset_injective(
        c1.jalali_year as int,
        c1.jalali_month as int,
        c1.jalali_day as int,
        c2.jalali_year as int,
        c2.jalali_month as int,
        c2.jalali_day as int,
    );
}

pub proof fn lemma_jalali_grid_date(c: CalendarDate, y: int, m: int, ws: Weekday, k: int)
    requires
        ({
            let t = jalali_padded_cell(y, m, ws, k);
            c.is_jalali(t.0, t.1, t.2)
        }),
        c.wf(),
    ensures
        jalali_grid_date(y, m, ws, k) == c,
{
    let t = jalali_padded_cell(y, m, ws, k);
    let c2 = jalali_grid_date(y, m, ws, k);
    assert(c.is_jalali(t.0, t.1, t.2) && c.wf());
    lemma_day_number_injective(c.gregorian, c2.gregorian);
    lemma_converts_unique(c, c2, c.gregorian);
}

proof fn lemma_hijri_grid_date(c: CalendarDate, y: int, m: int, ws: Weekday, k: int)
    requires
        ({
            let t = hijri_padded_cell(y, m, ws, k);
            c.converts(hijri_date_of(t.0, t.1, t.2))
        }),
        c.wf(),
    ensures
        hijri_grid_date(y, m, ws, k) == c,
{
    let t = hijri_padded_cell(y, m, ws, k);
    let g = hijri_date_of(t.0, t.1, t.2);
    let c2 = hijri_grid_date(y, m, ws, k);
    assert(c.converts(g) && c.wf());
    lemma_converts_unique(c, c2, g);
}

/// The month's holidays shown: all of the month's when holidays are on.
pub open spec fn shown(on: bool, hs: Seq<Holiday>) -> Seq<Holiday> {
    if on {
        hs
    } else {
        Seq::empty()
    }
}

/// The part of a month view that does not depend on the calendar shown.
pub open spec fn view_frame_ok(v: MonthView, config: BolootConfig, locale: LocaleProfile, prayer: Option<PrayerDayStatus>) -> bool {
    let ws = config.calendar.week_start;
    &&& v.weekday_headers@.len() == 7
    &&& forall|k: int| 0 <= k < 7 ==> (#[trigger] v.weekday_headers@[k])@ == header_label(locale, column_day(ws, k), v.calendar_type)
    &&& forall|i: int, j: int| 0 <= i < j < v.weekend_header_indices@.len() ==> v.weekend_header_indices@[i] < v.weekend_header_indices@[j]
    &&& forall|c: u8| #[trigger] v.weekend_header_indices@.contains(c) <==> exists|d: int| 0 <= d < locale.weekend_days@.len() && c as int == weekend_column(#[trigger] locale.weekend_days@[d], ws)
    &&& v.prayer == prayer
    &&& appearance_ok(v.appearance, config)
    &&& v.ui.fields() == ui_fields_for(config.calendar.calendar_type, config.calendar.language)
    &&& v.text_direction@ == text_direction_text(config.calendar.calendar_type, config.calendar.language)
}

/// Name of a month, or `---` when the table has none.
pub open spec fn name_or_dashes(names: Seq<String>, m: int) -> Seq<char> {
    if 1 <= m <= names.len() {
        names[m - 1]@
    } else {
        "---"@
    }
}


/// The Jalali month view of `y/m` (see [`build_month_view`]).
pub open spec fn jalali_view_ok(
    v: MonthView,
    config: BolootConfig,
    locale: LocaleProfile,
    templates: Seq<HolidayTemplate>,
    prayer: Option<PrayerDayStatus>,
    y: int,
    m: int,
    today: CalendarDate,
) -> bool {
    let ws = config.calendar.week_start;
    let numerals = effective_numerals_spec(config.calendar.calendar_type, config.calendar.numerals);
    let dual = config.calendar.calendar_type == CalendarSystem::DualJalaliGregorian;
    let show = config.calendar.show_holidays;
    &&& v.jalali_year == y && v.jalali_month == m
    &&& v.display_year == y && v.display_month == m
    &&& v.calendar_type == config.calendar.calendar_type
    &&& v.month_name@ == name_or_dashes(locale.month_names@, m)
    &&& v.year_label@ == year_label_text(y, numerals)
    &&& v.title@ == v.month_name@ + " "@ + v.year_label@
    &&& v.holidays@ == shown(show, month_holidays(templates, y, m))
    &&& v.cells@.len() == jalali_padded_len(y, m, ws)
    &&& forall|k: int|
        0 <= k < v.cells@.len() ==> {
            let d = jalali_grid_date(y, m, ws, k);
            cell_ok(
                #[trigger] v.cells@[k],
                d,
                d.jalali_day,
                d.jalali_year == y && d.jalali_month == m,
                d.jalali_year == today.jalali_year && d.jalali_month == today.jalali_month
                    && d.jalali_day == today.jalali_day,
                if dual {
                    Some(decimal((d.gregorian.day as u8) as nat))
                } else {
                    None
                },
                shown(show, day_holidays(templates, d.jalali_year as int, d.jalali_month as int, d.jalali_day as int)),
                locale.weekend_days@,
                numerals,
            )
        }
    &&& view_frame_ok(v, config, locale, prayer)
}

fn day_holidays_if(on: bool, holidays: &HolidayStore, config: &BolootConfig, date: &CalendarDate, calendar: &CalendarEngine) -> (r: Vec<Holiday>)
    requires
        holidays.wf(),
    ensures
        r@ == shown(on, day_holidays(holidays.templates_of(config.calendar.country@), date.jalali_year as int, date.jalali_month as int, date.jalali_day as int)),
{
    if on {
        holidays.for_date(&config.calendar.country, date, calendar)
    } else {
        Vec::new()
    }
}

fn build_jalali_month_view(
    config: &BolootConfig,
    calendar: &CalendarEngine,
    holidays: &HolidayStore,
    prayer: Option<PrayerDayStatus>,
    year: Option<i32>,
    month: Option<u8>,
    today: &CalendarDate,
) -> (r: Result<MonthView, BolootError>)
    requires
        holidays.wf(),
    ensures
        ({
            let y = match year {
                Some(v) => v,
                None => today.jalali_year,
            };
            let m = match month {
                Some(v) => v,
                None => today.jalali_month,
            };
            &&& r is Ok <==> jalali_grid_ok(y as int, m as int, config.calendar.week_start)
            &&& r matches Err(e) ==> e is InvalidDate
            &&& r matches Ok(v) ==> jalali_view_ok(
                v,
                *config,
                calendar.spec_locale(),
                holidays.templates_of(config.calendar.country@),
                prayer,
                y as int,
                m as int,
                *today,
            )
        }),
{
    let year = match year {
        Some(v) => v,
        None => today.jalali_year,
    };
    let month = match month {
        Some(v) => v,
        None => today.jalali_month,
    };
    let locale = calendar.locale();
    let week_start = config.calendar.week_start;
    let numerals = config.calendar.effective_numerals();
    let calendar_type = config.calendar.calendar_type;
    let dual_calendar = calendar_type == CalendarSystem::DualJalaliGregorian;
    let show = config.calendar.show_holidays;
    let ghost templates = holidays.templates_of(config.calendar.country@);
    let grid = match calendar.month_grid_padded(year, month, week_start) {
        Ok(g) => g,
        Err(e) => {
            return Err(e);
        },
    };
    let month_holidays = if show {
        holidays.for_month(&config.calendar.country, year, month, calendar)
    } else {
        Vec::new()
    };
    let mut cells: Vec<MonthCell> = Vec::new();
    let mut i: usize = 0;
    while i < grid.len()
        invariant
            holidays.wf(),
            templates == holidays.templates_of(config.calendar.country@),
            *locale == calendar.spec_locale(),
            week_start == config.calendar.week_start,
            numerals == effective_numerals_spec(config.calendar.calendar_type, config.calendar.numerals),
            dual_calendar == (config.calendar.calendar_type == CalendarSystem::DualJalaliGregorian),
            show == config.calendar.show_holidays,
            grid@.len() == jalali_padded_len(year as int, month as int, week_start),
            forall|k: int|
                #![trigger grid@[k]]
                0 <= k < grid@.len() ==> {
                    let t = jalali_padded_cell(year as int, month as int, week_start, k);
                    &&& grid@[k].is_jalali(t.0, t.1, t.2)
                    &&& grid@[k].wf()
                },
            i <= grid@.len(),
            cells@.len() == i,
            forall|k: int|
                0 <= k < i ==> {
                    let d = jalali_grid_date(year as int, month as int, week_start, k);
                    cell_ok(
                        #[trigger] cells@[k],
                        d,
                        d.jalali_day,
                        d.jalali_year == year && d.jalali_month == month,
                        d.jalali_year == today.jalali_year && d.jalali_month == today.jalali_month
                            && d.jalali_day == today.jalali_day,
                        if dual_calendar {
                            Some(decimal((d.gregorian.day as u8) as nat))
                        } else {
                            None
                        },
                        shown(show, day_holidays(templates, d.jalali_year as int, d.jalali_month as int, d.jalali_day as int)),
                        locale.weekend_days@,
                        numerals,
                    )
                },
        decreases grid.len() - i,
    {
        let date = &grid[i];
        proof {
            lemma_jalali_grid_date(grid@[i as int], year as int, month as int, week_start, i as int);
        }
        let is_current_month = date.jalali_year == year && date.jalali_month == month;
        let is_today = date.jalali_year == today.jalali_year && date.jalali_month == today.jalali_month
            && date.jalali_day == today.jalali_day;
        let day_holidays = day_holidays_if(show, holidays, config, date, calendar);
        let secondary = if dual_calendar {
            Some(format_day(date.gregorian.day as u8, crate::format::effective_numerals(CalendarSystem::Gregorian, config.calendar.numerals)))
        } else {
            None
        };
        let cell = make_cell(date, date.jalali_day, is_current_month, is_today, secondary, &day_holidays, locale, numerals);
        cells.push(cell);
        i = i + 1;
    }
    let month_name = match locale.month_name(month) {
        Some(n) => owned(n),
        None => owned("---"),
    };
    let year_label = format_year_label(year, numerals);
    let title = format_month_title(month_name.as_str(), year, numerals);
    Ok(MonthView {
        jalali_year: year,
        jalali_month: month,
        display_year: year,
        display_month: month,
        calendar_type,
        month_name,
        year_label,
        title,
        weekday_headers: weekday_headers(locale, week_start, numerals, calendar_type),
        weekend_header_indices: weekend_header_indices(locale, week_start),
        cells,
        holidays: month_holidays,
        prayer,
        appearance: month_appearance(config),
        ui: ui_strings_for_config(config),
        text_direction: text_direction_for_config(config),
    })
}


/// The Hijri month view of `y/m` (see [`build_month_view`]).
pub open spec fn hijri_view_ok(
    v: MonthView,
    config: BolootConfig,
    locale: LocaleProfile,
    templates: Seq<HolidayTemplate>,
    prayer: Option<PrayerDayStatus>,
    y: int,
    m: int,
    today: CalendarDate,
) -> bool {
    let ws = config.calendar.week_start;
    let numerals = effective_numerals_spec(config.calendar.calendar_type, config.calendar.numerals);
    let show = config.calendar.show_holidays;
    let collected = shown(show, hijri_month_collected(templates, y, m, crate::calendar::hijri_len(y, m)));
    &&& v.jalali_year == today.jalali_year && v.jalali_month == today.jalali_month
    &&& v.display_year == y && v.display_month == m
    &&& v.calendar_type == CalendarSystem::Hijri
    &&& v.month_name@ == name_or_dashes(locale.hijri_month_names@, m)
    &&& v.year_label@ == year_label_text(y, numerals)
    &&& v.title@ == v.month_name@ + " "@ + v.year_label@
    &&& forall|i: int, j: int| 0 <= i < j < v.holidays@.len() ==> holiday_le(v.holidays@[i], v.holidays@[j])
    &&& forall|i: int, j: int| 0 <= i && j == i + 1 && j < v.holidays@.len() ==> !same_entry(v.holidays@[i], v.holidays@[j])
    &&& drawn_from(v.holidays@, collected)
    &&& represents(v.holidays@, collected)
    &&& v.cells@.len() == hijri_padded_len(y, m, ws)
    &&& forall|k: int|
        0 <= k < v.cells@.len() ==> {
            let d = hijri_grid_date(y, m, ws, k);
            cell_ok(
                #[trigger] v.cells@[k],
                d,
                d.hijri_day,
                d.hijri_year == y && d.hijri_month == m,
                d.hijri_year == today.hijri_year && d.hijri_month == today.hijri_month
                    && d.hijri_day == today.hijri_day,
                None,
                shown(show, day_holidays(templates, d.jalali_year as int, d.jalali_month as int, d.jalali_day as int)),
                locale.weekend_days@,
                numerals,
            )
        }
    &&& view_frame_ok(v, config, locale, prayer)
}

fn build_hijri_month_view(
    config: &BolootConfig,
    calendar: &CalendarEngine,
    holidays: &HolidayStore,
    prayer: Option<PrayerDayStatus>,
    year: Option<i32>,
    month: Option<u8>,
    today: &CalendarDate,
) -> (r: Result<MonthView, BolootError>)
    requires
        holidays.wf(),
        config.calendar.calendar_type == CalendarSystem::Hijri,
        ({
            let y = match year {
                Some(v) => v,
                None => today.hijri_year,
            };
            let m = match month {
                Some(v) => v,
                None => today.hijri_month,
            };
            !hijri_lookup_panics(y as usize as int, m as int, 1)
        }),
    ensures
        ({
            let y = match year {
                Some(v) => v,
                None => today.hijri_year,
            };
            let m = match month {
                Some(v) => v,
                None => today.hijri_month,
            };
            &&& r is Ok <==> hijri_grid_ok(y as int, m as int, config.calendar.week_start)
            &&& r matches Err(e) ==> e is InvalidDate
            &&& r matches Ok(v) ==> hijri_view_ok(
                v,
                *config,
                calendar.spec_locale(),
                holidays.templates_of(config.calendar.country@),
                prayer,
                y as int,
                m as int,
                *today,
            )
        }),
{
    let year = match year {
        Some(v) => v,
        None => today.hijri_year,
    };
    let month = match month {
        Some(v) => v,
        None => today.hijri_month,
    };
    let locale = calendar.locale();
    let week_start = config.calendar.week_start;
    let numerals = config.calendar.effective_numerals();
    let calendar_type = CalendarSystem::Hijri;
    let show = config.calendar.show_holidays;
    let ghost templates = holidays.templates_of(config.calendar.country@);
    let grid = match calendar.hijri_month_grid_padded(year, month, week_start) {
        Ok(g) => g,
        Err(e) => {
            return Err(e);
        },
    };
    let month_holidays = if show {
        holidays.for_hijri_month(&config.calendar.country, year, month, calendar)
    } else {
        Vec::new()
    };
    proof {
        if !show {
            assert(shown(show, hijri_month_collected(templates, year as int, month as int, crate::calendar::hijri_len(year as int, month as int))) =~= Seq::<Holiday>::empty());
        }
    }
    let mut cells: Vec<MonthCell> = Vec::new();
    let mut i: usize = 0;
    while i < grid.len()
        invariant
            holidays.wf(),
            templates == holidays.templates_of(config.calendar.country@),
            *locale == calendar.spec_locale(),
            week_start == config.calendar.week_start,
            numerals == effective_numerals_spec(config.calendar.calendar_type, config.calendar.numerals),
            show == config.calendar.show_holidays,
            grid@.len() == hijri_padded_len(year as int, month as int, week_start),
            forall|k: int|
                #![trigger grid@[k]]
                0 <= k < grid@.len() ==> {
                    let t = hijri_padded_cell(year as int, month as int, week_start, k);
                    &&& grid@[k].converts(hijri_date_of(t.0, t.1, t.2))
                    &&& grid@[k].wf()
                },
            i <= grid@.len(),
            cells@.len() == i,
            forall|k: int|
                0 <= k < i ==> {
                    let d = hijri_grid_date(year as int, month as int, week_start, k);
                    cell_ok(
                        #[trigger] cells@[k],
                        d,
                        d.hijri_day,
                        d.hijri_year == year && d.hijri_month == month,
                        d.hijri_year == today.hijri_year && d.hijri_month == today.hijri_month
                            && d.hijri_day == today.hijri_day,
                        None,
                        shown(show, day_holidays(templates, d.jalali_year as int, d.jalali_month as int, d.jalali_day as int)),
                        locale.weekend_days@,
                        numerals,
                    )
                },
        decreases grid.len() - i,
    {
        let date = &grid[i];
        proof {
            lemma_hijri_grid_date(grid@[i as int], year as int, month as int, week_start, i as int);
        }
        let is_current_month = date.hijri_year == year && date.hijri_month == month;
        let is_today = date.hijri_year == today.hijri_year && date.hijri_month == today.hijri_month
            && date.hijri_day == today.hijri_day;
        let day_holidays = day_holidays_if(show, holidays, config, date, calendar);
        let cell = make_cell(date, date.hijri_day, is_current_month, is_today, None, &day_holidays, locale, numerals);
        cells.push(cell);
        i = i + 1;
    }
    let month_name = if month >= 1 {
        match locale.hijri_month_name(month) {
            Some(n) => owned(n),
            None => owned("---"),
        }
    } else {
        owned("---")
    };
    let year_label = format_year_label(year, numerals);
    let title = format_month_title(month_name.as_str(), year, numerals);
    Ok(MonthView {
        jalali_year: today.jalali_year,
        jalali_month: today.jalali_month,
        display_year: year,
        display_month: month,
        calendar_type,
        month_name,
        year_label,
        title,
        weekday_headers: weekday_headers(locale, week_start, numerals, calendar_type),
        weekend_header_indices: weekend_header_indices(locale, week_start),
        cells,
        holidays: month_holidays,
        prayer,
        appearance: month_appearance(config),
        ui: ui_strings_for_config(config),
        text_direction: text_direction_for_config(config),
    })
}

/// The month view for a configuration: the Hijri month `year/month` when
/// the Hijri calendar is chosen, else the Jalali one; a missing year or
/// month is `today`'s. Fails when the month grid cannot be built.
pub fn build_month_view(
    config: &BolootConfig,
    calendar: &CalendarEngine,
    holidays: &HolidayStore,
    prayer: Option<PrayerDayStatus>,
    year: Option<i32>,
    month: Option<u8>,
    today: &CalendarDate,
) -> (r: Result<MonthView, BolootError>)
    requires
        holidays.wf(),
        config.calendar.calendar_type == CalendarSystem::Hijri ==> ({
            let y = match year {
                Some(v) => v,
                None => today.hijri_year,
            };
            let m = match month {
                Some(v) => v,
                None => today.hijri_month,
            };
            !hijri_lookup_panics(y as usize as int, m as int, 1)
        }),
    ensures
        config.calendar.calendar_type == CalendarSystem::Hijri ==> ({
            let y = match year {
                Some(v) => v,
                None => today.hijri_year,
            };
            let m = match month {
                Some(v) => v,
                None => today.hijri_month,
            };
            &&& r is Ok <==> hijri_grid_ok(y as int, m as int, config.calendar.week_start)
            &&& r matches Ok(v) ==> hijri_view_ok(
                v,
                *config,
                calendar.spec_locale(),
                holidays.templates_of(config.calendar.country@),
                prayer,
                y as int,
                m as int,
                *today,
            )
        }),
        config.calendar.calendar_type != CalendarSystem::Hijri ==> ({
            let y = match year {
                Some(v) => v,
                None => today.jalali_year,
            };
            let m = match month {
                Some(v) => v,
                None => today.jalali_month,
            };
            &&& r is Ok <==> jalali_grid_ok(y as int, m as int, config.calendar.week_start)
            &&& r matches Ok(v) ==> jalali_view_ok(
                v,
                *config,
                calendar.spec_locale(),
                holidays.templates_of(config.calendar.country@),
                prayer,
                y as int,
                m as int,
                *today,
            )
        }),
        r matches Err(e) ==> e is InvalidDate,
{
    match config.calendar.calendar_type {
        CalendarSystem::Hijri => build_hijri_month_view(config, calendar, holidays, prayer, year, month, today),
        _ => build_jalali_month_view(config, calendar, holidays, prayer, year, month, today),
    }
}

/// Year and month asked of a month view: zero or less means the current
/// one; a month above 12 is refused with a message.
pub fn month_view_args(year: i32, month: i32) -> (r: Result<(Option<i32>, Option<u8>), String>)
    ensures
        month > 12 ==> (r matches Err(m) && m@ == "month must be 1–12, got "@ + int_decimal(month as int)),
        month <= 12 ==> (r matches Ok(a) && a.0 == (if year <= 0 {
            None
        } else {
            Some(year)
        }) && a.1 == (if month <= 0 {
            None
        } else {
            Some(month as u8)
        })),
{
    if month > 12 {
        let n = i64_to_string(month as i64);
        return Err(concat2("month must be 1–12, got ", n.as_str()));
    }
    let y = if year <= 0 {
        None
    } else {
        Some(year)
    };
    let m = if month <= 0 {
        None
    } else {
        Some(month as u8)
    };
    Ok((y, m))
}

} // verus!
