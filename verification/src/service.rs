//! The calendar service: today's view, the panel tooltip, the top-bar text,
//! month views and holiday queries for one user's settings.
//!
//! The clock, the prayer-time calculation and file loading happen outside;
//! their results come in as arguments.
use vstd::prelude::*;

use crate::backend::hijri_lookup_panics;
use crate::calendar::{hijri_grid_ok, hijri_ok, jalali_grid_ok, CalendarDate, CalendarEngine, CalendarSystem, CalendarView};
use crate::config::BolootConfig;
use crate::countries::CountryRegistry;
use crate::error::BolootError;
use crate::format::{effective_numerals_spec, format_time, formatted, name_views, styled, time_text, weekday_name_or, with_calendar_spec, DateFormatter};
use crate::gregorian::{GregorianDate, MAX_YEAR};
use crate::holidays::{day_holidays, Holiday, HolidayStore};
use crate::locale::{profile_kind, LocaleProfile};
use crate::month_view::{build_month_view, format_day, header_label, hijri_view_ok, holiday_names_of, jalali_view_ok, opt_text, shown, MonthView};
use crate::prayer::{format_top_bar, top_bar_text as prayer_top_bar_text, PrayerDayStatus};
use crate::system_locale::DetectedLocale;
use crate::text::{concat2, decimal, join, join_seq, owned, views};
use crate::ui_strings::{ui_table, UiStrings};

verus! {

/// One user's calendar: settings, the engine for their locale, and holidays.
pub struct BolootService {
    config: BolootConfig,
    calendar: CalendarEngine,
    holidays: HolidayStore,
}

/// The formatter of the settings, with or without the weekday.
pub open spec fn formatter_of(config: BolootConfig, show_weekday: bool) -> DateFormatter {
    DateFormatter {
        calendar: config.calendar.calendar_type,
        numerals: effective_numerals_spec(config.calendar.calendar_type, config.calendar.numerals),
        style: config.calendar.date_style,
        custom_pattern: None,
        show_weekday,
    }
}

/// The day number shown on the panel: Gregorian, Hijri or Jalali day by calendar.
pub open spec fn panel_day(calendar: CalendarSystem, date: CalendarDate) -> u8 {
    match calendar {
        CalendarSystem::Gregorian => date.gregorian.day as u8,
        CalendarSystem::Hijri => date.hijri_day,
        _ => date.jalali_day,
    }
}

/// The view of `date` before its tooltip is set.
pub open spec fn view_ok(v: CalendarView, date: CalendarDate, config: BolootConfig, locale: LocaleProfile, hs: Seq<Holiday>) -> bool {
    let f = formatter_of(config, true);
    let ct = config.calendar.calendar_type;
    &&& v.primary@ == formatted(f, date, locale)
    &&& opt_text(v.secondary) == (if ct == CalendarSystem::DualJalaliGregorian {
        Some(formatted(with_calendar_spec(f, CalendarSystem::Gregorian), date, locale))
    } else {
        None
    })
    &&& v.weekday@ == weekday_name_or(
        if ct == CalendarSystem::Hijri {
            name_views(locale.hijri_weekday_names@)
        } else {
            name_views(locale.weekday_names@)
        },
        date,
        "---"@,
    )
    &&& v.weekday_short@ == header_label(locale, date.weekday, ct)
    &&& v.panel_day_label@ == styled(decimal(panel_day(ct, date) as nat), f.numerals)
    &&& views(v.holiday_names@) == holiday_names_of(hs)
    &&& v.is_holiday == (hs.len() > 0)
    &&& v.is_weekend == locale.weekend_days@.contains(date.weekday)
    &&& v.jalali == date
}

/// Lines of the panel tooltip: weekday, date, the Gregorian date in dual
/// mode, and the next prayer when asked for, prayers are on and known.
pub open spec fn tooltip_lines(v: CalendarView, config: BolootConfig, locale: LocaleProfile, include_prayer: bool, prayer: Option<PrayerDayStatus>) -> Seq<Seq<char>> {
    let base = seq![v.weekday@, formatted(formatter_of(config, false), v.jalali, locale)];
    let with_secondary = match v.secondary {
        Some(s) => base.push(s@),
        None => base,
    };
    if include_prayer && config.prayer.enabled && (prayer matches Some(p) && p.next is Some) {
        let n = prayer->0.next->0;
        with_secondary.push(ui_table(config.calendar.language)[2] + " "@ + n.label@ + " "@ + n.time@)
    } else {
        with_secondary
    }
}

impl BolootService {
    pub closed spec fn wf(&self) -> bool {
        &&& self.holidays.wf()
        &&& self.calendar.spec_locale().is_profile(profile_kind(self.config.calendar.country@, self.config.calendar.language))
    }

    pub closed spec fn spec_config(&self) -> BolootConfig {
        self.config
    }

    pub closed spec fn spec_locale(&self) -> LocaleProfile {
        self.calendar.spec_locale()
    }

    pub closed spec fn spec_holidays(&self) -> HolidayStore {
        self.holidays
    }

    /// A service for `config` with the given holiday data.
    pub fn new(config: BolootConfig, holidays: HolidayStore) -> (s: Self)
        requires
            holidays.wf(),
        ensures
            s.wf(),
            s.spec_config() == config,
            s.spec_holidays() == holidays,
    {
        let calendar = CalendarEngine::new(config.calendar.country.duplicate(), config.calendar.language);
        BolootService { config, calendar, holidays }
    }

    pub fn config(&self) -> (c: &BolootConfig)
        ensures
            *c == self.spec_config(),
    {
        &self.config
    }

    pub fn calendar(&self) -> (c: &CalendarEngine)
        ensures
            c.spec_locale() == self.spec_locale(),
    {
        &self.calendar
    }

    pub fn locale(&self) -> (l: &LocaleProfile)
        ensures
            *l == self.spec_locale(),
    {
        self.calendar.locale()
    }

    fn formatter(&self, show_weekday: bool) -> (f: DateFormatter)
        ensures
            f == formatter_of(self.config, show_weekday),
    {
        DateFormatter {
            calendar: self.config.calendar.calendar_type,
            numerals: self.config.calendar.effective_numerals(),
            style: self.config.calendar.date_style,
            custom_pattern: None,
            show_weekday,
        }
    }

    /// Day number on the panel, in the settings' digits.
    fn panel_day_label(&self, date: &CalendarDate) -> (s: String)
        ensures
            s@ == styled(decimal(panel_day(self.config.calendar.calendar_type, *date) as nat), effective_numerals_spec(self.config.calendar.calendar_type, self.config.calendar.numerals)),
    {
        let day = match self.config.calendar.calendar_type {
            CalendarSystem::Gregorian => date.gregorian.day as u8,
            CalendarSystem::Hijri => date.hijri_day,
            _ => date.jalali_day,
        };
        format_day(day, self.config.calendar.effective_numerals())
    }

    fn format_view(&self, date: &CalendarDate) -> (v: CalendarView)
        requires
            self.wf(),
            date.wf(),
        ensures
            view_ok(v, *date, self.config, self.spec_locale(), shown(self.config.calendar.show_holidays, day_holidays(self.holidays.templates_of(self.config.calendar.country@), date.jalali_year as int, date.jalali_month as int, date.jalali_day as int))),
            v.panel_tooltip@.len() == 0,
    {
        let formatter = self.formatter(true);
        let calendar_type = self.config.calendar.calendar_type;
        let locale = self.calendar.locale();
        let day_holidays = if self.config.calendar.show_holidays {
            self.holidays.for_date(&self.config.calendar.country, date, &self.calendar)
        } else {
            Vec::new()
        };
        let holiday_names = names(&day_holidays);
        let mut is_weekend = false;
        let mut i: usize = 0;
        while i < locale.weekend_days.len()
            invariant
                i <= locale.weekend_days@.len(),
                is_weekend == locale.weekend_days@.take(i as int).contains(date.weekday),
            decreases locale.weekend_days.len() - i,
        {
            proof {
                assert(locale.weekend_days@.take(i + 1) =~= locale.weekend_days@.take(i as int).push(locale.weekend_days@[i as int]));
                lemma_push_contains(locale.weekend_days@.take(i as int), locale.weekend_days@[i as int], date.weekday);
            }
            if locale.weekend_days[i] == date.weekday {
                is_weekend = true;
            }
            i = i + 1;
        }
        assert(locale.weekend_days@.take(locale.weekend_days@.len() as int) =~= locale.weekend_days@);
        let weekday = match locale.weekday_name(date.weekday, calendar_type) {
            Some(n) => owned(n),
            None => owned("---"),
        };
        let weekday_short = match locale.weekday_short(date.weekday, calendar_type) {
            Some(n) => owned(n),
            None => owned("-"),
        };
        CalendarView {
            primary: formatter.format(date, locale),
            secondary: formatter.format_secondary(date, locale),
            weekday,
            weekday_short,
            panel_day_label: self.panel_day_label(date),
            panel_tooltip: String::new(),
            is_holiday: day_holidays.len() > 0,
            is_weekend,
            holiday_names,
            jalali: *date,
        }
    }

    /// The panel tooltip of a view: its lines joined by newlines.
    fn build_panel_tooltip(&self, view: &CalendarView, include_prayer: bool, prayer: Option<&PrayerDayStatus>) -> (s: String)
        requires
            view.jalali.wf(),
        ensures
            s@ == join_seq(tooltip_lines(*view, self.config, self.spec_locale(), include_prayer, match prayer {
                Some(p) => Some(*p),
                None => None,
            }), "\n"@),
    {
        let formatter = self.formatter(false);
        let locale = self.calendar.locale();
        let date_only = formatter.format(&view.jalali, locale);
        let mut lines: Vec<String> = Vec::new();
        lines.push(view.weekday.clone());
        lines.push(date_only);
        match &view.secondary {
            Some(secondary) => {
                lines.push(secondary.clone());
            },
            None => {},
        }
        if include_prayer && self.config.prayer.enabled {
            match prayer {
                Some(schedule) => {
                    match &schedule.next {
                        Some(next) => {
                            let ui = UiStrings::for_language(self.config.calendar.language);
                            let mut line = concat2(ui.next_prayer_prefix.as_str(), " ");
                            line.append(next.label.as_str());
                            line.append(" ");
                            line.append(next.time.as_str());
                            lines.push(line);
                        },
                        None => {},
                    }
                },
                None => {},
            }
        }
        let ghost expected = tooltip_lines(*view, self.config, self.spec_locale(), include_prayer, match prayer {
            Some(p) => Some(*p),
            None => None,
        });
        assert(views(lines@) =~= expected);
        join(&lines, "\n")
    }

    /// The view of a Gregorian date; the tooltip lists the next prayer when
    /// the date is `today`. `prayer` is today's prayer status, when known.
    pub fn view_for(&self, gregorian: GregorianDate, today: GregorianDate, prayer: Option<&PrayerDayStatus>) -> (r: Result<CalendarView, BolootError>)
        requires
            self.wf(),
            gregorian.wf(),
        ensures
            r is Ok <==> hijri_ok(gregorian),
            r is Ok <==> 1938 <= gregorian.year <= 2076,
            r matches Err(e) ==> e is InvalidDate,
            r matches Ok(v) ==> v.jalali.converts(gregorian) && view_ok(v, v.jalali, self.spec_config(), self.spec_locale(), shown(self.spec_config().calendar.show_holidays, day_holidays(self.spec_holidays().templates_of(self.spec_config().calendar.country@), v.jalali.jalali_year as int, v.jalali.jalali_month as int, v.jalali.jalali_day as int)))
                && v.panel_tooltip@ == join_seq(tooltip_lines(v, self.spec_config(), self.spec_locale(), gregorian == today, match prayer {
                    Some(p) => Some(*p),
                    None => None,
                }), "\n"@),
    {
        let date = match self.calendar.on_date(gregorian) {
            Ok(d) => d,
            Err(e) => {
                return Err(e);
            },
        };
        let mut view = self.format_view(&date);
        let is_today = gregorian == today;
        view.panel_tooltip = self.build_panel_tooltip(&view, is_today, prayer);
        Ok(view)
    }

    /// Today's view, its tooltip with the next prayer.
    pub fn today_view(&self, today: GregorianDate, prayer: Option<&PrayerDayStatus>) -> (r: Result<CalendarView, BolootError>)
        requires
            self.wf(),
            today.wf(),
        ensures
            r is Ok <==> hijri_ok(today),
            r is Ok <==> 1938 <= today.year <= 2076,
            r matches Err(e) ==> e is InvalidDate,
            r matches Ok(v) ==> v.jalali.converts(today) && view_ok(v, v.jalali, self.spec_config(), self.spec_locale(), shown(self.spec_config().calendar.show_holidays, day_holidays(self.spec_holidays().templates_of(self.spec_config().calendar.country@), v.jalali.jalali_year as int, v.jalali.jalali_month as int, v.jalali.jalali_day as int)))
                && v.panel_tooltip@ == join_seq(tooltip_lines(v, self.spec_config(), self.spec_locale(), true, match prayer {
                    Some(p) => Some(*p),
                    None => None,
                }), "\n"@),
    {
        self.view_for(today, today, prayer)
    }

    /// The top-bar text: the clock (when shown), today's date, the
    /// Gregorian date in dual mode and the prayer text (when shown), joined
    /// by `" · "`. `clock` is the local time in the configured timezone, or
    /// `None` when that timezone is unknown, which is an error if the clock is shown.
    pub fn top_bar_text(&self, today_view: &CalendarView, clock: Option<(u32, u32)>, prayer: Option<&PrayerDayStatus>) -> (r: Result<String, BolootError>)
        ensures
            (self.spec_config().appearance.show_clock && clock is None) ==> (r matches Err(e) && e matches BolootError::InvalidConfig(m) && m@ == "invalid timezone: "@ + self.spec_config().calendar.timezone@),
            !(self.spec_config().appearance.show_clock && clock is None) ==> (r matches Ok(s) && s@ == join_seq(top_bar_parts(*today_view, self.spec_config(), clock, match prayer {
                Some(p) => Some(*p),
                None => None,
            }), " · "@)),
    {
        let mut parts: Vec<String> = Vec::new();
        let numerals = self.config.calendar.effective_numerals();
        if self.config.appearance.show_clock {
            match clock {
                Some((h, m)) => {
                    parts.push(format_time(h, m, numerals));
                },
                None => {
                    return Err(BolootError::InvalidConfig(concat2("invalid timezone: ", self.config.calendar.timezone.as_str())));
                },
            }
        }
        parts.push(today_view.primary.clone());
        match &today_view.secondary {
            Some(s) => {
                parts.push(s.clone());
            },
            None => {},
        }
        if self.config.prayer.enabled && self.config.prayer.show_in_top_bar {
            match prayer {
                Some(schedule) => {
                    match format_top_bar(schedule, self.config.prayer.display_mode, numerals) {
                        Some(t) => {
                            parts.push(t);
                        },
                        None => {},
                    }
                },
                None => {},
            }
        }
        let ghost expected = top_bar_parts(*today_view, self.config, clock, match prayer {
            Some(p) => Some(*p),
            None => None,
        });
        assert(views(parts@) =~= expected);
        Ok(join(&parts, " · "))
    }

    /// The month view (see [`build_month_view`]); the prayer status goes in
    /// when prayers are on and shown in the popup.
    pub fn month_view(&self, year: Option<i32>, month: Option<u8>, today: &CalendarDate, prayer: Option<PrayerDayStatus>) -> (r: Result<MonthView, BolootError>)
        requires
            self.wf(),
            self.spec_config().calendar.calendar_type == CalendarSystem::Hijri ==> ({
                let y = match year {
                    Some(v) => v,
                    None => today.hijri_year,
                };
                let m = match month {
                    Some(v) => v,
                    None => today.hijri_month,
                };
                !hijri_lookup_panics(y as usize as int, m as int, 1)
            }),
        ensures
            ({
                let cfg = self.spec_config();
                let p = if cfg.prayer.enabled && cfg.prayer.show_in_popup {
                    prayer
                } else {
                    None
                };
                let templates = self.spec_holidays().templates_of(cfg.calendar.country@);
                if cfg.calendar.calendar_type == CalendarSystem::Hijri {
                    let y = match year {
                        Some(v) => v,
                        None => today.hijri_year,
                    };
                    let m = match month {
                        Some(v) => v,
                        None => today.hijri_month,
                    };
                    &&& r is Ok <==> hijri_grid_ok(y as int, m as int, cfg.calendar.week_start)
                    &&& r matches Ok(v) ==> hijri_view_ok(v, cfg, self.spec_locale(), templates, p, y as int, m as int, *today)
                } else {
                    let y = match year {
                        Some(v) => v,
                        None => today.jalali_year,
                    };
                    let m = match month {
                        Some(v) => v,
                        None => today.jalali_month,
                    };
                    &&& r is Ok <==> jalali_grid_ok(y as int, m as int, cfg.calendar.week_start)
                    &&& r matches Ok(v) ==> jalali_view_ok(v, cfg, self.spec_locale(), templates, p, y as int, m as int, *today)
                }
            }),
            r matches Ok(v) ==> v.prayer == (if self.spec_config().prayer.enabled && self.spec_config().prayer.show_in_popup {
                prayer
            } else {
                None
            }),
            r matches Err(e) ==> e is InvalidDate,
    {
        let p = if self.config.prayer.enabled && self.config.prayer.show_in_popup {
            prayer
        } else {
            None
        };
        build_month_view(&self.config, &self.calendar, &self.holidays, p, year, month, today)
    }

    /// Whole weeks of a Jalali month with the settings' week start.
    pub fn month_grid(&self, jalali_year: i32, jalali_month: u8) -> (r: Result<Vec<Option<CalendarDate>>, BolootError>)
        ensures
            r is Ok <==> crate::calendar::jalali_month_grid_ok(jalali_year as int, jalali_month as int, self.spec_config().calendar.week_start),
    {
        self.calendar.month_grid(jalali_year, jalali_month, self.config.calendar.week_start)
    }

    /// Holidays of the settings' country on `today`.
    pub fn holidays_for_today(&self, today: &CalendarDate) -> (r: Vec<Holiday>)
        requires
            self.wf(),
        ensures
            r@ == day_holidays(self.spec_holidays().templates_of(self.spec_config().calendar.country@), today.jalali_year as int, today.jalali_month as int, today.jalali_day as int),
    {
        self.holidays.for_date(&self.config.calendar.country, today, &self.calendar)
    }

    /// Holidays of the settings' country in a Jalali month.
    pub fn holidays_for_month(&self, jalali_year: i32, jalali_month: u8) -> (r: Vec<Holiday>)
        requires
            self.wf(),
        ensures
            r@ == crate::holidays::month_holidays(self.spec_holidays().templates_of(self.spec_config().calendar.country@), jalali_year as int, jalali_month as int),
    {
        self.holidays.for_month(&self.config.calendar.country, jalali_year, jalali_month, &self.calendar)
    }

    /// Holidays of the settings' country on the day after `today`.
    pub fn holidays_tomorrow(&self, today: &CalendarDate) -> (r: Vec<Holiday>)
        requires
            self.wf(),
            today.gregorian.wf(),
            !(today.gregorian.year == MAX_YEAR && today.gregorian.month == 12 && today.gregorian.day == 31),
        ensures
            ({
                let n = crate::gregorian::next_day(today.gregorian);
                if hijri_ok(n) {
                    let j = crate::holidays::jalali_of_day(n.day_number());
                    r@ == day_holidays(self.spec_holidays().templates_of(self.spec_config().calendar.country@), j.0, j.1, j.2)
                } else {
                    r@.len() == 0
                }
            }),
    {
        self.holidays.tomorrow_holidays(&self.config.calendar.country, today, &self.calendar)
    }

    /// Replaces the settings: takes the system locale when the new settings
    /// follow it, else applies country defaults if country or language
    /// changed; the engine follows the new country and language.
    pub fn apply_settings(&mut self, new_config: BolootConfig, detected: &DetectedLocale, registry: &CountryRegistry)
        requires
            old(self).wf(),
            registry.wf(),
        ensures
            final(self).wf(),
            final(self).spec_holidays() == old(self).spec_holidays(),
            new_config.calendar.follow_system_locale ==> final(self).spec_config().calendar.country@ == detected.country@
                && final(self).spec_config().calendar.language == detected.language
                && final(self).spec_config().calendar.numerals == detected.numerals,
            new_config.calendar.follow_system_locale ==> ({
                let mid = BolootConfig {
                    calendar: crate::config::CalendarSettings {
                        country: final(self).spec_config().calendar.country,
                        language: detected.language,
                        numerals: detected.numerals,
                        ..new_config.calendar
                    },
                    ..new_config
                };
                &&& crate::config::same_but_timezone(final(self).spec_config(), crate::config::with_country_defaults(mid, new_config.calendar.country@, new_config.calendar.language, *registry))
                &&& final(self).spec_config().calendar.timezone@ == crate::config::timezone_after(mid, new_config.calendar.country@, new_config.calendar.language)
            }),
            !new_config.calendar.follow_system_locale ==> ({
                &&& crate::config::same_but_timezone(final(self).spec_config(), crate::config::with_country_defaults(new_config, old(self).spec_config().calendar.country@, old(self).spec_config().calendar.language, *registry))
                &&& final(self).spec_config().calendar.timezone@ == crate::config::timezone_after(new_config, old(self).spec_config().calendar.country@, old(self).spec_config().calendar.language)
            }),
    {
        let old_country = self.config.calendar.country.duplicate();
        let old_language = self.config.calendar.language;
        self.config = new_config;
        if self.config.calendar.follow_system_locale {
            self.config.apply_system_locale(detected, registry);
        } else {
            self.config.apply_country_defaults_on_change(&old_country, old_language, registry);
        }
        self.calendar = CalendarEngine::new(self.config.calendar.country.duplicate(), self.config.calendar.language);
    }
}

/// Parts of the top bar (see [`BolootService::top_bar_text`]).
pub open spec fn top_bar_parts(v: CalendarView, config: BolootConfig, clock: Option<(u32, u32)>, prayer: Option<PrayerDayStatus>) -> Seq<Seq<char>> {
    let numerals = effective_numerals_spec(config.calendar.calendar_type, config.calendar.numerals);
    let hm = clock->0;
    let a = if config.appearance.show_clock {
        seq![time_text(hm.0 as nat, hm.1 as nat, numerals)]
    } else {
        Seq::empty()
    };
    let b = a.push(v.primary@);
    let c = match v.secondary {
        Some(s) => b.push(s@),
        None => b,
    };
    if config.prayer.enabled && config.prayer.show_in_top_bar && prayer is Some && prayer_top_bar_text(prayer->0, config.prayer.display_mode, numerals) is Some {
        c.push(prayer_top_bar_text(prayer->0, config.prayer.display_mode, numerals)->0)
    } else {
        c
    }
}

fn names(holidays: &Vec<Holiday>) -> (r: Vec<String>)
    ensures
        views(r@) == holiday_names_of(holidays@),
{
    let mut out: Vec<String> = Vec::new();
    let mut i: usize = 0;
    while i < holidays.len()
        invariant
            i <= holidays@.len(),
            views(out@) == holiday_names_of(holidays@.take(i as int)),
        decreases holidays.len() - i,
    {
        let ghost before = out@;
        out.push(holidays[i].name.clone());
        proof {
            assert(views(out@) =~= views(before).push(holidays@[i as int].name@));
            assert(holiday_names_of(holidays@.take(i + 1)) =~= holiday_names_of(holidays@.take(i as int)).push(holidays@[i as int].name@));
        }
        i = i + 1;
    }
    assert(holidays@.take(holidays@.len() as int) =~= holidays@);
    out
}

proof fn lemma_push_contains<A>(s: Seq<A>, x: A, y: A)
    ensures
        s.push(x).contains(y) <==> (s.contains(y) || x == y),
{
    let t = s.push(x);
    if t.contains(y) {
        let j = choose|j: int| 0 <= j < t.len() && t[j] == y;
        if j < s.len() {
            assert(s[j] == y);
        }
    }
    if s.contains(y) {
        let j = choose|j: int| 0 <= j < s.len() && s[j] == y;
        assert(t[j] == y);
    }
    if x == y {
        assert(t[s.len() as int] == y);
    }
}

} // verus!
