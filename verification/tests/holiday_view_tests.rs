use boloot_cal_core::calendar::{CalendarDate, CalendarEngine, CalendarSystem};
use boloot_cal_core::config::BolootConfig;
use boloot_cal_core::countries::CountryProfile;
use boloot_cal_core::format::NumeralStyle;
use boloot_cal_core::gregorian::GregorianDate;
use boloot_cal_core::holidays::{Holiday, HolidayKind, HolidayStore, HolidayTemplate};
use boloot_cal_core::locale::{LanguageVariant, Weekday};
use boloot_cal_core::month_view::{build_month_view, build_tooltip, format_day, weekday_headers, weekend_header_indices};

fn template(name: &str, month: u8, day: u8, lunar: bool, year: Option<i32>, kind: HolidayKind) -> HolidayTemplate {
    HolidayTemplate { name: name.into(), month, day, lunar, fixed_jalali_year: year, kind }
}

fn iran_store() -> HolidayStore {
    let mut store = HolidayStore::default();
    store.insert(
        "iran".into(),
        vec![
            template("جشن نوروز", 1, 1, false, None, HolidayKind::National),
            template("نوروز", 1, 2, false, None, HolidayKind::National),
            template("روز طبیعت", 1, 13, false, None, HolidayKind::Cultural),
            template("عید فطر", 10, 1, true, None, HolidayKind::Religious),
            template("روز ویژه", 4, 5, false, Some(1403), HolidayKind::Cultural),
            template("عید قربان", 12, 10, true, None, HolidayKind::Religious),
        ],
    );
    store
}

fn engine() -> CalendarEngine {
    CalendarEngine::new(CountryProfile::iran(), LanguageVariant::Persian)
}

fn on(engine: &CalendarEngine, y: i32, m: u32, d: u32) -> CalendarDate {
    engine.on_date(GregorianDate::from_ymd_opt(y, m, d).unwrap()).unwrap()
}

#[test]
fn loads_iran_holidays_if_present() {
    let store = iran_store();
    let calendar = engine();
    let holidays = store.for_month(&CountryProfile::iran(), 1404, 1, &calendar);
    assert!(!holidays.is_empty());
}

#[test]
fn resolves_eid_fitr_lunar() {
    let store = iran_store();
    let calendar = engine();
    let year_holidays = store.for_year(&CountryProfile::iran(), 1404, &calendar);
    let eid = year_holidays.iter().find(|h| h.name.contains("عید فطر"));
    assert!(eid.is_some(), "Eid al-Fitr should resolve for 1404");
    let eid = eid.unwrap();
    assert!(eid.is_lunar);
    assert!(eid.jalali_month >= 1 && eid.jalali_month <= 12);
    assert_eq!(eid.hijri_month, Some(10));
    assert_eq!(eid.hijri_day, Some(1));
}

#[test]
fn fixed_holidays_fall_on_their_dates() {
    let store = iran_store();
    let calendar = engine();
    let farvardin = store.for_month(&CountryProfile::iran(), 1404, 1, &calendar);
    let fixed: Vec<(&str, u8)> = farvardin.iter().filter(|h| !h.is_lunar).map(|h| (h.name.as_str(), h.jalali_day)).collect();
    assert_eq!(fixed, vec![("جشن نوروز", 1), ("نوروز", 2), ("روز طبیعت", 13)]);
    assert!(farvardin.iter().all(|h| h.jalali_month == 1 && h.jalali_year == 1404));
    assert!(store.for_month(&CountryProfile::iran(), 1404, 4, &calendar).iter().all(|h| h.name != "روز ویژه"));
    assert!(store.for_month(&CountryProfile::iran(), 1403, 4, &calendar).iter().any(|h| h.name == "روز ویژه"));
    assert!(store.for_month(&CountryProfile::afghanistan(), 1404, 1, &calendar).is_empty());
}

#[test]
fn date_and_tomorrow_queries() {
    let store = iran_store();
    let calendar = engine();
    let nowruz = on(&calendar, 2025, 3, 21);
    let names: Vec<String> = store.for_date(&CountryProfile::iran(), &nowruz, &calendar).into_iter().map(|h| h.name).collect();
    assert_eq!(names, vec!["جشن نوروز".to_string()]);
    let eve = on(&calendar, 2025, 3, 20);
    let tomorrow: Vec<String> = store.tomorrow_holidays(&CountryProfile::iran(), &eve, &calendar).into_iter().map(|h| h.name).collect();
    assert_eq!(tomorrow, vec!["جشن نوروز".to_string()]);
}

#[test]
fn hijri_month_holidays_are_sorted_and_unique() {
    let store = iran_store();
    let calendar = engine();
    let shawwal = store.for_hijri_month(&CountryProfile::iran(), 1446, 10, &calendar);
    assert!(shawwal.iter().any(|h| h.name == "عید فطر"));
    for pair in shawwal.windows(2) {
        assert!((pair[0].jalali_month, pair[0].jalali_day) <= (pair[1].jalali_month, pair[1].jalali_day));
        assert!(!(pair[0].name == pair[1].name && pair[0].jalali_day == pair[1].jalali_day && pair[0].jalali_month == pair[1].jalali_month));
    }
    assert!(store.for_hijri_month(&CountryProfile::iran(), 1600, 1, &calendar).is_empty());
}

#[test]
fn format_day_persian_digits() {
    assert_eq!(format_day(15, NumeralStyle::Persian), "۱۵");
    assert_eq!(format_day(15, NumeralStyle::Latin), "15");
}

#[test]
fn lunar_holiday_tooltip_has_approximate_prefix() {
    let holidays = iran_store();
    let calendar = engine();
    let year_holidays = holidays.for_year(&CountryProfile::iran(), 1404, &calendar);
    let lunar = year_holidays.iter().find(|h| h.is_lunar);
    if let Some(holiday) = lunar {
        let tooltip = build_tooltip(&vec![holiday.duplicate()]).unwrap();
        assert!(tooltip.starts_with('≈'));
    }
}

#[test]
fn tooltip_joins_names() {
    let a = Holiday { name: "a".into(), jalali_month: 1, jalali_day: 1, jalali_year: 1404, is_lunar: false, hijri_month: None, hijri_day: None, kind: HolidayKind::National };
    let b = Holiday { name: "b".into(), is_lunar: true, ..a.duplicate() };
    assert_eq!(build_tooltip(&vec![a, b]), Some("a، ≈ b".to_string()));
    assert_eq!(build_tooltip(&vec![]), None);
}

fn view_for(config: &BolootConfig, calendar: &CalendarEngine, year: i32, month: u8) -> boloot_cal_core::month_view::MonthView {
    let today = on(calendar, 2025, 7, 1);
    build_month_view(config, calendar, &iran_store(), None, Some(year), Some(month), &today).unwrap()
}

#[test]
fn padding_days_are_outside_current_month() {
    let config = BolootConfig::default();
    let calendar = engine();
    let view = view_for(&config, &calendar, 1404, 4);
    assert!(view.cells.iter().any(|c| !c.is_current_month));
    assert!(view.cells.iter().any(|c| c.is_current_month));
    for cell in &view.cells {
        if !cell.is_current_month {
            assert!(cell.jalali_month != view.jalali_month || cell.jalali_year != view.jalali_year);
        }
    }
}

#[test]
fn dual_calendar_includes_secondary_label() {
    let mut config = BolootConfig::default();
    config.calendar.calendar_type = CalendarSystem::DualJalaliGregorian;
    let calendar = engine();
    let view = view_for(&config, &calendar, 1404, 1);
    let with_secondary: Vec<_> = view.cells.iter().filter(|c| c.secondary_label.is_some()).collect();
    assert!(!with_secondary.is_empty());
}

#[test]
fn title_uses_month_name_and_year() {
    let config = BolootConfig::default();
    let calendar = engine();
    let view = view_for(&config, &calendar, 1404, 1);
    assert!(view.title.contains(&view.month_name));
    assert!(view.title.contains(&view.year_label));
    assert!(view.year_label.contains('۴') || view.year_label.contains("1404"));
}

#[test]
fn hijri_month_view_uses_arabic_weekday_headers() {
    let mut config = BolootConfig::default();
    config.calendar.calendar_type = CalendarSystem::Hijri;
    let calendar = engine();
    let view = view_for(&config, &calendar, 1447, 9);
    assert_eq!(view.calendar_type, CalendarSystem::Hijri);
    assert!(view.title.contains("رمضان"));
    assert!(view.weekday_headers.iter().any(|h| h.contains('س') || h == "س"));
    assert!(view.weekday_headers.iter().any(|h| h.contains("الجمعة") || h == "ج"));
}

#[test]
fn weekend_header_indices_mark_friday_for_iran() {
    let config = BolootConfig::default();
    let calendar = engine();
    let view = view_for(&config, &calendar, 1404, 4);
    assert_eq!(view.weekend_header_indices, vec![6]);
}

#[test]
fn cells_include_gregorian_date() {
    let config = BolootConfig::default();
    let calendar = engine();
    let view = view_for(&config, &calendar, 1404, 1);
    for cell in &view.cells {
        assert!(cell.gregorian_date.len() == 10, "expected ISO date, got {:?}", cell.gregorian_date);
        assert_eq!(cell.gregorian_date.as_bytes()[4], b'-');
        assert_eq!(cell.gregorian_date.as_bytes()[7], b'-');
    }
}

#[test]
fn gregorian_calendar_uses_english_nav_and_ltr() {
    let calendar = engine();
    let mut gregorian_config = BolootConfig::default();
    gregorian_config.calendar.calendar_type = CalendarSystem::Gregorian;
    let view = view_for(&gregorian_config, &calendar, 1404, 1);
    assert_eq!(view.text_direction, "ltr");
    assert_eq!(view.ui.prev_month_label, "Previous month");
    assert_eq!(view.ui.next_month_label, "Next month");
}

#[test]
fn text_direction_is_rtl_for_persian_and_ltr_for_tajik() {
    let calendar = engine();
    let mut persian_config = BolootConfig::default();
    persian_config.calendar.language = LanguageVariant::Persian;
    let persian_view = view_for(&persian_config, &calendar, 1404, 1);
    assert_eq!(persian_view.text_direction, "rtl");

    let mut tajik_config = BolootConfig::default();
    tajik_config.calendar.language = LanguageVariant::Tajik;
    let tajik_calendar = CalendarEngine::new(CountryProfile::tajikistan(), LanguageVariant::Tajik);
    let tajik_view = view_for(&tajik_config, &tajik_calendar, 1404, 1);
    assert_eq!(tajik_view.text_direction, "ltr");
}

#[test]
fn month_view_marks_holidays_today_and_weekends() {
    let config = BolootConfig::default();
    let calendar = engine();
    let today = on(&calendar, 2025, 3, 22);
    let view = build_month_view(&config, &calendar, &iran_store(), None, None, None, &today).unwrap();
    assert_eq!((view.jalali_year, view.jalali_month), (1404, 1));
    assert_eq!(view.cells.len() % 7, 0);
    let first = view.cells.iter().find(|c| c.is_current_month && c.day == Some(1)).unwrap();
    assert!(first.is_holiday);
    assert!(first.is_weekend);
    assert_eq!(first.day_label.as_deref(), Some("۱"));
    assert_eq!(first.gregorian_date, "2025-03-21");
    let today_cell = view.cells.iter().find(|c| c.is_today).unwrap();
    assert_eq!(today_cell.day, Some(2));
    assert_eq!(view.holidays.len(), 3 + view.holidays.iter().filter(|h| h.is_lunar).count());
    assert!(build_month_view(&config, &calendar, &iran_store(), None, Some(1404), Some(13), &today).is_err());
}

#[test]
fn headers_follow_the_week_start() {
    let calendar = engine();
    let headers = weekday_headers(calendar.locale(), Weekday::Monday, NumeralStyle::Persian, CalendarSystem::Jalali);
    assert_eq!(headers, vec!["د", "س", "چ", "پ", "ج", "ش", "ی"]);
    let tajik = CalendarEngine::new(CountryProfile::tajikistan(), LanguageVariant::Tajik);
    assert_eq!(weekend_header_indices(tajik.locale(), Weekday::Monday), vec![5, 6]);
    assert_eq!(weekend_header_indices(tajik.locale(), Weekday::Sunday), vec![0, 6]);
}
