use boloot_cal_core::config::{BolootConfig, PrayerDisplayMode};
use boloot_cal_core::countries::CountryRegistry;
use boloot_cal_core::error::BolootError;
use boloot_cal_core::format::NumeralStyle;
use boloot_cal_core::gregorian::GregorianDate;
use boloot_cal_core::holidays::HolidayStore;
use boloot_cal_core::locale::LanguageVariant;
use boloot_cal_core::prayer::{
    entries_from_times, format_top_bar, resolve_current_and_next, resolve_location, CityLocation,
    LocationStore, NextPrayer, PrayerDayStatus, PrayerName, PrayerTimes,
};
use boloot_cal_core::service::BolootService;
use boloot_cal_core::system_locale::detect_from_env;

const SEC: i64 = 1_000_000_000;

fn ymd(y: i32, m: u32, d: u32) -> GregorianDate {
    GregorianDate::from_ymd_opt(y, m, d).unwrap()
}

fn times() -> Vec<(u32, u32)> {
    vec![(4, 30), (6, 5), (13, 10), (16, 50), (20, 20), (21, 40)]
}

fn status(next: Option<(PrayerName, &str, &str, i64)>) -> PrayerDayStatus {
    let entries = entries_from_times(&times(), NumeralStyle::Latin, LanguageVariant::Persian);
    PrayerDayStatus {
        times: PrayerTimes { date: ymd(2026, 7, 10), timezone: "Asia/Tehran".into(), city: "تهران".into(), entries },
        next: next.map(|(name, label, time, rem)| NextPrayer { name, label: label.into(), time: time.into(), remaining_seconds: rem }),
        current: None,
    }
}

fn service(config: BolootConfig) -> BolootService {
    BolootService::new(config, HolidayStore::default())
}

#[test]
fn panel_tooltip_without_prayer() {
    let mut config = BolootConfig::default();
    config.prayer.enabled = false;
    let service = service(config);
    let view = service.today_view(ymd(2026, 7, 10), Some(&status(Some((PrayerName::Dhuhr, "ظهر", "13:10", 60))))).unwrap();
    assert!(!view.panel_tooltip.contains("بعدی:"));
    assert!(view.panel_tooltip.starts_with(&view.weekday));
    assert_eq!(view.panel_tooltip.matches('\n').count(), 1);
}

#[test]
fn panel_tooltip_with_prayer_includes_next_time() {
    let service = service(BolootConfig::default());
    let view = service.today_view(ymd(2026, 7, 10), Some(&status(Some((PrayerName::Dhuhr, "ظهر", "13:10", 60))))).unwrap();
    assert!(view.panel_tooltip.starts_with(&view.weekday));
    assert!(view.panel_tooltip.contains('\n'));
    assert!(view.panel_tooltip.contains("بعدی:"));
    assert!(view.panel_tooltip.ends_with("بعدی: ظهر 13:10"));
}

#[test]
fn panel_tooltip_for_past_date_omits_prayer() {
    let service = service(BolootConfig::default());
    let view = service.view_for(ymd(2020, 1, 1), ymd(2026, 7, 10), Some(&status(Some((PrayerName::Fajr, "فجر", "04:30", 100))))).unwrap();
    assert!(!view.panel_tooltip.contains("بعدی:"));
    assert!(view.panel_tooltip.starts_with(&view.weekday));
}

#[test]
fn top_bar_text_omits_clock_when_disabled() {
    let mut config = BolootConfig::default();
    config.appearance.show_clock = false;
    config.prayer.enabled = false;
    let service = service(config);
    let view = service.today_view(ymd(2026, 7, 10), None).unwrap();
    let text = service.top_bar_text(&view, Some((12, 30)), None).unwrap();
    let first = text.split(" · ").next().unwrap_or("");
    assert!(!first.contains(':'));
}

#[test]
fn top_bar_text_includes_clock_when_enabled() {
    let mut config = BolootConfig::default();
    config.prayer.enabled = false;
    let service = service(config);
    let view = service.today_view(ymd(2026, 7, 10), None).unwrap();
    let text = service.top_bar_text(&view, Some((12, 30)), None).unwrap();
    let first = text.split(" · ").next().unwrap_or("");
    assert!(first.contains(':'));
    assert_eq!(first, "۱۲:۳۰");
    assert!(matches!(service.top_bar_text(&view, None, None), Err(BolootError::InvalidConfig(_))));
}

#[test]
fn top_bar_text_appends_the_next_prayer() {
    let service = service(BolootConfig::default());
    let view = service.today_view(ymd(2026, 7, 10), None).unwrap();
    let text = service.top_bar_text(&view, Some((9, 5)), Some(&status(Some((PrayerName::Dhuhr, "ظهر", "13:10", 60))))).unwrap();
    let parts: Vec<&str> = text.split(" · ").collect();
    assert_eq!(parts.len(), 3);
    assert_eq!(parts[0], "۰۹:۰۵");
    assert_eq!(parts[2], "ظهر 13:10");
}

#[test]
fn today_view_marks_weekend_and_holidays() {
    let service = service(BolootConfig::default());
    let today = ymd(2026, 7, 10);
    let view = service.today_view(today, None).unwrap();
    let date = service.calendar().on_date(today).unwrap();
    let holidays = service.holidays_for_today(&date);
    assert_eq!(view.is_holiday, !holidays.is_empty());
    if view.is_holiday {
        assert!(!view.holiday_names.is_empty());
    }
}

#[test]
fn view_for_friday_is_weekend_in_iran() {
    let service = service(BolootConfig::default());
    let view = service.view_for(ymd(2026, 7, 10), ymd(2026, 7, 10), None).unwrap();
    assert!(view.is_weekend);
}

#[test]
fn apply_settings_applies_system_locale_when_enabled() {
    let mut config = BolootConfig::default();
    config.calendar.follow_system_locale = true;
    let mut service = service(BolootConfig::default());
    let registry = CountryRegistry::fallback();
    let env = vec![None, None, Some("tg_TJ.UTF-8".to_string())];
    let detected = detect_from_env(&env, &registry, None);
    service.apply_settings(config, &detected, &registry);
    assert_eq!(service.config().calendar.country.as_str(), detected.country.as_str());
    assert_eq!(service.config().calendar.language, detected.language);
    assert_eq!(service.locale().locale_code, "tg_TJ");
}

#[test]
fn entries_follow_the_prayer_order() {
    let entries = entries_from_times(&times(), NumeralStyle::Persian, LanguageVariant::English);
    let names: Vec<PrayerName> = entries.iter().map(|e| e.name).collect();
    assert_eq!(names, vec![PrayerName::Fajr, PrayerName::Sunrise, PrayerName::Dhuhr, PrayerName::Asr, PrayerName::Maghrib, PrayerName::Isha]);
    assert_eq!(entries[0].label, "Fajr");
    assert_eq!(entries[0].time, "۰۴:۳۰");
    assert_eq!(PrayerName::Maghrib.label(LanguageVariant::Tajik), "Шом");
}

#[test]
fn current_and_next_prayer() {
    let entries = entries_from_times(&times(), NumeralStyle::Latin, LanguageVariant::Persian);
    let instants: Vec<Option<i64>> = (0..6).map(|i| Some(1_000 * SEC + i * 3_600 * SEC)).collect();
    let now = 1_000 * SEC + 2 * 3_600 * SEC + SEC / 2;
    let (current, next) = resolve_current_and_next(&entries, &instants, now, 0, (4, 31), NumeralStyle::Latin, LanguageVariant::Persian);
    assert_eq!(current, Some(PrayerName::Dhuhr));
    let next = next.unwrap();
    assert_eq!(next.name, PrayerName::Asr);
    assert_eq!(next.time, "16:50");
    assert_eq!(next.remaining_seconds, 3_599);
}

#[test]
fn schedule_next_is_fajr_before_sunrise() {
    let entries = entries_from_times(&times(), NumeralStyle::Latin, LanguageVariant::Persian);
    let instants: Vec<Option<i64>> = (0..6).map(|i| Some(5_000 * SEC + i * 3_600 * SEC)).collect();
    let now = 4_000 * SEC;
    let (current, next) = resolve_current_and_next(&entries, &instants, now, 90_000 * SEC, (4, 31), NumeralStyle::Latin, LanguageVariant::Persian);
    assert_eq!(current, None);
    assert_eq!(next.as_ref().map(|n| n.name), Some(PrayerName::Fajr));
    assert_eq!(next.unwrap().remaining_seconds, 1_000);
}

#[test]
fn after_isha_the_next_prayer_is_tomorrows_fajr() {
    let entries = entries_from_times(&times(), NumeralStyle::Latin, LanguageVariant::English);
    let instants: Vec<Option<i64>> = (0..6).map(|i| Some(i * SEC)).collect();
    let now = 100 * SEC;
    let (current, next) = resolve_current_and_next(&entries, &instants, now, now + 7_200 * SEC, (4, 31), NumeralStyle::Latin, LanguageVariant::English);
    assert_eq!(current, Some(PrayerName::Isha));
    let next = next.unwrap();
    assert_eq!(next.name, PrayerName::Fajr);
    assert_eq!(next.label, "Fajr");
    assert_eq!(next.time, "04:31");
    assert_eq!(next.remaining_seconds, 7_200);
    let (current, next) = resolve_current_and_next(&entries, &instants, now, now + SEC / 2, (4, 31), NumeralStyle::Latin, LanguageVariant::English);
    assert_eq!(current, Some(PrayerName::Isha));
    assert!(next.is_none());
}

#[test]
fn top_bar_modes() {
    let s = status(Some((PrayerName::Asr, "Asr", "16:50", 2 * 3600 + 5 * 60 + 9)));
    assert_eq!(format_top_bar(&s, PrayerDisplayMode::Hidden, NumeralStyle::Latin), None);
    assert_eq!(format_top_bar(&s, PrayerDisplayMode::NextPrayer, NumeralStyle::Latin), Some("Asr 16:50".into()));
    assert_eq!(format_top_bar(&s, PrayerDisplayMode::Countdown, NumeralStyle::Latin), Some("Asr 2h 5m".into()));
    assert_eq!(format_top_bar(&s, PrayerDisplayMode::Countdown, NumeralStyle::Persian), Some("Asr ۲س ۵د".into()));
    let all = format_top_bar(&s, PrayerDisplayMode::AllTimes, NumeralStyle::Latin).unwrap();
    assert!(all.starts_with("فجر 04:30  طلوع 06:05"));
    assert_eq!(all.matches("  ").count(), 5);
    assert_eq!(format_top_bar(&status(None), PrayerDisplayMode::Countdown, NumeralStyle::Latin), None);
}

#[test]
fn custom_coordinates_require_timezone_without_catalog() {
    let err = resolve_location(&LocationStore::with_fallback(), "custom", Some(52_520_000), Some(13_405_000), "").unwrap_err();
    assert!(matches!(err, BolootError::InvalidConfig(_)));
}

#[test]
fn custom_coordinates_without_catalog_city() {
    let loc = resolve_location(&LocationStore::with_fallback(), "custom", Some(35_689_200), Some(51_389_000), "Asia/Tehran").unwrap();
    assert_eq!(loc.display_name, "مختصات سفارشی");
    assert_eq!(loc.timezone, "Asia/Tehran");
}

#[test]
fn catalogue_city_location_and_fallbacks() {
    let mut store = LocationStore::with_fallback();
    let loc = resolve_location(&store, "tehran", None, None, "").unwrap();
    assert_eq!((loc.latitude_e6, loc.longitude_e6), (35_689_200, 51_389_000));
    assert_eq!(loc.timezone, "Asia/Tehran");
    assert_eq!(loc.display_name, "تهران");
    assert!(matches!(resolve_location(&store, "khujand", None, None, ""), Err(BolootError::LocationNotFound(_))));
    store.insert(CityLocation {
        id: "mashhad".into(),
        name: "Mashhad".into(),
        name_fa: "مشهد".into(),
        latitude_e6: 36_297_000,
        longitude_e6: 59_606_000,
        timezone: "Asia/Tehran".into(),
        country: "iran".into(),
        region: None,
    });
    assert_eq!(store.same_timezone_coords("tehran"), vec![(36_297_000, 59_606_000)]);
    assert!(store.get("mashhad").is_some());
}

#[test]
fn min_seconds_until_an_enabled_adhan() {
    let s = status(None);
    let mut config = BolootConfig::default();
    let deltas = vec![Some(-10), Some(20), Some(500), Some(300), None, Some(900)];
    assert_eq!(s.times.min_seconds_until_enabled(&deltas, &config), None);
    config.prayer.adhan_enabled = true;
    assert_eq!(s.times.min_seconds_until_enabled(&deltas, &config), Some(300));
}
