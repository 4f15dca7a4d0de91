use boloot_cal_core::calendar::{CalendarEngine, CalendarSystem};
use boloot_cal_core::countries::CountryProfile;
use boloot_cal_core::format::{effective_numerals, format_time, to_persian_digits, DateFormatStyle, DateFormatter, NumeralStyle};
use boloot_cal_core::locale::LanguageVariant;

#[test]
fn gregorian_calendar_uses_latin_digits_even_with_persian_numerals() {
    let engine = CalendarEngine::new(CountryProfile::iran(), LanguageVariant::Persian);
    let gregorian = engine.jalali_to_gregorian(1404, 1, 1).unwrap();
    let date = engine.on_date(gregorian).unwrap();
    let formatter = DateFormatter {
        calendar: CalendarSystem::Gregorian,
        numerals: NumeralStyle::Persian,
        ..DateFormatter::default()
    };
    let formatted = formatter.format(&date, engine.locale());
    assert!(formatted.contains("2025"));
    assert!(!formatted.contains('۲'));
}

#[test]
fn persian_digits() {
    assert_eq!(to_persian_digits("1404"), "۱۴۰۴");
}

#[test]
fn long_format() {
    let engine = CalendarEngine::new(CountryProfile::iran(), LanguageVariant::Persian);
    let gregorian = engine.jalali_to_gregorian(1404, 1, 1).unwrap();
    let date = engine.on_date(gregorian).unwrap();
    let formatter = DateFormatter::default();
    let formatted = formatter.format(&date, engine.locale());
    assert!(formatted.contains("فروردین"));
    assert!(formatted.contains("۱۴۰۴"));
}

#[test]
fn hijri_long_named_uses_arabic_month() {
    let engine = CalendarEngine::new(CountryProfile::iran(), LanguageVariant::Persian);
    let gregorian = engine.hijri_to_gregorian(1447, 9, 15).unwrap();
    let date = engine.on_date(gregorian).unwrap();
    let formatter = DateFormatter {
        calendar: CalendarSystem::Hijri,
        ..DateFormatter::default()
    };
    let formatted = formatter.format(&date, engine.locale());
    assert!(formatted.contains("رمضان"));
    assert!(formatted.contains("ال"));
}

#[test]
fn gregorian_long_named_uses_standard_month_name() {
    let engine = CalendarEngine::new(CountryProfile::iran(), LanguageVariant::Persian);
    let gregorian = engine.jalali_to_gregorian(1405, 4, 16).unwrap();
    let date = engine.on_date(gregorian).unwrap();
    let formatter = DateFormatter {
        calendar: CalendarSystem::Gregorian,
        show_weekday: false,
        ..DateFormatter::default()
    };
    let formatted = formatter.format(&date, engine.locale());
    assert!(formatted.contains("July"));
    assert!(formatted.contains("7 July 2026"));
}

#[test]
fn persian_digits_leave_other_characters() {
    assert_eq!(to_persian_digits("12:05 - ab"), "۱۲:۰۵ - ab");
    assert_eq!(to_persian_digits(""), "");
}

#[test]
fn time_is_zero_padded() {
    assert_eq!(format_time(5, 7, NumeralStyle::Latin), "05:07");
    assert_eq!(format_time(13, 45, NumeralStyle::Persian), "۱۳:۴۵");
}

#[test]
fn gregorian_forces_latin_numerals() {
    assert_eq!(effective_numerals(CalendarSystem::Gregorian, NumeralStyle::Persian), NumeralStyle::Latin);
    assert_eq!(effective_numerals(CalendarSystem::Jalali, NumeralStyle::Persian), NumeralStyle::Persian);
}

#[test]
fn short_slash_style_and_dual_secondary() {
    let engine = CalendarEngine::new(CountryProfile::iran(), LanguageVariant::Persian);
    let date = engine.on_date(engine.jalali_to_gregorian(1404, 1, 1).unwrap()).unwrap();
    let formatter = DateFormatter {
        calendar: CalendarSystem::DualJalaliGregorian,
        numerals: NumeralStyle::Latin,
        style: DateFormatStyle::ShortSlash,
        custom_pattern: None,
        show_weekday: false,
    };
    assert_eq!(formatter.format(&date, engine.locale()), "1404/1/1");
    let secondary = formatter.format_secondary(&date, engine.locale()).unwrap();
    assert!(secondary.contains("2025"));
    let jalali_only = DateFormatter { calendar: CalendarSystem::Jalali, ..formatter };
    assert!(jalali_only.format_secondary(&date, engine.locale()).is_none());
}
