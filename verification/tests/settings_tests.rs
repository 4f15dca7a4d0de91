use boloot_cal_core::calendar::CalendarSystem;
use boloot_cal_core::colors::{appearance_tints, is_valid_hex, parse_hex, rgba_css_hundredths, Rgb};
use boloot_cal_core::config::{AdhanPrayerToggles, AdhanPreset, BolootConfig};
use boloot_cal_core::countries::{normalize_id, CountryProfile, CountryRecord, CountryRegistry};
use boloot_cal_core::error::BolootError;
use boloot_cal_core::locale::{LanguageVariant, LocaleProfile, Weekday};
use boloot_cal_core::prayer::{CityLocation, LocationStore, PrayerCalculationMethod, PrayerMadhab, PrayerName};
use boloot_cal_core::system_locale::DetectedLocale;
use boloot_cal_core::format::NumeralStyle;

fn registry() -> CountryRegistry {
    CountryRegistry::fallback()
}

#[test]
fn validates_hex_colors() {
    assert!(is_valid_hex("#1c1917"));
    assert!(is_valid_hex("#A61E2E"));
    assert!(!is_valid_hex("red"));
    assert!(!is_valid_hex("#abc"));
}

#[test]
fn rgba_css_formats_alpha() {
    assert_eq!(
        rgba_css_hundredths("#0f6e9c", 22),
        Some("rgba(15, 110, 156, 0.22)".into())
    );
}

#[test]
fn appearance_tints_use_defaults_on_invalid_input() {
    let tints = appearance_tints("invalid", "also-bad");
    assert_eq!(tints.today_background, "rgba(15, 110, 156, 0.22)");
    assert_eq!(tints.holiday_background, "rgba(166, 30, 46, 0.14)");
}

#[test]
fn parses_hex_channels() {
    assert_eq!(parse_hex("#0f6e9c"), Some(Rgb { r: 15, g: 110, b: 156 }));
    assert_eq!(parse_hex("#0f6e9"), None);
    let tints = appearance_tints("#ff0000", "#00ff00");
    assert_eq!(tints.today_background, "rgba(255, 0, 0, 0.22)");
    assert_eq!(tints.holiday_background, "rgba(0, 255, 0, 0.14)");
}

#[test]
fn preserves_week_start_when_country_unchanged() {
    let mut config = BolootConfig::default();
    config.calendar.week_start = Weekday::Monday;
    config.apply_country_defaults_on_change(&CountryProfile::iran(), LanguageVariant::Persian, &registry());
    assert_eq!(config.calendar.week_start, Weekday::Monday);
}

#[test]
fn resets_week_start_when_country_changes() {
    let mut config = BolootConfig::default();
    config.calendar.country = CountryProfile::tajikistan();
    config.calendar.week_start = Weekday::Saturday;
    config.apply_country_defaults_on_change(&CountryProfile::iran(), LanguageVariant::Persian, &registry());
    assert_eq!(config.calendar.week_start, Weekday::Monday);
    assert_eq!(config.calendar.timezone, "Asia/Dushanbe");
    assert_eq!(config.prayer.method, PrayerCalculationMethod::Mwl);
    assert_eq!(config.prayer.madhab, PrayerMadhab::Hanafi);
}

#[test]
fn empty_timezone_is_filled_without_country_change() {
    let mut config = BolootConfig::default();
    config.calendar.timezone = String::new();
    config.apply_country_defaults_on_change(&CountryProfile::iran(), LanguageVariant::Persian, &registry());
    assert_eq!(config.calendar.timezone, "Asia/Tehran");
}

#[test]
fn migrates_factory_colors_to_system_theme() {
    let mut config = BolootConfig::default();
    config.appearance.use_system_theme = false;
    assert!(config.migrate_appearance());
    assert!(config.appearance.use_system_theme);
    assert!(!config.migrate_appearance());
}

#[test]
fn keeps_custom_colors_when_system_theme_disabled() {
    let mut config = BolootConfig::default();
    config.appearance.use_system_theme = false;
    config.appearance.today_color = "#ff0000".into();
    assert!(!config.migrate_appearance());
    assert!(!config.appearance.use_system_theme);
}

fn catalogue() -> LocationStore {
    LocationStore::with_fallback()
}

#[test]
fn validate_rejects_invalid_timezone() {
    let mut config = BolootConfig::default();
    config.calendar.timezone = "Not/A/Timezone".into();
    assert!(config.validate(&catalogue(), false).is_err());
}

#[test]
fn validate_rejects_invalid_color() {
    let mut config = BolootConfig::default();
    config.appearance.today_color = "red".into();
    assert!(config.validate(&catalogue(), false).is_err());
}

#[test]
fn validate_accepts_default_config() {
    assert!(BolootConfig::default().validate(&catalogue(), false).is_ok());
}

#[test]
fn validate_rejects_adhan_volume_over_100() {
    let mut config = BolootConfig::default();
    config.prayer.adhan_volume = 101;
    assert!(config.validate(&catalogue(), false).is_err());
}

#[test]
fn validate_rejects_custom_adhan_without_path() {
    let mut config = BolootConfig::default();
    config.prayer.adhan_enabled = true;
    config.prayer.adhan_preset = AdhanPreset::Custom;
    assert!(config.validate(&catalogue(), false).is_err());
}

fn message(r: Result<(), BolootError>) -> String {
    match r {
        Err(BolootError::InvalidConfig(m)) => m,
        other => panic!("expected an invalid-config error, got {other:?}"),
    }
}

#[test]
fn validate_reports_the_first_problem() {
    let cat = catalogue();
    let mut config = BolootConfig::default();
    config.calendar.timezone = "Mars/Olympus".into();
    config.appearance.font_size_pt = 3;
    assert_eq!(message(config.validate(&cat, false)), "invalid timezone: Mars/Olympus");

    let mut config = BolootConfig::default();
    config.appearance.font_size_pt = 30;
    assert_eq!(message(config.validate(&cat, false)), "font_size_pt must be 8–24, got 30");

    let mut config = BolootConfig::default();
    config.appearance.background_color = "#12".into();
    assert_eq!(message(config.validate(&cat, false)), "invalid background_color: #12");

    let mut config = BolootConfig::default();
    config.appearance.font_family = "Vazir;".into();
    assert_eq!(message(config.validate(&cat, false)), "invalid font_family");

    let mut config = BolootConfig::default();
    config.prayer.city = "atlantis".into();
    assert_eq!(message(config.validate(&cat, false)), "unknown prayer city: atlantis");
    config.prayer.latitude_e6 = Some(1);
    config.prayer.longitude_e6 = Some(2);
    assert!(config.validate(&cat, false).is_ok());

    let mut config = BolootConfig::default();
    config.prayer.notification_minutes = vec![5, 0];
    assert_eq!(message(config.validate(&cat, false)), "invalid notification_minutes: 0");
    config.prayer.notification_minutes = vec![1441];
    assert_eq!(message(config.validate(&cat, false)), "invalid notification_minutes: 1441");
    config.prayer.enabled = false;
    assert!(config.validate(&cat, false).is_ok());

    let mut config = BolootConfig::default();
    config.prayer.adhan_volume = 101;
    assert_eq!(message(config.validate(&cat, false)), "adhan_volume must be 0–100, got 101");

    let mut config = BolootConfig::default();
    config.prayer.adhan_enabled = true;
    config.prayer.adhan_preset = AdhanPreset::Custom;
    config.prayer.adhan_custom_path = Some(String::new());
    assert_eq!(message(config.validate(&cat, true)), "adhan_custom_path required for custom preset");
    config.prayer.adhan_custom_path = Some("/tmp/adhan.txt".into());
    assert_eq!(message(config.validate(&cat, false)), "adhan file not found: \"/tmp/adhan.txt\"");
    assert_eq!(message(config.validate(&cat, true)), "adhan_custom_path must be .ogg, .wav, .mp3, or .flac");
    config.prayer.adhan_custom_path = Some("/tmp/adhan.OGG".into());
    assert!(config.validate(&cat, true).is_ok());
}

#[test]
fn prayer_toggles_default_excludes_sunrise() {
    let toggles = AdhanPrayerToggles::default();
    assert!(toggles.is_enabled(PrayerName::Fajr));
    assert!(!toggles.is_enabled(PrayerName::Sunrise));
    assert!(toggles.is_enabled(PrayerName::Dhuhr));
}

#[test]
fn defaults_are_iran_persian_jalali() {
    let config = BolootConfig::default();
    assert_eq!(config.calendar.country.as_str(), "iran");
    assert_eq!(config.calendar.calendar_type, CalendarSystem::Jalali);
    assert_eq!(config.calendar.week_start, Weekday::Saturday);
    assert_eq!(config.calendar.timezone, "Asia/Tehran");
    assert_eq!(config.prayer.notification_minutes, vec![10]);
    assert_eq!(config.prayer.adhan_volume, 80);
    assert!(config.appearance.has_factory_colors());
}

#[test]
fn system_locale_replaces_country_and_language() {
    let mut config = BolootConfig::default();
    let detected = DetectedLocale {
        country: CountryProfile::afghanistan(),
        language: LanguageVariant::Pashto,
        numerals: NumeralStyle::Persian,
        locale_code: "ps_AF".into(),
        timezone: "Asia/Kabul".into(),
    };
    config.apply_system_locale(&detected, &registry());
    assert_eq!(config.calendar.country.as_str(), "afghanistan");
    assert_eq!(config.calendar.language, LanguageVariant::Pashto);
    assert_eq!(config.calendar.timezone, "Asia/Kabul");
    assert_eq!(config.prayer.method, PrayerCalculationMethod::Karachi);
    assert_eq!(config.prayer.madhab, PrayerMadhab::Hanafi);
}

#[test]
fn country_ids_are_normalized() {
    assert_eq!(normalize_id("  Saudi-Arabia "), "saudi_arabia");
    assert_eq!(normalize_id("   "), "iran");
    assert_eq!(CountryProfile::new("TAJIKISTAN").as_str(), "tajikistan");
}

#[test]
fn fallback_registry_has_three_countries() {
    let reg = registry();
    assert!(reg.contains("iran"));
    assert!(reg.contains("afghanistan"));
    assert!(!reg.contains("germany"));
    assert_eq!(reg.iso_to_id("tj"), Some("tajikistan"));
    assert_eq!(reg.all_sorted().len(), 3);
    let iran = CountryProfile::iran();
    assert_eq!(iran.default_timezone(&reg), "Asia/Tehran");
    assert_eq!(CountryProfile::tajikistan().weekend_days(&reg), vec![Weekday::Saturday, Weekday::Sunday]);
    assert_eq!(CountryProfile::new("germany").default_week_start(&reg), Weekday::Saturday);
}

#[test]
fn afghan_months_differ_from_iran() {
    let ir = LocaleProfile::resolve(CountryProfile::iran(), LanguageVariant::Persian);
    let af = LocaleProfile::resolve(CountryProfile::afghanistan(), LanguageVariant::Dari);
    assert_ne!(ir.month_names[0], af.month_names[0]);
    assert_eq!(ir.month_names[0], "فروردین");
    assert_eq!(af.month_names[0], "حمل");
}

fn record(id: &str, iso: &str, tz: &str, method: &str, madhab: &str) -> CountryRecord {
    CountryRecord {
        id: id.into(),
        iso_alpha2: iso.into(),
        name_en: id.into(),
        name_fa: id.into(),
        region: String::new(),
        default_timezone: tz.into(),
        week_start: "monday".into(),
        weekend_days: vec!["saturday".into(), "sunday".into()],
        default_language: "english".into(),
        languages: vec!["english".into()],
        prayer_method: method.into(),
        prayer_madhab: madhab.into(),
        capital_city_id: String::new(),
    }
}

#[test]
fn suggested_for_city_by_region() {
    let mut reg = registry();
    reg.insert(record("usa", "US", "America/New_York", "isna", "shafi"));
    reg.insert(record("germany", "DE", "Europe/Berlin", "mwl", "shafi"));
    let berlin = CityLocation {
        id: "berlin".into(),
        name: "Berlin".into(),
        name_fa: "برلین".into(),
        latitude_e6: 52_520_000,
        longitude_e6: 13_405_000,
        timezone: "Europe/Berlin".into(),
        country: "germany".into(),
        region: Some("europe".into()),
    };
    assert_eq!(PrayerCalculationMethod::suggested_for_city(&berlin, &reg), PrayerCalculationMethod::Mwl);
    let new_york = CityLocation {
        id: "new_york".into(),
        name: "New York".into(),
        name_fa: "نیویورک".into(),
        latitude_e6: 40_712_800,
        longitude_e6: -74_006_000,
        timezone: "America/New_York".into(),
        country: "usa".into(),
        region: Some("north_america".into()),
    };
    assert_eq!(PrayerCalculationMethod::suggested_for_city(&new_york, &reg), PrayerCalculationMethod::Isna);
    let oslo = CityLocation {
        id: "oslo".into(),
        name: "Oslo".into(),
        name_fa: "اسلو".into(),
        latitude_e6: 59_913_900,
        longitude_e6: 10_752_200,
        timezone: "Europe/Oslo".into(),
        country: "norway".into(),
        region: Some("europe".into()),
    };
    assert_eq!(PrayerCalculationMethod::suggested_for_city(&oslo, &reg), PrayerCalculationMethod::MoonsightingCommittee);
}

#[test]
fn method_and_madhab_names_parse_ignoring_case() {
    assert_eq!(PrayerCalculationMethod::from_str("UMM_AL_QURA").unwrap(), PrayerCalculationMethod::UmmAlQura);
    match PrayerCalculationMethod::from_str("lunar") {
        Err(BolootError::InvalidConfig(m)) => assert_eq!(m, "unknown prayer method: lunar"),
        other => panic!("unexpected {other:?}"),
    }
    assert_eq!(PrayerMadhab::from_str("Hanafi").unwrap(), PrayerMadhab::Hanafi);
    assert!(PrayerMadhab::from_str("maliki").is_err());
    assert_eq!(PrayerCalculationMethod::for_country(&CountryProfile::iran(), &registry()), PrayerCalculationMethod::Tehran);
    assert_eq!(PrayerCalculationMethod::for_country(&CountryProfile::new("germany"), &registry()), PrayerCalculationMethod::Mwl);
    assert_eq!(PrayerMadhab::for_country(&CountryProfile::new("germany"), &registry()), PrayerMadhab::Jafari);
}
