use boloot_cal_core::countries::CountryRegistry;
use boloot_cal_core::format::NumeralStyle;
use boloot_cal_core::locale::LanguageVariant;
use boloot_cal_core::system_locale::{
    detect_from_env, env_locale_code, is_english_locale, language_from_locale_code, map_locale_code,
    normalize_locale_code, DetectedLocale,
};
use boloot_cal_core::system_time::timezone_from_zoneinfo_path;
use boloot_cal_core::ui_strings::UiStrings;

fn map_code(code: &str) -> DetectedLocale {
    map_locale_code(code, &CountryRegistry::fallback(), None)
}

#[test]
fn maps_fa_ir() {
    let detected = map_code("fa_IR");
    assert_eq!(detected.country.as_str(), "iran");
    assert_eq!(detected.language, LanguageVariant::Persian);
    assert_eq!(detected.numerals, NumeralStyle::Persian);
    assert!(!detected.timezone.is_empty());
}

#[test]
fn maps_fa_af() {
    let detected = map_code("fa_AF");
    assert_eq!(detected.country.as_str(), "afghanistan");
    assert_eq!(detected.language, LanguageVariant::Dari);
}

#[test]
fn maps_ps_af() {
    let detected = map_code("ps_AF");
    assert_eq!(detected.language, LanguageVariant::Pashto);
}

#[test]
fn maps_en_us() {
    let registry = CountryRegistry::fallback();
    let detected = map_locale_code("en_US", &registry, None);
    assert_eq!(detected.language, LanguageVariant::English);
    assert_eq!(detected.numerals, NumeralStyle::Latin);
    if registry.get("usa").is_some() {
        assert_eq!(detected.country.as_str(), "usa");
    }
}

#[test]
fn maps_en_us_lowercase() {
    let detected = map_code("en_us");
    assert_eq!(detected.language, LanguageVariant::English);
}

#[test]
fn maps_tg_tj() {
    let detected = map_code("tg_TJ");
    assert_eq!(detected.country.as_str(), "tajikistan");
    assert_eq!(detected.language, LanguageVariant::Tajik);
    assert_eq!(detected.numerals, NumeralStyle::Latin);
}

#[test]
fn normalizes_dashed_locale() {
    assert_eq!(normalize_locale_code("fa-IR.UTF-8"), "fa_IR");
    assert_eq!(normalize_locale_code("fa_IR@calendar=persian"), "fa_IR");
}

#[test]
fn detect_from_env_en_us() {
    let values = vec![None, None, Some("en_US.UTF-8".to_string())];
    let detected = detect_from_env(&values, &CountryRegistry::fallback(), None);
    assert_eq!(detected.language, LanguageVariant::English);
    assert_eq!(detected.locale_code, "en_US");
}

#[test]
fn env_skips_blank_and_posix_values() {
    let values = vec![Some("  ".to_string()), Some("C".to_string()), Some(" POSIX ".to_string())];
    assert_eq!(env_locale_code(&values), None);
    let values = vec![Some(" ps_AF.UTF-8 ".to_string()), Some("en_US".to_string())];
    assert_eq!(env_locale_code(&values), Some("ps_AF".to_string()));
    let detected = detect_from_env(&vec![None, None, None], &CountryRegistry::fallback(), Some("Europe/Berlin".into()));
    assert_eq!(detected.locale_code, "fa_IR");
    assert_eq!(detected.timezone, "Europe/Berlin");
}

#[test]
fn region_maps_to_registry_country() {
    let detected = map_code("de_AF");
    assert_eq!(detected.country.as_str(), "afghanistan");
    assert_eq!(detected.language, LanguageVariant::English);
    let detected = map_code("xx");
    assert_eq!(detected.country.as_str(), "iran");
    assert_eq!(detected.language, LanguageVariant::Persian);
    assert_eq!(detected.timezone, "Asia/Tehran");
    let detected = map_code("tg");
    assert_eq!(detected.timezone, "Asia/Dushanbe");
    assert!(is_english_locale("EN_gb"));
    assert!(!is_english_locale("eng"));
    assert_eq!(language_from_locale_code("fa"), LanguageVariant::Persian);
    assert_eq!(language_from_locale_code("de_DE"), LanguageVariant::English);
}

#[test]
fn parses_zoneinfo_symlink_path() {
    assert_eq!(
        timezone_from_zoneinfo_path("/usr/share/zoneinfo/Asia/Tehran"),
        Some("Asia/Tehran".into())
    );
    assert_eq!(
        timezone_from_zoneinfo_path("/usr/share/zoneinfo/America/New_York"),
        Some("America/New_York".into())
    );
}

#[test]
fn zoneinfo_path_without_name_gives_nothing() {
    assert_eq!(timezone_from_zoneinfo_path("/etc/localtime"), None);
    assert_eq!(timezone_from_zoneinfo_path("/usr/share/zoneinfo/"), None);
    assert_eq!(timezone_from_zoneinfo_path("zoneinfo//UTC"), Some("UTC".into()));
}

#[test]
fn nav_labels_localized_for_persian() {
    let ui = UiStrings::for_language(LanguageVariant::Persian);
    assert_eq!(ui.prev_month_label, "ماه قبل");
    assert_eq!(ui.next_year_label, "سال بعد");
}

#[test]
fn english_uses_latin_nav_labels() {
    let ui = UiStrings::for_language(LanguageVariant::English);
    assert_eq!(ui.prev_month_label, "Previous month");
    assert_eq!(ui.today_button, "Today");
}

#[test]
fn tajik_uses_cyrillic() {
    let ui = UiStrings::for_language(LanguageVariant::Tajik);
    assert!(ui.today_button.contains('И'));
}

#[test]
fn prayer_notification_formats() {
    let ui = UiStrings::for_language(LanguageVariant::Persian);
    assert!(ui.prayer_notification_summary("ظهر", 10).contains("ظهر"));
}

#[test]
fn english_nav_labels_replace_only_navigation() {
    let mut ui = UiStrings::for_language(LanguageVariant::Persian);
    let today = ui.today_button.clone();
    ui.apply_english_nav_labels();
    assert_eq!(ui.prev_month_label, "Previous month");
    assert_eq!(ui.next_year_label, "Next year");
    assert_eq!(ui.today_button, today);
}
