use boloot_cal_core::adhan::{
    adhan_candidate_path, paplay_volume, playback_start, playback_status, playback_stops, resolve_adhan_path,
    PlaybackStart,
};
use boloot_cal_core::month_view::month_view_args;
use boloot_cal_core::paths::{choose_config_path, home_for_login};
use boloot_cal_core::calendar::CalendarEngine;
use boloot_cal_core::config::{AdhanPreset, BolootConfig};
use boloot_cal_core::countries::{CountryProfile, CountryRegistry};
use boloot_cal_core::error::BolootError;
use boloot_cal_core::format::NumeralStyle;
use boloot_cal_core::gregorian::GregorianDate;
use boloot_cal_core::holidays::HolidayStore;
use boloot_cal_core::locale::LanguageVariant;
use boloot_cal_core::prayer::{CityLocation, LocationStore};
use boloot_cal_core::service::BolootService;
use boloot_cal_core::system_locale::DetectedLocale;

fn message(r: Result<String, BolootError>) -> String {
    match r {
        Err(BolootError::InvalidConfig(m)) => m,
        other => panic!("unexpected {other:?}"),
    }
}

#[test]
fn settings_following_the_system_locale_keep_the_rest_of_the_new_settings() {
    let registry = CountryRegistry::fallback();
    let mut service = BolootService::new(BolootConfig::default(), HolidayStore::new());
    let mut new_config = BolootConfig::default();
    new_config.calendar.follow_system_locale = true;
    new_config.appearance.font_size_pt = 18;
    new_config.appearance.font_family = "Vazirmatn".into();
    new_config.prayer.adhan_volume = 35;
    let detected = DetectedLocale {
        country: CountryProfile::tajikistan(),
        language: LanguageVariant::Tajik,
        numerals: NumeralStyle::Latin,
        locale_code: "tg_TJ".into(),
        timezone: "Asia/Dushanbe".into(),
    };
    service.apply_settings(new_config, &detected, &registry);
    let config = service.config();
    assert_eq!(config.calendar.country.as_str(), "tajikistan");
    assert_eq!(config.calendar.language, LanguageVariant::Tajik);
    assert_eq!(config.appearance.font_size_pt, 18);
    assert_eq!(config.appearance.font_family, "Vazirmatn");
    assert_eq!(config.prayer.adhan_volume, 35);
    assert_eq!(config.calendar.timezone, "Asia/Dushanbe");
}

#[test]
fn dates_covered_by_the_umm_al_qura_table_convert() {
    let engine = CalendarEngine::new(CountryProfile::iran(), LanguageVariant::Persian);
    for (y, m, d) in [(1938, 1, 1), (2000, 2, 29), (2076, 12, 31)] {
        let g = GregorianDate::from_ymd_opt(y, m, d).unwrap();
        assert!(engine.on_date(g).is_ok());
    }
    assert!(engine.on_date(GregorianDate::from_ymd_opt(1937, 12, 31).unwrap()).is_err());
    assert!(engine.hijri_to_gregorian(1499, 12, 30).is_ok());
    assert_eq!(engine.days_in_hijri_month(1357, 1).map(|n| (28..=30).contains(&n)).ok(), Some(true));
}

#[test]
fn fallback_registry_names_regions_languages_and_capitals() {
    let registry = CountryRegistry::fallback();
    let iran = registry.get("iran").unwrap();
    assert_eq!((iran.name_en.as_str(), iran.name_fa.as_str()), ("Iran", "ایران"));
    assert_eq!(iran.region, "middle_east");
    assert_eq!(iran.default_language, "persian");
    assert_eq!(iran.languages, vec!["persian".to_string(), "english".to_string()]);
    assert_eq!(iran.capital_city_id, "tehran");
    let af = registry.get("afghanistan").unwrap();
    assert_eq!(af.languages, vec!["dari".to_string(), "pashto".to_string(), "english".to_string()]);
    assert_eq!(af.capital_city_id, "kabul");
    let tj = registry.get("tajikistan").unwrap();
    assert_eq!(tj.region, "russia_central_asia");
    assert_eq!(tj.default_language, "tajik");
    assert_eq!(tj.capital_city_id, "dushanbe");
}

#[test]
fn normalizing_a_country_twice_changes_nothing() {
    for raw in [" Saudi-Arabia ", "  ", "GERMANY", "united-arab-emirates"] {
        let once = CountryProfile::new(raw);
        assert_eq!(CountryProfile::new(once.as_str()).as_str(), once.as_str());
    }
    assert_eq!(CountryProfile::new(" Saudi-Arabia ").as_str(), "saudi_arabia");
    assert_eq!(CountryProfile::new("  ").as_str(), "iran");
}

fn city(id: &str, name_fa: &str, lat: i64, tz: &str) -> CityLocation {
    CityLocation {
        id: id.into(),
        name: id.into(),
        name_fa: name_fa.into(),
        latitude_e6: lat,
        longitude_e6: lat + 1,
        timezone: tz.into(),
        country: "iran".into(),
        region: None,
    }
}

#[test]
fn cities_and_fallback_coordinates_follow_persian_names() {
    let mut store = LocationStore::new();
    store.insert(city("tehran", "تهران", 1, "Asia/Tehran"));
    store.insert(city("yazd", "یزد", 2, "Asia/Tehran"));
    store.insert(city("ahvaz", "اهواز", 3, "Asia/Tehran"));
    store.insert(city("kabul", "کابل", 4, "Asia/Kabul"));
    store.insert(city("mashhad", "مشهد", 5, "Asia/Tehran"));
    let names: Vec<&str> = store.all().iter().map(|c| c.name_fa.as_str()).collect();
    let mut expected = names.clone();
    expected.sort();
    assert_eq!(names, expected);
    assert_eq!(names.len(), 5);
    assert_eq!(store.same_timezone_coords("tehran"), vec![(3, 4), (5, 6), (2, 3)]);
    assert!(store.same_timezone_coords("shiraz").is_empty());
}

#[test]
fn adhan_path_for_presets_and_custom_files() {
    let config = BolootConfig::default();
    let candidate = adhan_candidate_path(&config, "/usr/share/boloot-calendar/data").unwrap();
    assert!(candidate.ends_with("sounds/mansouri.ogg"));
    assert_eq!(resolve_adhan_path(&config, "/usr/share/boloot-calendar/data", true).unwrap(), candidate);
    assert!(message(resolve_adhan_path(&config, "/data", false)).starts_with("bundled adhan file not found: "));

    let mut custom = BolootConfig::default();
    custom.prayer.adhan_preset = AdhanPreset::Custom;
    assert_eq!(message(adhan_candidate_path(&custom, "/data")), "adhan_custom_path required for custom preset");
    custom.prayer.adhan_custom_path = Some(String::new());
    assert_eq!(message(resolve_adhan_path(&custom, "/data", true)), "adhan_custom_path required for custom preset");
    custom.prayer.adhan_custom_path = Some("/tmp/a.ogg".into());
    assert_eq!(resolve_adhan_path(&custom, "/data", true).unwrap(), "/tmp/a.ogg");
    assert_eq!(message(resolve_adhan_path(&custom, "/data", false)), "adhan file not found: \"/tmp/a.ogg\"");
}

#[test]
fn user_settings_override_the_system_defaults() {
    let user = Some("/home/a/.config/boloot-calendar/config.toml".to_string());
    let system = "/etc/boloot-calendar/config.toml".to_string();
    assert_eq!(choose_config_path(user.clone(), true, system.clone(), true), user.clone().unwrap());
    assert_eq!(choose_config_path(user.clone(), false, system.clone(), true), system);
    assert_eq!(choose_config_path(user.clone(), false, system.clone(), false), user.clone().unwrap());
    assert_eq!(choose_config_path(None, false, system.clone(), false), system);
}

#[test]
fn login_screen_account_has_no_settings_home() {
    assert_eq!(home_for_login(Some("gdm".into()), Some("/var/lib/gdm3".into())), None);
    assert_eq!(home_for_login(Some("ali".into()), Some("/home/ali".into())), Some("/home/ali".to_string()));
    assert_eq!(home_for_login(None, Some("/home/ali".into())), None);
    assert_eq!(home_for_login(Some("ali".into()), None), None);
}

#[test]
fn month_view_arguments() {
    assert_eq!(month_view_args(0, 0), Ok((None, None)));
    assert_eq!(month_view_args(1405, 3), Ok((Some(1405), Some(3))));
    assert_eq!(month_view_args(-1, -5), Ok((None, None)));
    assert_eq!(month_view_args(1405, 13), Err("month must be 1–12, got 13".to_string()));
}

#[test]
fn adhan_playback_slot_decisions() {
    assert_eq!(playback_start(None, false, 1000), PlaybackStart::Start);
    assert_eq!(playback_start(Some(1000), true, 1000), PlaybackStart::AlreadyPlaying);
    assert_eq!(playback_start(Some(1001), true, 1000), PlaybackStart::ReplaceOther);
    assert_eq!(playback_start(Some(1001), false, 1000), PlaybackStart::Start);
    assert_eq!(playback_status(None, false, 1000), (false, false));
    assert_eq!(playback_status(Some(1000), true, 1000), (true, false));
    assert_eq!(playback_status(Some(1000), false, 1000), (false, true));
    assert_eq!(playback_status(Some(1001), true, 1000), (false, false));
    assert!(!playback_stops(None, 1000));
    assert!(!playback_stops(Some(1001), 1000));
    assert!(playback_stops(Some(1000), 1000));
    assert_eq!(paplay_volume(80), 52428);
    assert_eq!(paplay_volume(200), 65536);
}

#[test]
fn calendar_days_stay_in_the_table_years() {
    let engine = CalendarEngine::new(CountryProfile::iran(), LanguageVariant::Persian);
    let day = engine.on_date(GregorianDate::from_ymd_opt(2026, 3, 20).unwrap()).unwrap();
    assert_eq!(day.gregorian.format_iso(), "2026-03-20");
    assert!(engine.on_date(GregorianDate::from_ymd_opt(2077, 1, 1).unwrap()).is_err());
}
