use boloot_cal_core::adhan::{is_adhan_enabled_for, preset_filename, should_trigger_adhan, sounds_dir};
use boloot_cal_core::config::{AdhanPrayerToggles, AdhanPreset, BolootConfig};
use boloot_cal_core::holidays::{countries_json_path, holidays_dir, locations_dir};
use boloot_cal_core::prayer::PrayerName;
use boloot_cal_core::reminders::{
    adaptive_poll_interval, adhan_key, holiday_key, prayer_reminder_key, reminder_threshold,
    should_notify_prayer, should_send_holiday_notification,
};
use boloot_cal_core::wisdom::wisdom_dir;

#[test]
fn should_trigger_within_poll_window() {
    assert!(should_trigger_adhan(0, 1));
    assert!(should_trigger_adhan(1, 1));
    assert!(!should_trigger_adhan(2, 1));
    assert!(!should_trigger_adhan(-1, 1));
}

#[test]
fn preset_filenames() {
    assert_eq!(preset_filename(AdhanPreset::Mansouri), "mansouri.ogg");
    assert_eq!(preset_filename(AdhanPreset::Makkah), "makkah.ogg");
    assert_eq!(preset_filename(AdhanPreset::Madinah), "madinah.ogg");
}

#[test]
fn prayer_notification_fires_when_remaining_crosses_threshold() {
    assert!(should_notify_prayer(540, 600));
    assert!(should_notify_prayer(600, 600));
    assert!(!should_notify_prayer(601, 600));
}

#[test]
fn adhan_independent_of_empty_notification_minutes() {
    let config = BolootConfig::default();
    assert!(!config.prayer.notification_minutes.is_empty() || config.prayer.adhan_enabled);
    let mut cfg = BolootConfig::default();
    cfg.prayer.notification_minutes.clear();
    cfg.prayer.adhan_enabled = true;
    assert!(cfg.prayer.adhan_enabled);
    assert!(cfg.prayer.notification_minutes.is_empty());
    assert!(is_adhan_enabled_for(PrayerName::Dhuhr, &cfg));
}

#[test]
fn adhan_trigger_uses_entry_delta_not_next() {
    assert!(should_trigger_adhan(0, 1));
    assert!(should_trigger_adhan(1, 60));
    assert!(!should_trigger_adhan(61, 60));
}

#[test]
fn default_adhan_prayers_excludes_sunrise() {
    let toggles = AdhanPrayerToggles::default();
    assert!(!toggles.is_enabled(PrayerName::Sunrise));
    assert!(toggles.is_enabled(PrayerName::Fajr));
}

#[test]
fn adhan_needs_the_master_switch() {
    let config = BolootConfig::default();
    assert!(!is_adhan_enabled_for(PrayerName::Fajr, &config));
    let mut config = BolootConfig::default();
    config.prayer.adhan_enabled = true;
    assert!(is_adhan_enabled_for(PrayerName::Fajr, &config));
    assert!(!is_adhan_enabled_for(PrayerName::Sunrise, &config));
}

#[test]
fn poll_interval_speeds_up_near_an_adhan() {
    let mut config = BolootConfig::default();
    assert_eq!(adaptive_poll_interval(&config, Some(30)), 60);
    config.prayer.adhan_enabled = true;
    assert_eq!(adaptive_poll_interval(&config, Some(120)), 1);
    assert_eq!(adaptive_poll_interval(&config, Some(121)), 60);
    assert_eq!(adaptive_poll_interval(&config, None), 60);
    config.prayer.enabled = false;
    assert_eq!(adaptive_poll_interval(&config, Some(5)), 60);
}

#[test]
fn holiday_notices_in_the_evening() {
    assert!(!should_send_holiday_notification(16));
    assert!(should_send_holiday_notification(17));
    assert!(should_send_holiday_notification(21));
    assert!(!should_send_holiday_notification(22));
}

#[test]
fn notice_keys() {
    assert_eq!(prayer_reminder_key("ظهر", 10), "prayer:ظهر:10");
    assert_eq!(adhan_key(PrayerName::Maghrib, 190), "adhan:Maghrib:190");
    assert_eq!(holiday_key(&vec!["a".to_string(), "b".to_string()]), "holiday:a,b");
    assert_eq!(reminder_threshold(10), 600);
}

#[test]
fn data_paths_join_below_the_data_directory() {
    assert_eq!(sounds_dir("/usr/share/boloot-calendar/data"), "/usr/share/boloot-calendar/data/sounds");
    assert_eq!(holidays_dir("./data/"), "./data/holidays");
    assert_eq!(locations_dir(""), "locations");
    assert_eq!(countries_json_path("/d"), "/d/countries.json");
    assert_eq!(wisdom_dir("/d"), "/d/wisdom");
}
