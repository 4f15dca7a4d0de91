//! When the background service notifies: prayer reminders, adhan polling
//! and holiday notices, and the keys that keep each notice to once a day.
use vstd::prelude::*;

use crate::config::BolootConfig;
use crate::prayer::PrayerName;
use crate::text::{concat2, decimal, join, join_seq, u64_to_string, views};

verus! {

/// A prayer reminder fires once the time left is at most the lead time.
pub fn should_notify_prayer(remaining_seconds: i64, threshold_seconds: i64) -> (r: bool)
    ensures
        r == (remaining_seconds <= threshold_seconds),
{
    remaining_seconds <= threshold_seconds
}

/// Holiday notices are sent in the evening, from 17:00 to 21:59.
pub fn should_send_holiday_notification(hour: u32) -> (r: bool)
    ensures
        r == (17 <= hour <= 21),
{
    17 <= hour && hour <= 21
}

/// Seconds between checks: one when an enabled adhan is due within two
/// minutes (`min_secs`, the least time to an enabled prayer, if known), else sixty.
pub fn adaptive_poll_interval(config: &BolootConfig, min_secs: Option<i64>) -> (r: u64)
    ensures
        r == (if config.prayer.enabled && config.prayer.adhan_enabled && (min_secs matches Some(s) && s <= 120) {
            1u64
        } else {
            60u64
        }),
{
    if !config.prayer.enabled || !config.prayer.adhan_enabled {
        return 60;
    }
    match min_secs {
        Some(s) => if s <= 120 {
            1
        } else {
            60
        },
        None => 60,
    }
}

/// Lead time of a reminder in seconds.
pub fn reminder_threshold(minutes: u32) -> (r: i64)
    ensures
        r == minutes * 60,
{
    minutes as i64 * 60
}

/// `"prayer:{label}:{minutes}"`.
pub fn prayer_reminder_key(label: &str, minutes: u32) -> (r: String)
    ensures
        r@ == "prayer:"@ + label@ + ":"@ + decimal(minutes as nat),
{
    let mut s = concat2("prayer:", label);
    s.append(":");
    let m = u64_to_string(minutes as u64);
    s.append(m.as_str());
    s
}

pub open spec fn prayer_debug_name(p: PrayerName) -> Seq<char> {
    match p {
        PrayerName::Fajr => "Fajr"@,
        PrayerName::Sunrise => "Sunrise"@,
        PrayerName::Dhuhr => "Dhuhr"@,
        PrayerName::Asr => "Asr"@,
        PrayerName::Maghrib => "Maghrib"@,
        PrayerName::Isha => "Isha"@,
    }
}

fn debug_name(p: PrayerName) -> (r: &'static str)
    ensures
        r@ == prayer_debug_name(p),
{
    match p {
        PrayerName::Fajr => "Fajr",
        PrayerName::Sunrise => "Sunrise",
        PrayerName::Dhuhr => "Dhuhr",
        PrayerName::Asr => "Asr",
        PrayerName::Maghrib => "Maghrib",
        PrayerName::Isha => "Isha",
    }
}

/// `"adhan:{name}:{day}"`, `day` being the day of the year.
pub fn adhan_key(name: PrayerName, day: u32) -> (r: String)
    ensures
        r@ == "adhan:"@ + prayer_debug_name(name) + ":"@ + decimal(day as nat),
{
    let mut s = concat2("adhan:", debug_name(name));
    s.append(":");
    let d = u64_to_string(day as u64);
    s.append(d.as_str());
    s
}

/// `"holiday:"` and the holiday names joined by commas.
pub fn holiday_key(names: &Vec<String>) -> (r: String)
    ensures
        r@ == "holiday:"@ + join_seq(views(names@), ","@),
{
    let j = join(names, ",");
    concat2("holiday:", j.as_str())
}

} // verus!
