//! Adhan playback rules: bundled recordings and when a prayer's adhan sounds.
use vstd::prelude::*;

use crate::config::{path_debug, path_debug_text, toggle_of, AdhanPreset, BolootConfig};
use crate::error::BolootError;
use crate::text::concat2;
use crate::paths::{join_path, joined};
use crate::prayer::PrayerName;

verus! {

/// Directory of the bundled recordings below the data directory.
pub fn sounds_dir(data_dir: &str) -> (r: String)
    ensures
        r@ == joined(data_dir@, "sounds"@),
{
    join_path(data_dir, "sounds")
}

pub open spec fn preset_file(preset: AdhanPreset) -> Seq<char> {
    match preset {
        AdhanPreset::Mansouri => "mansouri.ogg"@,
        AdhanPreset::Makkah => "makkah.ogg"@,
        AdhanPreset::Madinah => "madinah.ogg"@,
        AdhanPreset::Custom => ""@,
    }
}

/// File name of a bundled recording (empty for the custom preset).
pub fn preset_filename(preset: AdhanPreset) -> (r: &'static str)
    ensures
        r@ == preset_file(preset),
{
    match preset {
        AdhanPreset::Mansouri => "mansouri.ogg",
        AdhanPreset::Makkah => "makkah.ogg",
        AdhanPreset::Madinah => "madinah.ogg",
        AdhanPreset::Custom => "",
    }
}

/// The adhan plays for `prayer`: adhan on and the prayer's toggle set.
pub fn is_adhan_enabled_for(prayer: PrayerName, config: &BolootConfig) -> (r: bool)
    ensures
        r == (config.prayer.adhan_enabled && toggle_of(config.prayer.adhan_prayers, prayer)),
{
    config.prayer.adhan_enabled && config.prayer.adhan_prayers.is_enabled(prayer)
}

/// Returns true when `delta_seconds` (prayer_time - now) is within the
/// trigger window `0..=poll_interval_secs` (the interval taken as `i64`).
pub fn should_trigger_adhan(delta_seconds: i64, poll_interval_secs: u64) -> (r: bool)
    ensures
        r == (0 <= delta_seconds && delta_seconds <= poll_interval_secs as i64),
{
    let window = poll_interval_secs as i64;
    0 <= delta_seconds && delta_seconds <= window
}

/// The file the adhan settings select: the custom path (which must not be
/// empty) or the preset's recording in the bundled sounds directory.
pub fn adhan_candidate_path(config: &BolootConfig, data_dir: &str) -> (r: Result<String, BolootError>)
    ensures
        config.prayer.adhan_preset == AdhanPreset::Custom ==> match config.prayer.adhan_custom_path {
            Some(p) => if p@.len() > 0 {
                r matches Ok(s) && s@ == p@
            } else {
                r matches Err(e) && e matches BolootError::InvalidConfig(m) && m@ == "adhan_custom_path required for custom preset"@
            },
            None => r matches Err(e) && e matches BolootError::InvalidConfig(m) && m@ == "adhan_custom_path required for custom preset"@,
        },
        config.prayer.adhan_preset != AdhanPreset::Custom ==> (r matches Ok(s) && s@ == joined(
            joined(data_dir@, "sounds"@),
            preset_file(config.prayer.adhan_preset),
        )),
{
    match config.prayer.adhan_preset {
        AdhanPreset::Custom => match &config.prayer.adhan_custom_path {
            Some(p) => if p.as_str().is_empty() {
                Err(BolootError::InvalidConfig(String::from_str("adhan_custom_path required for custom preset")))
            } else {
                Ok(p.clone())
            },
            None => Err(BolootError::InvalidConfig(String::from_str("adhan_custom_path required for custom preset"))),
        },
        preset => {
            let dir = sounds_dir(data_dir);
            Ok(join_path(dir.as_str(), preset_filename(preset)))
        },
    }
}

/// The adhan file to play, given whether the selected file exists; a
/// missing file is an error naming it.
pub fn resolve_adhan_path(config: &BolootConfig, data_dir: &str, file_exists: bool) -> (r: Result<String, BolootError>)
    ensures
        ({
            let c = adhan_candidate_path_spec(*config, data_dir@);
            match c {
                Err(m) => r matches Err(e) && e matches BolootError::InvalidConfig(x) && x@ == m,
                Ok(p) => if file_exists {
                    r matches Ok(s) && s@ == p
                } else if config.prayer.adhan_preset == AdhanPreset::Custom {
                    r matches Err(e) && e matches BolootError::InvalidConfig(x) && x@ == "adhan file not found: "@ + path_debug_text(p)
                } else {
                    r matches Err(e) && e matches BolootError::InvalidConfig(x) && x@ == "bundled adhan file not found: "@ + path_debug_text(p)
                },
            }
        }),
{
    let p = match adhan_candidate_path(config, data_dir) {
        Ok(p) => p,
        Err(e) => {
            return Err(e);
        },
    };
    if file_exists {
        Ok(p)
    } else if config.prayer.adhan_preset == AdhanPreset::Custom {
        let d = path_debug(p.as_str());
        Err(BolootError::InvalidConfig(concat2("adhan file not found: ", d.as_str())))
    } else {
        let d = path_debug(p.as_str());
        Err(BolootError::InvalidConfig(concat2("bundled adhan file not found: ", d.as_str())))
    }
}

/// What [`adhan_candidate_path`] gives: the path, or the error message.
pub open spec fn adhan_candidate_path_spec(config: BolootConfig, data_dir: Seq<char>) -> Result<Seq<char>, Seq<char>> {
    if config.prayer.adhan_preset == AdhanPreset::Custom {
        match config.prayer.adhan_custom_path {
            Some(p) => if p@.len() > 0 {
                Ok(p@)
            } else {
                Err("adhan_custom_path required for custom preset"@)
            },
            None => Err("adhan_custom_path required for custom preset"@),
        }
    } else {
        Ok(joined(joined(data_dir, "sounds"@), preset_file(config.prayer.adhan_preset)))
    }
}

/// What a new adhan playback for a user meets in the playback slot.
#[derive(Debug, Clone, Copy, PartialEq, Eq, Structural)]
pub enum PlaybackStart {
    /// The user's adhan is still playing: do not start another.
    AlreadyPlaying,
    /// Another user's adhan is still playing: stop it, then start.
    ReplaceOther,
    /// The slot is empty or its playback has ended: start.
    Start,
}

/// The decision before starting an adhan for `uid`, from the slot's user
/// (if any) and whether its player still runs.
pub fn playback_start(slot_uid: Option<u32>, running: bool, uid: u32) -> (r: PlaybackStart)
    ensures
        r == (match slot_uid {
            Some(s) => if !running {
                PlaybackStart::Start
            } else if s == uid {
                PlaybackStart::AlreadyPlaying
            } else {
                PlaybackStart::ReplaceOther
            },
            None => PlaybackStart::Start,
        }),
{
    match slot_uid {
        Some(s) => if !running {
            PlaybackStart::Start
        } else if s == uid {
            PlaybackStart::AlreadyPlaying
        } else {
            PlaybackStart::ReplaceOther
        },
        None => PlaybackStart::Start,
    }
}

/// Whether the adhan plays for `uid`, and whether the slot is to be cleared
/// (its playback, of this user, has ended).
pub fn playback_status(slot_uid: Option<u32>, running: bool, uid: u32) -> (r: (bool, bool))
    ensures
        r.0 == (slot_uid == Some(uid) && running),
        r.1 == (slot_uid == Some(uid) && !running),
{
    match slot_uid {
        Some(s) => if s == uid {
            (running, !running)
        } else {
            (false, false)
        },
        None => (false, false),
    }
}

/// Whether a stop request of `uid` stops the playback in the slot: only
/// the user's own.
pub fn playback_stops(slot_uid: Option<u32>, uid: u32) -> (r: bool)
    ensures
        r == (slot_uid == Some(uid)),
{
    match slot_uid {
        Some(s) => s == uid,
        None => false,
    }
}

/// `paplay` volume for a percentage (capped at 100): 65536 is full volume.
pub fn paplay_volume(volume_percent: u8) -> (r: u32)
    ensures
        r == (if volume_percent > 100 { 100 } else { volume_percent as int }) * 65536 / 100,
{
    let v: u32 = if volume_percent > 100 {
        100
    } else {
        volume_percent as u32
    };
    v * 65536 / 100
}

} // verus!
